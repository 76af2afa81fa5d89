//! The server-side session manager: two stores (credentials by username,
//! pending challenges by auth id) and the three protocol steps. Each step's
//! contract states the exact transition of the store's mathematical view, and
//! the store's invariant ties every pending challenge to a registered user.

use vstd::prelude::*;
use vstd::hash_map::StringHashMap;
use num_bigint::BigUint;
use crate::bigint::{big_nat, big_clone, big_eq, big_from_u64, big_random_below};
use crate::math::{
    distinct_powers, has_order_dividing, lemma_algebraic_identity, lemma_soundness, mod_exp,
    solve_spec, verify_spec,
};
use crate::zkp::{GroupView, ZKP};

verus! {

/// Length of a generated authentication identifier.
pub const AUTH_ID_LEN: usize = 12;

/// Length of a generated session identifier.
pub const SESSION_ID_LEN: usize = 12;

/// A registered public commitment `(y1, y2)` to a secret.
pub struct UserCredential {
    pub username: String,
    pub y1: BigUint,
    pub y2: BigUint,
}

/// One in-flight authentication attempt, keyed by its auth id.
pub struct PendingChallenge {
    pub username: String,
    pub r1: BigUint,
    pub r2: BigUint,
    pub c: BigUint,
}

/// A credential as mathematical values.
pub ghost struct CredentialView {
    pub username: Seq<char>,
    pub y1: nat,
    pub y2: nat,
}

/// A pending challenge as mathematical values.
pub ghost struct ChallengeView {
    pub username: Seq<char>,
    pub r1: nat,
    pub r2: nat,
    pub c: nat,
}

impl View for UserCredential {
    type V = CredentialView;

    open spec fn view(&self) -> CredentialView {
        CredentialView {
            username: self.username@,
            y1: big_nat(self.y1),
            y2: big_nat(self.y2),
        }
    }
}

impl View for PendingChallenge {
    type V = ChallengeView;

    open spec fn view(&self) -> ChallengeView {
        ChallengeView {
            username: self.username@,
            r1: big_nat(self.r1),
            r2: big_nat(self.r2),
            c: big_nat(self.c),
        }
    }
}

/// The whole store as mathematical values: the domain parameters and the two
/// maps.
pub ghost struct StoreView {
    pub group: GroupView,
    pub credentials: Map<Seq<char>, CredentialView>,
    pub pending: Map<Seq<char>, ChallengeView>,
}

/// The errors the protocol steps surface: an unknown username or auth id, a
/// response that fails the verification predicate, or an internal fault (the
/// random identifier source kept colliding with live keys — an unrecoverable
/// condition, never a silent overwrite).
#[derive(Clone, Copy, Debug, PartialEq, Eq, Structural)]
pub enum AuthError {
    NotFound,
    InvalidProof,
    Internal,
}

/// How often a colliding random identifier is redrawn before the attempt is
/// abandoned as an internal fault.
pub const MAX_ID_RETRIES: u32 = 64;

/// The store's invariant: the parameters are usable as moduli, and every
/// pending challenge names a registered user.
pub open spec fn store_inv(v: StoreView) -> bool {
    &&& v.group.p > 0
    &&& v.group.q > 0
    &&& forall|id: Seq<char>|
        #[trigger] v.pending.contains_key(id) ==> v.credentials.contains_key(v.pending[id].username)
}

/// What `register` does: insert or overwrite the credential, touch nothing
/// else; last write wins, and there is no failure.
pub open spec fn register_post(
    pre: StoreView,
    username: Seq<char>,
    y1: nat,
    y2: nat,
    post: StoreView,
) -> bool {
    &&& post.group == pre.group
    &&& post.credentials == pre.credentials.insert(
        username,
        CredentialView { username, y1, y2 },
    )
    &&& post.pending == pre.pending
}

/// What `create_authentication_challenge` does: for a registered user, store
/// one fresh pending challenge under a fresh auth id and return the challenge
/// value, which is below `q`; for an unknown user, fail with `NotFound` and
/// change nothing. The internal collision-exhaustion failure is possible only
/// when the pending store already holds a key of the generated length — so
/// where no stored id could collide (in particular, an empty store), a
/// registered user is owed the challenge.
pub open spec fn challenge_post(
    pre: StoreView,
    username: Seq<char>,
    r1: nat,
    r2: nat,
    post: StoreView,
    res: Result<(Seq<char>, nat), AuthError>,
) -> bool {
    match res {
        Ok((auth_id, c)) => {
            &&& pre.credentials.contains_key(username)
            &&& c < pre.group.q
            &&& auth_id.len() == AUTH_ID_LEN as nat
            &&& !pre.pending.contains_key(auth_id)
            &&& post.group == pre.group
            &&& post.credentials == pre.credentials
            &&& post.pending == pre.pending.insert(
                auth_id,
                ChallengeView { username, r1, r2, c },
            )
        },
        Err(AuthError::NotFound) => {
            &&& !pre.credentials.contains_key(username)
            &&& post == pre
        },
        Err(AuthError::InvalidProof) => false,
        Err(AuthError::Internal) => {
            &&& pre.credentials.contains_key(username)
            &&& exists|id: Seq<char>|
                #[trigger] pre.pending.contains_key(id) && id.len() == AUTH_ID_LEN as nat
            &&& post == pre
        },
    }
}

/// Whether the response `s` passes the verification predicate against the
/// stored challenge and the challenge owner's stored credential.
pub open spec fn proof_accepted(pre: StoreView, auth_id: Seq<char>, s: nat) -> bool
    recommends
        pre.pending.contains_key(auth_id),
{
    let ch = pre.pending[auth_id];
    let cred = pre.credentials[ch.username];
    verify_spec(
        ch.r1,
        ch.r2,
        cred.y1,
        cred.y2,
        pre.group.alpha,
        pre.group.beta,
        ch.c,
        s,
        pre.group.p,
    )
}

/// What `verify_authentication` does: an unknown auth id fails with
/// `NotFound` and changes nothing; a known one is consumed whatever the
/// outcome, and a session id is returned exactly when the proof passes.
pub open spec fn verify_post(
    pre: StoreView,
    auth_id: Seq<char>,
    s: nat,
    post: StoreView,
    res: Result<Seq<char>, AuthError>,
) -> bool {
    if pre.pending.contains_key(auth_id) {
        &&& post.group == pre.group
        &&& post.credentials == pre.credentials
        &&& post.pending == pre.pending.remove(auth_id)
        &&& match res {
            Ok(session_id) => proof_accepted(pre, auth_id, s) && session_id.len()
                == SESSION_ID_LEN as nat,
            Err(AuthError::InvalidProof) => !proof_accepted(pre, auth_id, s),
            Err(AuthError::NotFound) => false,
            Err(AuthError::Internal) => false,
        }
    } else {
        &&& post == pre
        &&& res == Err::<Seq<char>, AuthError>(AuthError::NotFound)
    }
}

/// The session manager: owns the two stores and the domain parameters. One
/// value, handed by reference into every handler; the callers provide the
/// mutual exclusion around it.
pub struct SessionStore {
    pub params: ZKP,
    credentials: StringHashMap<UserCredential>,
    pending: StringHashMap<PendingChallenge>,
}

impl View for SessionStore {
    type V = StoreView;

    closed spec fn view(&self) -> StoreView {
        StoreView {
            group: self.params@,
            credentials: Map::new(
                |k: Seq<char>| self.credentials@.contains_key(k),
                |k: Seq<char>| self.credentials@[k]@,
            ),
            pending: Map::new(
                |k: Seq<char>| self.pending@.contains_key(k),
                |k: Seq<char>| self.pending@[k]@,
            ),
        }
    }
}

impl SessionStore {
    /// The store's well-formedness.
    pub open spec fn wf(self) -> bool {
        store_inv(self@)
    }

    /// Validated construction: an empty store over the given parameters, or
    /// `None` when a modulus is zero (such parameters would make the
    /// arithmetic undefined).
    pub fn new(params: ZKP) -> (r: Option<SessionStore>)
        ensures
            match r {
                Some(store) => {
                    &&& big_nat(params.p) > 0
                    &&& big_nat(params.q) > 0
                    &&& store.wf()
                    &&& store@.group == params@
                    &&& store@.credentials == Map::<Seq<char>, CredentialView>::empty()
                    &&& store@.pending == Map::<Seq<char>, ChallengeView>::empty()
                },
                None => big_nat(params.p) == 0 || big_nat(params.q) == 0,
            },
    {
        let zero = big_from_u64(0);
        if big_eq(&params.p, &zero) || big_eq(&params.q, &zero) {
            return None;
        }
        let store = SessionStore {
            params,
            credentials: StringHashMap::new(),
            pending: StringHashMap::new(),
        };
        proof {
            assert(store@.credentials =~= Map::<Seq<char>, CredentialView>::empty());
            assert(store@.pending =~= Map::<Seq<char>, ChallengeView>::empty());
        }
        Some(store)
    }

    /// Register or overwrite the credential for `username`. Always succeeds;
    /// anyone may (re)register any name — a known limitation of the protocol
    /// as specified, not checked here.
    pub fn register(&mut self, username: String, y1: BigUint, y2: BigUint)
        requires
            old(self).wf(),
        ensures
            final(self).wf(),
            register_post(
                old(self)@,
                username@,
                big_nat(y1),
                big_nat(y2),
                final(self)@,
            ),
    {
        let cred = UserCredential { username: username.clone(), y1, y2 };
        let ghost cv = cred@;
        self.credentials.insert(username, cred);
        proof {
            assert(self@.credentials =~= old(self)@.credentials.insert(username@, cv));
            assert(self@.pending =~= old(self)@.pending);
        }
    }

    /// Issue a challenge for a registered user: draw `c` below `q`, draw a
    /// fresh auth id (regenerating on the improbable collision, never
    /// overwriting), store the pending challenge and return both.
    pub fn create_authentication_challenge(
        &mut self,
        username: &str,
        r1: BigUint,
        r2: BigUint,
    ) -> (res: Result<(String, BigUint), AuthError>)
        requires
            old(self).wf(),
        ensures
            final(self).wf(),
            challenge_post(
                old(self)@,
                username@,
                big_nat(r1),
                big_nat(r2),
                final(self)@,
                match res {
                    Ok((auth_id, c)) => Ok((auth_id@, big_nat(c))),
                    Err(e) => Err(e),
                },
            ),
    {
        if !self.credentials.contains_key(username) {
            return Err(AuthError::NotFound);
        }
        let c = big_random_below(&self.params.q);
        let mut auth_id = ZKP::generate_random_string(AUTH_ID_LEN);
        let mut attempts: u32 = 0;
        while attempts < MAX_ID_RETRIES && self.pending.contains_key(auth_id.as_str())
            invariant
                *self == *old(self),
                old(self).wf(),
                auth_id@.len() == AUTH_ID_LEN as nat,
            decreases MAX_ID_RETRIES - attempts,
        {
            auth_id = ZKP::generate_random_string(AUTH_ID_LEN);
            attempts = attempts + 1;
        }
        if self.pending.contains_key(auth_id.as_str()) {
            // the exhausted retries witness a stored key of the generated
            // length: the colliding id itself
            proof {
                assert(old(self)@.pending.contains_key(auth_id@) && auth_id@.len()
                    == AUTH_ID_LEN as nat);
            }
            return Err(AuthError::Internal);
        }
        let chal = PendingChallenge {
            username: username.to_owned(),
            r1,
            r2,
            c: big_clone(&c),
        };
        let ghost chv = chal@;
        self.pending.insert(auth_id.clone(), chal);
        proof {
            assert(self@.credentials =~= old(self)@.credentials);
            assert(self@.pending =~= old(self)@.pending.insert(auth_id@, chv));
        }
        Ok((auth_id, c))
    }

    /// Check a response against the stored challenge. The challenge is
    /// consumed whatever the outcome — a captured `(auth_id, s)` pair cannot
    /// be replayed, and a failed attempt forces a fresh challenge.
    pub fn verify_authentication(&mut self, auth_id: &str, s: &BigUint) -> (res: Result<
        String,
        AuthError,
    >)
        requires
            old(self).wf(),
        ensures
            final(self).wf(),
            verify_post(
                old(self)@,
                auth_id@,
                big_nat(*s),
                final(self)@,
                match res {
                    Ok(session_id) => Ok(session_id@),
                    Err(e) => Err(e),
                },
            ),
    {
        let (uname, r1, r2, c) = match self.pending.get(auth_id) {
            None => {
                return Err(AuthError::NotFound);
            },
            Some(ch) => (
                ch.username.clone(),
                big_clone(&ch.r1),
                big_clone(&ch.r2),
                big_clone(&ch.c),
            ),
        };
        self.pending.remove(auth_id);
        proof {
            assert(self@.credentials =~= old(self)@.credentials);
            assert(self@.pending =~= old(self)@.pending.remove(auth_id@));
        }
        let cred = match self.credentials.get(uname.as_str()) {
            Some(cr) => cr,
            None => {
                // unreachable: the store invariant ties every pending
                // challenge to a registered user
                proof {
                    let pre = old(self)@;
                    assert(pre.pending.contains_key(auth_id@));
                    assert(pre.credentials.contains_key(pre.pending[auth_id@].username));
                    assert(pre.pending[auth_id@].username == uname@);
                    assert(false);
                }
                return Err(AuthError::NotFound);
            },
        };
        let ok = self.params.verify(&r1, &r2, &cred.y1, &cred.y2, &c, s);
        if ok {
            Ok(ZKP::generate_random_string(SESSION_ID_LEN))
        } else {
            Err(AuthError::InvalidProof)
        }
    }
}

/// A challenge is single-use: once `verify_authentication` has consumed it —
/// with either outcome — a second call for the same auth id finds nothing,
/// returns `NotFound` and changes nothing.
pub proof fn lemma_challenge_single_use(
    pre: StoreView,
    auth_id: Seq<char>,
    s1: nat,
    mid: StoreView,
    res1: Result<Seq<char>, AuthError>,
    s2: nat,
    post: StoreView,
    res2: Result<Seq<char>, AuthError>,
)
    requires
        pre.pending.contains_key(auth_id),
        verify_post(pre, auth_id, s1, mid, res1),
        verify_post(mid, auth_id, s2, post, res2),
    ensures
        res2 == Err::<Seq<char>, AuthError>(AuthError::NotFound),
        post == mid,
{
}

/// The protocol round-trips through the store: when a pending challenge's
/// commitments and the owner's credential were honestly derived from a
/// witness `x` and a nonce `k` — and the generators have order dividing `q` —
/// the response `solve(k, c, x, q)` to the stored challenge `c` is accepted.
pub proof fn lemma_honest_login_accepted(store: StoreView, auth_id: Seq<char>, x: nat, k: nat)
    requires
        store.group.p > 0,
        store.group.q > 0,
        has_order_dividing(store.group.alpha, store.group.q, store.group.p),
        has_order_dividing(store.group.beta, store.group.q, store.group.p),
        store.pending.contains_key(auth_id),
        store.credentials.contains_key(store.pending[auth_id].username),
        ({
            let ch = store.pending[auth_id];
            let cred = store.credentials[ch.username];
            &&& cred.y1 == mod_exp(store.group.alpha, x, store.group.p)
            &&& cred.y2 == mod_exp(store.group.beta, x, store.group.p)
            &&& ch.r1 == mod_exp(store.group.alpha, k, store.group.p)
            &&& ch.r2 == mod_exp(store.group.beta, k, store.group.p)
        }),
    ensures
        proof_accepted(
            store,
            auth_id,
            solve_spec(k, store.pending[auth_id].c, x, store.group.q),
        ),
{
    lemma_algebraic_identity(
        store.group.alpha,
        store.group.beta,
        store.group.p,
        store.group.q,
        x,
        k,
        store.pending[auth_id].c,
    );
}

/// The store rejects a forged login: under the same honestly-derived
/// credential and commitments, a response computed from a wrong witness
/// `x_fake` is not accepted — provided `alpha` generates `q` distinct powers
/// and the stored challenge does not collide (`c*x` and `c*x_fake` differ
/// modulo `q`; for a prime `q` a random challenge hits the excluded case
/// with negligible probability).
pub proof fn lemma_wrong_witness_rejected(
    store: StoreView,
    auth_id: Seq<char>,
    x: nat,
    k: nat,
    x_fake: nat,
)
    requires
        store.group.p > 0,
        store.group.q > 0,
        has_order_dividing(store.group.alpha, store.group.q, store.group.p),
        distinct_powers(store.group.alpha, store.group.q, store.group.p),
        store.pending.contains_key(auth_id),
        store.credentials.contains_key(store.pending[auth_id].username),
        ({
            let ch = store.pending[auth_id];
            let cred = store.credentials[ch.username];
            &&& cred.y1 == mod_exp(store.group.alpha, x, store.group.p)
            &&& cred.y2 == mod_exp(store.group.beta, x, store.group.p)
            &&& ch.r1 == mod_exp(store.group.alpha, k, store.group.p)
            &&& ch.r2 == mod_exp(store.group.beta, k, store.group.p)
        }),
        (store.pending[auth_id].c * x) % store.group.q != (store.pending[auth_id].c * x_fake)
            % store.group.q,
    ensures
        !proof_accepted(
            store,
            auth_id,
            solve_spec(k, store.pending[auth_id].c, x_fake, store.group.q),
        ),
{
    lemma_soundness(
        store.group.alpha,
        store.group.beta,
        store.group.p,
        store.group.q,
        x,
        k,
        store.pending[auth_id].c,
        x_fake,
    );
}

/// Registrations of distinct usernames do not interfere: after both, each
/// credential is retrievable with the values it was registered with — no
/// lost update.
pub proof fn lemma_register_no_lost_update(
    s0: StoreView,
    u1: Seq<char>,
    y11: nat,
    y12: nat,
    s1: StoreView,
    u2: Seq<char>,
    y21: nat,
    y22: nat,
    s2: StoreView,
)
    requires
        u1 != u2,
        register_post(s0, u1, y11, y12, s1),
        register_post(s1, u2, y21, y22, s2),
    ensures
        s2.credentials.contains_key(u1),
        s2.credentials.contains_key(u2),
        s2.credentials[u1] == (CredentialView { username: u1, y1: y11, y2: y12 }),
        s2.credentials[u2] == (CredentialView { username: u2, y1: y21, y2: y22 }),
{
}

} // verus!

