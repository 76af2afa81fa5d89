use num_bigint::BigUint;
use zkp_chaum_pedersen::session::{AuthError, SessionStore};
use zkp_chaum_pedersen::zkp::ZKP;

fn toy_params() -> ZKP {
    ZKP {
        p: BigUint::from(23u32),
        q: BigUint::from(11u32),
        alpha: BigUint::from(4u32),
        beta: BigUint::from(9u32),
    }
}

fn toy_store() -> SessionStore {
    SessionStore::new(toy_params()).unwrap()
}

#[test]
fn happy_path_returns_session_id() {
    let zkp = toy_params();
    let mut store = toy_store();
    let x = BigUint::from(6u32);
    let k = BigUint::from(7u32);
    let y1 = ZKP::exponentiate(&zkp.alpha, &x, &zkp.p);
    let y2 = ZKP::exponentiate(&zkp.beta, &x, &zkp.p);
    store.register("alice".to_string(), y1, y2);

    let r1 = ZKP::exponentiate(&zkp.alpha, &k, &zkp.p);
    let r2 = ZKP::exponentiate(&zkp.beta, &k, &zkp.p);
    let (auth_id, c) = store
        .create_authentication_challenge("alice", r1, r2)
        .unwrap();
    assert_eq!(auth_id.chars().count(), 12);
    assert!(c < BigUint::from(11u32));

    let s = zkp.solve(&k, &c, &x);
    let session_id = store.verify_authentication(&auth_id, &s).unwrap();
    assert!(!session_id.is_empty());
    assert_eq!(session_id.chars().count(), 12);
}

#[test]
fn unknown_user_is_not_found() {
    let mut store = toy_store();
    let r1 = BigUint::from(8u32);
    let r2 = BigUint::from(4u32);
    let res = store.create_authentication_challenge("bob", r1, r2);
    assert!(matches!(res, Err(AuthError::NotFound)));
}

#[test]
fn unknown_or_expired_challenge_is_not_found() {
    let zkp = toy_params();
    let mut store = toy_store();
    let s = BigUint::from(5u32);
    // never-issued auth id
    let res = store.verify_authentication("nonexistent-id", &s);
    assert!(matches!(res, Err(AuthError::NotFound)));

    // a consumed auth id is gone, whatever the first outcome was
    let x = BigUint::from(6u32);
    let k = BigUint::from(7u32);
    let y1 = ZKP::exponentiate(&zkp.alpha, &x, &zkp.p);
    let y2 = ZKP::exponentiate(&zkp.beta, &x, &zkp.p);
    store.register("alice".to_string(), y1, y2);
    let r1 = ZKP::exponentiate(&zkp.alpha, &k, &zkp.p);
    let r2 = ZKP::exponentiate(&zkp.beta, &k, &zkp.p);
    let (auth_id, c) = store
        .create_authentication_challenge("alice", r1, r2)
        .unwrap();
    let s = zkp.solve(&k, &c, &x);
    assert!(store.verify_authentication(&auth_id, &s).is_ok());
    let res = store.verify_authentication(&auth_id, &s);
    assert!(matches!(res, Err(AuthError::NotFound)));
}

#[test]
fn bad_proof_is_rejected_and_consumes_the_challenge() {
    let zkp = toy_params();
    let mut store = toy_store();
    let x = BigUint::from(6u32);
    let k = BigUint::from(7u32);
    let y1 = ZKP::exponentiate(&zkp.alpha, &x, &zkp.p);
    let y2 = ZKP::exponentiate(&zkp.beta, &x, &zkp.p);
    store.register("alice".to_string(), y1, y2);
    let r1 = ZKP::exponentiate(&zkp.alpha, &k, &zkp.p);
    let r2 = ZKP::exponentiate(&zkp.beta, &k, &zkp.p);
    let (auth_id, c) = store
        .create_authentication_challenge("alice", r1, r2)
        .unwrap();
    let s = zkp.solve(&k, &c, &x);
    let s_wrong = (&s + BigUint::from(1u32)) % BigUint::from(11u32);
    let res = store.verify_authentication(&auth_id, &s_wrong);
    assert!(matches!(res, Err(AuthError::InvalidProof)));
    // the auth id is unusable afterwards, even with the right response
    let res = store.verify_authentication(&auth_id, &s);
    assert!(matches!(res, Err(AuthError::NotFound)));
}

#[test]
fn registrations_do_not_interfere() {
    let zkp = toy_params();
    let mut store = toy_store();
    let names = ["alice", "bob", "carol", "dave"];
    for (i, name) in names.iter().enumerate() {
        let x = BigUint::from(2u32 + i as u32);
        let y1 = ZKP::exponentiate(&zkp.alpha, &x, &zkp.p);
        let y2 = ZKP::exponentiate(&zkp.beta, &x, &zkp.p);
        store.register(name.to_string(), y1, y2);
    }
    // every user can still run the protocol, and the issued auth ids are
    // pairwise distinct
    let mut auth_ids: Vec<String> = Vec::new();
    for (i, name) in names.iter().enumerate() {
        let x = BigUint::from(2u32 + i as u32);
        let k = BigUint::from(7u32);
        let r1 = ZKP::exponentiate(&zkp.alpha, &k, &zkp.p);
        let r2 = ZKP::exponentiate(&zkp.beta, &k, &zkp.p);
        let (auth_id, c) = store
            .create_authentication_challenge(name, r1, r2)
            .unwrap();
        let s = zkp.solve(&k, &c, &x);
        assert!(store.verify_authentication(&auth_id, &s).is_ok());
        auth_ids.push(auth_id);
    }
    for i in 0..auth_ids.len() {
        for j in 0..i {
            assert_ne!(auth_ids[i], auth_ids[j]);
        }
    }
}

#[test]
fn reregistration_overwrites_the_credential() {
    let zkp = toy_params();
    let mut store = toy_store();
    let x_old = BigUint::from(6u32);
    let y1 = ZKP::exponentiate(&zkp.alpha, &x_old, &zkp.p);
    let y2 = ZKP::exponentiate(&zkp.beta, &x_old, &zkp.p);
    store.register("alice".to_string(), y1, y2);
    // last write wins: after re-registering, only the new secret verifies
    let x_new = BigUint::from(3u32);
    let y1 = ZKP::exponentiate(&zkp.alpha, &x_new, &zkp.p);
    let y2 = ZKP::exponentiate(&zkp.beta, &x_new, &zkp.p);
    store.register("alice".to_string(), y1, y2);

    let k = BigUint::from(9u32);
    let r1 = ZKP::exponentiate(&zkp.alpha, &k, &zkp.p);
    let r2 = ZKP::exponentiate(&zkp.beta, &k, &zkp.p);
    let (auth_id, c) = store
        .create_authentication_challenge("alice", r1.clone(), r2.clone())
        .unwrap();
    let s_old = zkp.solve(&k, &c, &x_old);
    let res = store.verify_authentication(&auth_id, &s_old);
    assert!(matches!(res, Err(AuthError::InvalidProof)));

    let (auth_id, c) = store
        .create_authentication_challenge("alice", r1, r2)
        .unwrap();
    let s_new = zkp.solve(&k, &c, &x_new);
    assert!(store.verify_authentication(&auth_id, &s_new).is_ok());
}

#[test]
fn degenerate_parameters_are_refused() {
    let params = ZKP {
        p: BigUint::from(0u32),
        q: BigUint::from(11u32),
        alpha: BigUint::from(4u32),
        beta: BigUint::from(9u32),
    };
    assert!(SessionStore::new(params).is_none());
    let params = ZKP {
        p: BigUint::from(23u32),
        q: BigUint::from(0u32),
        alpha: BigUint::from(4u32),
        beta: BigUint::from(9u32),
    };
    assert!(SessionStore::new(params).is_none());
    // the shipped constants are accepted
    assert!(SessionStore::new(ZKP::get_constants()).is_some());
}
