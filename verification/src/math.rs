//! Mathematical model of the Chaum-Pedersen protocol: what `exponentiate`,
//! `solve` and `verify` compute, stated over unbounded naturals, and the
//! algebraic laws that make the protocol complete (an honest response is
//! accepted) and sound (a response from a wrong witness is rejected).

use vstd::prelude::*;
use vstd::arithmetic::power::{
    pow, lemma_pow_adds, lemma_pow_multiplies, lemma_pow_mod_noop, lemma1_pow,
};
use vstd::arithmetic::div_mod::{
    lemma_mod_bound, lemma_small_mod, lemma_mul_mod_noop_general, lemma_add_mod_noop_right,
    lemma_fundamental_div_mod, lemma_mod_multiples_vanish,
};

verus! {

/// `b^e mod m` over mathematical naturals.
pub open spec fn mod_exp(b: nat, e: nat, m: nat) -> nat
    recommends
        m > 0,
{
    (pow(b as int, e) % (m as int)) as nat
}

/// The canonical representative in `[0, q)` of `k - c*x` modulo `q`,
/// computed with signed arithmetic.
pub open spec fn solve_spec(k: nat, c: nat, x: nat, q: nat) -> nat
    recommends
        q > 0,
{
    ((k - c * x) % (q as int)) as nat
}

/// One side of the Chaum-Pedersen check: `r == g^s * y^c (mod p)`.
pub open spec fn verify_cond(r: nat, y: nat, g: nat, c: nat, s: nat, p: nat) -> bool
    recommends
        p > 0,
{
    r as int == (pow(g as int, s) * pow(y as int, c)) % (p as int)
}

/// The whole check: both congruences must hold.
pub open spec fn verify_spec(
    r1: nat,
    r2: nat,
    y1: nat,
    y2: nat,
    alpha: nat,
    beta: nat,
    c: nat,
    s: nat,
    p: nat,
) -> bool
    recommends
        p > 0,
{
    verify_cond(r1, y1, alpha, c, s, p) && verify_cond(r2, y2, beta, c, s, p)
}

/// `g` generates a subgroup of order dividing `q` modulo `p`.
pub open spec fn has_order_dividing(g: nat, q: nat, p: nat) -> bool
    recommends
        p > 0,
{
    pow(g as int, q) % (p as int) == 1
}

/// The powers of `g` with distinct exponents below `q` are distinct modulo
/// `p`: together with `has_order_dividing` this says that `g` generates a
/// cyclic subgroup of exactly `q` elements.
pub open spec fn distinct_powers(g: nat, q: nat, p: nat) -> bool
    recommends
        p > 0,
{
    forall|a: nat, b: nat|
        #![trigger mod_exp(g, a, p), mod_exp(g, b, p)]
        a < q && b < q && a != b ==> mod_exp(g, a, p) != mod_exp(g, b, p)
}

/// The result of `solve` is the canonical representative: always in `[0, q)`,
/// whether or not `k` exceeds `c*x`.
pub proof fn lemma_solve_canonical(k: nat, c: nat, x: nat, q: nat)
    requires
        q > 0,
    ensures
        solve_spec(k, c, x, q) < q,
{
    lemma_mod_bound(k - c * x, q as int);
}

/// Exponents of `g` can be reduced modulo the group order `q`.
pub proof fn lemma_pow_mod_order(g: nat, e: nat, q: nat, p: nat)
    requires
        q > 0,
        p > 0,
        has_order_dividing(g, q, p),
    ensures
        mod_exp(g, e, p) == mod_exp(g, (e % q), p),
{
    let gi = g as int;
    let pi = p as int;
    let d: nat = e / q;
    let r: nat = e % q;
    lemma_fundamental_div_mod(e as int, q as int);
    assert(e == q * d + r);
    lemma_pow_adds(gi, (q * d) as nat, r);
    assert(pow(gi, e) == pow(gi, (q * d) as nat) * pow(gi, r));
    lemma_pow_multiplies(gi, q, d);
    assert(pow(gi, (q * d) as nat) == pow(pow(gi, q), d));
    lemma_pow_mod_noop(pow(gi, q), d, pi);
    lemma1_pow(d);
    assert(pow(pow(gi, q), d) % pi == pow(1, d) % pi);
    lemma_mod_bound(pow(gi, q), pi);
    assert(pi > 1);
    lemma_small_mod(1, p);
    assert(pow(pow(gi, q), d) % pi == 1);
    lemma_mul_mod_noop_general(pow(pow(gi, q), d), pow(gi, r), pi);
    assert(pow(gi, e) % pi == (1 * pow(gi, r)) % pi);
}

/// Congruent exponents give the same power of `g` modulo `p`.
pub proof fn lemma_pow_mod_congruent(g: nat, e1: nat, e2: nat, q: nat, p: nat)
    requires
        q > 0,
        p > 0,
        has_order_dividing(g, q, p),
        e1 % q == e2 % q,
    ensures
        mod_exp(g, e1, p) == mod_exp(g, e2, p),
{
    lemma_pow_mod_order(g, e1, q, p);
    lemma_pow_mod_order(g, e2, q, p);
}

/// `g^s * (g^x mod p)^c` reduces, modulo `p`, to the power of `g` with
/// exponent `(s + x*c) mod q`.
pub proof fn lemma_cond_normal_form(g: nat, p: nat, q: nat, x: nat, c: nat, s: nat)
    requires
        q > 0,
        p > 0,
        has_order_dividing(g, q, p),
    ensures
        (pow(g as int, s) * pow(mod_exp(g, x, p) as int, c)) % (p as int) == mod_exp(
            g,
            ((s + x * c) % q) as nat,
            p,
        ) as int,
{
    let gi = g as int;
    let pi = p as int;
    let y = mod_exp(g, x, p);
    lemma_pow_mod_noop(pow(gi, x), c, pi);
    lemma_pow_multiplies(gi, x, c);
    assert(pow(y as int, c) % pi == pow(gi, (x * c) as nat) % pi);
    lemma_mul_mod_noop_general(pow(gi, s), pow(y as int, c), pi);
    lemma_mul_mod_noop_general(pow(gi, s), pow(gi, (x * c) as nat), pi);
    assert((pow(gi, s) * pow(y as int, c)) % pi == (pow(gi, s) * pow(gi, (x * c) as nat)) % pi);
    lemma_pow_adds(gi, s, (x * c) as nat);
    assert((pow(gi, s) * pow(y as int, c)) % pi == pow(gi, (s + x * c) as nat) % pi);
    lemma_pow_mod_order(g, (s + x * c) as nat, q, p);
}

/// Adding `w` to the response `solve(k, c, x, q)` is, modulo `q`, the same as
/// adding it to `k - c*x` itself.
pub proof fn lemma_solve_shift(k: nat, c: nat, x: nat, w: nat, q: nat)
    requires
        q > 0,
    ensures
        ((solve_spec(k, c, x, q) + w) % q) as int == (k - c * x + w) % (q as int),
{
    lemma_add_mod_noop_right(w as int, k - c * x, q as int);
}

/// Completeness of one congruence: an honest prover's response makes
/// `g^s * y^c` land exactly on the commitment `g^k mod p`.
pub proof fn lemma_response_accepted(g: nat, p: nat, q: nat, x: nat, k: nat, c: nat)
    requires
        q > 0,
        p > 0,
        has_order_dividing(g, q, p),
    ensures
        verify_cond(
            mod_exp(g, k, p),
            mod_exp(g, x, p),
            g,
            c,
            solve_spec(k, c, x, q),
            p,
        ),
{
    let s = solve_spec(k, c, x, q);
    assert(x * c == c * x) by (nonlinear_arith);
    lemma_cond_normal_form(g, p, q, x, c, s);
    lemma_solve_shift(k, c, x, x * c, q);
    assert((k - c * x + x * c) % (q as int) == (k as int) % (q as int));
    assert(((s + x * c) % q) as int == (k as int) % (q as int));
    lemma_pow_mod_order(g, (s + x * c) as nat, q, p);
    lemma_pow_mod_congruent(g, (s + x * c) as nat, k, q, p);
}

/// The algebraic identity behind the protocol: for any domain parameters in
/// which `alpha` and `beta` have order dividing `q`, any witness `x`, nonce
/// `k` and challenge `c`, the honest commitments and response pass `verify`.
pub proof fn lemma_algebraic_identity(
    alpha: nat,
    beta: nat,
    p: nat,
    q: nat,
    x: nat,
    k: nat,
    c: nat,
)
    requires
        q > 0,
        p > 0,
        has_order_dividing(alpha, q, p),
        has_order_dividing(beta, q, p),
    ensures
        verify_spec(
            mod_exp(alpha, k, p),
            mod_exp(beta, k, p),
            mod_exp(alpha, x, p),
            mod_exp(beta, x, p),
            alpha,
            beta,
            c,
            solve_spec(k, c, x, q),
            p,
        ),
{
    lemma_response_accepted(alpha, p, q, x, k, c);
    lemma_response_accepted(beta, p, q, x, k, c);
}

/// If two integers have the same remainder modulo `q`, then shifting both by
/// the same amount keeps `c*x` and `c*x_fake` congruent; contrapositively,
/// distinct products give distinct shifted remainders.
proof fn lemma_same_mod_same_product(u: int, v: int, cx: int, cxf: int, q: int)
    requires
        q > 0,
        u - v == cx - cxf,
        u % q == v % q,
    ensures
        cx % q == cxf % q,
{
    lemma_fundamental_div_mod(u, q);
    lemma_fundamental_div_mod(v, q);
    assert(cx - cxf == q * (u / q) - q * (v / q));
    assert(q * (u / q) - q * (v / q) == q * (u / q - v / q)) by (nonlinear_arith);
    lemma_mod_multiples_vanish(u / q - v / q, cxf, q);
    assert((q * (u / q - v / q) + cxf) % q == cxf % q);
    assert(cx == q * (u / q - v / q) + cxf);
}

/// Soundness of the protocol on the inputs where no collision occurs: a
/// response computed from a wrong witness `x_fake` is rejected, provided the
/// challenge does not collide (`c*x` and `c*x_fake` differ modulo `q` — for a
/// prime `q`, a random `c` hits the excluded case with negligible
/// probability).
pub proof fn lemma_soundness(
    alpha: nat,
    beta: nat,
    p: nat,
    q: nat,
    x: nat,
    k: nat,
    c: nat,
    x_fake: nat,
)
    requires
        q > 0,
        p > 0,
        has_order_dividing(alpha, q, p),
        distinct_powers(alpha, q, p),
        (c * x) % q != (c * x_fake) % q,
    ensures
        !verify_spec(
            mod_exp(alpha, k, p),
            mod_exp(beta, k, p),
            mod_exp(alpha, x, p),
            mod_exp(beta, x, p),
            alpha,
            beta,
            c,
            solve_spec(k, c, x_fake, q),
            p,
        ),
{
    let qi = q as int;
    let s_f = solve_spec(k, c, x_fake, q);
    assert(x * c == c * x) by (nonlinear_arith);
    lemma_cond_normal_form(alpha, p, q, x, c, s_f);
    lemma_solve_shift(k, c, x_fake, x * c, q);
    let e1 = (s_f + x * c) % q;
    let e2 = k % q;
    assert(e1 as int == (k - c * x_fake + x * c) % qi);
    if e1 == e2 {
        lemma_same_mod_same_product(
            k - c * x_fake + x * c,
            k as int,
            (c * x) as int,
            (c * x_fake) as int,
            qi,
        );
        assert(false);
    }
    lemma_mod_bound(k - c * x_fake + x * c, qi);
    lemma_mod_bound(k as int, qi);
    assert(mod_exp(alpha, e1, p) != mod_exp(alpha, e2, p));
    lemma_pow_mod_order(alpha, k, q, p);
    assert(!verify_cond(
        mod_exp(alpha, k, p),
        mod_exp(alpha, x, p),
        alpha,
        c,
        s_f,
        p,
    ));
}

} // verus!
