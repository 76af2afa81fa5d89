use num_bigint::BigUint;
use zkp_chaum_pedersen::zkp::ZKP;

fn toy_params() -> ZKP {
    ZKP {
        p: BigUint::from(23u32),
        q: BigUint::from(11u32),
        alpha: BigUint::from(4u32),
        beta: BigUint::from(9u32),
    }
}

#[test]
fn test_toy_example() {
    let alpha = BigUint::from(4u32);
    let beta = BigUint::from(9u32);
    let p = BigUint::from(23u32);
    let q = BigUint::from(11u32);
    let zkp = ZKP {
        p: p.clone(),
        q,
        alpha: alpha.clone(),
        beta: beta.clone(),
    };

    let x = BigUint::from(6u32);
    let k = BigUint::from(7u32);

    let c = BigUint::from(4u32);

    let y1 = ZKP::exponentiate(&alpha, &x, &p);
    let y2 = ZKP::exponentiate(&beta, &x, &p);
    assert_eq!(y1, BigUint::from(2u32));
    assert_eq!(y2, BigUint::from(3u32));

    let r1 = ZKP::exponentiate(&alpha, &k, &p);
    let r2 = ZKP::exponentiate(&beta, &k, &p);
    assert_eq!(r1, BigUint::from(8u32));
    assert_eq!(r2, BigUint::from(4u32));

    let s = zkp.solve(&k, &c, &x);
    assert_eq!(s, BigUint::from(5u32));

    let result = zkp.verify(&r1, &r2, &y1, &y2, &c, &s);
    assert!(result);

    // fake secret
    let x_fake = BigUint::from(7u32);
    let s_fake = zkp.solve(&k, &c, &x_fake);

    let result = zkp.verify(&r1, &r2, &y1, &y2, &c, &s_fake);
    assert!(!result);
}

#[test]
fn test_toy_example_with_random_numbers() {
    let alpha = BigUint::from(4u32);
    let beta = BigUint::from(9u32);
    let p = BigUint::from(23u32);
    let q = BigUint::from(11u32);
    let zkp = ZKP {
        p: p.clone(),
        q: q.clone(),
        alpha: alpha.clone(),
        beta: beta.clone(),
    };

    let x = BigUint::from(6u32);
    let k = ZKP::generate_random_below(&q);

    let c = ZKP::generate_random_below(&q);

    let y1 = ZKP::exponentiate(&alpha, &x, &p);
    let y2 = ZKP::exponentiate(&beta, &x, &p);
    assert_eq!(y1, BigUint::from(2u32));
    assert_eq!(y2, BigUint::from(3u32));

    let r1 = ZKP::exponentiate(&alpha, &k, &p);
    let r2 = ZKP::exponentiate(&beta, &k, &p);

    let s = zkp.solve(&k, &c, &x);

    let result = zkp.verify(&r1, &r2, &y1, &y2, &c, &s);
    assert!(result);
}

#[test]
fn solve_is_canonical_on_boundaries() {
    let zkp = toy_params();
    // k == c*x: the response is exactly zero
    let s = zkp.solve(&BigUint::from(12u32), &BigUint::from(3u32), &BigUint::from(4u32));
    assert_eq!(s, BigUint::from(0u32));
    // k == 0, c*x > 0: 0 - 12 == -12 == 10 (mod 11)
    let s = zkp.solve(&BigUint::from(0u32), &BigUint::from(3u32), &BigUint::from(4u32));
    assert_eq!(s, BigUint::from(10u32));
    assert!(s < BigUint::from(11u32));
    // k < c*x with c*x - k a multiple of q: 1 - 12 == -11 == 0 (mod 11),
    // still inside [0, q)
    let s = zkp.solve(&BigUint::from(1u32), &BigUint::from(3u32), &BigUint::from(4u32));
    assert_eq!(s, BigUint::from(0u32));
    // k > c*x with the difference above q: 25 - 12 == 13 == 2 (mod 11)
    let s = zkp.solve(&BigUint::from(25u32), &BigUint::from(3u32), &BigUint::from(4u32));
    assert_eq!(s, BigUint::from(2u32));
}

#[test]
fn exponentiate_reduces_modulo() {
    // 4^6 == 4096 == 2 (mod 23): the result is the reduced value, not the
    // base or the plain power
    let r = ZKP::exponentiate(
        &BigUint::from(4u32),
        &BigUint::from(6u32),
        &BigUint::from(23u32),
    );
    assert_eq!(r, BigUint::from(2u32));
    // exponent zero gives one
    let r = ZKP::exponentiate(
        &BigUint::from(17u32),
        &BigUint::from(0u32),
        &BigUint::from(23u32),
    );
    assert_eq!(r, BigUint::from(1u32));
}

#[test]
fn verify_needs_both_conditions() {
    let zkp = toy_params();
    let x = BigUint::from(6u32);
    let k = BigUint::from(7u32);
    let c = BigUint::from(4u32);
    let y1 = ZKP::exponentiate(&zkp.alpha, &x, &zkp.p);
    let y2 = ZKP::exponentiate(&zkp.beta, &x, &zkp.p);
    let r1 = ZKP::exponentiate(&zkp.alpha, &k, &zkp.p);
    let r2 = ZKP::exponentiate(&zkp.beta, &k, &zkp.p);
    let s = zkp.solve(&k, &c, &x);
    // a single corrupted commitment fails the whole check
    let bad_r1 = BigUint::from(9u32);
    assert!(!zkp.verify(&bad_r1, &r2, &y1, &y2, &c, &s));
    let bad_r2 = BigUint::from(9u32);
    assert!(!zkp.verify(&r1, &bad_r2, &y1, &y2, &c, &s));
    assert!(zkp.verify(&r1, &r2, &y1, &y2, &c, &s));
}

#[test]
fn random_below_stays_below_bound() {
    let bound = BigUint::from(11u32);
    for _ in 0..50 {
        let r = ZKP::generate_random_below(&bound);
        assert!(r < bound);
    }
}

#[test]
fn random_string_has_requested_length() {
    let s = ZKP::generate_random_string(12);
    assert_eq!(s.chars().count(), 12);
    let s = ZKP::generate_random_string(0);
    assert!(s.is_empty());
}

#[test]
fn fixed_constants_support_the_identity() {
    // the full-size fixed group: an honest proof round-trips
    let zkp = ZKP::get_constants();
    let x = BigUint::from_bytes_be(b"a full-size secret passphrase");
    let k = ZKP::generate_random_below(&zkp.q);
    let c = ZKP::generate_random_below(&zkp.q);
    let y1 = ZKP::exponentiate(&zkp.alpha, &x, &zkp.p);
    let y2 = ZKP::exponentiate(&zkp.beta, &x, &zkp.p);
    let r1 = ZKP::exponentiate(&zkp.alpha, &k, &zkp.p);
    let r2 = ZKP::exponentiate(&zkp.beta, &k, &zkp.p);
    let s = zkp.solve(&k, &c, &x);
    assert!(zkp.verify(&r1, &r2, &y1, &y2, &c, &s));
    // and a wrong witness is rejected
    let x_fake = BigUint::from_bytes_be(b"another passphrase entirely");
    let s_fake = zkp.solve(&k, &c, &x_fake);
    assert!(!zkp.verify(&r1, &r2, &y1, &y2, &c, &s_fake));
    // the constants are distinct non-trivial values
    assert!(zkp.p != zkp.q);
    assert!(zkp.alpha != zkp.beta);
    assert!(zkp.q > BigUint::from(0u32));
}
