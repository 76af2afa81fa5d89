//! The executable arithmetic engine of the protocol: the domain parameters
//! `(p, q, alpha, beta)` and the three operations `exponentiate`, `solve` and
//! `verify`, each proved against its mathematical model in `math`.

use vstd::prelude::*;
use num_bigint::BigUint;
use vstd::arithmetic::power::pow;
use vstd::arithmetic::div_mod::{
    lemma_fundamental_div_mod, lemma_fundamental_div_mod_converse_mod, lemma_mod_bound,
    lemma_mul_mod_noop_general,
};
use crate::bigint::{
    be_bytes_nat, lemma_be_bytes_nat_positive, big_nat, big_eq, big_from_bytes_be, big_ge, big_from_u64, big_mod, big_modpow,
    big_mul, big_random_below, big_sub, random_alphanumeric_string,
};
use crate::math::{mod_exp, solve_spec, verify_spec};

verus! {

/// The fixed 1024-bit prime modulus `p` (RFC 5114, group 2.1), big-endian.
pub const GROUP_P_BYTES: [u8; 128] = [
    0xb1, 0x0b, 0x8f, 0x96, 0xa0, 0x80, 0xe0, 0x1d, 0xde, 0x92, 0xde, 0x5e, 0xae, 0x5d, 0x54,
    0xec, 0x52, 0xc9, 0x9f, 0xbc, 0xfb, 0x06, 0xa3, 0xc6, 0x9a, 0x6a, 0x9d, 0xca, 0x52, 0xd2,
    0x3b, 0x61, 0x60, 0x73, 0xe2, 0x86, 0x75, 0xa2, 0x3d, 0x18, 0x98, 0x38, 0xef, 0x1e, 0x2e,
    0xe6, 0x52, 0xc0, 0x13, 0xec, 0xb4, 0xae, 0xa9, 0x06, 0x11, 0x23, 0x24, 0x97, 0x5c, 0x3c,
    0xd4, 0x9b, 0x83, 0xbf, 0xac, 0xcb, 0xdd, 0x7d, 0x90, 0xc4, 0xbd, 0x70, 0x98, 0x48, 0x8e,
    0x9c, 0x21, 0x9a, 0x73, 0x72, 0x4e, 0xff, 0xd6, 0xfa, 0xe5, 0x64, 0x47, 0x38, 0xfa, 0xa3,
    0x1a, 0x4f, 0xf5, 0x5b, 0xcc, 0xc0, 0xa1, 0x51, 0xaf, 0x5f, 0x0d, 0xc8, 0xb4, 0xbd, 0x45,
    0xbf, 0x37, 0xdf, 0x36, 0x5c, 0x1a, 0x65, 0xe6, 0x8c, 0xfd, 0xa7, 0x6d, 0x4d, 0xa7, 0x08,
    0xdf, 0x1f, 0xb2, 0xbc, 0x2e, 0x4a, 0x43, 0x71,
];

/// The fixed 160-bit prime order `q` of the subgroup, big-endian.
pub const GROUP_Q_BYTES: [u8; 20] = [
    0xf5, 0x18, 0xaa, 0x87, 0x81, 0xa8, 0xdf, 0x27, 0x8a, 0xba, 0x4e, 0x7d, 0x64, 0xb7, 0xcb,
    0x9d, 0x49, 0x46, 0x23, 0x53,
];

/// The fixed generator `alpha` of the order-`q` subgroup, big-endian.
pub const GROUP_ALPHA_BYTES: [u8; 128] = [
    0xa4, 0xd1, 0xcb, 0xd5, 0xc3, 0xfd, 0x34, 0x12, 0x67, 0x65, 0xa4, 0x42, 0xef, 0xb9, 0x99,
    0x05, 0xf8, 0x10, 0x4d, 0xd2, 0x58, 0xac, 0x50, 0x7f, 0xd6, 0x40, 0x6c, 0xff, 0x14, 0x26,
    0x6d, 0x31, 0x26, 0x6f, 0xea, 0x1e, 0x5c, 0x41, 0x56, 0x4b, 0x77, 0x7e, 0x69, 0x0f, 0x55,
    0x04, 0xf2, 0x13, 0x16, 0x02, 0x17, 0xb4, 0xb0, 0x1b, 0x88, 0x6a, 0x5e, 0x91, 0x54, 0x7f,
    0x9e, 0x27, 0x49, 0xf4, 0xd7, 0xfb, 0xd7, 0xd3, 0xb9, 0xa9, 0x2e, 0xe1, 0x90, 0x9d, 0x0d,
    0x22, 0x63, 0xf8, 0x0a, 0x76, 0xa6, 0xa2, 0x4c, 0x08, 0x7a, 0x09, 0x1f, 0x53, 0x1d, 0xbf,
    0x0a, 0x01, 0x69, 0xb6, 0xa2, 0x8a, 0xd6, 0x62, 0xa4, 0xd1, 0x8e, 0x73, 0xaf, 0xa3, 0x2d,
    0x77, 0x9d, 0x59, 0x18, 0xd0, 0x8b, 0xc8, 0x85, 0x8f, 0x4d, 0xce, 0xf9, 0x7c, 0x2a, 0x24,
    0x85, 0x5e, 0x6e, 0xeb, 0x22, 0xb3, 0xb2, 0xe5,
];

/// The fixed second generator `beta`, a power of `alpha` with the same order
/// `q`, big-endian. Soundness additionally needs the discrete log of `beta`
/// to be unknown to the parties; fixed published parameters cannot promise
/// that, so deployments should supply their own.
pub const GROUP_BETA_BYTES: [u8; 128] = [
    0x9b, 0xdc, 0x70, 0x1c, 0x8e, 0x4d, 0x74, 0xa7, 0xad, 0x7e, 0x37, 0x7b, 0xd0, 0x5c, 0x91,
    0xc2, 0x04, 0x1d, 0x1a, 0x9e, 0x10, 0xc5, 0xf0, 0xde, 0x08, 0xc7, 0x27, 0x3e, 0x0d, 0x8e,
    0xcd, 0xb3, 0x2e, 0xfd, 0xa9, 0xc5, 0x41, 0xa6, 0xdb, 0x8e, 0xca, 0xb4, 0xfd, 0x8b, 0xc8,
    0xa5, 0x1f, 0x25, 0x07, 0x31, 0x46, 0xbe, 0x9a, 0x76, 0x87, 0xa7, 0xd3, 0xe3, 0x82, 0xfa,
    0xb7, 0x5e, 0x25, 0x35, 0xeb, 0xd8, 0x9d, 0xcd, 0x10, 0x8c, 0x04, 0xc1, 0x6c, 0x6b, 0x34,
    0xa6, 0xc0, 0xaa, 0x64, 0x4b, 0xef, 0x01, 0x36, 0x61, 0xda, 0x61, 0x98, 0xae, 0x00, 0xcc,
    0x5b, 0x9e, 0xdf, 0x1f, 0x28, 0xfc, 0xa2, 0x41, 0x9e, 0xf3, 0x55, 0xfb, 0x3b, 0x00, 0x9a,
    0xfa, 0x30, 0x87, 0xff, 0x45, 0xb2, 0xe8, 0x93, 0xcf, 0xc6, 0x6b, 0x42, 0x3a, 0x53, 0xf6,
    0x93, 0x74, 0x7c, 0xf4, 0x23, 0x4d, 0xa9, 0x1c,
];

/// The shared domain parameters: the modulus `p`, the subgroup order `q`, and
/// the two generators `alpha` and `beta`. Immutable once constructed; its
/// validity (primality, the order of the generators, the secrecy of the
/// discrete log of `beta`) is the configuration source's burden.
pub struct ZKP {
    pub p: BigUint,
    pub q: BigUint,
    pub alpha: BigUint,
    pub beta: BigUint,
}

/// The domain parameters as mathematical naturals.
pub ghost struct GroupView {
    pub p: nat,
    pub q: nat,
    pub alpha: nat,
    pub beta: nat,
}

impl View for ZKP {
    type V = GroupView;

    open spec fn view(&self) -> GroupView {
        GroupView {
            p: big_nat(self.p),
            q: big_nat(self.q),
            alpha: big_nat(self.alpha),
            beta: big_nat(self.beta),
        }
    }
}

impl ZKP {
    /// The fixed, pre-shared domain parameters, read from the byte constants
    /// above: the same group on every call, with no side effect.
    pub fn get_constants() -> (r: ZKP)
        ensures
            big_nat(r.p) == be_bytes_nat(GROUP_P_BYTES@),
            big_nat(r.q) == be_bytes_nat(GROUP_Q_BYTES@),
            big_nat(r.alpha) == be_bytes_nat(GROUP_ALPHA_BYTES@),
            big_nat(r.beta) == be_bytes_nat(GROUP_BETA_BYTES@),
            big_nat(r.p) > 0,
            big_nat(r.q) > 0,
    {
        proof {
            assert(GROUP_P_BYTES@.first() == 0xb1);
            assert(GROUP_Q_BYTES@.first() == 0xf5);
            lemma_be_bytes_nat_positive(GROUP_P_BYTES@);
            lemma_be_bytes_nat_positive(GROUP_Q_BYTES@);
        }
        ZKP {
            p: big_from_bytes_be(GROUP_P_BYTES.as_slice()),
            q: big_from_bytes_be(GROUP_Q_BYTES.as_slice()),
            alpha: big_from_bytes_be(GROUP_ALPHA_BYTES.as_slice()),
            beta: big_from_bytes_be(GROUP_BETA_BYTES.as_slice()),
        }
    }

    /// `n^exponent mod modulus`.
    pub fn exponentiate(n: &BigUint, exponent: &BigUint, modulus: &BigUint) -> (r: BigUint)
        requires
            big_nat(*modulus) > 0,
        ensures
            big_nat(r) == mod_exp(big_nat(*n), big_nat(*exponent), big_nat(*modulus)),
    {
        big_modpow(n, exponent, modulus)
    }

    /// The prover's response `s = k - c*x (mod q)`, as the canonical
    /// representative in `[0, q)`. The operands are non-negative, so the
    /// subtraction branches to avoid underflow; both branches land on the
    /// value signed modular arithmetic would give.
    pub fn solve(&self, k: &BigUint, c: &BigUint, x: &BigUint) -> (s: BigUint)
        requires
            big_nat(self.q) > 0,
        ensures
            big_nat(s) == solve_spec(big_nat(*k), big_nat(*c), big_nat(*x), big_nat(self.q)),
            big_nat(s) < big_nat(self.q),
    {
        let ghost kn = big_nat(*k);
        let ghost cxn = big_nat(*c) * big_nat(*x);
        let ghost qn = big_nat(self.q);
        let ghost qi = qn as int;
        let cx = big_mul(c, x);
        if big_ge(k, &cx) {
            let d = big_sub(k, &cx);
            let s = big_mod(&d, &self.q);
            proof {
                lemma_mod_bound(kn - cxn, qi);
            }
            s
        } else {
            let d = big_sub(&cx, k);
            let m = big_mod(&d, &self.q);
            let zero = big_from_u64(0);
            let ghost di = (cxn - kn) as int;
            let ghost mi = big_nat(m) as int;
            proof {
                lemma_fundamental_div_mod(di, qi);
                lemma_mod_bound(di, qi);
            }
            if big_eq(&m, &zero) {
                proof {
                    assert((-(di / qi)) * qi == -(qi * (di / qi))) by (nonlinear_arith);
                    lemma_fundamental_div_mod_converse_mod(kn - cxn, qi, -(di / qi), 0);
                }
                zero
            } else {
                let s = big_sub(&self.q, &m);
                proof {
                    assert((-(di / qi) - 1) * qi == -(qi * (di / qi)) - qi) by (nonlinear_arith);
                    lemma_fundamental_div_mod_converse_mod(kn - cxn, qi, -(di / qi) - 1, qi - mi);
                }
                s
            }
        }
    }

    /// The verifier's check: true iff `r1 == alpha^s * y1^c (mod p)` and
    /// `r2 == beta^s * y2^c (mod p)`; both congruences must hold.
    pub fn verify(
        &self,
        r1: &BigUint,
        r2: &BigUint,
        y1: &BigUint,
        y2: &BigUint,
        c: &BigUint,
        s: &BigUint,
    ) -> (ok: bool)
        requires
            big_nat(self.p) > 0,
        ensures
            ok == verify_spec(
                big_nat(*r1),
                big_nat(*r2),
                big_nat(*y1),
                big_nat(*y2),
                big_nat(self.alpha),
                big_nat(self.beta),
                big_nat(*c),
                big_nat(*s),
                big_nat(self.p),
            ),
    {
        let ghost pi = big_nat(self.p) as int;
        let ghost cn = big_nat(*c);
        let ghost sn = big_nat(*s);
        let alpha_s = big_modpow(&self.alpha, s, &self.p);
        let y1_c = big_modpow(y1, c, &self.p);
        let prod1 = big_mul(&alpha_s, &y1_c);
        let v1 = big_mod(&prod1, &self.p);
        let cond1 = big_eq(r1, &v1);
        proof {
            lemma_mul_mod_noop_general(
                pow(big_nat(self.alpha) as int, sn),
                pow(big_nat(*y1) as int, cn),
                pi,
            );
        }
        let beta_s = big_modpow(&self.beta, s, &self.p);
        let y2_c = big_modpow(y2, c, &self.p);
        let prod2 = big_mul(&beta_s, &y2_c);
        let v2 = big_mod(&prod2, &self.p);
        let cond2 = big_eq(r2, &v2);
        proof {
            lemma_mul_mod_noop_general(
                pow(big_nat(self.beta) as int, sn),
                pow(big_nat(*y2) as int, cn),
                pi,
            );
        }
        cond1 && cond2
    }

    /// A uniformly random value in `[0, bound)`; only the bound is promised
    /// of a random draw.
    pub fn generate_random_below(bound: &BigUint) -> (r: BigUint)
        requires
            big_nat(*bound) > 0,
        ensures
            big_nat(r) < big_nat(*bound),
    {
        big_random_below(bound)
    }

    /// A random alphanumeric identifier of exactly `length` characters.
    pub fn generate_random_string(length: usize) -> (r: String)
        ensures
            r@.len() == length as nat,
    {
        random_alphanumeric_string(length)
    }
}

} // verus!

