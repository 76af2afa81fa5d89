//! The trusted boundary around `num_bigint::BigUint`, the arbitrary-precision
//! non-negative integers the protocol computes with. `big_nat` names the
//! natural number a `BigUint` holds; every wrapper states what the wrapped
//! operation does to that number, as num_bigint's source shows it.

use vstd::prelude::*;
use num_bigint::BigUint;
use num_bigint::RandBigInt;
use rand::Rng;
use crate::math::mod_exp;

verus! {

#[verifier::external_type_specification]
#[verifier::external_body]
pub struct ExBigUint(BigUint);

/// The natural number that a `BigUint` holds.
pub uninterp spec fn big_nat(b: BigUint) -> nat;

/// The natural number that a big-endian byte string denotes.
pub open spec fn be_bytes_nat(bytes: Seq<u8>) -> nat
    decreases bytes.len(),
{
    if bytes.len() == 0 {
        0
    } else {
        be_bytes_nat(bytes.drop_last()) * 256 + bytes.last() as nat
    }
}

/// A big-endian byte string with a non-zero leading byte denotes a positive
/// number.
pub proof fn lemma_be_bytes_nat_positive(bytes: Seq<u8>)
    requires
        bytes.len() > 0,
        bytes.first() != 0,
    ensures
        be_bytes_nat(bytes) > 0,
    decreases bytes.len(),
{
    if bytes.len() == 1 {
        assert(be_bytes_nat(bytes.drop_last()) == 0);
        assert(bytes.last() == bytes.first());
    } else {
        assert(bytes.drop_last().first() == bytes.first());
        lemma_be_bytes_nat_positive(bytes.drop_last());
    }
}

/// Relies on `<BigUint as From<u64>>::from`: the value is the given integer.
#[verifier::external_body]
pub(crate) fn big_from_u64(v: u64) -> (r: BigUint)
    ensures
        big_nat(r) == v as nat,
{
    BigUint::from(v)
}

/// Relies on `BigUint::from_bytes_be`: the bytes are read in big-endian
/// order; an empty slice gives zero.
#[verifier::external_body]
pub(crate) fn big_from_bytes_be(bytes: &[u8]) -> (r: BigUint)
    ensures
        big_nat(r) == be_bytes_nat(bytes@),
{
    BigUint::from_bytes_be(bytes)
}

/// Relies on `<BigUint as Clone>::clone`: the copy holds the same value.
#[verifier::external_body]
pub(crate) fn big_clone(b: &BigUint) -> (r: BigUint)
    ensures
        big_nat(r) == big_nat(*b),
{
    b.clone()
}

/// Relies on `<BigUint as PartialEq>::eq`: equality of the held values.
#[verifier::external_body]
pub(crate) fn big_eq(a: &BigUint, b: &BigUint) -> (r: bool)
    ensures
        r == (big_nat(*a) == big_nat(*b)),
{
    a == b
}

/// Relies on `<BigUint as PartialOrd>::ge`: order of the held values.
#[verifier::external_body]
pub(crate) fn big_ge(a: &BigUint, b: &BigUint) -> (r: bool)
    ensures
        r == (big_nat(*a) >= big_nat(*b)),
{
    a >= b
}

/// Relies on `<&BigUint as Mul>::mul`: the product of the held values.
#[verifier::external_body]
pub(crate) fn big_mul(a: &BigUint, b: &BigUint) -> (r: BigUint)
    ensures
        big_nat(r) == big_nat(*a) * big_nat(*b),
{
    a * b
}

/// Relies on `<&BigUint as Sub>::sub`, which panics when the subtrahend is
/// larger: the inputs are restricted so that it never does.
#[verifier::external_body]
pub(crate) fn big_sub(a: &BigUint, b: &BigUint) -> (r: BigUint)
    requires
        big_nat(*a) >= big_nat(*b),
    ensures
        big_nat(r) == big_nat(*a) - big_nat(*b),
{
    a - b
}

/// Relies on `<&BigUint as Rem>::rem`, which panics on a zero modulus: the
/// remainder of the held values.
#[verifier::external_body]
pub(crate) fn big_mod(a: &BigUint, m: &BigUint) -> (r: BigUint)
    requires
        big_nat(*m) > 0,
    ensures
        big_nat(r) == big_nat(*a) % big_nat(*m),
{
    a % m
}

/// Relies on `BigUint::modpow`, which panics on a zero modulus: returns
/// `(self ^ exponent) % modulus`.
#[verifier::external_body]
pub(crate) fn big_modpow(base: &BigUint, exponent: &BigUint, modulus: &BigUint) -> (r: BigUint)
    requires
        big_nat(*modulus) > 0,
    ensures
        big_nat(r) == mod_exp(big_nat(*base), big_nat(*exponent), big_nat(*modulus)),
{
    base.modpow(exponent, modulus)
}

/// Relies on rand's `thread_rng` and num_bigint's `gen_biguint_below`, which
/// panics on a zero bound: the result is drawn below the bound; nothing more
/// is assumed of a random value.
#[verifier::external_body]
pub(crate) fn big_random_below(bound: &BigUint) -> (r: BigUint)
    requires
        big_nat(*bound) > 0,
    ensures
        big_nat(r) < big_nat(*bound),
{
    let mut rng = rand::thread_rng();
    rng.gen_biguint_below(bound)
}

/// Relies on rand's `Alphanumeric` distribution: a string of exactly `len`
/// alphanumeric characters; nothing more is assumed of a random value.
#[verifier::external_body]
pub(crate) fn random_alphanumeric_string(len: usize) -> (r: String)
    ensures
        r@.len() == len as nat,
{
    let rng = rand::thread_rng();
    rng.sample_iter(&rand::distributions::Alphanumeric).take(len).map(char::from).collect()
}

} // verus!
