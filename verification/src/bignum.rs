//! Trusted boundary to the arbitrary-precision integer library.
//!
//! The protocol's arithmetic is carried out on `num_bigint::BigUint`.  The
//! type is declared opaque; the uninterpreted function [`big_val`] names the
//! natural number a `BigUint` holds, and each operation the logic needs is
//! wrapped in one function whose contract states, over `big_val`, what the
//! library's source shows.  Everything above this module is verified against
//! these contracts.

use vstd::prelude::*;
use num_bigint::BigUint;
use num_bigint::RandBigInt;
use num_integer::Integer;
use rand::rngs::OsRng;
use vstd::arithmetic::power::pow;
use crate::encoding::{be_bytes_of, nat_of_be_bytes};

verus! {

#[verifier::external_type_specification]
#[verifier::external_body]
pub struct ExBigUint(BigUint);

/// The natural number that a `BigUint` holds.
pub uninterp spec fn big_val(n: BigUint) -> nat;

/// Relies on `BigUint: From<u64>`: the result holds exactly the given value.
#[verifier::external_body]
pub(crate) fn big_from_u64(v: u64) -> (r: BigUint)
    ensures
        big_val(r) == v as nat,
{
    BigUint::from(v)
}

/// Relies on `BigUint: Clone`: the copy holds the same value.
#[verifier::external_body]
pub(crate) fn big_clone(n: &BigUint) -> (r: BigUint)
    ensures
        big_val(r) == big_val(*n),
{
    n.clone()
}

/// Relies on `BigUint: PartialEq`: equality of the canonical representations
/// coincides with equality of the values held.
#[verifier::external_body]
pub(crate) fn big_eq(a: &BigUint, b: &BigUint) -> (r: bool)
    ensures
        r == (big_val(*a) == big_val(*b)),
{
    a == b
}

/// Relies on `BigUint: Ord`: the ordering is the numerical one.
#[verifier::external_body]
pub(crate) fn big_lt(a: &BigUint, b: &BigUint) -> (r: bool)
    ensures
        r == (big_val(*a) < big_val(*b)),
{
    a < b
}

/// Relies on `Add for &BigUint`: exact addition.
#[verifier::external_body]
pub(crate) fn big_add(a: &BigUint, b: &BigUint) -> (r: BigUint)
    ensures
        big_val(r) == big_val(*a) + big_val(*b),
{
    a + b
}

/// Relies on `Sub for &BigUint`: exact subtraction; it panics on underflow,
/// so the smaller operand must be on the right.
#[verifier::external_body]
pub(crate) fn big_sub(a: &BigUint, b: &BigUint) -> (r: BigUint)
    requires
        big_val(*b) <= big_val(*a),
    ensures
        big_val(r) == big_val(*a) - big_val(*b),
{
    a - b
}

/// Relies on `Mul for &BigUint`: exact multiplication.
#[verifier::external_body]
pub(crate) fn big_mul(a: &BigUint, b: &BigUint) -> (r: BigUint)
    ensures
        big_val(r) == big_val(*a) * big_val(*b),
{
    a * b
}

/// Relies on `Rem for &BigUint`: Euclidean remainder; it panics on a zero
/// modulus, which the precondition rules out.
#[verifier::external_body]
pub(crate) fn big_mod(a: &BigUint, m: &BigUint) -> (r: BigUint)
    requires
        big_val(*m) > 0,
    ensures
        big_val(r) == big_val(*a) % big_val(*m),
{
    a % m
}

/// Relies on `BigUint::modpow`: returns `(self ^ exponent) % modulus` and
/// panics on a zero modulus, which the precondition rules out.
#[verifier::external_body]
pub(crate) fn big_modpow(base: &BigUint, exponent: &BigUint, modulus: &BigUint) -> (r: BigUint)
    requires
        big_val(*modulus) > 0,
    ensures
        big_val(r) == pow(big_val(*base) as int, big_val(*exponent)) % (big_val(*modulus) as int),
{
    base.modpow(exponent, modulus)
}

/// Relies on `Integer::is_even` for `BigUint`.
#[verifier::external_body]
pub(crate) fn big_is_even(n: &BigUint) -> (r: bool)
    ensures
        r == (big_val(*n) % 2 == 0),
{
    n.is_even()
}

/// Relies on `Shr<u32> for &BigUint`: shifting right by one halves the
/// value, discarding the remainder.
#[verifier::external_body]
pub(crate) fn big_half(n: &BigUint) -> (r: BigUint)
    ensures
        big_val(r) == big_val(*n) / 2,
{
    n >> 1u32
}

/// Relies on `BigUint::to_bytes_be`: the minimal big-endian byte encoding,
/// except that zero is encoded as one zero byte.
#[verifier::external_body]
pub(crate) fn big_to_bytes_be(n: &BigUint) -> (r: Vec<u8>)
    ensures
        r@ == be_repr(big_val(*n)),
{
    n.to_bytes_be()
}

/// Relies on `BigUint::from_bytes_be`: reads a big-endian byte encoding;
/// an empty slice and leading zeros are accepted.
#[verifier::external_body]
pub(crate) fn big_from_bytes_be(bytes: &Vec<u8>) -> (r: BigUint)
    ensures
        big_val(r) == nat_of_be_bytes(bytes@),
{
    BigUint::from_bytes_be(bytes)
}

/// Relies on `RandBigInt::gen_biguint` over `rand::rngs::OsRng`: a random
/// value of at most `bits` bits; nothing else holds of any one outcome.
#[verifier::external_body]
pub(crate) fn big_random_bits(bits: u64) -> (r: BigUint)
    ensures
        big_val(r) < pow(2, bits as nat),
{
    let mut rng = OsRng;
    rng.gen_biguint(bits)
}

/// Relies on `RandBigInt::gen_biguint_range` over `rand::rngs::OsRng`: a
/// random value in `[lo, hi)`; it panics unless `lo < hi`, which the
/// precondition rules out.  Nothing else holds of any one outcome.
#[verifier::external_body]
pub(crate) fn big_random_range(lo: &BigUint, hi: &BigUint) -> (r: BigUint)
    requires
        big_val(*lo) < big_val(*hi),
    ensures
        big_val(*lo) <= big_val(r) < big_val(*hi),
{
    let mut rng = OsRng;
    rng.gen_biguint_range(lo, hi)
}

/// The byte sequence `BigUint::to_bytes_be` returns for a value: the minimal
/// big-endian encoding, with zero as a single zero byte.
pub open spec fn be_repr(n: nat) -> Seq<u8> {
    if n == 0 {
        seq![0u8]
    } else {
        be_bytes_of(n)
    }
}

} // verus!
