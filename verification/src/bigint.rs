//! Trusted bridge to the arbitrary-precision unsigned integers of the
//! `num_bigint` crate. Every fact the library knows about a `BigUint` comes
//! from the contracts below, stated over the value the integer holds.

use crate::bytes::le_value;
use num_bigint::BigUint;
use vstd::arithmetic::power2::pow2;
use vstd::prelude::*;

verus! {

#[verifier::external_type_specification]
#[verifier::external_body]
pub struct ExBigUint(BigUint);

/// The unsigned integer that a `BigUint` holds.
pub uninterp spec fn big_value(n: BigUint) -> nat;

/// Relies on `BigUint::from_bytes_le`: builds the integer the bytes denote in
/// little-endian order.
#[verifier::external_body]
pub fn big_from_bytes_le(b: &[u8]) -> (r: BigUint)
    ensures
        big_value(r) == le_value(b@),
{
    BigUint::from_bytes_le(b)
}

/// Relies on `BigUint::to_bytes_le`: the little-endian bytes of the value,
/// with no superfluous trailing zero byte, and a single zero byte for zero.
#[verifier::external_body]
pub fn big_to_bytes_le(n: &BigUint) -> (r: Vec<u8>)
    ensures
        le_value(r@) == big_value(*n),
        big_value(*n) == 0 ==> r@ =~= seq![0u8],
        big_value(*n) > 0 ==> r@.len() >= 1 && r@[r@.len() - 1] != 0,
{
    n.to_bytes_le()
}

/// Relies on `impl From<u64> for BigUint`.
#[verifier::external_body]
pub fn big_from_u64(n: u64) -> (r: BigUint)
    ensures
        big_value(r) == n,
{
    BigUint::from(n)
}

/// Relies on `impl Add for &BigUint`.
#[verifier::external_body]
pub fn big_add(a: &BigUint, b: &BigUint) -> (r: BigUint)
    ensures
        big_value(r) == big_value(*a) + big_value(*b),
{
    a + b
}

/// Relies on `impl Mul for &BigUint`.
#[verifier::external_body]
pub fn big_mul(a: &BigUint, b: &BigUint) -> (r: BigUint)
    ensures
        big_value(r) == big_value(*a) * big_value(*b),
{
    a * b
}

/// Relies on `impl Sub for &BigUint`, which panics when the subtrahend is
/// larger; the precondition rules that out.
#[verifier::external_body]
pub fn big_sub(a: &BigUint, b: &BigUint) -> (r: BigUint)
    requires
        big_value(*b) <= big_value(*a),
    ensures
        big_value(r) == big_value(*a) - big_value(*b),
{
    a - b
}

/// Relies on `impl Rem for &BigUint` (euclidean remainder), which panics on a
/// zero divisor; the precondition rules that out.
#[verifier::external_body]
pub fn big_rem(a: &BigUint, m: &BigUint) -> (r: BigUint)
    requires
        big_value(*m) > 0,
    ensures
        big_value(r) == big_value(*a) % big_value(*m),
{
    a % m
}

/// Relies on `impl Shl<usize> for &BigUint`: multiplication by a power of two.
#[verifier::external_body]
pub fn big_shl(a: &BigUint, n: usize) -> (r: BigUint)
    ensures
        big_value(r) == big_value(*a) * pow2(n as nat),
{
    a << n
}

/// Relies on `impl Shr<usize> for &BigUint`: flooring division by a power of
/// two.
#[verifier::external_body]
pub fn big_shr(a: &BigUint, n: usize) -> (r: BigUint)
    ensures
        big_value(r) == big_value(*a) / pow2(n as nat),
{
    a >> n
}

/// Relies on `impl BitAnd for &BigUint`: against an all-ones mask the bitwise
/// conjunction keeps exactly the low bits, that is, it reduces the value
/// modulo the power of two just above the mask.
#[verifier::external_body]
pub fn big_and_low(a: &BigUint, mask: &BigUint) -> (r: BigUint)
    requires
        exists|k: nat| big_value(*mask) + 1 == pow2(k),
    ensures
        big_value(r) == big_value(*a) % (big_value(*mask) + 1),
{
    a & mask
}

/// Relies on `impl PartialEq for BigUint`: equality is equality of values.
#[verifier::external_body]
pub fn big_eq(a: &BigUint, b: &BigUint) -> (r: bool)
    ensures
        r == (big_value(*a) == big_value(*b)),
{
    a == b
}

/// Relies on `impl Ord for BigUint`: comparison orders by numeric value.
#[verifier::external_body]
pub fn big_lt(a: &BigUint, b: &BigUint) -> (r: bool)
    ensures
        r == (big_value(*a) < big_value(*b)),
{
    a < b
}

} // verus!
