//! Multi-digit arithmetic on little-endian byte sequences, carried out by
//! `num_bigint::BigUint`.
//!
//! Every function here is trusted: its body is not verified, and its
//! contract is taken from the documented behaviour of `BigUint`. Each one
//! reads its arguments with `BigUint::from_bytes_le`, which takes base-256
//! digits least significant first and reads no digits as zero, and writes its
//! result with `BigUint::to_bytes_le`, which gives such digits back (a single
//! zero digit for zero). Between the two stands one operation of `BigUint`.

use vstd::prelude::*;
use vstd::arithmetic::power::*;
use num_bigint::BigUint;
use crate::digits::le_value;

verus! {

/// Trusted: `+` on `BigUint`. Claims that the digits returned denote the sum
/// of the numbers that the two arguments denote.
#[verifier::external_body]
pub(crate) fn bytes_add(a: &Vec<u8>, b: &Vec<u8>) -> (r: Vec<u8>)
    ensures
        le_value(r@) == le_value(a@) + le_value(b@),
{
    (BigUint::from_bytes_le(a) + BigUint::from_bytes_le(b)).to_bytes_le()
}

/// Trusted: `-` on `BigUint`, which panics when the result would be
/// negative; the precondition leaves that case out. Claims that the digits
/// returned denote the difference.
#[verifier::external_body]
pub(crate) fn bytes_sub(a: &Vec<u8>, b: &Vec<u8>) -> (r: Vec<u8>)
    requires
        le_value(a@) >= le_value(b@),
    ensures
        le_value(r@) == le_value(a@) - le_value(b@),
{
    (BigUint::from_bytes_le(a) - BigUint::from_bytes_le(b)).to_bytes_le()
}

/// Trusted: `*` on `BigUint`. Claims that the digits returned denote the
/// product.
#[verifier::external_body]
pub(crate) fn bytes_mul(a: &Vec<u8>, b: &Vec<u8>) -> (r: Vec<u8>)
    ensures
        le_value(r@) == le_value(a@) * le_value(b@),
{
    (BigUint::from_bytes_le(a) * BigUint::from_bytes_le(b)).to_bytes_le()
}

/// Trusted: `/` on `BigUint`, which panics on a zero divisor; the
/// precondition leaves that case out. Claims that the digits returned denote
/// the quotient rounded down.
#[verifier::external_body]
pub(crate) fn bytes_div(a: &Vec<u8>, b: &Vec<u8>) -> (r: Vec<u8>)
    requires
        le_value(b@) > 0,
    ensures
        le_value(r@) == le_value(a@) / le_value(b@),
{
    (BigUint::from_bytes_le(a) / BigUint::from_bytes_le(b)).to_bytes_le()
}

/// Trusted: `%` on `BigUint`, which panics on a zero divisor; the
/// precondition leaves that case out. Claims that the digits returned denote
/// the remainder of the division rounded down.
#[verifier::external_body]
pub(crate) fn bytes_rem(a: &Vec<u8>, b: &Vec<u8>) -> (r: Vec<u8>)
    requires
        le_value(b@) > 0,
    ensures
        le_value(r@) == le_value(a@) % le_value(b@),
{
    (BigUint::from_bytes_le(a) % BigUint::from_bytes_le(b)).to_bytes_le()
}

/// Trusted: `BigUint::pow`. Claims that the digits returned denote the
/// base raised to `exponent`, with any base to the power zero being one.
#[verifier::external_body]
pub(crate) fn bytes_pow(a: &Vec<u8>, exponent: u32) -> (r: Vec<u8>)
    ensures
        le_value(r@) == pow(le_value(a@) as int, exponent as nat),
{
    BigUint::from_bytes_le(a).pow(exponent).to_bytes_le()
}

/// Trusted: `<` on `BigUint`. Claims that it orders two digit sequences as
/// the numbers they denote.
#[verifier::external_body]
pub(crate) fn bytes_less(a: &Vec<u8>, b: &Vec<u8>) -> (r: bool)
    ensures
        r == (le_value(a@) < le_value(b@)),
{
    BigUint::from_bytes_le(a) < BigUint::from_bytes_le(b)
}

} // verus!
