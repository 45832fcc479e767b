//! Trusted boundary to the arbitrary-precision unsigned integer.
//!
//! The fixed-point arithmetic stores its digits in `num_bigint::BigUint`.
//! Each wrapper here makes exactly one call into that crate and states,
//! over the number the value holds, what the crate's documentation
//! promises of the call. `big_value` names that number; nothing is assumed
//! of it beyond what the wrappers state.

use vstd::prelude::*;
use num_bigint::BigUint;

verus! {

/// The outside big-unsigned integer, opaque to the verifier.
#[verifier::external_type_specification]
#[verifier::external_body]
pub struct ExBigUint(BigUint);

/// The number a `BigUint` holds.
pub uninterp spec fn big_value(b: BigUint) -> nat;

/// The value of a big-endian base-256 digit string.
pub open spec fn bytes_be_value(s: Seq<u8>) -> nat
    decreases s.len(),
{
    if s.len() == 0 {
        0
    } else {
        (bytes_be_value(s.drop_last()) * 256 + s.last()) as nat
    }
}

/// The value of a little-endian base-256 digit string.
pub open spec fn bytes_le_value(s: Seq<u8>) -> nat
    decreases s.len(),
{
    if s.len() == 0 {
        0
    } else {
        (bytes_le_value(s.drop_last()) + s.last() * vstd::arithmetic::power::pow(
            256,
            (s.len() - 1) as nat,
        )) as nat
    }
}

/// Relies on `BigUint::from`: the value of a machine word.
#[verifier::external_body]
pub fn big_from_u64(x: u64) -> (r: BigUint)
    ensures
        big_value(r) == x,
{
    BigUint::from(x)
}

/// Relies on `ToPrimitive::to_u64`: the value back as a machine word when
/// it fits, nothing otherwise.
#[verifier::external_body]
pub fn big_to_u64(a: &BigUint) -> (r: Option<u64>)
    ensures
        match r {
            Some(v) => big_value(*a) == v,
            None => big_value(*a) > u64::MAX,
        },
{
    num_traits::cast::ToPrimitive::to_u64(a)
}

/// Relies on `Clone for BigUint`: the copy holds the same number.
#[verifier::external_body]
pub fn big_clone(a: &BigUint) -> (r: BigUint)
    ensures
        big_value(r) == big_value(*a),
{
    a.clone()
}

/// Relies on `Add for &BigUint`: exact addition.
#[verifier::external_body]
pub fn big_add(a: &BigUint, b: &BigUint) -> (r: BigUint)
    ensures
        big_value(r) == big_value(*a) + big_value(*b),
{
    a + b
}

/// Relies on `Sub for &BigUint`: exact subtraction; the crate panics on
/// underflow, so a smaller minuend is excluded here.
#[verifier::external_body]
pub fn big_sub(a: &BigUint, b: &BigUint) -> (r: BigUint)
    requires
        big_value(*b) <= big_value(*a),
    ensures
        big_value(r) == big_value(*a) - big_value(*b),
{
    a - b
}

/// Relies on `Mul for &BigUint`: exact multiplication.
#[verifier::external_body]
pub fn big_mul(a: &BigUint, b: &BigUint) -> (r: BigUint)
    ensures
        big_value(r) == big_value(*a) * big_value(*b),
{
    a * b
}

/// Relies on `Div for &BigUint`: division truncated towards zero; the
/// crate panics on a zero divisor, so it is excluded here.
#[verifier::external_body]
pub fn big_div(a: &BigUint, b: &BigUint) -> (r: BigUint)
    requires
        big_value(*b) > 0,
    ensures
        big_value(r) == big_value(*a) / big_value(*b),
{
    a / b
}

/// Relies on `Rem for &BigUint`: the remainder of truncated division; a
/// zero divisor is excluded here.
#[verifier::external_body]
pub fn big_rem(a: &BigUint, b: &BigUint) -> (r: BigUint)
    requires
        big_value(*b) > 0,
    ensures
        big_value(r) == big_value(*a) % big_value(*b),
{
    a % b
}

/// Relies on `PartialEq for BigUint`: equality of the numbers.
#[verifier::external_body]
pub fn big_eq(a: &BigUint, b: &BigUint) -> (r: bool)
    ensures
        r == (big_value(*a) == big_value(*b)),
{
    a == b
}

/// Relies on `Ord for BigUint`: order of the numbers.
#[verifier::external_body]
pub fn big_lt(a: &BigUint, b: &BigUint) -> (r: bool)
    ensures
        r == (big_value(*a) < big_value(*b)),
{
    a < b
}

/// Relies on `BigUint::from_bytes_be`: the value of a big-endian byte
/// string.
#[verifier::external_body]
pub fn big_from_bytes_be(bytes: &[u8]) -> (r: BigUint)
    ensures
        big_value(r) == bytes_be_value(bytes@),
{
    BigUint::from_bytes_be(bytes)
}

/// Relies on `BigUint::from_bytes_le`: the value of a little-endian byte
/// string.
#[verifier::external_body]
pub fn big_from_bytes_le(bytes: &[u8]) -> (r: BigUint)
    ensures
        big_value(r) == bytes_le_value(bytes@),
{
    BigUint::from_bytes_le(bytes)
}

/// Relies on `BigUint::to_bytes_be`: the shortest big-endian byte string
/// of the value; zero is one zero byte.
#[verifier::external_body]
pub fn big_to_bytes_be(a: &BigUint) -> (r: Vec<u8>)
    ensures
        bytes_be_value(r@) == big_value(*a),
        r@.len() >= 1,
        r@.len() > 1 ==> r@[0] != 0,
{
    a.to_bytes_be()
}

/// Relies on `BigUint::to_bytes_le`: the shortest little-endian byte
/// string of the value; zero is one zero byte.
#[verifier::external_body]
pub fn big_to_bytes_le(a: &BigUint) -> (r: Vec<u8>)
    ensures
        bytes_le_value(r@) == big_value(*a),
        r@.len() >= 1,
        r@.len() > 1 ==> r@[r@.len() - 1] != 0,
{
    a.to_bytes_le()
}

} // verus!
