//! A fixed-point unsigned number: a big unsigned integer with a fixed
//! decimal scale.
//!
//! The scale is carried by the type through [`FixedScale`], so values of
//! different scales never mix. Multiplication scales its exact product
//! back down by `10^SCALE` rounding half-up, and division scales the
//! dividend up by `10^SCALE` before dividing, rounding half-up as well.

use vstd::prelude::*;
use core::marker::PhantomData;
use num_bigint::BigUint;
use crate::bignum::{
    big_add, big_clone, big_div, big_eq, big_from_bytes_be, big_from_bytes_le, big_from_u64,
    big_lt, big_mul, big_rem, big_sub, big_to_bytes_be, big_to_bytes_le, big_to_u64, big_value,
    bytes_be_value, bytes_le_value,
};

verus! {

/// Maximum number of decimal digits a `u64` can always hold.
pub const U64_MAX_DIGITS: u64 = 19;

/// Ten to the [`U64_MAX_DIGITS`]th power.
pub const U64_MAX_DECIMAL: u64 = 10000000000000000000;

/// Ten to the `e`th power.
pub open spec fn pow10(e: nat) -> int {
    vstd::arithmetic::power::pow(10, e)
}

/// Ten to any power is positive.
pub proof fn lemma_pow10_positive(e: nat)
    ensures
        pow10(e) > 0,
{
    vstd::arithmetic::power::lemma_pow_positive(10, e);
}

/// The fixed power-of-ten constant really is the nineteenth power.
pub proof fn lemma_u64_max_decimal()
    ensures
        pow10(U64_MAX_DIGITS as nat) == U64_MAX_DECIMAL,
{
    reveal_with_fuel(vstd::arithmetic::power::pow, 20);
}

/// A fixed decimal scale: the place of the decimal point.
pub trait FixedScale {
    /// The scale, as a specification value.
    spec fn spec_scale() -> u64;

    /// The scale.
    fn scale_value() -> (r: u64)
        ensures
            r == Self::spec_scale(),
    ;
}

/// A scale of ten decimal places.
#[derive(Clone, Copy, Debug, PartialEq, Eq, Structural)]
pub struct Scale10 {}

impl FixedScale for Scale10 {
    open spec fn spec_scale() -> u64 {
        10
    }

    fn scale_value() -> (r: u64) {
        10
    }
}

/// Error returned when a representation cannot be read back into a
/// number.
#[derive(Clone, Copy, Debug, PartialEq, Eq, Structural)]
pub enum ParseError {
    Invalid,
}

/// A fixed-point unsigned number: an unsigned big integer carrying
/// `10^SCALE` times the represented value.
pub struct FixedUnsigned<S: FixedScale> {
    int_value: BigUint,
    scale: PhantomData<S>,
}

/// What `scale_down` returns: the value divided by `10^scale`, rounded
/// half-up on the last digit removed.
pub open spec fn spec_scale_down(v: nat, scale: nat) -> int {
    if scale == 0 {
        v as int
    } else {
        (v as int / pow10((scale - 1) as nat) + 5) / 10
    }
}

impl<S: FixedScale> FixedUnsigned<S> {
    /// The number of `10^-SCALE` units this value holds.
    pub closed spec fn spec_units(&self) -> nat {
        big_value(self.int_value)
    }

    /// Wraps raw units.
    fn new(int_value: BigUint) -> (r: Self)
        ensures
            r.spec_units() == big_value(int_value),
    {
        FixedUnsigned { int_value, scale: PhantomData }
    }

    /// Scales raw units up by `10^scale`.
    pub fn scale_up(int_value: BigUint, scale: u64) -> (r: BigUint)
        ensures
            big_value(r) == big_value(int_value) * pow10(scale as nat),
    {
        let mut value = int_value;
        let mut remaining = scale;
        let big_chunk = big_from_u64(U64_MAX_DECIMAL);
        let big_ten = big_from_u64(10);
        proof {
            lemma_u64_max_decimal();
            vstd::arithmetic::power::lemma_pow0(10);
            vstd::arithmetic::mul::lemma_mul_basics(big_value(int_value) as int);
        }
        while remaining >= U64_MAX_DIGITS
            invariant
                big_value(big_chunk) == pow10(U64_MAX_DIGITS as nat),
                big_value(big_ten) == 10,
                remaining <= scale,
                big_value(value) * pow10(remaining as nat) == big_value(int_value) * pow10(
                    scale as nat,
                ),
            decreases remaining,
        {
            proof {
                vstd::arithmetic::power::lemma_pow_adds(
                    10,
                    U64_MAX_DIGITS as nat,
                    (remaining - U64_MAX_DIGITS) as nat,
                );
                vstd::arithmetic::mul::lemma_mul_is_associative(
                    big_value(value) as int,
                    pow10(U64_MAX_DIGITS as nat),
                    pow10((remaining - U64_MAX_DIGITS) as nat),
                );
            }
            value = big_mul(&value, &big_chunk);
            remaining = remaining - U64_MAX_DIGITS;
        }
        while remaining > 0
            invariant
                big_value(big_ten) == 10,
                remaining <= scale,
                big_value(value) * pow10(remaining as nat) == big_value(int_value) * pow10(
                    scale as nat,
                ),
            decreases remaining,
        {
            proof {
                vstd::arithmetic::power::lemma_pow_adds(10, 1, (remaining - 1) as nat);
                vstd::arithmetic::power::lemma_pow1(10);
                vstd::arithmetic::mul::lemma_mul_is_associative(
                    big_value(value) as int,
                    10,
                    pow10((remaining - 1) as nat),
                );
            }
            value = big_mul(&value, &big_ten);
            remaining = remaining - 1;
        }
        proof {
            vstd::arithmetic::power::lemma_pow0(10);
            vstd::arithmetic::mul::lemma_mul_basics(big_value(value) as int);
        }
        value
    }

    /// Scales raw units down by `10^scale`, rounding half-up on the last
    /// digit removed.
    pub fn scale_down(int_value: BigUint, scale: u64) -> (r: BigUint)
        ensures
            big_value(r) == spec_scale_down(big_value(int_value), scale as nat),
    {
        let ghost v0 = big_value(int_value);
        let mut value = int_value;
        let mut remaining = scale;
        let big_chunk = big_from_u64(U64_MAX_DECIMAL);
        let big_ten = big_from_u64(10);
        proof {
            lemma_u64_max_decimal();
            vstd::arithmetic::power::lemma_pow0(10);
        }
        if remaining == 0 {
            return value;
        }
        // divide away whole chunks while more than one digit remains
        while remaining >= U64_MAX_DIGITS + 1
            invariant
                big_value(big_chunk) == pow10(U64_MAX_DIGITS as nat),
                big_value(big_ten) == 10,
                1 <= remaining <= scale,
                big_value(value) == v0 as int / pow10((scale - remaining) as nat),
            decreases remaining,
        {
            proof {
                lemma_pow10_positive((scale - remaining) as nat);
                lemma_pow10_positive(U64_MAX_DIGITS as nat);
                vstd::arithmetic::div_mod::lemma_div_denominator(
                    v0 as int,
                    pow10((scale - remaining) as nat),
                    pow10(U64_MAX_DIGITS as nat),
                );
                vstd::arithmetic::power::lemma_pow_adds(
                    10,
                    (scale - remaining) as nat,
                    U64_MAX_DIGITS as nat,
                );
            }
            value = big_div(&value, &big_chunk);
            remaining = remaining - U64_MAX_DIGITS;
        }
        // divide digit by digit until one rounding digit remains
        while remaining > 1
            invariant
                big_value(big_ten) == 10,
                1 <= remaining <= scale,
                big_value(value) == v0 as int / pow10((scale - remaining) as nat),
            decreases remaining,
        {
            proof {
                lemma_pow10_positive((scale - remaining) as nat);
                vstd::arithmetic::div_mod::lemma_div_denominator(
                    v0 as int,
                    pow10((scale - remaining) as nat),
                    10,
                );
                vstd::arithmetic::power::lemma_pow_adds(10, (scale - remaining) as nat, 1);
                vstd::arithmetic::power::lemma_pow1(10);
            }
            value = big_div(&value, &big_ten);
            remaining = remaining - 1;
        }
        // round half-up on the last digit
        let carrier = big_rem(&value, &big_ten);
        let q = big_div(&value, &big_ten);
        proof {
            vstd::arithmetic::div_mod::lemma_fundamental_div_mod(big_value(value) as int, 10);
            vstd::arithmetic::div_mod::lemma_mod_bound(big_value(value) as int, 10);
        }
        let carrier_small = match big_to_u64(&carrier) {
            Some(c) => c,
            None => {
                proof {
                    assert(false);
                }
                vstd::pervasive::unreached()
            },
        };
        if carrier_small >= 5 {
            let one = big_from_u64(1);
            let rounded = big_add(&q, &one);
            proof {
                Self::lemma_round_half_up(big_value(value), big_value(rounded));
            }
            rounded
        } else {
            proof {
                Self::lemma_round_half_up(big_value(value), big_value(q));
            }
            q
        }
    }

    /// Rounding by adding five then truncating agrees with truncating and
    /// carrying when the last digit is five or more.
    proof fn lemma_round_half_up(v: nat, r: nat)
        requires
            v % 10 >= 5 ==> r == v / 10 + 1,
            v % 10 < 5 ==> r == v / 10,
        ensures
            r == (v + 5) / 10,
    {
        vstd::arithmetic::div_mod::lemma_fundamental_div_mod(v as int, 10);
        vstd::arithmetic::div_mod::lemma_mod_bound(v as int, 10);
        vstd::arithmetic::div_mod::lemma_fundamental_div_mod_converse(
            v as int + 5,
            10,
            if v % 10 >= 5 {
                v as int / 10 + 1
            } else {
                v as int / 10
            },
            if v % 10 >= 5 {
                v as int % 10 - 5
            } else {
                v as int % 10 + 5
            },
        );
    }

    /// The integer part: the units scaled down by the full scale, with
    /// the half-up rounding the scaling applies.
    pub fn int_part(&self) -> (r: BigUint)
        ensures
            big_value(r) == spec_scale_down(self.spec_units(), S::spec_scale() as nat),
    {
        Self::scale_down(big_clone(&self.int_value), S::scale_value())
    }

    /// The scale of this number; fixed by its type.
    pub fn scale(&self) -> (r: u64)
        ensures
            r == S::spec_scale(),
    {
        S::scale_value()
    }

    /// Reads raw units from big-endian bytes.
    pub fn from_bytes_be(bytes: &[u8]) -> (r: Self)
        ensures
            r.spec_units() == bytes_be_value(bytes@),
    {
        Self::new(big_from_bytes_be(bytes))
    }

    /// Reads raw units from little-endian bytes.
    pub fn from_bytes_le(bytes: &[u8]) -> (r: Self)
        ensures
            r.spec_units() == bytes_le_value(bytes@),
    {
        Self::new(big_from_bytes_le(bytes))
    }

    /// The raw units as big-endian bytes.
    pub fn to_bytes_be(&self) -> (r: Vec<u8>)
        ensures
            bytes_be_value(r@) == self.spec_units(),
    {
        big_to_bytes_be(&self.int_value)
    }

    /// The raw units as little-endian bytes.
    pub fn to_bytes_le(&self) -> (r: Vec<u8>)
        ensures
            bytes_le_value(r@) == self.spec_units(),
    {
        big_to_bytes_le(&self.int_value)
    }

    /// Wraps an integer as a fixed-point number, scaling it so that its
    /// decimal places are zero.
    pub fn from_u64(x: u64) -> (r: Self)
        ensures
            r.spec_units() == x * pow10(S::spec_scale() as nat),
    {
        Self::new(Self::scale_up(big_from_u64(x), S::scale_value()))
    }

    /// The raw units this number holds.
    pub fn get_int_value(&self) -> (r: BigUint)
        ensures
            big_value(r) == self.spec_units(),
    {
        big_clone(&self.int_value)
    }

    /// Exact addition.
    pub fn add(&self, rhs: &Self) -> (r: Self)
        ensures
            r.spec_units() == self.spec_units() + rhs.spec_units(),
    {
        Self::new(big_add(&self.int_value, &rhs.int_value))
    }

    /// Exact subtraction; a larger subtrahend is a programmer error and
    /// is excluded here, as the underlying integer is unsigned.
    pub fn sub(&self, rhs: &Self) -> (r: Self)
        requires
            rhs.spec_units() <= self.spec_units(),
        ensures
            r.spec_units() == self.spec_units() - rhs.spec_units(),
    {
        Self::new(big_sub(&self.int_value, &rhs.int_value))
    }

    /// Multiplication: the exact product scaled back down by `10^SCALE`,
    /// rounding half-up.
    pub fn mul(&self, rhs: &Self) -> (r: Self)
        ensures
            r.spec_units() == spec_scale_down(
                self.spec_units() * rhs.spec_units(),
                S::spec_scale() as nat,
            ),
    {
        Self::new(Self::scale_down(big_mul(&self.int_value, &rhs.int_value), S::scale_value()))
    }

    /// Division: the dividend scaled up by `10^SCALE`, divided exactly,
    /// rounding half-up. A zero divisor is excluded.
    pub fn div(&self, rhs: &Self) -> (r: Self)
        requires
            rhs.spec_units() > 0,
        ensures
            ({
                let x = self.spec_units() * pow10(S::spec_scale() as nat);
                let b = rhs.spec_units() as int;
                r.spec_units() == if 2 * (x as int % b) >= b {
                    x as int / b + 1
                } else {
                    x as int / b
                }
            }),
    {
        let scaled = Self::scale_up(big_clone(&self.int_value), S::scale_value());
        let q = big_div(&scaled, &rhs.int_value);
        let rem = big_rem(&scaled, &rhs.int_value);
        let two = big_from_u64(2);
        let doubled = big_mul(&two, &rem);
        if !big_lt(&doubled, &rhs.int_value) {
            let one = big_from_u64(1);
            Self::new(big_add(&q, &one))
        } else {
            Self::new(q)
        }
    }

    /// Equality of the represented values.
    pub fn eq_value(&self, rhs: &Self) -> (r: bool)
        ensures
            r == (self.spec_units() == rhs.spec_units()),
    {
        big_eq(&self.int_value, &rhs.int_value)
    }

    /// Strict order of the represented values.
    pub fn lt(&self, rhs: &Self) -> (r: bool)
        ensures
            r == (self.spec_units() < rhs.spec_units()),
    {
        big_lt(&self.int_value, &rhs.int_value)
    }
}

impl<S: FixedScale> PartialEq for FixedUnsigned<S> {
    /// Two numbers are equal exactly when their units are.
    fn eq(&self, other: &Self) -> (r: bool) {
        big_eq(&self.int_value, &other.int_value)
    }
}

impl<S: FixedScale> vstd::std_specs::cmp::PartialEqSpecImpl for FixedUnsigned<S> {
    open spec fn obeys_eq_spec() -> bool {
        true
    }

    open spec fn eq_spec(&self, other: &Self) -> bool {
        self.spec_units() == other.spec_units()
    }
}

impl<S: FixedScale> Eq for FixedUnsigned<S> {

}

} // verus!
