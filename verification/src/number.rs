//! A real number as a track fixture declares it.
//!
//! The fixture's real-valued fields (floors, exponents, tolerances, weights, baseline
//! seconds-per-token) are IEEE-754 binary64 values. Certification reads three things of such a
//! value and nothing else: whether it is finite, whether it is zero, and its sign. A refusal
//! quotes the value's decimal text. So the library holds exactly that: the bit pattern, from
//! which the three facts are read, and the decimal text the refusal quotes.

use vstd::prelude::*;

verus! {

/// The sign bit of a binary64 pattern.
pub const SIGN_BIT: u64 = 0x8000_0000_0000_0000;

/// The exponent field of a binary64 pattern; all ones marks an infinity or a NaN.
pub const EXPONENT_MASK: u64 = 0x7ff0_0000_0000_0000;

/// Everything but the sign bit.
pub const MAGNITUDE_MASK: u64 = 0x7fff_ffff_ffff_ffff;

/// The pattern is a finite value (neither an infinity nor a NaN).
pub open spec fn bits_finite(b: u64) -> bool {
    b & EXPONENT_MASK != EXPONENT_MASK
}

/// The pattern is `+0` or `-0`.
pub open spec fn bits_zero(b: u64) -> bool {
    b & MAGNITUDE_MASK == 0
}

/// The pattern's sign bit is clear.
pub open spec fn bits_sign_clear(b: u64) -> bool {
    b < SIGN_BIT
}

/// A finite value strictly greater than zero.
pub open spec fn bits_finite_positive(b: u64) -> bool {
    bits_finite(b) && !bits_zero(b) && bits_sign_clear(b)
}

/// A finite value greater than or equal to zero (`-0` included, as `-0 >= 0` holds).
pub open spec fn bits_finite_non_negative(b: u64) -> bool {
    bits_finite(b) && (bits_zero(b) || bits_sign_clear(b))
}

/// A declared real value: its binary64 bit pattern and the decimal text a refusal quotes.
#[derive(Debug, PartialEq)]
pub struct FixtureNumber {
    /// The binary64 bit pattern.
    pub bits: u64,
    /// The value's decimal rendering.
    pub text: String,
}

impl Clone for FixtureNumber {
    fn clone(&self) -> (r: Self)
        ensures
            r == *self,
    {
        FixtureNumber { bits: self.bits, text: self.text.clone() }
    }
}

impl FixtureNumber {
    /// A number from its bit pattern and its decimal text.
    pub fn new(bits: u64, text: String) -> (r: FixtureNumber)
        ensures
            r.bits == bits,
            r.text == text,
    {
        FixtureNumber { bits, text }
    }

    /// `is_finite()`.
    pub fn is_finite(&self) -> (r: bool)
        ensures
            r == bits_finite(self.bits),
    {
        self.bits & EXPONENT_MASK != EXPONENT_MASK
    }

    /// `== 0.0` (true of `+0` and `-0`).
    pub fn is_zero(&self) -> (r: bool)
        ensures
            r == bits_zero(self.bits),
    {
        self.bits & MAGNITUDE_MASK == 0
    }

    /// `is_finite() && self > 0.0`.
    pub fn is_finite_positive(&self) -> (r: bool)
        ensures
            r == bits_finite_positive(self.bits),
    {
        self.is_finite() && !self.is_zero() && self.bits < SIGN_BIT
    }

    /// `is_finite() && self >= 0.0`.
    pub fn is_finite_non_negative(&self) -> (r: bool)
        ensures
            r == bits_finite_non_negative(self.bits),
    {
        self.is_finite() && (self.is_zero() || self.bits < SIGN_BIT)
    }
}

/// A copy of an optional number.
pub fn clone_number_option(v: &Option<FixtureNumber>) -> (r: Option<FixtureNumber>)
    ensures
        r == *v,
{
    match v {
        Some(n) => Some(n.clone()),
        None => None,
    }
}


/// THE IEEE-754 READING OF A PATTERN: the zeros are exactly `+0` and `-0`; the finite positive
/// values are exactly the patterns from the least subnormal `1` up to the greatest finite
/// `0x7fef_ffff_ffff_ffff`; the finite non-negative values are those and the two zeros.
pub proof fn the_bit_predicates_read_binary64(b: u64)
    ensures
        bits_zero(b) <==> (b == 0 || b == 0x8000_0000_0000_0000),
        bits_finite_positive(b) <==> (1 <= b && b <= 0x7fef_ffff_ffff_ffff),
        bits_finite_non_negative(b) <==> (b <= 0x7fef_ffff_ffff_ffff || b == 0x8000_0000_0000_0000),
{
    assert((b & 0x7fff_ffff_ffff_ffffu64 == 0) <==> (b == 0 || b == 0x8000_0000_0000_0000u64)) by (bit_vector);
    assert((b & 0x7ff0_0000_0000_0000u64 != 0x7ff0_0000_0000_0000u64 && b & 0x7fff_ffff_ffff_ffffu64 != 0
        && b < 0x8000_0000_0000_0000u64) <==> (1 <= b && b <= 0x7fef_ffff_ffff_ffffu64)) by (bit_vector);
    assert((b & 0x7ff0_0000_0000_0000u64 != 0x7ff0_0000_0000_0000u64 && (b & 0x7fff_ffff_ffff_ffffu64 == 0
        || b < 0x8000_0000_0000_0000u64)) <==> (b <= 0x7fef_ffff_ffff_ffffu64 || b == 0x8000_0000_0000_0000u64)) by (bit_vector);
}

} // verus!
