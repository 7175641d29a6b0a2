//! Floating-point values as the library carries them: by their IEEE 754
//! binary64 bit pattern. Comparison and negation are decided on the bits;
//! rounding arithmetic and rendering are left to an implementation of
//! [`FloatArithmetic`] that the caller supplies.

use vstd::prelude::*;

verus! {

pub const SIGN_BIT: u64 = 0x8000_0000_0000_0000u64;

pub const MAGNITUDE_MASK: u64 = 0x7fff_ffff_ffff_ffffu64;

pub const INFINITY_BITS: u64 = 0x7ff0_0000_0000_0000u64;

/// A binary64 value, held as its bit pattern.
#[derive(Clone, Copy, Debug, PartialEq, Eq, Structural, Hash)]
pub struct FloatBits {
    pub bits: u64,
}

impl FloatBits {
    /// The bits without the sign.
    pub open spec fn magnitude(self) -> u64 {
        self.bits & MAGNITUDE_MASK
    }

    /// Whether the sign bit is set.
    pub open spec fn negative(self) -> bool {
        self.bits & SIGN_BIT != 0
    }

    /// Whether the pattern encodes no number.
    pub open spec fn nan(self) -> bool {
        self.magnitude() > INFINITY_BITS
    }

    /// Position on the number line of a pattern that encodes a number: the
    /// magnitude, counted downwards for negative values. Both zeros have rank 0.
    pub open spec fn rank(self) -> int {
        if self.negative() {
            -(self.magnitude() as int)
        } else {
            self.magnitude() as int
        }
    }

    /// IEEE equality: no NaN equals anything, the two zeros are equal.
    pub open spec fn same_number(self, other: FloatBits) -> bool {
        !self.nan() && !other.nan() && self.rank() == other.rank()
    }

    /// IEEE `<`: false whenever a NaN takes part.
    pub open spec fn below(self, other: FloatBits) -> bool {
        !self.nan() && !other.nan() && self.rank() < other.rank()
    }

    /// Whether the value is `+0.0` or `-0.0`.
    pub open spec fn zero(self) -> bool {
        self.magnitude() == 0
    }

    /// The value with its sign flipped.
    pub open spec fn opposite(self) -> FloatBits {
        FloatBits { bits: self.bits ^ SIGN_BIT }
    }

    pub fn from_bits(bits: u64) -> (r: FloatBits)
        ensures
            r.bits == bits,
    {
        FloatBits { bits }
    }

    pub fn to_bits(self) -> (r: u64)
        ensures
            r == self.bits,
    {
        self.bits
    }

    pub fn is_nan(self) -> (r: bool)
        ensures
            r == self.nan(),
    {
        (self.bits & MAGNITUDE_MASK) > INFINITY_BITS
    }

    pub fn is_zero(self) -> (r: bool)
        ensures
            r == self.zero(),
    {
        (self.bits & MAGNITUDE_MASK) == 0
    }

    pub fn equals(self, other: FloatBits) -> (r: bool)
        ensures
            r == self.same_number(other),
    {
        if self.is_nan() || other.is_nan() {
            return false;
        }
        let a = self.bits & MAGNITUDE_MASK;
        let b = other.bits & MAGNITUDE_MASK;
        let a_negative = (self.bits & SIGN_BIT) != 0;
        let b_negative = (other.bits & SIGN_BIT) != 0;
        if a_negative == b_negative {
            a == b
        } else {
            a == 0 && b == 0
        }
    }

    pub fn less_than(self, other: FloatBits) -> (r: bool)
        ensures
            r == self.below(other),
    {
        if self.is_nan() || other.is_nan() {
            return false;
        }
        let a = self.bits & MAGNITUDE_MASK;
        let b = other.bits & MAGNITUDE_MASK;
        let a_negative = (self.bits & SIGN_BIT) != 0;
        let b_negative = (other.bits & SIGN_BIT) != 0;
        if a_negative {
            if b_negative {
                b < a
            } else {
                !(a == 0 && b == 0)
            }
        } else {
            if b_negative {
                false
            } else {
                a < b
            }
        }
    }

    pub fn negated(self) -> (r: FloatBits)
        ensures
            r == self.opposite(),
    {
        FloatBits { bits: self.bits ^ SIGN_BIT }
    }
}

/// Negation keeps the magnitude and flips the sign.
pub proof fn opposite_flips_sign(x: FloatBits)
    ensures
        x.opposite().magnitude() == x.magnitude(),
        x.opposite().negative() == !x.negative(),
        x.opposite().opposite() == x,
{
    let b = x.bits;
    assert((b ^ 0x8000_0000_0000_0000u64) & 0x7fff_ffff_ffff_ffffu64 == b
        & 0x7fff_ffff_ffff_ffffu64) by (bit_vector);
    assert(((b ^ 0x8000_0000_0000_0000u64) & 0x8000_0000_0000_0000u64 != 0) == !(b
        & 0x8000_0000_0000_0000u64 != 0)) by (bit_vector);
    assert((b ^ 0x8000_0000_0000_0000u64) ^ 0x8000_0000_0000_0000u64 == b) by (bit_vector);
}

/// The operations on floating-point values that round or format. The library
/// calls them where an expression asks for such a result and promises nothing
/// about what they return.
pub trait FloatArithmetic {
    fn sum(&self, a: FloatBits, b: FloatBits) -> FloatBits;

    fn difference(&self, a: FloatBits, b: FloatBits) -> FloatBits;

    fn product(&self, a: FloatBits, b: FloatBits) -> FloatBits;

    fn quotient(&self, a: FloatBits, b: FloatBits) -> FloatBits;

    fn from_integer(&self, n: i64) -> FloatBits;

    fn render(&self, a: FloatBits) -> String;
}

} // verus!
