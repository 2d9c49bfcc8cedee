//! Real numbers of the configuration, held by their IEEE 754 encoding.
//!
//! The library decides whether a configured number is acceptable and whether it
//! changed; it never computes with one. For positive numbers the encoding orders as
//! the numbers do, so a range of numbers is a range of encodings.

use vstd::prelude::*;

verus! {

/// A single-precision number, by its 32 encoding bits.
#[derive(Debug, Clone, Copy, PartialEq, Eq, Structural)]
pub struct Single {
    /// The encoding: sign, exponent, fraction.
    pub bits: u32,
}

/// A double-precision number, by its 64 encoding bits.
#[derive(Debug, Clone, Copy, PartialEq, Eq, Structural)]
pub struct Double {
    /// The encoding: sign, exponent, fraction.
    pub bits: u64,
}

/// The encoding of `1.0` in single precision.
pub const SINGLE_ONE: u32 = 0x3F80_0000;

/// The encoding of `16.0` in single precision.
pub const SINGLE_SIXTEEN: u32 = 0x4180_0000;

/// The encoding of `512.0` in single precision.
pub const SINGLE_FIVE_HUNDRED_TWELVE: u32 = 0x4400_0000;

/// The sign bit of a single-precision encoding.
pub const SINGLE_SIGN: u32 = 0x8000_0000;

/// The encoding of infinity in single precision. What lies above it, the sign left
/// aside, encodes no number.
pub const SINGLE_INFINITY: u32 = 0x7F80_0000;

/// The encoding of `100.0` in double precision.
pub const DOUBLE_HUNDRED: u64 = 0x4059_0000_0000_0000;

impl Single {
    /// A finite number between `1.0` and `512.0`, both included.
    pub open spec fn is_font_size(self) -> bool {
        SINGLE_ONE <= self.bits <= SINGLE_FIVE_HUNDRED_TWELVE
    }

    /// The encoding without its sign.
    pub open spec fn magnitude(self) -> u32 {
        if self.bits >= SINGLE_SIGN {
            (self.bits - SINGLE_SIGN) as u32
        } else {
            self.bits
        }
    }

    /// Whether the encoding is that of no number.
    pub open spec fn is_nan(self) -> bool {
        self.magnitude() > SINGLE_INFINITY
    }

    /// Whether two encodings are of equal numbers. What is no number equals nothing,
    /// itself included, and the two zeros are equal.
    pub open spec fn equals(self, other: Single) -> bool {
        ||| self.bits == other.bits && !self.is_nan()
        ||| self.magnitude() == 0 && other.magnitude() == 0
    }

    /// Whether two numbers are equal.
    pub fn same(self, other: Single) -> (equal: bool)
        ensures
            equal == self.equals(other),
    {
        if self.bits == other.bits {
            let magnitude: u32 = if self.bits >= SINGLE_SIGN {
                self.bits - SINGLE_SIGN
            } else {
                self.bits
            };
            magnitude <= SINGLE_INFINITY
        } else {
            (self.bits == 0 || self.bits == SINGLE_SIGN) && (other.bits == 0 || other.bits
                == SINGLE_SIGN)
        }
    }
}

/// Acceptable font sizes are equal exactly where their encodings are.
pub proof fn lemma_font_sizes_are_equal_by_encoding(a: Single, b: Single)
    requires
        a.is_font_size(),
    ensures
        a.equals(b) <==> a == b,
{
}

impl Double {
    /// A finite number above zero and no greater than `100.0`.
    pub open spec fn is_percent_step(self) -> bool {
        0 < self.bits <= DOUBLE_HUNDRED
    }
}

/// Numbers are the same exactly where their encodings are, but for the two zeros, which are
/// the same, and for what is no number, which is not the same as itself.
pub proof fn lemma_numbers_are_the_same_by_value(a: Single, b: Single, equal: bool)
    requires
        call_ensures(Single::same, (a, b), equal),
    ensures
        a.bits != b.bits && a.bits != 0 && a.bits != 0x8000_0000 ==> !equal,
        a.bits == b.bits && a.bits <= 0x7F80_0000 ==> equal,
        a.bits == b.bits && 0x8000_0000 <= a.bits <= 0xFF80_0000 ==> equal,
        0x7F80_0000 < a.bits < 0x8000_0000 || a.bits > 0xFF80_0000 ==> !equal,
        (a.bits == 0 || a.bits == 0x8000_0000) && (b.bits == 0 || b.bits == 0x8000_0000) ==> equal,
{
}

} // verus!
