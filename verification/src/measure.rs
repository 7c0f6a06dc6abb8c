//! Linear measurements as IEEE 754 binary64 bit patterns.

use vstd::prelude::*;

verus! {

/// Bit pattern of positive infinity, the largest pattern that is a number
/// with a clear sign bit. Patterns above it with a clear sign bit are NaNs.
pub const POSITIVE_INFINITY_BITS: u64 = 0x7ff0_0000_0000_0000;

/// The sign bit of a binary64 pattern.
pub const SIGN_BIT: u64 = 0x8000_0000_0000_0000;

/// A radius or a side length: a binary64 value, held as its bit pattern.
#[derive(Clone, Copy, Debug, PartialEq, Eq, Structural)]
pub struct Measure {
    pub bits: u64,
}

impl Measure {
    /// The pattern with the sign bit cleared.
    pub open spec fn magnitude_bits(self) -> int {
        if self.bits >= SIGN_BIT {
            self.bits - SIGN_BIT
        } else {
            self.bits as int
        }
    }

    /// The pattern is not a number.
    pub open spec fn is_nan(self) -> bool {
        self.magnitude_bits() > POSITIVE_INFINITY_BITS
    }

    /// The pattern is positive or negative zero.
    pub open spec fn is_zero(self) -> bool {
        self.magnitude_bits() == 0
    }

    /// The pattern is a number below zero (negative infinity included).
    pub open spec fn is_negative(self) -> bool {
        self.bits > SIGN_BIT && !self.is_nan()
    }

    /// The value is strictly greater than zero: a nonzero number with a clear
    /// sign bit, positive infinity included. False of every NaN.
    pub open spec fn is_positive(self) -> bool {
        0 < self.bits <= POSITIVE_INFINITY_BITS
    }

    /// The measurement with the given bit pattern.
    pub fn from_bits(bits: u64) -> (m: Measure)
        ensures
            m.bits == bits,
    {
        Measure { bits }
    }

    /// The bit pattern of the measurement.
    pub fn to_bits(self) -> (bits: u64)
        ensures
            bits == self.bits,
    {
        self.bits
    }

    /// Whether the value is a number below zero.
    pub fn below_zero(self) -> (b: bool)
        ensures
            b == self.is_negative(),
    {
        SIGN_BIT < self.bits && self.bits - SIGN_BIT <= POSITIVE_INFINITY_BITS
    }

    /// Whether the value is strictly greater than zero.
    pub fn exceeds_zero(self) -> (b: bool)
        ensures
            b == self.is_positive(),
    {
        0 < self.bits && self.bits <= POSITIVE_INFINITY_BITS
    }
}

/// Every pattern is exactly one of: NaN, zero, negative, positive.
pub proof fn lemma_measure_classes(m: Measure)
    ensures
        m.is_nan() || m.is_zero() || m.is_negative() || m.is_positive(),
        !(m.is_nan() && m.is_zero()),
        !(m.is_nan() && m.is_negative()),
        !(m.is_nan() && m.is_positive()),
        !(m.is_zero() && m.is_negative()),
        !(m.is_zero() && m.is_positive()),
        !(m.is_negative() && m.is_positive()),
{
}

} // verus!
