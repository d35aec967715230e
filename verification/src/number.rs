//! Real numbers as they cross the engine boundary.

use vstd::prelude::*;

verus! {

/// A real number, held by the bit pattern of its IEEE-754 binary64 encoding.
///
/// The library stores real bounds, real parameter values and objectives and hands them
/// on; it never computes with them. Two reals are equal when their bit patterns are.
#[derive(Debug, Clone, Copy, PartialEq, Eq, Structural)]
pub struct Real {
    /// The binary64 bit pattern.
    pub bits: u64,
}

impl Real {
    /// Makes a real from its binary64 bit pattern.
    pub fn from_bits(bits: u64) -> (number: Real)
        ensures
            number.bits == bits,
    {
        Real { bits }
    }

    /// Returns the binary64 bit pattern.
    pub fn to_bits(self) -> (bits: u64)
        ensures
            bits == self.bits,
    {
        self.bits
    }
}

} // verus!
