//! Exact fractions.
//!
//! The statistics of this crate are stated and computed over exact integer
//! fractions instead of approximate machine numbers: a `Ratio` carries a
//! numerator and a denominator and is never reduced or rounded.

use vstd::prelude::*;

verus! {

/// An exact fraction `num / den`.  The denominator records how the value was
/// formed and may be zero where the underlying statistic is undefined (for
/// example a variance of zero); callers must test `den` before dividing.
#[derive(Debug, Clone, Copy, PartialEq, Eq, Structural)]
pub struct Ratio {
    pub num: i128,
    pub den: i128,
}

impl Ratio {
    /// The fraction stands for the integer `k`.
    pub open spec fn is_int(self, k: int) -> bool {
        &&& self.den != 0
        &&& self.num == k * self.den
    }

    /// Two fractions stand for the same value (cross multiplication).
    pub open spec fn same_value(self, other: Ratio) -> bool {
        self.num * other.den == other.num * self.den
    }

    /// Build the fraction `num / den`.
    pub fn new(num: i128, den: i128) -> (r: Ratio)
        ensures
            r.num == num,
            r.den == den,
    {
        Ratio { num, den }
    }
}

} // verus!
