//! Fixed-point decimal amounts.
//!
//! Prices and sizes are held as a signed count of billionths, so every value
//! the ladder algorithm produces is an exact rational with nine decimal
//! places.  All arithmetic on them is verified; the contracts speak of the
//! raw unit counts.

use vstd::prelude::*;

verus! {

/// Number of units in one whole: nine decimal places of resolution.
pub const SCALE: i64 = 1_000_000_000;

/// A decimal amount or price, stored as `units` billionths.
#[derive(Clone, Copy, Debug, PartialEq, Eq, Structural)]
pub struct Dec {
    pub units: i64,
}

impl Dec {
    /// The exact value scaled by `SCALE`, as a mathematical integer.
    pub open spec fn v(&self) -> int {
        self.units as int
    }

    /// Builds a value from a raw unit count (billionths).
    pub fn from_units(units: i64) -> (r: Dec)
        ensures
            r.units == units,
    {
        Dec { units }
    }

    /// True exactly when the value is below zero.
    pub fn is_negative(&self) -> (r: bool)
        ensures
            r == (self.v() < 0),
    {
        self.units < 0
    }

    /// True exactly when the value is above zero.
    pub fn is_positive(&self) -> (r: bool)
        ensures
            r == (self.v() > 0),
    {
        self.units > 0
    }

    /// Comparison: `self <= other` on the exact values.
    pub fn le(&self, other: &Dec) -> (r: bool)
        ensures
            r == (self.v() <= other.v()),
    {
        self.units <= other.units
    }
}

/// Computes `a * b / c` exactly on nonnegative operands, truncating the
/// quotient; `None` when the quotient does not fit in a unit count.
pub fn mul_div(a: i64, b: i64, c: i64) -> (r: Option<i64>)
    requires
        a >= 0,
        b >= 0,
        c > 0,
    ensures
        (match r {
            Some(q) => q == (a * b) / (c as int),
            None => (a * b) / (c as int) > i64::MAX,
        }),
{
    proof {
        vstd::arithmetic::mul::lemma_mul_upper_bound(
            a as int,
            i64::MAX as int,
            b as int,
            i64::MAX as int,
        );
        vstd::arithmetic::mul::lemma_mul_nonnegative(a as int, b as int);
    }
    let p: u128 = (a as u128) * (b as u128);
    let q: u128 = p / (c as u128);
    if q > i64::MAX as u128 {
        None
    } else {
        Some(q as i64)
    }
}

} // verus!
