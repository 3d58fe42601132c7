//! Fractions and rates, kept as integers.

use vstd::prelude::*;

verus! {

/// The fraction `num / den`. A fraction with `den == 0` has no value.
#[derive(Clone, Copy, Debug, PartialEq, Eq)]
pub struct Ratio {
    pub num: u128,
    pub den: u128,
}

impl Ratio {
    /// The fraction 0.
    pub fn zero() -> (r: Ratio)
        ensures
            r == (Ratio { num: 0, den: 1 }),
    {
        Ratio { num: 0, den: 1 }
    }

    /// Whether the fraction is strictly below `percent` hundredths.
    pub open spec fn below_percent(self, percent: nat) -> bool {
        self.num * 100 < percent * self.den
    }

    /// Whether the fraction is at least `percent` hundredths.
    pub fn at_least_percent(&self, percent: u8) -> (r: bool)
        requires
            self.num <= u64::MAX,
            self.den <= u64::MAX,
        ensures
            r == !self.below_percent(percent as nat),
    {
        proof {
            assert(self.num * 100 <= u64::MAX * 100) by (nonlinear_arith)
                requires
                    self.num <= u64::MAX,
            ;
            assert(percent * self.den <= 255 * u64::MAX) by (nonlinear_arith)
                requires
                    percent <= 255,
                    self.den <= u64::MAX,
            ;
        }
        self.num * 100 >= (percent as u128) * self.den
    }
}

/// `amount` units over a period of `nanos` nanoseconds. A rate over an
/// empty period has no value.
#[derive(Clone, Copy, Debug, PartialEq, Eq)]
pub struct Rate {
    pub amount: u128,
    pub nanos: u128,
}

impl Rate {
    /// Nothing, over one second.
    pub fn zero() -> (r: Rate)
        ensures
            r == (Rate { amount: 0, nanos: 1_000_000_000 }),
    {
        Rate { amount: 0, nanos: 1_000_000_000 }
    }
}

} // verus!
