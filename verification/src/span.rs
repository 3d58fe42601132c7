//! A length of time, kept as whole seconds and nanoseconds.

use vstd::prelude::*;

verus! {

/// Nanoseconds in one second.
pub const NANOS_PER_SEC: u32 = 1_000_000_000;

/// Nanoseconds in one millisecond.
pub const NANOS_PER_MILLI: u32 = 1_000_000;

/// The largest number of nanoseconds that a `TimeSpan` can hold.
pub open spec fn max_span_nanos() -> nat {
    0xffff_ffff_ffff_ffff * 1_000_000_000 + 999_999_999
}

/// A non-negative length of time with nanosecond resolution. Its model is
/// the total number of nanoseconds, `self@`.
#[derive(Clone, Copy, Debug, PartialEq, Eq, PartialOrd, Ord, Hash)]
pub struct TimeSpan {
    secs: u64,
    nanos: u32,
}

impl View for TimeSpan {
    type V = nat;

    closed spec fn view(&self) -> nat {
        (self.secs as nat) * 1_000_000_000 + self.nanos as nat
    }
}

impl TimeSpan {
    #[verifier::type_invariant]
    spec fn well_formed(self) -> bool {
        self.nanos < 1_000_000_000
    }

    /// The empty span.
    pub fn zero() -> (r: TimeSpan)
        ensures
            r@ == 0,
    {
        TimeSpan { secs: 0, nanos: 0 }
    }

    /// A span of `secs` seconds and `subsec_nanos` nanoseconds.
    pub fn from_parts(secs: u64, subsec_nanos: u32) -> (r: TimeSpan)
        requires
            subsec_nanos < 1_000_000_000,
        ensures
            r@ == secs as nat * 1_000_000_000 + subsec_nanos as nat,
    {
        TimeSpan { secs, nanos: subsec_nanos }
    }

    /// A span of `secs` seconds.
    pub fn from_secs(secs: u64) -> (r: TimeSpan)
        ensures
            r@ == secs as nat * 1_000_000_000,
    {
        TimeSpan { secs, nanos: 0 }
    }

    /// A span of `millis` milliseconds.
    pub fn from_millis(millis: u64) -> (r: TimeSpan)
        ensures
            r@ == millis as nat * 1_000_000,
    {
        let secs: u64 = millis / 1000;
        let rest: u32 = (millis % 1000) as u32;
        let nanos: u32 = rest * NANOS_PER_MILLI;
        proof {
            assert((millis / 1000) as nat * 1_000_000_000 + (millis % 1000) as nat * 1_000_000
                == millis as nat * 1_000_000) by (nonlinear_arith);
        }
        TimeSpan { secs, nanos }
    }

    /// A span of `nanos` nanoseconds.
    pub fn from_nanos(nanos: u64) -> (r: TimeSpan)
        ensures
            r@ == nanos as nat,
    {
        let secs: u64 = nanos / 1_000_000_000;
        let rest: u32 = (nanos % 1_000_000_000) as u32;
        proof {
            assert((nanos / 1_000_000_000) as nat * 1_000_000_000 + (nanos % 1_000_000_000) as nat
                == nanos as nat) by (nonlinear_arith);
        }
        TimeSpan { secs, nanos: rest }
    }

    /// A span of `total` nanoseconds, where that many fit.
    pub fn from_total_nanos(total: u128) -> (r: TimeSpan)
        requires
            total <= max_span_nanos(),
        ensures
            r@ == total as nat,
    {
        let q: u128 = total / 1_000_000_000;
        let rest: u32 = (total % 1_000_000_000) as u32;
        proof {
            assert(total / 1_000_000_000 <= 0xffff_ffff_ffff_ffff) by (nonlinear_arith)
                requires
                    total <= 0xffff_ffff_ffff_ffff * 1_000_000_000 + 999_999_999,
            ;
            assert((total / 1_000_000_000) as nat * 1_000_000_000 + (total % 1_000_000_000) as nat
                == total as nat) by (nonlinear_arith);
        }
        TimeSpan { secs: q as u64, nanos: rest }
    }

    /// The whole seconds of the span.
    pub fn as_secs(&self) -> (r: u64)
        ensures
            r == self@ / 1_000_000_000,
    {
        proof {
            use_type_invariant(self);
            assert(((self.secs as nat) * 1_000_000_000 + self.nanos as nat) / 1_000_000_000
                == self.secs as nat) by (nonlinear_arith)
                requires
                    self.nanos < 1_000_000_000,
            ;
        }
        self.secs
    }

    /// What is left of the span beyond its whole seconds, in nanoseconds.
    pub fn subsec_nanos(&self) -> (r: u32)
        ensures
            r == self@ % 1_000_000_000,
    {
        proof {
            use_type_invariant(self);
            assert(((self.secs as nat) * 1_000_000_000 + self.nanos as nat) % 1_000_000_000
                == self.nanos as nat) by (nonlinear_arith)
                requires
                    self.nanos < 1_000_000_000,
            ;
        }
        self.nanos
    }

    /// The length of the span in nanoseconds.
    pub fn as_nanos(&self) -> (r: u128)
        ensures
            r == self@,
            r <= max_span_nanos(),
    {
        proof {
            use_type_invariant(self);
            assert((self.secs as nat) * 1_000_000_000 <= 0xffff_ffff_ffff_ffff * 1_000_000_000)
                by (nonlinear_arith)
                requires
                    self.secs <= 0xffff_ffff_ffff_ffff,
            ;
        }
        let s: u128 = self.secs as u128;
        let n: u128 = self.nanos as u128;
        s * 1_000_000_000 + n
    }

    /// The length of the span in whole milliseconds.
    pub fn as_millis(&self) -> (r: u128)
        ensures
            r == self@ / 1_000_000,
    {
        self.as_nanos() / 1_000_000
    }

    /// Whether `self` is strictly shorter than `other`.
    pub fn shorter_than(&self, other: &TimeSpan) -> (r: bool)
        ensures
            r == (self@ < other@),
    {
        self.as_nanos() < other.as_nanos()
    }

    /// Whether `self` is at least as long as `other`.
    pub fn at_least(&self, other: &TimeSpan) -> (r: bool)
        ensures
            r == (self@ >= other@),
    {
        self.as_nanos() >= other.as_nanos()
    }

    /// `self - other`, or the empty span where `other` is the longer.
    pub fn saturating_sub(&self, other: &TimeSpan) -> (r: TimeSpan)
        ensures
            r@ == if self@ >= other@ {
                self@ - other@
            } else {
                0
            },
    {
        let a: u128 = self.as_nanos();
        let b: u128 = other.as_nanos();
        if a >= b {
            TimeSpan::from_total_nanos(a - b)
        } else {
            TimeSpan::zero()
        }
    }
}

} // verus!
