//! What the periodic report of a performance run shows: when a report is
//! due, how far the run has come, and how its figures are to be rated.

use crate::performance::patterns::LoadPattern;
use crate::ratio::{Rate, Ratio};
use crate::span::TimeSpan;
use vstd::prelude::*;

verus! {

/// The width of the progress bar, in characters.
pub const BAR_WIDTH: u64 = 20;

/// A rating of a figure, best first.
#[derive(Debug, Clone, Copy, PartialEq, Eq, Structural)]
pub enum Grade {
    Excellent,
    Good,
    Fair,
    Poor,
}

/// The share of `target` that `elapsed` makes, in whole percent, rounded
/// down, and 100 at most; 0 where the target is empty.
pub open spec fn progress_percent(elapsed: nat, target: nat) -> nat {
    if target == 0 {
        0
    } else if elapsed >= target {
        100
    } else {
        (elapsed * 100 / target) as nat
    }
}

/// The rating of a success rate: excellent from 99 percent on, good from
/// 95, fair from 90.
pub open spec fn success_grade(rate: Ratio) -> Grade {
    if !rate.below_percent(99) {
        Grade::Excellent
    } else if !rate.below_percent(95) {
        Grade::Good
    } else if !rate.below_percent(90) {
        Grade::Fair
    } else {
        Grade::Poor
    }
}

/// The rating of a response time, given in nanoseconds, against three
/// limits in milliseconds: excellent up to the first, good up to the
/// second, fair up to the third. Only whole milliseconds count.
pub open spec fn time_grade(nanos: nat, excellent: nat, good: nat, fair: nat) -> Grade {
    let millis = nanos / 1_000_000;
    if millis <= excellent {
        Grade::Excellent
    } else if millis <= good {
        Grade::Good
    } else if millis <= fair {
        Grade::Fair
    } else {
        Grade::Poor
    }
}

/// Whether the rate is at least `per_second` units a second.
pub open spec fn at_least_per_second(rate: Rate, per_second: nat) -> bool {
    rate.amount * 1_000_000_000 >= per_second * rate.nanos
}

/// The rating of a throughput: excellent from 100 requests a second on,
/// good from 50, fair from 10.
pub open spec fn throughput_grade(rate: Rate) -> Grade {
    if at_least_per_second(rate, 100) {
        Grade::Excellent
    } else if at_least_per_second(rate, 50) {
        Grade::Good
    } else if at_least_per_second(rate, 10) {
        Grade::Fair
    } else {
        Grade::Poor
    }
}

/// Decides when a progress report is due and what it shows.
#[derive(Debug, Clone, Copy)]
pub struct PerformanceMonitor {
    pub report_interval: TimeSpan,
    pub load_pattern: LoadPattern,
}

impl PerformanceMonitor {
    /// A monitor that reports every `report_interval`.
    pub fn new(report_interval: TimeSpan, load_pattern: LoadPattern) -> (r: PerformanceMonitor)
        ensures
            r == (PerformanceMonitor { report_interval, load_pattern }),
    {
        PerformanceMonitor { report_interval, load_pattern }
    }

    /// Whether a report is due, `since_last` after the last one.
    pub fn should_report(&self, since_last: TimeSpan) -> (r: bool)
        ensures
            r == (since_last@ >= self.report_interval@),
    {
        since_last.at_least(&self.report_interval)
    }

    /// How far the run has come, in whole percent.
    pub fn progress(elapsed: TimeSpan, target: TimeSpan) -> (r: u64)
        ensures
            r == progress_percent(elapsed@, target@),
            r <= 100,
    {
        let e: u128 = elapsed.as_nanos();
        let t: u128 = target.as_nanos();
        if t == 0 {
            0
        } else if e >= t {
            100
        } else {
            proof {
                assert(e * 100 / t as int <= 100) by (nonlinear_arith)
                    requires
                        0 <= e < t,
                ;
            }
            (e * 100 / t) as u64
        }
    }

    /// How many of the `BAR_WIDTH` characters of the progress bar are
    /// filled at `percent` percent.
    pub fn bar_filled(percent: u64) -> (r: u64)
        requires
            percent <= 100,
        ensures
            r == percent * 20 / 100,
            r <= 20,
    {
        percent * BAR_WIDTH / 100
    }

    /// Rates a success rate.
    pub fn grade_success_rate(rate: &Ratio) -> (r: Grade)
        requires
            rate.num <= u64::MAX,
            rate.den <= u64::MAX,
        ensures
            r == success_grade(*rate),
    {
        if rate.at_least_percent(99) {
            Grade::Excellent
        } else if rate.at_least_percent(95) {
            Grade::Good
        } else if rate.at_least_percent(90) {
            Grade::Fair
        } else {
            Grade::Poor
        }
    }

    /// Rates an average response time: excellent up to 100 ms, good up to
    /// 500 ms, fair up to a second.
    pub fn grade_average(time: TimeSpan) -> (r: Grade)
        ensures
            r == time_grade(time@, 100, 500, 1000),
    {
        PerformanceMonitor::grade_time(time, 100, 500, 1000)
    }

    /// Rates a 95th percentile: excellent up to 200 ms, good up to a second,
    /// fair up to two.
    pub fn grade_p95(time: TimeSpan) -> (r: Grade)
        ensures
            r == time_grade(time@, 200, 1000, 2000),
    {
        PerformanceMonitor::grade_time(time, 200, 1000, 2000)
    }

    /// Rates a response time against three limits in milliseconds.
    pub fn grade_time(time: TimeSpan, excellent: u64, good: u64, fair: u64) -> (r: Grade)
        ensures
            r == time_grade(time@, excellent as nat, good as nat, fair as nat),
    {
        let millis: u128 = time.as_millis();
        if millis <= excellent as u128 {
            Grade::Excellent
        } else if millis <= good as u128 {
            Grade::Good
        } else if millis <= fair as u128 {
            Grade::Fair
        } else {
            Grade::Poor
        }
    }

    /// Rates a throughput.
    pub fn grade_throughput(rate: &Rate) -> (r: Grade)
        requires
            rate.amount <= u64::MAX,
            rate.nanos <= crate::span::max_span_nanos(),
        ensures
            r == throughput_grade(*rate),
    {
        proof {
            assert(rate.amount * 1_000_000_000 <= u64::MAX * 1_000_000_000) by (nonlinear_arith)
                requires
                    rate.amount <= u64::MAX,
            ;
        }
        let scaled: u128 = rate.amount * 1_000_000_000;
        if scaled >= 100 * rate.nanos {
            Grade::Excellent
        } else if scaled >= 50 * rate.nanos {
            Grade::Good
        } else if scaled >= 10 * rate.nanos {
            Grade::Fair
        } else {
            Grade::Poor
        }
    }
}

} // verus!
