//! The shape of the load over time: how many requests per second the
//! workers aim at, as a function of the time since the start of the run.

use crate::decimal::{decimal_text, one_decimal, push_decimal, push_one_decimal, tenths_of};
use crate::span::{max_span_nanos, TimeSpan};
use crate::text::{push_str_chars, same_text, text_of};
use vstd::prelude::*;

verus! {

/// The shapes of load.
#[derive(Debug, Clone, Copy, PartialEq, Eq, Structural)]
pub enum LoadPattern {
    /// The same load throughout.
    Constant,
    /// A load that grows from nothing to the full rate over the warm-up.
    RampUp,
    /// The full rate, doubled for the first five seconds of every thirty.
    Spike,
}

/// The pattern that `name` names: `constant`, `ramp-up` or `spike`.
pub open spec fn pattern_named(name: Seq<char>) -> Option<LoadPattern> {
    if name == "constant"@ {
        Some(LoadPattern::Constant)
    } else if name == "ramp-up"@ {
        Some(LoadPattern::RampUp)
    } else if name == "spike"@ {
        Some(LoadPattern::Spike)
    } else {
        None
    }
}

/// The message for a name that names no pattern.
pub open spec fn invalid_pattern_message(name: Seq<char>) -> Seq<char> {
    "Invalid load pattern '"@ + name + "'. Use: constant, ramp-up, spike"@
}

impl LoadPattern {
    /// The pattern that `name` names, if it names one.
    pub fn from_name(name: &str) -> (r: Option<LoadPattern>)
        ensures
            r == pattern_named(name@),
    {
        if same_text(name, "constant") {
            Some(LoadPattern::Constant)
        } else if same_text(name, "ramp-up") {
            Some(LoadPattern::RampUp)
        } else if same_text(name, "spike") {
            Some(LoadPattern::Spike)
        } else {
            None
        }
    }

    /// The message for the name `name`, which names no pattern.
    pub fn invalid_name_message(name: &str) -> (r: String)
        ensures
            r@ == invalid_pattern_message(name@),
    {
        let mut out: Vec<char> = Vec::new();
        push_str_chars(&mut out, "Invalid load pattern '");
        push_str_chars(&mut out, name);
        push_str_chars(&mut out, "'. Use: constant, ramp-up, spike");
        proof {
            assert(out@ =~= invalid_pattern_message(name@));
        }
        text_of(&out)
    }
}

/// The length of a spike cycle, in nanoseconds.
pub const CYCLE_NANOS: u128 = 30_000_000_000;

/// The length of the spike at the start of a cycle, in nanoseconds.
pub const SPIKE_NANOS: u128 = 5_000_000_000;

/// A request rate: `base * num / den` requests per second, with `den > 0`.
#[derive(Debug, Clone, Copy, PartialEq, Eq, Structural)]
pub struct TargetRate {
    pub base: u64,
    pub num: u128,
    pub den: u128,
}

impl TargetRate {
    /// Whether the rate is strictly below `rps` requests per second.
    pub open spec fn below(self, rps: int) -> bool {
        self.base * self.num < rps * self.den
    }

    /// Whether the rate is exactly `rps` requests per second.
    pub open spec fn is(self, rps: int) -> bool {
        self.base * self.num == rps * self.den
    }

    /// The pause between two requests at this rate, in whole milliseconds:
    /// 1000 divided by the rate, rounded down; the largest pause there is at
    /// the rate 0.
    pub open spec fn delay_millis(self) -> nat {
        if self.base * self.num == 0 {
            u64::MAX as nat
        } else {
            let millis = (1000 * self.den) as int / (self.base * self.num) as int;
            if millis > u64::MAX {
                u64::MAX as nat
            } else {
                millis as nat
            }
        }
    }
}

/// Whether the time `elapsed` falls into the spike of its cycle.
pub open spec fn in_spike(elapsed: nat) -> bool {
    elapsed % 30_000_000_000 < 5_000_000_000
}

/// The rate that the pattern asks for after `elapsed` nanoseconds, given the
/// full rate `base` and a warm-up of `warmup` nanoseconds.
pub open spec fn target_rate(pattern: LoadPattern, base: u64, warmup: nat, elapsed: nat)
    -> TargetRate {
    match pattern {
        LoadPattern::Constant => TargetRate { base, num: 1, den: 1 },
        LoadPattern::RampUp => if elapsed < warmup {
            TargetRate { base, num: elapsed as u128, den: warmup as u128 }
        } else {
            TargetRate { base, num: 1, den: 1 }
        },
        LoadPattern::Spike => if in_spike(elapsed) {
            TargetRate { base, num: 2, den: 1 }
        } else {
            TargetRate { base, num: 1, den: 1 }
        },
    }
}

/// The number of users that the pattern asks for after `elapsed`
/// nanoseconds: during the warm-up of a ramp the share of the users that
/// the time passed makes of the warm-up, rounded down, and one at least.
pub open spec fn target_users(pattern: LoadPattern, users: u32, warmup: nat, elapsed: nat) -> nat {
    match pattern {
        LoadPattern::Constant => users as nat,
        LoadPattern::RampUp => if elapsed < warmup {
            let share = (users * elapsed) as int / warmup as int;
            if share < 1 {
                1
            } else {
                share as nat
            }
        } else {
            users as nat
        },
        LoadPattern::Spike => if in_spike(elapsed) {
            (users * 2) as nat
        } else {
            users as nat
        },
    }
}

/// A number of nanoseconds as seconds with one decimal, rounded to the
/// nearest tenth, a half going to the even tenth.
pub open spec fn tenths_text(nanos: nat) -> Seq<char> {
    one_decimal(tenths_of(nanos, 1_000_000_000))
}

/// The words for the phase that the pattern is in after `elapsed`
/// nanoseconds.
pub open spec fn phase_text(pattern: LoadPattern, warmup: nat, elapsed: nat) -> Seq<char> {
    match pattern {
        LoadPattern::Constant => "Constant load"@,
        LoadPattern::RampUp => if elapsed < warmup {
            "Ramping up ("@ + decimal_text(((elapsed * 100) as int / warmup as int) as nat) + "%)"@
        } else {
            "Full load"@
        },
        LoadPattern::Spike => {
            let in_cycle = elapsed % 30_000_000_000;
            if in_cycle < 5_000_000_000 {
                "Spike phase ("@ + tenths_text((5_000_000_000 - in_cycle) as nat)
                    + "s remaining)"@
            } else {
                "Normal phase ("@ + tenths_text((30_000_000_000 - in_cycle) as nat)
                    + "s to spike)"@
            }
        },
    }
}

/// Computes the target rate of a run from the time since its start.
#[derive(Debug, Clone, Copy)]
pub struct LoadController {
    pub pattern: LoadPattern,
    pub target_rps: Option<u32>,
    pub concurrent_users: u32,
    pub warmup_duration: TimeSpan,
}

impl LoadController {
    /// A controller for the pattern. Without a target rate the full rate is
    /// ten requests per second and user.
    pub fn new(
        pattern: LoadPattern,
        target_rps: Option<u32>,
        concurrent_users: u32,
        warmup_duration: TimeSpan,
    ) -> (r: LoadController)
        ensures
            r == (LoadController { pattern, target_rps, concurrent_users, warmup_duration }),
    {
        LoadController { pattern, target_rps, concurrent_users, warmup_duration }
    }

    /// The full rate: the target where one is set, else ten requests per
    /// second and user.
    pub open spec fn base(self) -> u64 {
        match self.target_rps {
            Some(rps) => rps as u64,
            None => (self.concurrent_users * 10) as u64,
        }
    }

    /// The full rate.
    pub fn base_rps(&self) -> (r: u64)
        ensures
            r == self.base(),
    {
        match self.target_rps {
            Some(rps) => rps as u64,
            None => (self.concurrent_users as u64) * 10,
        }
    }

    /// The rate to aim at, `elapsed` after the start of the run.
    pub fn current_target_rps(&self, elapsed: TimeSpan) -> (r: TargetRate)
        ensures
            r == target_rate(self.pattern, self.base(), self.warmup_duration@, elapsed@),
            0 < r.den <= max_span_nanos(),
    {
        let base = self.base_rps();
        match self.pattern {
            LoadPattern::Constant => TargetRate { base, num: 1, den: 1 },
            LoadPattern::RampUp => {
                if elapsed.shorter_than(&self.warmup_duration) {
                    TargetRate {
                        base,
                        num: elapsed.as_nanos(),
                        den: self.warmup_duration.as_nanos(),
                    }
                } else {
                    TargetRate { base, num: 1, den: 1 }
                }
            },
            LoadPattern::Spike => {
                if elapsed.as_nanos() % CYCLE_NANOS < SPIKE_NANOS {
                    TargetRate { base, num: 2, den: 1 }
                } else {
                    TargetRate { base, num: 1, den: 1 }
                }
            },
        }
    }

    /// The number of users to run, `elapsed` after the start of the run.
    pub fn current_concurrent_users(&self, elapsed: TimeSpan) -> (r: u64)
        ensures
            r == target_users(
                self.pattern,
                self.concurrent_users,
                self.warmup_duration@,
                elapsed@,
            ),
    {
        let users: u64 = self.concurrent_users as u64;
        match self.pattern {
            LoadPattern::Constant => users,
            LoadPattern::RampUp => {
                if elapsed.shorter_than(&self.warmup_duration) {
                    let e: u128 = elapsed.as_nanos();
                    let w: u128 = self.warmup_duration.as_nanos();
                    proof {
                        assert(users * e <= 0xffff_ffff * e) by (nonlinear_arith)
                            requires
                                users <= 0xffff_ffff,
                        ;
                        assert((users * e) as int / w as int <= users) by (nonlinear_arith)
                            requires
                                e < w,
                                0 <= users,
                                0 <= e,
                        ;
                    }
                    let share: u128 = ((users as u128) * e) / w;
                    if share < 1 {
                        1
                    } else {
                        share as u64
                    }
                } else {
                    users
                }
            },
            LoadPattern::Spike => {
                if elapsed.as_nanos() % CYCLE_NANOS < SPIKE_NANOS {
                    users * 2
                } else {
                    users
                }
            },
        }
    }

    /// The pause that a worker makes between two requests, `elapsed` after
    /// the start of the run; none where no target rate is set.
    pub fn request_delay(&self, elapsed: TimeSpan) -> (r: Option<TimeSpan>)
        ensures
            self.target_rps is None ==> r is None,
            self.target_rps is Some ==> r is Some && r->0@ == target_rate(
                self.pattern,
                self.base(),
                self.warmup_duration@,
                elapsed@,
            ).delay_millis() * 1_000_000,
    {
        if self.target_rps.is_none() {
            return None;
        }
        let rate = self.current_target_rps(elapsed);
        let millis: u64 = delay_of(rate);
        Some(TimeSpan::from_millis(millis))
    }

    /// The phase of the run, `elapsed` after its start, in words.
    pub fn current_phase_description(&self, elapsed: TimeSpan) -> (r: String)
        ensures
            r@ == phase_text(self.pattern, self.warmup_duration@, elapsed@),
    {
        let mut out: Vec<char> = Vec::new();
        match self.pattern {
            LoadPattern::Constant => {
                push_str_chars(&mut out, "Constant load");
            },
            LoadPattern::RampUp => {
                if elapsed.shorter_than(&self.warmup_duration) {
                    let e: u128 = elapsed.as_nanos();
                    let w: u128 = self.warmup_duration.as_nanos();
                    push_str_chars(&mut out, "Ramping up (");
                    push_decimal(&mut out, (e * 100) / w);
                    push_str_chars(&mut out, "%)");
                } else {
                    push_str_chars(&mut out, "Full load");
                }
            },
            LoadPattern::Spike => {
                let in_cycle: u128 = elapsed.as_nanos() % CYCLE_NANOS;
                if in_cycle < SPIKE_NANOS {
                    push_str_chars(&mut out, "Spike phase (");
                    push_one_decimal(&mut out, SPIKE_NANOS - in_cycle, 1_000_000_000);
                    push_str_chars(&mut out, "s remaining)");
                } else {
                    push_str_chars(&mut out, "Normal phase (");
                    push_one_decimal(&mut out, CYCLE_NANOS - in_cycle, 1_000_000_000);
                    push_str_chars(&mut out, "s to spike)");
                }
            },
        }
        proof {
            assert(out@ =~= phase_text(self.pattern, self.warmup_duration@, elapsed@));
        }
        text_of(&out)
    }
}

/// The pause between two requests at `rate`, in whole milliseconds.
pub fn delay_of(rate: TargetRate) -> (millis: u64)
    requires
        0 < rate.den <= max_span_nanos(),
    ensures
        millis == rate.delay_millis(),
{
    if rate.base == 0 || rate.num == 0 {
        proof {
            assert(rate.base * rate.num == 0) by (nonlinear_arith)
                requires
                    rate.base == 0 || rate.num == 0,
            ;
        }
        return u64::MAX;
    }
    let scaled: u128 = 1000 * rate.den;
    proof {
        assert(rate.base * rate.num > 0) by (nonlinear_arith)
            requires
                rate.base > 0,
                rate.num > 0,
        ;
    }
    match (rate.base as u128).checked_mul(rate.num) {
        Some(per_second) => {
            let millis: u128 = scaled / per_second;
            if millis > u64::MAX as u128 {
                u64::MAX
            } else {
                millis as u64
            }
        },
        None => {
            proof {
                let product = rate.base * rate.num;
                assert(scaled as int / product as int == 0) by (nonlinear_arith)
                    requires
                        0 <= scaled < product,
                ;
            }
            0
        },
    }
}

/// During the warm-up a ramp stays strictly below the full rate, from the
/// very start on; once the warm-up is over it is at the full rate.
pub proof fn lemma_ramp_up(base: u64, warmup: nat, elapsed: nat)
    requires
        warmup <= u128::MAX,
    ensures
        elapsed < warmup && base > 0 ==> target_rate(
            LoadPattern::RampUp,
            base,
            warmup,
            elapsed,
        ).below(base as int),
        warmup > 0 && base > 0 ==> target_rate(LoadPattern::RampUp, base, warmup, 0).below(
            base as int,
        ),
        elapsed >= warmup ==> target_rate(LoadPattern::RampUp, base, warmup, elapsed).is(
            base as int,
        ),
{
    if elapsed < warmup && base > 0 {
        assert(base * elapsed < base * warmup) by (nonlinear_arith)
            requires
                elapsed < warmup,
                base > 0,
        ;
    }
    if warmup > 0 && base > 0 {
        let start = target_rate(LoadPattern::RampUp, base, warmup, 0);
        assert(start.num == 0 && start.den == warmup);
        assert(base * 0 < base * warmup) by (nonlinear_arith)
            requires
                warmup > 0,
                base > 0,
        ;
    }
}

/// A constant load at a target of `rps` requests per second pauses
/// `1000 / rps` milliseconds, rounded down, between two requests.
pub proof fn lemma_constant_delay(rps: u32, warmup: nat, elapsed: nat)
    requires
        rps > 0,
    ensures
        target_rate(LoadPattern::Constant, rps as u64, warmup, elapsed).delay_millis() == 1000int
            / rps as int,
{
    let rate = target_rate(LoadPattern::Constant, rps as u64, warmup, elapsed);
    assert(rate.base == rps && rate.num == 1 && rate.den == 1);
    assert(rate.base * rate.num == rps) by (nonlinear_arith)
        requires
            rate.base == rps,
            rate.num == 1,
    ;
    assert(1000 * rate.den == 1000);
    assert(1000int / rps as int <= 1000) by (nonlinear_arith)
        requires
            rps > 0,
    ;
}

} // verus!
