//! The decisions of a performance run: which suite it drives, what a
//! worker sends next, what it records of the outcome and how long it
//! pauses.

use crate::bindings::{bind_all, Bindings, Entry};
use crate::config::{RivetConfig, TestStep};
use crate::decimal::{decimal_text, push_decimal};
use crate::performance::metrics::{MetricsModel, PerformanceMetrics, PerformanceResults};
use crate::performance::patterns::{target_rate, LoadController, LoadPattern};
use crate::ratio::Ratio;
use crate::runner::executor::{RequestExecutor, TestResult};
use crate::runner::variables::VariableContext;
use crate::span::TimeSpan;
use crate::text::{push_str_chars, text_of};
use vstd::prelude::*;
use vstd::utf8::encode_utf8;

verus! {

/// The time that a request of a performance run is given, in seconds.
pub const PERFORMANCE_TIMEOUT_SECS: u64 = 60;

/// The pause that a worker makes after every request, whatever the rate,
/// in milliseconds.
pub const MINIMAL_PAUSE_MILLIS: u64 = 1;

/// The share of successful requests below which a run fails, in percent.
pub const SUCCESS_THRESHOLD_PERCENT: u8 = 95;

/// The bytes counted as sent for a request without a body.
pub const BODYLESS_REQUEST_BYTES: u64 = 100;

/// Why a performance run cannot start.
#[derive(Debug)]
pub enum PerformanceError {
    /// The target holds no suite.
    NoSuites,
    /// The suite named holds no step.
    NoTests(String),
}

/// What a `PerformanceError` holds.
pub enum PerformanceErrorModel {
    NoSuites,
    NoTests(Seq<char>),
}

impl View for PerformanceError {
    type V = PerformanceErrorModel;

    open spec fn view(&self) -> PerformanceErrorModel {
        match self {
            PerformanceError::NoSuites => PerformanceErrorModel::NoSuites,
            PerformanceError::NoTests(name) => PerformanceErrorModel::NoTests(name@),
        }
    }
}

impl PerformanceErrorModel {
    /// The message of the error.
    pub open spec fn message(self) -> Seq<char> {
        match self {
            PerformanceErrorModel::NoSuites => "No test suites found in target path"@,
            PerformanceErrorModel::NoTests(name) => "Test suite '"@ + name
                + "' contains no tests"@,
        }
    }
}

impl PerformanceError {
    /// The message of the error.
    pub fn message(&self) -> (r: String)
        ensures
            r@ == self@.message(),
    {
        let mut out: Vec<char> = Vec::new();
        match self {
            PerformanceError::NoSuites => {
                push_str_chars(&mut out, "No test suites found in target path");
            },
            PerformanceError::NoTests(name) => {
                push_str_chars(&mut out, "Test suite '");
                push_str_chars(&mut out, name.as_str());
                push_str_chars(&mut out, "' contains no tests");
            },
        }
        proof {
            assert(out@ =~= self@.message());
        }
        text_of(&out)
    }
}

/// The length of a text in bytes of UTF-8.
pub open spec fn byte_len(s: Seq<char>) -> nat {
    encode_utf8(s).len()
}

/// The bytes counted as sent for `step`: the length of its body, as its
/// template has it, or a fixed number for a request without a body.
pub open spec fn sent_bytes(step: TestStep) -> nat {
    match step.request.body {
        Some(body) => byte_len(body@),
        None => 100,
    }
}

/// The bytes counted as received for `result`: the length of the body of
/// the response, where there is one.
pub open spec fn received_bytes(result: TestResult) -> nat {
    match result.response_body {
        Some(body) => byte_len(body@),
        None => 0,
    }
}

/// The aggregate after the outcome `result` of `step`. A failure without a
/// status, or with the status 0, counts as a connection error; any other
/// outcome counts as a request, with the status 0 where none was seen.
pub open spec fn recorded(m: MetricsModel, step: TestStep, result: TestResult) -> MetricsModel {
    let status: u16 = match result.response_status {
        Some(s) => s,
        None => 0,
    };
    if !result.passed && status == 0 {
        m.record_connection_error()
    } else {
        m.record_request(
            result.duration@,
            status,
            sent_bytes(step),
            received_bytes(result),
            !result.passed,
        )
    }
}

/// The name of the request that worker `worker` sends after `index` was
/// advanced.
pub open spec fn worker_label(worker: u32, index: nat) -> Seq<char> {
    "worker_"@ + decimal_text(worker as nat) + "_test_"@ + decimal_text(index)
}

/// The pause after a request: the pause that the rate asks for, if any,
/// and the minimal pause on top.
pub open spec fn pause_nanos(controller: LoadController, elapsed: nat) -> nat {
    let paced: nat = match controller.target_rps {
        Some(_) => target_rate(
            controller.pattern,
            controller.base(),
            controller.warmup_duration@,
            elapsed,
        ).delay_millis() * 1_000_000,
        None => 0,
    };
    paced + 1_000_000
}

/// Drives one suite at a controlled rate.
#[derive(Debug, Clone)]
pub struct PerformanceTestRunner {
    pub concurrent_users: u32,
    pub target_rps: Option<u32>,
    pub test_duration: TimeSpan,
    pub warmup_duration: TimeSpan,
    pub report_interval: TimeSpan,
    pub load_pattern: LoadPattern,
    pub executor: RequestExecutor,
}

impl PerformanceTestRunner {
    /// A runner. Its requests are given a minute each, so that a server
    /// under load is not taken for a dead one.
    pub fn new(
        concurrent_users: u32,
        target_rps: Option<u32>,
        test_duration: TimeSpan,
        warmup_duration: TimeSpan,
        report_interval: TimeSpan,
        load_pattern: LoadPattern,
    ) -> (r: PerformanceTestRunner)
        ensures
            r.concurrent_users == concurrent_users,
            r.target_rps == target_rps,
            r.test_duration == test_duration,
            r.warmup_duration == warmup_duration,
            r.report_interval == report_interval,
            r.load_pattern == load_pattern,
            r.executor.timeout()@ == 60 * 1_000_000_000,
    {
        PerformanceTestRunner {
            concurrent_users,
            target_rps,
            test_duration,
            warmup_duration,
            report_interval,
            load_pattern,
            executor: RequestExecutor::new(TimeSpan::from_secs(PERFORMANCE_TIMEOUT_SECS)),
        }
    }

    /// The controller of the run.
    pub fn load_controller(&self) -> (r: LoadController)
        ensures
            r == (LoadController {
                pattern: self.load_pattern,
                target_rps: self.target_rps,
                concurrent_users: self.concurrent_users,
                warmup_duration: self.warmup_duration,
            }),
    {
        LoadController::new(
            self.load_pattern,
            self.target_rps,
            self.concurrent_users,
            self.warmup_duration,
        )
    }

    /// The suite that the run drives: the first of those found, whatever
    /// follows it. Fails where none was found, or where the first holds no
    /// step.
    pub fn select_suite(suites: &Vec<(String, RivetConfig)>) -> (r: Result<
        usize,
        PerformanceError,
    >)
        ensures
            match r {
                Ok(at) => at == 0 && suites@.len() > 0 && suites@[0].1.tests@.len() > 0,
                Err(e) => if suites@.len() == 0 {
                    e@ == PerformanceErrorModel::NoSuites
                } else {
                    suites@[0].1.tests@.len() == 0 && e@ == PerformanceErrorModel::NoTests(
                        suites@[0].0@,
                    )
                },
            },
    {
        if suites.len() == 0 {
            return Err(PerformanceError::NoSuites);
        }
        if suites[0].1.tests.len() == 0 {
            return Err(PerformanceError::NoTests(suites[0].0.clone()));
        }
        Ok(0)
    }

    /// The context of a worker: the variables of the suite as they are
    /// declared, where an environment name is given, and none else.
    pub fn worker_context(config: &RivetConfig, env: Option<&str>, environment: Bindings) -> (r:
        VariableContext)
        ensures
            r.env@ == environment@,
            r.vars@ == match (env, config.vars) {
                (Some(_), Some(vars)) => bind_all(Seq::<Entry>::empty(), vars@),
                _ => Seq::<Entry>::empty(),
            },
    {
        let context = VariableContext::new().with_environment(environment);
        match (env, &config.vars) {
            (Some(_), Some(vars)) => context.with_data_row(vars),
            _ => context,
        }
    }

    /// The step that a worker sends after the step at `current`: the steps
    /// take turns.
    pub fn next_index(current: usize, test_count: usize) -> (r: usize)
        requires
            test_count > 0,
            current < test_count,
        ensures
            r == (current + 1) % test_count as int,
            r < test_count,
    {
        proof {
            if current + 1 == test_count {
                vstd::arithmetic::div_mod::lemma_mod_self_0(test_count as int);
            } else {
                vstd::arithmetic::div_mod::lemma_small_mod((current + 1) as nat, test_count as nat);
            }
        }
        if current + 1 == test_count {
            0
        } else {
            current + 1
        }
    }

    /// The name of the request that worker `worker_id` sends, `index` being
    /// the turn that comes after it.
    pub fn request_label(worker_id: u32, index: usize) -> (r: String)
        ensures
            r@ == worker_label(worker_id, index as nat),
    {
        let mut out: Vec<char> = Vec::new();
        push_str_chars(&mut out, "worker_");
        push_decimal(&mut out, worker_id as u128);
        push_str_chars(&mut out, "_test_");
        push_decimal(&mut out, index as u128);
        proof {
            assert(out@ =~= worker_label(worker_id, index as nat));
        }
        text_of(&out)
    }

    /// Whether a worker that has run for `elapsed` sends another request.
    pub fn keeps_running(&self, elapsed: TimeSpan) -> (r: bool)
        ensures
            r == (elapsed@ < self.test_duration@),
    {
        elapsed.shorter_than(&self.test_duration)
    }

    /// Records the outcome `result` of `step`.
    pub fn record_outcome(metrics: &mut PerformanceMetrics, step: &TestStep, result: &TestResult)
        requires
            old(metrics).wf(),
            old(metrics)@.total_requests() < u64::MAX,
        ensures
            final(metrics).wf(),
            final(metrics)@ == recorded(old(metrics)@, *step, *result),
    {
        let status: u16 = match result.response_status {
            Some(s) => s,
            None => 0,
        };
        if !result.passed && status == 0 {
            metrics.record_connection_error();
        } else {
            let sent: u64 = match &step.request.body {
                Some(body) => body.as_str().as_bytes().len() as u64,
                None => BODYLESS_REQUEST_BYTES,
            };
            let received: u64 = match &result.response_body {
                Some(body) => body.as_str().as_bytes().len() as u64,
                None => 0,
            };
            metrics.record_request(result.duration, status, sent, received, !result.passed);
        }
    }

    /// The pause that a worker makes after a request, `elapsed` after the
    /// start of the run. Every worker paces itself by the rate of the whole
    /// run.
    pub fn pause_after_request(controller: &LoadController, elapsed: TimeSpan) -> (r: TimeSpan)
        ensures
            r@ == pause_nanos(*controller, elapsed@),
    {
        let minimal: u128 = TimeSpan::from_millis(MINIMAL_PAUSE_MILLIS).as_nanos();
        match controller.request_delay(elapsed) {
            Some(delay) => {
                let paced: u128 = delay.as_nanos();
                proof {
                    let millis = target_rate(
                        controller.pattern,
                        controller.base(),
                        controller.warmup_duration@,
                        elapsed@,
                    ).delay_millis();
                    assert(millis * 1_000_000 <= u64::MAX * 1_000_000) by (nonlinear_arith)
                        requires
                            millis <= u64::MAX,
                    ;
                }
                TimeSpan::from_total_nanos(paced + minimal)
            },
            None => TimeSpan::from_total_nanos(minimal),
        }
    }

    /// Whether a run with these results passes: at least 95 of 100
    /// requests succeeded.
    pub fn meets_success_threshold(results: &PerformanceResults) -> (r: bool)
        requires
            results.success_rate.num <= u64::MAX,
            results.success_rate.den <= u64::MAX,
        ensures
            r == !results.success_rate.below_percent(95),
    {
        results.success_rate.at_least_percent(SUCCESS_THRESHOLD_PERCENT)
    }
}

} // verus!
