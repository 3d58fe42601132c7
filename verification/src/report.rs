//! The figures of a report on one or more suites.

use crate::ratio::Ratio;
use crate::runner::executor::text_view;
use crate::runner::test_runner::TestSuiteResult;
use crate::span::{max_span_nanos, TimeSpan};
use crate::text::{chars_of, find_char, index_of, lemma_index_of, lowercase_of, same_text};
use crate::utils::{trim_range, trimmed};
use vstd::prelude::*;

verus! {

/// How a step ended.
#[derive(Debug, Clone, Copy, PartialEq, Eq, Structural)]
pub enum TestStatus {
    Passed,
    Failed,
    Skipped,
}

/// One step in a report.
#[derive(Debug)]
pub struct TestResult {
    pub name: String,
    pub status: TestStatus,
    pub duration: TimeSpan,
    pub error: Option<String>,
    pub response_status: Option<u16>,
}

/// Counts and time of a suite, or of all suites.
#[derive(Debug)]
pub struct TestSummary {
    pub total: usize,
    pub passed: usize,
    pub failed: usize,
    pub duration: TimeSpan,
    /// The share of passed steps, in percent; 0 where there is no step.
    pub success_rate: Ratio,
}

/// One suite in a report.
#[derive(Debug)]
pub struct TestSuiteReport {
    pub name: String,
    pub duration: TimeSpan,
    pub summary: TestSummary,
    pub tests: Vec<TestResult>,
}

/// A report: every suite, and the counts over all of them.
#[derive(Debug)]
pub struct TestReport {
    pub summary: TestSummary,
    pub suites: Vec<TestSuiteReport>,
}

/// A form that a report can take.
#[derive(Debug)]
pub enum ReportFormat {
    Json,
    Html,
    Junit,
    /// A name that names no form, trimmed and in lower case.
    Unknown(String),
}

/// What a `ReportFormat` holds.
pub enum FormatModel {
    Json,
    Html,
    Junit,
    Unknown(Seq<char>),
}

impl View for ReportFormat {
    type V = FormatModel;

    open spec fn view(&self) -> FormatModel {
        match self {
            ReportFormat::Json => FormatModel::Json,
            ReportFormat::Html => FormatModel::Html,
            ReportFormat::Junit => FormatModel::Junit,
            ReportFormat::Unknown(name) => FormatModel::Unknown(name@),
        }
    }
}

/// The form that `part` names, once trimmed and in lower case.
pub open spec fn format_named(part: Seq<char>) -> FormatModel {
    let name = lowercase_of(trimmed(part));
    if name == "json"@ {
        FormatModel::Json
    } else if name == "html"@ {
        FormatModel::Html
    } else if name == "junit"@ {
        FormatModel::Junit
    } else {
        FormatModel::Unknown(name)
    }
}

/// The forms that `formats` names, separated by commas, in their order.
pub open spec fn formats_named(formats: Seq<char>) -> Seq<FormatModel>
    decreases formats.len(),
{
    let comma = index_of(formats, ',');
    if 0 <= comma < formats.len() {
        seq![format_named(formats.take(comma))] + formats_named(formats.skip(comma + 1))
    } else {
        seq![format_named(formats)]
    }
}

/// The models of a sequence of forms.
pub open spec fn formats_of(v: Seq<ReportFormat>) -> Seq<FormatModel> {
    Seq::new(v.len(), |i: int| v[i]@)
}

/// The passed steps of all suites, by their counts.
pub open spec fn total_passed(results: Seq<TestSuiteResult>) -> nat
    decreases results.len(),
{
    if results.len() == 0 {
        0
    } else {
        total_passed(results.drop_last()) + results.last().passed as nat
    }
}

/// The failed steps of all suites, by their counts.
pub open spec fn total_failed(results: Seq<TestSuiteResult>) -> nat
    decreases results.len(),
{
    if results.len() == 0 {
        0
    } else {
        total_failed(results.drop_last()) + results.last().failed as nat
    }
}

/// The time of all suites together, in nanoseconds.
pub open spec fn total_nanos(results: Seq<TestSuiteResult>) -> nat
    decreases results.len(),
{
    if results.len() == 0 {
        0
    } else {
        total_nanos(results.drop_last()) + results.last().duration@
    }
}

/// Whether the counts and the time of all suites together can be held.
pub open spec fn totals_fit(results: Seq<TestSuiteResult>) -> bool {
    total_passed(results) + total_failed(results) <= usize::MAX && total_nanos(results)
        <= max_span_nanos()
}

/// The share that `passed` makes of `total`, in percent.
pub open spec fn percent_of(passed: nat, total: nat) -> Ratio {
    if total > 0 {
        Ratio { num: (passed * 100) as u128, den: total as u128 }
    } else {
        Ratio { num: 0, den: 1 }
    }
}

/// Whether `summary` holds these counts and this time.
pub open spec fn summarizes(summary: TestSummary, passed: nat, failed: nat, nanos: nat) -> bool {
    &&& summary.passed == passed
    &&& summary.failed == failed
    &&& summary.total == passed + failed
    &&& summary.duration@ == nanos
    &&& summary.success_rate == percent_of(passed, passed + failed)
}

/// Whether `test` reports the step `result`.
pub open spec fn reports_step(test: TestResult, result: crate::runner::executor::TestResult)
    -> bool {
    &&& test.name@ == result.name@
    &&& test.status == if result.passed {
        TestStatus::Passed
    } else {
        TestStatus::Failed
    }
    &&& test.duration == result.duration
    &&& text_view(test.error) == text_view(result.error)
    &&& test.response_status == result.response_status
}

/// Whether `suite` reports the results `result` of a suite.
pub open spec fn reports_suite(suite: TestSuiteReport, result: TestSuiteResult) -> bool {
    &&& suite.name@ == result.name@
    &&& suite.duration == result.duration
    &&& summarizes(suite.summary, result.passed as nat, result.failed as nat, result.duration@)
    &&& suite.tests@.len() == result.results@.len()
    &&& forall|i: int|
        0 <= i < suite.tests@.len() ==> reports_step(#[trigger] suite.tests@[i], result.results@[i])
}

/// The partial sums are no larger than the sums.
pub proof fn lemma_totals_grow(results: Seq<TestSuiteResult>, k: int)
    requires
        0 <= k <= results.len(),
    ensures
        total_passed(results.take(k)) <= total_passed(results),
        total_failed(results.take(k)) <= total_failed(results),
        total_nanos(results.take(k)) <= total_nanos(results),
    decreases results.len(),
{
    if k == results.len() {
        assert(results.take(k) =~= results);
    } else {
        assert(results.drop_last().take(k) =~= results.take(k));
        lemma_totals_grow(results.drop_last(), k);
    }
}

/// Builds reports.
#[derive(Debug, Clone, Copy)]
pub struct ReportGenerator;

impl ReportGenerator {
    /// Tests whether the counts and the time of all suites together can be
    /// held.
    pub fn can_report(results: &[TestSuiteResult]) -> (r: bool)
        ensures
            r == totals_fit(results@),
    {
        let mut passed: usize = 0;
        let mut failed: usize = 0;
        let mut nanos: u128 = 0;
        let mut i: usize = 0;
        proof {
            assert(results@.take(0) =~= Seq::<TestSuiteResult>::empty());
        }
        while i < results.len()
            invariant
                i <= results.len(),
                passed == total_passed(results@.take(i as int)),
                failed == total_failed(results@.take(i as int)),
                nanos == total_nanos(results@.take(i as int)),
                passed + failed <= usize::MAX,
                nanos <= max_span_nanos(),
            decreases results.len() - i,
        {
            let suite = &results[i];
            let time: u128 = suite.duration.as_nanos();
            proof {
                assert(results@.take(i + 1).drop_last() =~= results@.take(i as int));
                assert(results@.take(i + 1).last() == results@[i as int]);
                lemma_totals_grow(results@, i + 1);
            }
            if suite.passed > usize::MAX - passed - failed || suite.failed > usize::MAX - passed
                - failed - suite.passed {
                return false;
            }
            if time > 0xffff_ffff_ffff_ffff * 1_000_000_000 + 999_999_999 - nanos {
                return false;
            }
            passed = passed + suite.passed;
            failed = failed + suite.failed;
            nanos = nanos + time;
            i += 1;
        }
        proof {
            assert(results@.take(results@.len() as int) =~= results@);
        }
        true
    }

    /// The forms that `formats` names, separated by commas.
    pub fn report_formats(formats: &str) -> (r: Vec<ReportFormat>)
        ensures
            formats_of(r@) == formats_named(formats@),
    {
        let v = chars_of(formats);
        let mut r: Vec<ReportFormat> = Vec::new();
        let mut start: usize = 0;
        proof {
            assert(v@.skip(0) =~= v@);
            assert(formats_of(r@) =~= Seq::<FormatModel>::empty());
        }
        loop
            invariant
                start <= v.len(),
                v@ == formats@,
                formats_of(r@) + formats_named(v@.skip(start as int)) == formats_named(v@),
            decreases v.len() - start,
        {
            let ghost rest = v@.skip(start as int);
            let ghost before = formats_of(r@);
            let comma = find_char(&v, start, v.len(), ',');
            proof {
                assert(rest =~= v@.subrange(start as int, v.len() as int));
                lemma_index_of(rest, ',');
                assert(rest.take(comma as int) =~= v@.subrange(start as int, start + comma));
            }
            let name = trim_range(&v, start, start + comma);
            let lower = name.as_str().to_lowercase();
            let format = if same_text(lower.as_str(), "json") {
                ReportFormat::Json
            } else if same_text(lower.as_str(), "html") {
                ReportFormat::Html
            } else if same_text(lower.as_str(), "junit") {
                ReportFormat::Junit
            } else {
                ReportFormat::Unknown(lower)
            };
            r.push(format);
            proof {
                assert(formats_of(r@) =~= before.push(format_named(rest.take(comma as int))));
            }
            if start + comma < v.len() {
                proof {
                    assert(rest.skip(comma + 1) =~= v@.skip(start + comma + 1));
                    assert(formats_of(r@) + formats_named(rest.skip(comma + 1)) =~= before
                        + formats_named(rest));
                }
                start = start + comma + 1;
            } else {
                proof {
                    assert(rest.take(comma as int) =~= rest);
                    assert(formats_of(r@) =~= before + formats_named(rest));
                }
                return r;
            }
        }
    }

    /// The summary of these counts and this time.
    pub fn summarize(passed: usize, failed: usize, duration: TimeSpan) -> (r: TestSummary)
        requires
            passed + failed <= usize::MAX,
        ensures
            summarizes(r, passed as nat, failed as nat, duration@),
    {
        let total: usize = passed + failed;
        let success_rate = if total > 0 {
            proof {
                assert(passed * 100 <= usize::MAX * 100) by (nonlinear_arith)
                    requires
                        passed <= usize::MAX,
                ;
            }
            Ratio { num: (passed as u128) * 100, den: total as u128 }
        } else {
            Ratio::zero()
        };
        TestSummary { total, passed, failed, duration, success_rate }
    }

    /// The report on the suites `results`: every suite with its steps in
    /// their order, and the counts and the time of all suites together.
    pub fn build_report(results: &[TestSuiteResult]) -> (r: TestReport)
        requires
            totals_fit(results@),
        ensures
            summarizes(
                r.summary,
                total_passed(results@),
                total_failed(results@),
                total_nanos(results@),
            ),
            r.suites@.len() == results@.len(),
            forall|i: int|
                0 <= i < r.suites@.len() ==> reports_suite(#[trigger] r.suites@[i], results@[i]),
    {
        let mut suites: Vec<TestSuiteReport> = Vec::new();
        let mut passed: usize = 0;
        let mut failed: usize = 0;
        let mut nanos: u128 = 0;
        let mut i: usize = 0;
        proof {
            assert(results@.take(0) =~= Seq::<TestSuiteResult>::empty());
        }
        while i < results.len()
            invariant
                i <= results.len(),
                totals_fit(results@),
                passed == total_passed(results@.take(i as int)),
                failed == total_failed(results@.take(i as int)),
                nanos == total_nanos(results@.take(i as int)),
                suites@.len() == i,
                forall|k: int| 0 <= k < i ==> reports_suite(#[trigger] suites@[k], results@[k]),
            decreases results.len() - i,
        {
            let suite = &results[i];
            proof {
                assert(results@.take(i + 1).drop_last() =~= results@.take(i as int));
                assert(results@.take(i + 1).last() == results@[i as int]);
                lemma_totals_grow(results@, i + 1);
            }
            let mut tests: Vec<TestResult> = Vec::new();
            let mut j: usize = 0;
            while j < suite.results.len()
                invariant
                    j <= suite.results.len(),
                    tests@.len() == j,
                    forall|k: int|
                        0 <= k < j ==> reports_step(#[trigger] tests@[k], suite.results@[k]),
                decreases suite.results.len() - j,
            {
                let step = &suite.results[j];
                let error: Option<String> = match &step.error {
                    Some(text) => Some(text.clone()),
                    None => None,
                };
                tests.push(
                    TestResult {
                        name: step.name.clone(),
                        status: if step.passed {
                            TestStatus::Passed
                        } else {
                            TestStatus::Failed
                        },
                        duration: step.duration,
                        error,
                        response_status: step.response_status,
                    },
                );
                j += 1;
            }
            let time: u128 = suite.duration.as_nanos();
            suites.push(
                TestSuiteReport {
                    name: suite.name.clone(),
                    duration: suite.duration,
                    summary: ReportGenerator::summarize(suite.passed, suite.failed, suite.duration),
                    tests,
                },
            );
            passed = passed + suite.passed;
            failed = failed + suite.failed;
            nanos = nanos + time;
            i += 1;
        }
        proof {
            assert(results@.take(results@.len() as int) =~= results@);
        }
        TestReport {
            summary: ReportGenerator::summarize(passed, failed, TimeSpan::from_total_nanos(nanos)),
            suites,
        }
    }
}

} // verus!
