//! The order in which the steps of a suite run.
//!
//! A run is a state. The caller asks it for the next batch of steps, runs
//! them at once, and hands back their results; the new state says what
//! comes next. Setup steps and teardown steps run one by one; the steps of
//! the suite run in batches no larger than the parallelism, once for every
//! row of the data set. The rows are asked for when the setup is over, and
//! not before. With `bail` a failure ends the setup or the steps of the
//! suite; the teardown still runs, and ends at its own first failure.

use crate::bindings::{bind, bind_all, Bindings, Entry};
use crate::config::{RivetConfig, TestStep};
use crate::runner::executor::{RequestExecutor, TestResult};
use crate::runner::variables::{bind_config, VariableContext};
use crate::span::TimeSpan;
use crate::text::{contains, contains_text, push_str_chars, text_of};
use vstd::prelude::*;

verus! {

/// The part of a suite that a step belongs to.
#[derive(Debug, Clone, Copy, PartialEq, Eq, Structural)]
pub enum Phase {
    Setup,
    /// The rows of the data set are due.
    Rows,
    Tests,
    Teardown,
    Done,
}

/// A step that is due: where it stands in its part of the suite, the row of
/// the data set that it runs for, and the name that its result will carry.
#[derive(Debug)]
pub struct Job {
    pub phase: Phase,
    pub row: usize,
    pub index: usize,
    pub label: String,
}

/// What a `Job` holds.
pub struct JobModel {
    pub phase: Phase,
    pub row: nat,
    pub index: nat,
    pub label: Seq<char>,
}

impl View for Job {
    type V = JobModel;

    open spec fn view(&self) -> JobModel {
        JobModel {
            phase: self.phase,
            row: self.row as nat,
            index: self.index as nat,
            label: self.label@,
        }
    }
}

/// A step that passed the filter: its position in its part of the suite and
/// the name that its result will carry.
#[derive(Debug)]
pub struct PlannedStep {
    pub index: usize,
    pub label: String,
}

/// What a `PlannedStep` holds.
pub struct StepModel {
    pub index: nat,
    pub label: Seq<char>,
}

impl View for PlannedStep {
    type V = StepModel;

    open spec fn view(&self) -> StepModel {
        StepModel { index: self.index as nat, label: self.label@ }
    }
}

/// The models of a sequence of planned steps.
pub open spec fn steps_of(v: Seq<PlannedStep>) -> Seq<StepModel> {
    Seq::new(v.len(), |i: int| v[i]@)
}

/// Whether a step named `name` runs under `filter`: always without a
/// filter, else where the name holds the filter.
pub open spec fn selected(filter: Option<Seq<char>>, name: Seq<char>) -> bool {
    match filter {
        Some(pattern) => contains_text(name, pattern),
        None => true,
    }
}

/// The steps among `names` that run under `filter`, in their order, each
/// labelled with `prefix` before its name.
pub open spec fn select(filter: Option<Seq<char>>, names: Seq<Seq<char>>, prefix: Seq<char>) -> Seq<
    StepModel,
>
    decreases names.len(),
{
    if names.len() == 0 {
        Seq::empty()
    } else {
        let before = select(filter, names.drop_last(), prefix);
        if selected(filter, names.last()) {
            before.push(StepModel { index: (names.len() - 1) as nat, label: prefix + names.last() })
        } else {
            before
        }
    }
}

/// The names of a sequence of steps.
pub open spec fn names_of(steps: Seq<TestStep>) -> Seq<Seq<char>> {
    Seq::new(steps.len(), |i: int| steps[i].name@)
}

/// What is to run, in which order.
pub struct PlanModel {
    pub setup: Seq<StepModel>,
    pub tests: Seq<StepModel>,
    pub teardown: Seq<StepModel>,
    /// How often the steps of the suite run: once for every row of the
    /// data set, once without a data set; unknown until the rows are in.
    pub rows: Option<nat>,
    /// How many steps of the suite run at once; at least 1.
    pub chunk: nat,
    /// Whether a failure ends the part that it occurs in.
    pub bail: bool,
}

/// Where a run stands: the step that is due next.
pub struct Cursor {
    pub phase: Phase,
    pub row: nat,
    pub next: nat,
}

impl PlanModel {
    /// The teardown from its step `next` on, or the end.
    pub open spec fn from_teardown(self, next: nat) -> Cursor {
        if next < self.teardown.len() {
            Cursor { phase: Phase::Teardown, row: 0, next }
        } else {
            Cursor { phase: Phase::Done, row: 0, next: 0 }
        }
    }

    /// The steps of the suite from the start of `row` on, or what follows
    /// them; the call for the rows where they are not in yet.
    pub open spec fn from_row(self, row: nat) -> Cursor {
        match self.rows {
            None => Cursor { phase: Phase::Rows, row: 0, next: 0 },
            Some(rows) => if row < rows && self.tests.len() > 0 {
                Cursor { phase: Phase::Tests, row, next: 0 }
            } else {
                self.from_teardown(0)
            },
        }
    }

    /// The plan once the data set turned out to hold `count` rows.
    pub open spec fn with_rows(self, count: nat) -> PlanModel {
        PlanModel { rows: Some(count), ..self }
    }

    /// The setup from its step `next` on, or what follows it.
    pub open spec fn from_setup(self, next: nat) -> Cursor {
        if next < self.setup.len() {
            Cursor { phase: Phase::Setup, row: 0, next }
        } else {
            self.from_row(0)
        }
    }

    /// Where a run starts.
    pub open spec fn start(self) -> Cursor {
        self.from_setup(0)
    }

    /// Whether `c` is a place in this plan at which a step is due, or the
    /// end.
    pub open spec fn holds(self, c: Cursor) -> bool {
        match c.phase {
            Phase::Setup => c.next < self.setup.len() && c.row == 0,
            Phase::Rows => self.rows is None && c.next == 0 && c.row == 0,
            Phase::Tests => self.rows is Some && c.next < self.tests.len() && c.row
                < self.rows->0,
            Phase::Teardown => c.next < self.teardown.len() && c.row == 0,
            Phase::Done => c.next == 0 && c.row == 0,
        }
    }

    /// How many steps are due at once at `c`.
    pub open spec fn batch_len(self, c: Cursor) -> nat {
        match c.phase {
            Phase::Setup => 1,
            Phase::Rows => 0,
            Phase::Tests => if c.next + self.chunk <= self.tests.len() {
                self.chunk
            } else {
                (self.tests.len() - c.next) as nat
            },
            Phase::Teardown => 1,
            Phase::Done => 0,
        }
    }

    /// The steps of the part that `c` is in.
    pub open spec fn part(self, c: Cursor) -> Seq<StepModel> {
        match c.phase {
            Phase::Setup => self.setup,
            Phase::Rows => Seq::empty(),
            Phase::Tests => self.tests,
            Phase::Teardown => self.teardown,
            Phase::Done => Seq::empty(),
        }
    }

    /// The steps that are due at `c`: the next `batch_len` steps of its
    /// part, in their order.
    pub open spec fn batch(self, c: Cursor) -> Seq<JobModel> {
        Seq::new(
            self.batch_len(c),
            |i: int|
                JobModel {
                    phase: c.phase,
                    row: c.row,
                    index: self.part(c)[c.next + i].index,
                    label: self.part(c)[c.next + i].label,
                },
        )
    }

    /// Where the run stands once the batch at `c` is done, `failed` saying
    /// whether one of its steps failed. Where the rows are due the run
    /// stands until they are in.
    pub open spec fn advance(self, c: Cursor, failed: bool) -> Cursor {
        match c.phase {
            Phase::Setup => if self.bail && failed {
                self.from_teardown(0)
            } else {
                self.from_setup(c.next + 1)
            },
            Phase::Rows => c,
            Phase::Tests => if self.bail && failed {
                self.from_teardown(0)
            } else if c.next + self.batch_len(c) < self.tests.len() {
                Cursor { phase: Phase::Tests, row: c.row, next: c.next + self.batch_len(c) }
            } else {
                self.from_row(c.row + 1)
            },
            Phase::Teardown => if self.bail && failed {
                Cursor { phase: Phase::Done, row: 0, next: 0 }
            } else {
                self.from_teardown(c.next + 1)
            },
            Phase::Done => c,
        }
    }

    /// The number of rows, as far as it is known.
    pub open spec fn known_rows(self) -> nat {
        match self.rows {
            Some(rows) => rows,
            None => 0,
        }
    }

    /// How many batches are left at most from `c` on, with the rows that are
    /// known.
    pub open spec fn remaining(self, c: Cursor) -> nat {
        match c.phase {
            Phase::Setup => (self.setup.len() - c.next + self.known_rows() * self.tests.len()
                + self.teardown.len() + 1) as nat,
            Phase::Rows => (self.teardown.len() + 1) as nat,
            Phase::Tests => ((self.known_rows() - c.row) * self.tests.len() - c.next
                + self.teardown.len()) as nat,
            Phase::Teardown => (self.teardown.len() - c.next) as nat,
            Phase::Done => 0,
        }
    }
}

/// The place of a phase in the order of a run.
pub open spec fn rank(phase: Phase) -> nat {
    match phase {
        Phase::Setup => 0,
        Phase::Rows => 1,
        Phase::Tests => 2,
        Phase::Teardown => 3,
        Phase::Done => 4,
    }
}

/// Whether one of the results is a failure.
pub open spec fn any_failed(results: Seq<TestResult>) -> bool {
    exists|i: int| 0 <= i < results.len() && !(#[trigger] results[i]).passed
}

/// How many of the results are passes.
pub open spec fn passed_count(results: Seq<TestResult>) -> nat
    decreases results.len(),
{
    if results.len() == 0 {
        0
    } else {
        passed_count(results.drop_last()) + if results.last().passed {
            1nat
        } else {
            0nat
        }
    }
}

/// No more results pass than there are.
pub proof fn lemma_passed_count(results: Seq<TestResult>)
    ensures
        passed_count(results) <= results.len(),
    decreases results.len(),
{
    if results.len() > 0 {
        lemma_passed_count(results.drop_last());
    }
}

/// A step is due at every place that a plan moves to, until the end; the
/// run never moves back to an earlier part; and every batch brings the end
/// nearer.
pub proof fn lemma_advance(plan: PlanModel, c: Cursor, failed: bool)
    requires
        plan.chunk >= 1,
        plan.holds(c),
    ensures
        plan.holds(plan.advance(c, failed)),
        rank(plan.advance(c, failed).phase) >= rank(c.phase),
        c.phase != Phase::Done && c.phase != Phase::Rows ==> plan.remaining(
            plan.advance(c, failed),
        ) < plan.remaining(c),
{
    let rows = plan.known_rows();
    if c.phase == Phase::Tests {
        assert((rows - c.row) * plan.tests.len() == (rows - c.row - 1) * plan.tests.len()
            + plan.tests.len()) by (nonlinear_arith);
        assert((rows - c.row - 1) * plan.tests.len() >= 0) by (nonlinear_arith)
            requires
                c.row < rows,
        ;
    }
    if c.phase == Phase::Setup {
        assert(rows * plan.tests.len() >= 0) by (nonlinear_arith);
    }
}

/// Once the rows are in, the steps of the suite are due for the first row,
/// or what follows them; and never the rows again.
pub proof fn lemma_rows_supplied(plan: PlanModel, count: nat)
    ensures
        plan.with_rows(count).holds(plan.with_rows(count).from_row(0)),
        rank(plan.with_rows(count).from_row(0).phase) > rank(Phase::Rows),
{
}

/// A step is due where a plan starts, unless there is none at all.
pub proof fn lemma_start(plan: PlanModel)
    ensures
        plan.holds(plan.start()),
{
}

/// With `bail`, a failure in the setup or among the steps of the suite
/// ends both, and the rows are not asked for: what runs afterwards is
/// teardown, if anything.
pub proof fn lemma_bail_halts(plan: PlanModel, c: Cursor)
    requires
        plan.bail,
        plan.holds(c),
        c.phase == Phase::Setup || c.phase == Phase::Tests,
    ensures
        rank(plan.advance(c, true).phase) >= rank(Phase::Teardown),
        forall|i: int|
            0 <= i < plan.batch(plan.advance(c, true)).len() ==> (#[trigger] plan.batch(
                plan.advance(c, true),
            )[i]).phase == Phase::Teardown,
{
}

/// Where the run stands after a series of batches, `failed` saying of each
/// in turn whether one of its steps failed.
pub open spec fn advance_all(plan: PlanModel, c: Cursor, failed: Seq<bool>) -> Cursor
    decreases failed.len(),
{
    if failed.len() == 0 {
        c
    } else {
        advance_all(plan, plan.advance(c, failed[0]), failed.drop_first())
    }
}

/// A run never moves back to an earlier part, however many batches it
/// goes through.
pub proof fn lemma_advance_all(plan: PlanModel, c: Cursor, failed: Seq<bool>)
    requires
        plan.chunk >= 1,
        plan.holds(c),
    ensures
        plan.holds(advance_all(plan, c, failed)),
        rank(advance_all(plan, c, failed).phase) >= rank(c.phase),
    decreases failed.len(),
{
    if failed.len() > 0 {
        lemma_advance(plan, c, failed[0]);
        lemma_advance_all(plan, plan.advance(c, failed[0]), failed.drop_first());
    }
}

/// With `bail`, no step of the setup or of the suite is due any more once
/// a batch of either has failed, whatever comes of the batches after it.
pub proof fn lemma_bail_is_final(plan: PlanModel, c: Cursor, later: Seq<bool>)
    requires
        plan.bail,
        plan.chunk >= 1,
        plan.holds(c),
        c.phase == Phase::Setup || c.phase == Phase::Tests,
    ensures
        rank(advance_all(plan, c, seq![true] + later).phase) >= rank(Phase::Teardown),
{
    let all = seq![true] + later;
    assert(all[0] == true);
    assert(all.drop_first() =~= later);
    lemma_bail_halts(plan, c);
    lemma_advance(plan, c, true);
    lemma_advance_all(plan, plan.advance(c, true), later);
}

/// With `bail`, a failure in the teardown ends the run.
pub proof fn lemma_bail_ends_teardown(plan: PlanModel, c: Cursor)
    requires
        plan.bail,
        plan.holds(c),
        c.phase == Phase::Teardown,
    ensures
        plan.advance(c, true).phase == Phase::Done,
        plan.batch(plan.advance(c, true)).len() == 0,
{
}

/// One by one and without failure, the steps of the suite run in their
/// order: after the step at `next` comes the step at `next + 1` of the same
/// row.
pub proof fn lemma_sequential_order(plan: PlanModel, c: Cursor)
    requires
        plan.chunk == 1,
        plan.holds(c),
        c.phase == Phase::Tests,
        c.next + 1 < plan.tests.len(),
    ensures
        plan.batch(c).len() == 1,
        plan.batch(c)[0].index == plan.tests[c.next as int].index,
        plan.advance(c, false) == (Cursor { phase: Phase::Tests, row: c.row, next: c.next + 1 }),
{
}

/// The results of one suite. `passed` and `failed` count the results, so
/// that they add up to the number of results.
#[derive(Debug)]
pub struct TestSuiteResult {
    pub name: String,
    pub results: Vec<TestResult>,
    pub duration: TimeSpan,
    pub passed: usize,
    pub failed: usize,
}

impl TestSuiteResult {
    /// Whether the counts are those of the results.
    pub open spec fn wf(self) -> bool {
        &&& self.passed == passed_count(self.results@)
        &&& self.passed + self.failed == self.results@.len()
    }

    /// The results of the suite `name`, counted.
    pub fn new(name: String, results: Vec<TestResult>, duration: TimeSpan) -> (r: TestSuiteResult)
        ensures
            r.wf(),
            r.name == name,
            r.results == results,
            r.duration == duration,
    {
        let mut passed: usize = 0;
        let mut i: usize = 0;
        proof {
            assert(results@.take(0) =~= Seq::<TestResult>::empty());
        }
        while i < results.len()
            invariant
                i <= results.len(),
                passed == passed_count(results@.take(i as int)),
                passed <= i,
            decreases results.len() - i,
        {
            proof {
                assert(results@.take(i + 1).drop_last() =~= results@.take(i as int));
                assert(results@.take(i + 1).last() == results@[i as int]);
            }
            if results[i].passed {
                passed += 1;
            }
            i += 1;
        }
        proof {
            assert(results@.take(results@.len() as int) =~= results@);
        }
        let failed: usize = results.len() - passed;
        TestSuiteResult { name, results, duration, passed, failed }
    }
}

/// A run of one suite: the plan, the place that the run has reached, and
/// the results so far.
#[derive(Debug)]
pub struct SuiteRun {
    setup: Vec<PlannedStep>,
    tests: Vec<PlannedStep>,
    teardown: Vec<PlannedStep>,
    rows: Option<usize>,
    chunk: usize,
    bail: bool,
    phase: Phase,
    row: usize,
    next: usize,
    results: Vec<TestResult>,
}

impl SuiteRun {
    /// The plan of the run.
    pub closed spec fn plan(&self) -> PlanModel {
        PlanModel {
            setup: steps_of(self.setup@),
            tests: steps_of(self.tests@),
            teardown: steps_of(self.teardown@),
            rows: match self.rows {
                Some(rows) => Some(rows as nat),
                None => None,
            },
            chunk: self.chunk as nat,
            bail: self.bail,
        }
    }

    /// The place that the run has reached.
    pub closed spec fn cursor(&self) -> Cursor {
        Cursor { phase: self.phase, row: self.row as nat, next: self.next as nat }
    }

    /// The results so far, in the order in which they came in.
    pub closed spec fn results(&self) -> Seq<TestResult> {
        self.results@
    }

    /// Whether a step is due at the place that the run has reached, or the
    /// run is over.
    pub open spec fn wf(&self) -> bool {
        self.plan().chunk >= 1 && self.plan().holds(self.cursor())
    }

    /// Whether the run is over.
    pub fn is_done(&self) -> (r: bool)
        ensures
            r == (self.cursor().phase == Phase::Done),
    {
        self.phase == Phase::Done
    }

    /// Whether the rows of the data set are due: the run goes on once
    /// `supply_rows` has told how many there are.
    pub fn needs_rows(&self) -> (r: bool)
        ensures
            r == (self.cursor().phase == Phase::Rows),
    {
        self.phase == Phase::Rows
    }

    /// The run after the data set turned out to hold `count` rows; the same
    /// run where the rows are not due.
    pub fn supply_rows(self, count: usize) -> (r: SuiteRun)
        requires
            self.wf(),
        ensures
            r.wf(),
            r.results() == self.results(),
            self.cursor().phase == Phase::Rows ==> r.plan() == self.plan().with_rows(count as nat)
                && r.cursor() == r.plan().from_row(0),
            self.cursor().phase != Phase::Rows ==> r.plan() == self.plan() && r.cursor()
                == self.cursor(),
    {
        let mut run = self;
        if run.phase == Phase::Rows {
            run.rows = Some(count);
            run.enter_row(0);
        }
        run
    }

    /// The steps that are due, to be run at once; none where the run is
    /// over or waits for the rows.
    pub fn next_batch(&self) -> (jobs: Vec<Job>)
        requires
            self.wf(),
        ensures
            jobs@.len() == self.plan().batch(self.cursor()).len(),
            forall|i: int|
                0 <= i < jobs@.len() ==> (#[trigger] jobs@[i])@ == self.plan().batch(
                    self.cursor(),
                )[i],
    {
        let mut jobs: Vec<Job> = Vec::new();
        let part: &Vec<PlannedStep> = match self.phase {
            Phase::Setup => &self.setup,
            Phase::Tests => &self.tests,
            Phase::Teardown => &self.teardown,
            Phase::Rows => {
                return jobs;
            },
            Phase::Done => {
                return jobs;
            },
        };
        let count: usize = match self.phase {
            Phase::Tests => if self.chunk <= self.tests.len() - self.next {
                self.chunk
            } else {
                self.tests.len() - self.next
            },
            _ => 1,
        };
        let size: usize = part.len();
        let mut i: usize = 0;
        while i < count
            invariant
                i <= count,
                size == part@.len(),
                count == self.plan().batch_len(self.cursor()),
                self.next + count <= part@.len(),
                steps_of(part@) == self.plan().part(self.cursor()),
                self.phase != Phase::Done,
                self.phase != Phase::Rows,
                jobs@.len() == i,
                forall|k: int|
                    0 <= k < i ==> (#[trigger] jobs@[k])@ == self.plan().batch(self.cursor())[k],
            decreases count - i,
        {
            let step = &part[self.next + i];
            proof {
                assert(steps_of(part@)[self.next + i] == step@);
            }
            jobs.push(
                Job { phase: self.phase, row: self.row, index: step.index, label: step.label.clone() },
            );
            i += 1;
        }
        jobs
    }

    /// The run after the batch that was due came back with `results`, one
    /// for every step of the batch, in the order in which they came in: the
    /// next batch is not due before the whole of this one is in.
    pub fn record(self, results: Vec<TestResult>) -> (r: SuiteRun)
        requires
            self.wf(),
            results@.len() == self.plan().batch(self.cursor()).len(),
        ensures
            r.wf(),
            r.plan() == self.plan(),
            r.cursor() == self.plan().advance(self.cursor(), any_failed(results@)),
            r.results() == self.results() + results@,
    {
        let failed = has_failure(&results);
        let mut run = self;
        let mut more = results;
        run.results.append(&mut more);
        proof {
            lemma_advance(self.plan(), self.cursor(), failed);
        }
        let stop: bool = run.bail && failed;
        let setup_len: usize = run.setup.len();
        let teardown_len: usize = run.teardown.len();
        match run.phase {
            Phase::Setup => {
                if stop {
                    run.enter_teardown(0);
                } else if run.next + 1 < setup_len {
                    run.next = run.next + 1;
                } else {
                    run.enter_row(0);
                }
            },
            Phase::Tests => {
                let count: usize = if run.chunk <= run.tests.len() - run.next {
                    run.chunk
                } else {
                    run.tests.len() - run.next
                };
                if stop {
                    run.enter_teardown(0);
                } else if run.next + count < run.tests.len() {
                    run.next = run.next + count;
                } else {
                    let row: usize = run.row + 1;
                    run.enter_row(row);
                }
            },
            Phase::Teardown => {
                if stop || run.next + 1 >= teardown_len {
                    run.phase = Phase::Done;
                    run.row = 0;
                    run.next = 0;
                } else {
                    run.next = run.next + 1;
                }
            },
            Phase::Rows => {},
            Phase::Done => {},
        }
        run
    }

    /// Moves to the teardown step `next`, or to the end.
    fn enter_teardown(&mut self, next: usize)
        ensures
            final(self).plan() == old(self).plan(),
            final(self).results() == old(self).results(),
            final(self).cursor() == old(self).plan().from_teardown(next as nat),
    {
        if next < self.teardown.len() {
            self.phase = Phase::Teardown;
            self.row = 0;
            self.next = next;
        } else {
            self.phase = Phase::Done;
            self.row = 0;
            self.next = 0;
        }
    }

    /// Moves to the start of `row`, or to what follows the rows, or to the
    /// call for them.
    fn enter_row(&mut self, row: usize)
        ensures
            final(self).plan() == old(self).plan(),
            final(self).results() == old(self).results(),
            final(self).cursor() == old(self).plan().from_row(row as nat),
    {
        match self.rows {
            None => {
                self.phase = Phase::Rows;
                self.row = 0;
                self.next = 0;
            },
            Some(rows) => {
                if row < rows && self.tests.len() > 0 {
                    self.phase = Phase::Tests;
                    self.row = row;
                    self.next = 0;
                } else {
                    self.enter_teardown(0);
                }
            },
        }
    }

    /// The results of the run, counted, under the name of the suite.
    pub fn into_result(self, name: String, duration: TimeSpan) -> (r: TestSuiteResult)
        ensures
            r.wf(),
            r.name == name,
            r.results@ == self.results(),
            r.duration == duration,
    {
        TestSuiteResult::new(name, self.results, duration)
    }
}

/// Tests whether one of the results is a failure.
pub fn has_failure(results: &Vec<TestResult>) -> (r: bool)
    ensures
        r == any_failed(results@),
{
    let mut i: usize = 0;
    while i < results.len()
        invariant
            i <= results.len(),
            forall|k: int| 0 <= k < i ==> (#[trigger] results@[k]).passed,
        decreases results.len() - i,
    {
        if !results[i].passed {
            return true;
        }
        i += 1;
    }
    false
}

/// The steps among `steps` that run under `filter`, labelled.
fn select_steps(filter: &Option<String>, steps: &Vec<TestStep>, prefix: &str) -> (r: Vec<
    PlannedStep,
>)
    ensures
        steps_of(r@) == select(
            match filter {
                Some(p) => Some(p@),
                None => None,
            },
            names_of(steps@),
            prefix@,
        ),
{
    let ghost pattern: Option<Seq<char>> = match filter {
        Some(p) => Some(p@),
        None => None,
    };
    let ghost names = names_of(steps@);
    let mut r: Vec<PlannedStep> = Vec::new();
    let mut i: usize = 0;
    proof {
        assert(names.take(0) =~= Seq::<Seq<char>>::empty());
        assert(steps_of(r@) =~= Seq::<StepModel>::empty());
    }
    while i < steps.len()
        invariant
            i <= steps.len(),
            names == names_of(steps@),
            pattern == match filter {
                Some(p) => Some(p@),
                None => None,
            },
            steps_of(r@) == select(pattern, names.take(i as int), prefix@),
        decreases steps.len() - i,
    {
        let runs: bool = match filter {
            Some(p) => contains(steps[i].name.as_str(), p.as_str()),
            None => true,
        };
        proof {
            assert(names.take(i + 1).drop_last() =~= names.take(i as int));
            assert(names.take(i + 1).last() == steps@[i as int].name@);
            assert(names.take(i + 1).len() == i + 1);
        }
        if runs {
            let mut label: Vec<char> = Vec::new();
            push_str_chars(&mut label, prefix);
            push_str_chars(&mut label, steps[i].name.as_str());
            let ghost before = steps_of(r@);
            r.push(PlannedStep { index: i, label: text_of(&label) });
            proof {
                assert(label@ =~= prefix@ + steps@[i as int].name@);
                assert(steps_of(r@) =~= before.push(
                    StepModel { index: i as nat, label: prefix@ + steps@[i as int].name@ },
                ));
            }
        }
        i += 1;
    }
    proof {
        assert(names.take(names.len() as int) =~= names);
    }
    r
}

/// Runs suites: decides which steps run, in which order and how many at
/// once.
#[derive(Debug, Clone)]
pub struct TestRunner {
    pub executor: RequestExecutor,
    pub parallel_workers: usize,
    pub bail_on_failure: bool,
    pub filter_pattern: Option<String>,
    pub ci_mode: bool,
}

/// The text of an optional pattern.
pub open spec fn pattern_of(filter: Option<String>) -> Option<Seq<char>> {
    match filter {
        Some(p) => Some(p@),
        None => None,
    }
}

/// The steps of an optional part of a suite.
pub open spec fn part_names(steps: Option<Vec<TestStep>>) -> Seq<Seq<char>> {
    match steps {
        Some(v) => names_of(v@),
        None => Seq::empty(),
    }
}

impl TestRunner {
    /// A runner whose requests are given `timeout` each.
    pub fn new(
        timeout: TimeSpan,
        parallel_workers: usize,
        bail_on_failure: bool,
        filter_pattern: Option<String>,
        ci_mode: bool,
    ) -> (r: TestRunner)
        ensures
            r.executor.timeout() == timeout,
            r.parallel_workers == parallel_workers,
            r.bail_on_failure == bail_on_failure,
            r.filter_pattern == filter_pattern,
            r.ci_mode == ci_mode,
    {
        TestRunner {
            executor: RequestExecutor::new(timeout),
            parallel_workers,
            bail_on_failure,
            filter_pattern,
            ci_mode,
        }
    }

    /// The bindings that a suite starts with: the variables of the
    /// environment, then the variables that the suite declares, each
    /// expanded against what was bound before it, then the name of the
    /// environment under `RIVET_ENV`, where one is given.
    pub open spec fn suite_bindings(
        config: RivetConfig,
        env_name: Option<Seq<char>>,
        environment: Seq<Entry>,
    ) -> Seq<Entry> {
        let seeded = bind_all(Seq::empty(), environment);
        let merged = match config.vars {
            Some(vars) => bind_config(environment, seeded, vars@),
            None => seeded,
        };
        match env_name {
            Some(name) => bind(merged, "RIVET_ENV"@, name),
            None => merged,
        }
    }

    /// The context that the steps of the suite `config` run in, given the
    /// environment of the process and the name of the environment to run
    /// against, if any.
    pub fn suite_context(config: &RivetConfig, env: Option<&str>, environment: Bindings) -> (r:
        VariableContext)
        ensures
            r.env@ == environment@,
            r.vars@ == TestRunner::suite_bindings(
                *config,
                match env {
                    Some(name) => Some(name@),
                    None => None,
                },
                environment@,
            ),
    {
        let mut context = VariableContext::new().with_environment(environment).with_env_vars()
            .with_config_vars(config.vars.as_ref());
        match env {
            Some(name) => {
                context.set("RIVET_ENV".to_string(), name.to_owned());
            },
            None => {},
        }
        context
    }

    /// Whether the step named `test_name` runs: always without a filter,
    /// else where its name holds the filter.
    pub fn should_run_test(&self, test_name: &str) -> (r: bool)
        ensures
            r == selected(pattern_of(self.filter_pattern), test_name@),
    {
        match &self.filter_pattern {
            Some(pattern) => contains(test_name, pattern.as_str()),
            None => true,
        }
    }

    /// How many steps of the suite run at once: what the data set says,
    /// else what the runner is set to, and one at least.
    pub open spec fn chunk_of(self, config: RivetConfig) -> nat {
        let parallel = match config.dataset {
            Some(dataset) => match dataset.parallel {
                Some(p) => p,
                None => self.parallel_workers,
            },
            None => self.parallel_workers,
        };
        if parallel <= 1 {
            1
        } else {
            parallel as nat
        }
    }

    /// The plan for `config`. A suite without a data set runs its steps
    /// once; the rows of a data set are not known yet.
    pub open spec fn plan_of(self, config: RivetConfig) -> PlanModel {
        PlanModel {
            setup: select(pattern_of(self.filter_pattern), part_names(config.setup), "Setup: "@),
            tests: select(pattern_of(self.filter_pattern), names_of(config.tests@), ""@),
            teardown: select(
                pattern_of(self.filter_pattern),
                part_names(config.teardown),
                "Teardown: "@,
            ),
            rows: if config.dataset is Some {
                None
            } else {
                Some(1)
            },
            chunk: self.chunk_of(config),
            bail: self.bail_on_failure,
        }
    }

    /// Starts a run of the suite `config`.
    pub fn run_single_suite(&self, config: &RivetConfig) -> (r: SuiteRun)
        ensures
            r.wf(),
            r.plan() == self.plan_of(*config),
            r.cursor() == r.plan().start(),
            r.results() == Seq::<TestResult>::empty(),
    {
        let setup: Vec<PlannedStep> = match &config.setup {
            Some(steps) => select_steps(&self.filter_pattern, steps, "Setup: "),
            None => {
                let none: Vec<PlannedStep> = Vec::new();
                proof {
                    assert(steps_of(none@) =~= Seq::<StepModel>::empty());
                }
                none
            },
        };
        let tests = select_steps(&self.filter_pattern, &config.tests, "");
        let teardown: Vec<PlannedStep> = match &config.teardown {
            Some(steps) => select_steps(&self.filter_pattern, steps, "Teardown: "),
            None => {
                let none: Vec<PlannedStep> = Vec::new();
                proof {
                    assert(steps_of(none@) =~= Seq::<StepModel>::empty());
                }
                none
            },
        };
        let parallel: usize = match &config.dataset {
            Some(dataset) => match dataset.parallel {
                Some(p) => p,
                None => self.parallel_workers,
            },
            None => self.parallel_workers,
        };
        let chunk: usize = if parallel <= 1 {
            1
        } else {
            parallel
        };
        let rows: Option<usize> = if config.dataset.is_some() {
            None
        } else {
            Some(1)
        };
        let mut run = SuiteRun {
            setup,
            tests,
            teardown,
            rows,
            chunk,
            bail: self.bail_on_failure,
            phase: Phase::Done,
            row: 0,
            next: 0,
            results: Vec::new(),
        };
        if run.setup.len() > 0 {
            run.phase = Phase::Setup;
        } else {
            run.enter_row(0);
        }
        proof {
            lemma_start(run.plan());
        }
        run
    }

    /// Whether the suites run several at once: where there is more than one
    /// suite and more than one worker.
    pub fn runs_suites_in_parallel(&self, suites: usize) -> (r: bool)
        ensures
            r == (suites > 1 && self.parallel_workers > 1),
    {
        suites > 1 && self.parallel_workers > 1
    }

    /// The runner that each suite of `suites` runs with: this one, but with
    /// a single worker where the suites run several at once.
    pub fn suite_runner(&self, suites: usize) -> (r: TestRunner)
        ensures
            r.parallel_workers == if suites > 1 && self.parallel_workers > 1 {
                1
            } else {
                self.parallel_workers
            },
            r.bail_on_failure == self.bail_on_failure,
            pattern_of(r.filter_pattern) == pattern_of(self.filter_pattern),
            r.ci_mode == self.ci_mode,
            r.executor.timeout() == self.executor.timeout(),
    {
        let parallel_workers: usize = if self.runs_suites_in_parallel(suites) {
            1
        } else {
            self.parallel_workers
        };
        let filter_pattern: Option<String> = match &self.filter_pattern {
            Some(p) => Some(p.clone()),
            None => None,
        };
        TestRunner {
            executor: RequestExecutor::new(self.executor.request_timeout()),
            parallel_workers,
            bail_on_failure: self.bail_on_failure,
            filter_pattern,
            ci_mode: self.ci_mode,
        }
    }

    /// The suites that run next, at once, as a range of their positions:
    /// `done` of `total` suites are over, `failed` saying whether one of
    /// them had a failing step. The range is empty where none is left, or
    /// where the runner bails and a suite failed.
    pub fn next_suites(&self, total: usize, done: usize, failed: bool) -> (r: (usize, usize))
        requires
            done <= total,
        ensures
            r == suites_after(
                self.parallel_workers as nat,
                self.bail_on_failure,
                total as nat,
                done as nat,
                failed,
            ),
    {
        if self.bail_on_failure && failed {
            return (done, done);
        }
        let width: usize = if self.runs_suites_in_parallel(total) {
            self.parallel_workers
        } else {
            1
        };
        if width <= total - done {
            (done, done + width)
        } else {
            (done, total)
        }
    }
}

/// The range of suites that run next: as many as there are workers where
/// the suites run several at once, else one; none once a suite failed and
/// the runner bails.
pub open spec fn suites_after(workers: nat, bail: bool, total: nat, done: nat, failed: bool) -> (
    usize,
    usize,
) {
    if bail && failed {
        (done as usize, done as usize)
    } else {
        let width = if total > 1 && workers > 1 {
            workers
        } else {
            1
        };
        if done + width <= total {
            (done as usize, (done + width) as usize)
        } else {
            (done as usize, total as usize)
        }
    }
}

} // verus!
