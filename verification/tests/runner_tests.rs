use rivet::config::{Dataset, Expectation, Request, RivetConfig, StatusExpectation, TestStep};
use rivet::runner::executor::{Exchange, TestResult};
use rivet::runner::variables::VariableContext;
use rivet::runner::test_runner::{has_failure, Job, Phase, SuiteRun, TestRunner, TestSuiteResult};
use rivet::span::TimeSpan;

fn step(name: &str) -> TestStep {
    TestStep {
        name: name.to_string(),
        description: None,
        request: Request {
            method: "GET".to_string(),
            url: "http://localhost/".to_string(),
            headers: None,
            params: None,
            body: None,
        },
        expect: None,
    }
}

fn suite(setup: &[&str], tests: &[&str], teardown: &[&str], dataset: Option<Dataset>) -> RivetConfig {
    RivetConfig {
        name: "suite".to_string(),
        description: None,
        env: None,
        vars: None,
        setup: if setup.is_empty() {
            None
        } else {
            Some(setup.iter().map(|n| step(n)).collect())
        },
        tests: tests.iter().map(|n| step(n)).collect(),
        dataset,
        teardown: if teardown.is_empty() {
            None
        } else {
            Some(teardown.iter().map(|n| step(n)).collect())
        },
    }
}

fn runner(parallel: usize, bail: bool, filter: Option<&str>) -> TestRunner {
    TestRunner::new(
        TimeSpan::from_secs(30),
        parallel,
        bail,
        filter.map(|f| f.to_string()),
        true,
    )
}

fn result(name: &str, passed: bool) -> TestResult {
    TestResult {
        name: name.to_string(),
        passed,
        duration: TimeSpan::from_millis(1),
        error: if passed { None } else { Some("failed".to_string()) },
        response_status: Some(if passed { 200 } else { 500 }),
        response_body: None,
    }
}

/// Runs the suite to its end; a step fails where its label is in `failing`.
fn drive(run: SuiteRun, failing: &[&str]) -> (Vec<Vec<String>>, TestSuiteResult) {
    drive_rows(run, 0, failing)
}

/// Runs a suite whose data set holds `rows` rows to its end.
fn drive_rows(mut run: SuiteRun, rows: usize, failing: &[&str]) -> (Vec<Vec<String>>, TestSuiteResult) {
    let mut batches = Vec::new();
    while !run.is_done() {
        if run.needs_rows() {
            assert!(run.next_batch().is_empty());
            run = run.supply_rows(rows);
            assert!(!run.needs_rows());
            continue;
        }
        let jobs: Vec<Job> = run.next_batch();
        assert!(!jobs.is_empty());
        let labels: Vec<String> = jobs
            .iter()
            .map(|job| format!("{:?}/{}/{}/{}", job.phase, job.row, job.index, job.label))
            .collect();
        let results = jobs
            .iter()
            .map(|job| result(&job.label, !failing.contains(&job.label.as_str())))
            .collect();
        batches.push(labels);
        run = run.record(results);
    }
    assert!(run.next_batch().is_empty());
    (batches, run.into_result("suite".to_string(), TimeSpan::from_secs(1)))
}

#[test]
fn bail_stops_a_sequential_suite_at_the_first_failure() {
    let config = suite(&[], &["one", "two", "three"], &[], None);
    let run = runner(1, true, None).run_single_suite(&config);
    let (batches, outcome) = drive_rows(run, 0, &["two"]);
    assert_eq!(
        batches,
        vec![vec!["Tests/0/0/one".to_string()], vec!["Tests/0/1/two".to_string()]]
    );
    assert_eq!(outcome.results.len(), 2);
    assert_eq!(outcome.passed, 1);
    assert_eq!(outcome.failed, 1);
    assert_eq!(outcome.name, "suite");
    assert_eq!(outcome.duration, TimeSpan::from_secs(1));
}

#[test]
fn without_bail_every_step_runs() {
    let config = suite(&[], &["one", "two", "three"], &[], None);
    let run = runner(1, false, None).run_single_suite(&config);
    let (batches, outcome) = drive_rows(run, 0, &["two"]);
    assert_eq!(batches.len(), 3);
    assert_eq!(batches[2], vec!["Tests/0/2/three".to_string()]);
    assert_eq!(outcome.passed, 2);
    assert_eq!(outcome.failed, 1);
    assert_eq!(outcome.passed + outcome.failed, outcome.results.len());
}

#[test]
fn setup_tests_and_teardown_run_in_order() {
    let config = suite(&["login", "seed"], &["a", "b"], &["logout"], None);
    let run = runner(1, false, None).run_single_suite(&config);
    let (batches, outcome) = drive_rows(run, 0, &[]);
    let flat: Vec<String> = batches.into_iter().flatten().collect();
    assert_eq!(
        flat,
        vec![
            "Setup/0/0/Setup: login",
            "Setup/0/1/Setup: seed",
            "Tests/0/0/a",
            "Tests/0/1/b",
            "Teardown/0/0/Teardown: logout",
        ]
    );
    assert_eq!(outcome.passed, 5);
    assert_eq!(outcome.failed, 0);
    let names: Vec<&str> = outcome.results.iter().map(|r| r.name.as_str()).collect();
    assert_eq!(
        names,
        vec!["Setup: login", "Setup: seed", "a", "b", "Teardown: logout"]
    );
}

#[test]
fn teardown_runs_after_a_bail() {
    let config = suite(&["login"], &["a", "b"], &["cleanup", "logout"], None);
    let run = runner(1, true, None).run_single_suite(&config);
    let (batches, _) = drive_rows(run, 0, &["a"]);
    let flat: Vec<String> = batches.into_iter().flatten().collect();
    assert_eq!(
        flat,
        vec![
            "Setup/0/0/Setup: login",
            "Tests/0/0/a",
            "Teardown/0/0/Teardown: cleanup",
            "Teardown/0/1/Teardown: logout",
        ]
    );
    // A failing setup step ends setup and steps alike.
    let run = runner(1, true, None).run_single_suite(&config);
    let (batches, outcome) = drive_rows(run, 0, &["Setup: login"]);
    let flat: Vec<String> = batches.into_iter().flatten().collect();
    assert_eq!(
        flat,
        vec![
            "Setup/0/0/Setup: login",
            "Teardown/0/0/Teardown: cleanup",
            "Teardown/0/1/Teardown: logout",
        ]
    );
    assert_eq!(outcome.failed, 1);
    // A failing teardown step ends the teardown.
    let run = runner(1, true, None).run_single_suite(&config);
    let (batches, _) = drive_rows(run, 0, &["Teardown: cleanup"]);
    assert_eq!(batches.len(), 4);
    assert_eq!(batches[3], vec!["Teardown/0/0/Teardown: cleanup".to_string()]);
}

#[test]
fn steps_run_in_chunks_no_larger_than_the_parallelism() {
    let config = suite(&["s1", "s2"], &["a", "b", "c", "d", "e"], &["t1", "t2"], None);
    let run = runner(2, false, None).run_single_suite(&config);
    let (batches, _) = drive_rows(run, 0, &[]);
    let sizes: Vec<usize> = batches.iter().map(|b| b.len()).collect();
    assert_eq!(sizes, vec![1, 1, 2, 2, 1, 1, 1]);
    assert_eq!(batches[2], vec!["Tests/0/0/a".to_string(), "Tests/0/1/b".to_string()]);
    assert_eq!(batches[4], vec!["Tests/0/4/e".to_string()]);
    // A failure lets its chunk finish and stops the chunks after it.
    let run = runner(2, true, None).run_single_suite(&config);
    let (batches, outcome) = drive_rows(run, 0, &["a"]);
    let sizes: Vec<usize> = batches.iter().map(|b| b.len()).collect();
    assert_eq!(sizes, vec![1, 1, 2, 1, 1]);
    assert_eq!(outcome.results.len(), 6);
    assert_eq!(outcome.failed, 1);
    let wide = runner(10, false, None).run_single_suite(&config);
    let (batches, _) = drive_rows(wide, 0, &[]);
    assert_eq!(batches[2].len(), 5);
    let none = runner(0, false, None).run_single_suite(&config);
    let (batches, _) = drive_rows(none, 0, &[]);
    assert_eq!(batches.len(), 9);
}

#[test]
fn every_row_of_a_data_set_runs_all_steps() {
    let dataset = Dataset {
        file: "rows.csv".to_string(),
        parallel: None,
    };
    let config = suite(&["s"], &["a", "b"], &["t"], Some(dataset));
    let run = runner(1, false, None).run_single_suite(&config);
    let (batches, outcome) = drive_rows(run, 3, &[]);
    let flat: Vec<String> = batches.into_iter().flatten().collect();
    assert_eq!(
        flat,
        vec![
            "Setup/0/0/Setup: s",
            "Tests/0/0/a",
            "Tests/0/1/b",
            "Tests/1/0/a",
            "Tests/1/1/b",
            "Tests/2/0/a",
            "Tests/2/1/b",
            "Teardown/0/0/Teardown: t",
        ]
    );
    assert_eq!(outcome.passed, 8);
    // No row, no step of the suite.
    let dataset = Dataset {
        file: "rows.csv".to_string(),
        parallel: Some(4),
    };
    let config = suite(&["s"], &["a", "b"], &["t"], Some(dataset));
    let run = runner(1, false, None).run_single_suite(&config);
    let (batches, _) = drive_rows(run, 0, &[]);
    assert_eq!(batches.len(), 2);
    // The data set says how many steps of a row run at once.
    let run = runner(1, false, None).run_single_suite(&config);
    let (batches, _) = drive_rows(run, 2, &[]);
    let sizes: Vec<usize> = batches.iter().map(|b| b.len()).collect();
    assert_eq!(sizes, vec![1, 2, 2, 1]);
    // A failing row ends the rows.
    let run = runner(1, true, None).run_single_suite(&config);
    let (batches, _) = drive_rows(run, 2, &["b"]);
    let sizes: Vec<usize> = batches.iter().map(|b| b.len()).collect();
    assert_eq!(sizes, vec![1, 2, 1]);
}

#[test]
fn the_filter_selects_by_substring() {
    let r = runner(1, false, Some("user"));
    assert!(r.should_run_test("create user"));
    assert!(r.should_run_test("user"));
    assert!(!r.should_run_test("create User"));
    assert!(!r.should_run_test("use"));
    assert!(!r.should_run_test(""));
    assert!(runner(1, false, None).should_run_test("anything"));
    assert!(runner(1, false, Some("")).should_run_test("anything"));
    assert!(runner(1, false, Some("")).should_run_test(""));

    let config = suite(&["user login", "seed"], &["get user", "get order", "user list"], &["drop user"], None);
    let (batches, _) = drive(r.run_single_suite(&config), &[]);
    let flat: Vec<String> = batches.into_iter().flatten().collect();
    assert_eq!(
        flat,
        vec![
            "Setup/0/0/Setup: user login",
            "Tests/0/0/get user",
            "Tests/0/2/user list",
            "Teardown/0/0/Teardown: drop user",
        ]
    );
    let nothing = runner(1, false, Some("zzz")).run_single_suite(&config);
    assert!(nothing.is_done());
    let (batches, outcome) = drive(nothing, &[]);
    assert!(batches.is_empty());
    assert_eq!(outcome.passed + outcome.failed, 0);
}

#[test]
fn suites_run_in_chunks_too() {
    let sequential = runner(1, false, None);
    assert!(!sequential.runs_suites_in_parallel(5));
    assert_eq!(sequential.next_suites(5, 0, false), (0, 1));
    assert_eq!(sequential.next_suites(5, 4, true), (4, 5));
    assert_eq!(sequential.next_suites(5, 5, false), (5, 5));
    assert_eq!(sequential.suite_runner(5).parallel_workers, 1);

    let parallel = runner(3, true, Some("x"));
    assert!(parallel.runs_suites_in_parallel(5));
    assert!(!parallel.runs_suites_in_parallel(1));
    assert_eq!(parallel.next_suites(5, 0, false), (0, 3));
    assert_eq!(parallel.next_suites(5, 3, false), (3, 5));
    assert_eq!(parallel.next_suites(5, 3, true), (3, 3));
    assert_eq!(parallel.next_suites(1, 0, false), (0, 1));
    let inner = parallel.suite_runner(5);
    assert_eq!(inner.parallel_workers, 1);
    assert!(inner.bail_on_failure);
    assert_eq!(inner.filter_pattern, Some("x".to_string()));
    assert!(inner.ci_mode);
    assert_eq!(parallel.suite_runner(1).parallel_workers, 3);
    assert_eq!(inner.executor.request_timeout(), TimeSpan::from_secs(30));
}

#[test]
fn suite_results_count_what_they_hold() {
    let results = vec![result("a", true), result("b", false), result("c", true)];
    assert!(has_failure(&results));
    let suite = TestSuiteResult::new("s".to_string(), results, TimeSpan::from_millis(550));
    assert_eq!(suite.passed, 2);
    assert_eq!(suite.failed, 1);
    assert_eq!(suite.passed + suite.failed, suite.results.len());
    let empty = TestSuiteResult::new("e".to_string(), Vec::new(), TimeSpan::zero());
    assert_eq!((empty.passed, empty.failed), (0, 0));
    assert!(!has_failure(&Vec::new()));
    assert_eq!(Phase::Setup, Phase::Setup);
}

#[test]
fn one_step_suite_against_a_server() {
    let mut config = suite(&[], &["get"], &[], None);
    config.tests[0].expect = Some(Expectation {
        status: Some(StatusExpectation::Number(200)),
        schema: None,
        jsonpath: None,
        headers: None,
    });
    let context = VariableContext::new();
    let serve = |status: u16| {
        let runner = runner(1, false, None);
        let mut run = runner.run_single_suite(&config);
        while !run.is_done() {
            let mut results = Vec::new();
            for job in run.next_batch() {
                let step = &config.tests[job.index];
                let prepared = runner.executor.execute_request(&step.request, &context);
                assert!(prepared.is_ok());
                let exchange = Exchange::Response {
                    status,
                    body: "{}".to_string(),
                };
                results.push(runner.executor.execute_test(
                    &job.label,
                    exchange,
                    step.expect.as_ref(),
                    &context,
                    TimeSpan::from_millis(3),
                ));
            }
            run = run.record(results);
        }
        run.into_result("one.yaml".to_string(), TimeSpan::from_millis(4))
    };
    let ok = serve(200);
    assert_eq!((ok.passed, ok.failed), (1, 0));
    let not_found = serve(404);
    assert_eq!((not_found.passed, not_found.failed), (0, 1));
    let error = not_found.results[0].error.clone().unwrap();
    assert!(error.contains("200"));
    assert!(error.contains("404"));
}

#[test]
fn rows_are_asked_for_after_the_setup() {
    let dataset = Dataset {
        file: "rows.csv".to_string(),
        parallel: None,
    };
    let config = suite(&["s"], &["a"], &["t"], Some(dataset));
    let mut run = runner(1, true, None).run_single_suite(&config);
    assert!(!run.needs_rows());
    let jobs = run.next_batch();
    assert_eq!(jobs[0].label, "Setup: s");
    run = run.record(vec![result("Setup: s", true)]);
    assert!(run.needs_rows());
    assert!(!run.is_done());
    // Results that come in while the rows are due change nothing.
    run = run.record(Vec::new());
    assert!(run.needs_rows());
    run = run.supply_rows(1);
    assert_eq!(run.next_batch()[0].label, "a");
    // Told twice, the rows stay as they were told first.
    run = run.supply_rows(5);
    let (batches, _) = drive(run, &[]);
    assert_eq!(batches.len(), 2);

    // A setup that bails never asks for the rows.
    let mut run = runner(1, true, None).run_single_suite(&config);
    run = run.record(vec![result("Setup: s", false)]);
    assert!(!run.needs_rows());
    assert_eq!(run.next_batch()[0].phase, Phase::Teardown);
}

#[test]
fn a_suite_starts_from_environment_then_its_own_variables() {
    let mut environment = rivet::bindings::Bindings::new();
    environment.insert("HOST".to_string(), "example.org".to_string());
    environment.insert("RIVET_ENV".to_string(), "from-process".to_string());
    let mut config = suite(&[], &["a"], &[], None);
    let mut vars = rivet::bindings::Bindings::new();
    vars.insert("base".to_string(), "https://{{HOST}}".to_string());
    vars.insert("users".to_string(), "{{base}}/users".to_string());
    vars.insert("HOST".to_string(), "overridden".to_string());
    config.vars = Some(vars);
    let context = TestRunner::suite_context(&config, Some("staging"), environment.clone());
    assert_eq!(context.vars.get("base").unwrap(), "https://example.org");
    assert_eq!(context.vars.get("users").unwrap(), "https://example.org/users");
    assert_eq!(context.vars.get("HOST").unwrap(), "overridden");
    assert_eq!(context.vars.get("RIVET_ENV").unwrap(), "staging");
    assert_eq!(context.substitute_variables("${HOST:x}"), "example.org");
    let plain = TestRunner::suite_context(&config, None, environment);
    assert_eq!(plain.vars.get("RIVET_ENV").unwrap(), "from-process");
    let bare = TestRunner::suite_context(&suite(&[], &[], &[], None), None, rivet::bindings::Bindings::new());
    assert!(bare.vars.is_empty());
}
