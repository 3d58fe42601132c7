use rivet::ratio::Ratio;
use rivet::report::{ReportGenerator, TestStatus};
use rivet::runner::executor::TestResult as ExecutorTestResult;
use rivet::runner::test_runner::TestSuiteResult;
use rivet::span::TimeSpan;

fn percent(rate: Ratio) -> f64 {
    rate.num as f64 / rate.den as f64
}

fn create_sample_test_suite_result() -> TestSuiteResult {
    TestSuiteResult {
        name: "API Test Suite".to_string(),
        results: vec![
            ExecutorTestResult {
                name: "Test GET users".to_string(),
                passed: true,
                duration: TimeSpan::from_millis(150),
                error: None,
                response_status: Some(200),
                response_body: Some(r#"{"users": []}"#.to_string()),
            },
            ExecutorTestResult {
                name: "Test POST user".to_string(),
                passed: false,
                duration: TimeSpan::from_millis(300),
                error: Some("Status code mismatch: expected 201, got 400".to_string()),
                response_status: Some(400),
                response_body: Some(r#"{"error": "Invalid data"}"#.to_string()),
            },
            ExecutorTestResult {
                name: "Test DELETE user".to_string(),
                passed: true,
                duration: TimeSpan::from_millis(100),
                error: None,
                response_status: Some(204),
                response_body: None,
            },
        ],
        duration: TimeSpan::from_millis(550),
        passed: 2,
        failed: 1,
    }
}

#[test]
fn test_build_report() {
    let suite_results = vec![create_sample_test_suite_result()];
    assert!(ReportGenerator::can_report(&suite_results));
    let report = ReportGenerator::build_report(&suite_results);

    // Check overall summary
    assert_eq!(report.summary.total, 3);
    assert_eq!(report.summary.passed, 2);
    assert_eq!(report.summary.failed, 1);
    assert_eq!(report.summary.duration, TimeSpan::from_millis(550));
    assert!((percent(report.summary.success_rate) - 66.67).abs() < 0.1);

    // Check suite details
    assert_eq!(report.suites.len(), 1);
    let suite = &report.suites[0];
    assert_eq!(suite.name, "API Test Suite");
    assert_eq!(suite.duration, TimeSpan::from_millis(550));
    assert_eq!(suite.summary.total, 3);
    assert_eq!(suite.summary.passed, 2);
    assert_eq!(suite.summary.failed, 1);

    // Check test details
    assert_eq!(suite.tests.len(), 3);
    assert!(matches!(suite.tests[0].status, TestStatus::Passed));
    assert!(matches!(suite.tests[1].status, TestStatus::Failed));
    assert!(matches!(suite.tests[2].status, TestStatus::Passed));
    assert_eq!(
        suite.tests[1].error,
        Some("Status code mismatch: expected 201, got 400".to_string())
    );
    assert_eq!(suite.tests[1].response_status, Some(400));
    assert_eq!(suite.tests[0].name, "Test GET users");
    assert_eq!(suite.tests[2].duration, TimeSpan::from_millis(100));
}

#[test]
fn test_build_report_empty() {
    let suite_results = vec![];
    let report = ReportGenerator::build_report(&suite_results);

    assert_eq!(report.summary.total, 0);
    assert_eq!(report.summary.passed, 0);
    assert_eq!(report.summary.failed, 0);
    assert_eq!(percent(report.summary.success_rate), 0.0);
    assert!(report.suites.is_empty());
}

#[test]
fn test_build_report_all_passed() {
    let suite_result = TestSuiteResult {
        name: "All Pass Suite".to_string(),
        results: vec![
            ExecutorTestResult {
                name: "Test 1".to_string(),
                passed: true,
                duration: TimeSpan::from_millis(100),
                error: None,
                response_status: Some(200),
                response_body: None,
            },
            ExecutorTestResult {
                name: "Test 2".to_string(),
                passed: true,
                duration: TimeSpan::from_millis(200),
                error: None,
                response_status: Some(200),
                response_body: None,
            },
        ],
        duration: TimeSpan::from_millis(300),
        passed: 2,
        failed: 0,
    };

    let report = ReportGenerator::build_report(&vec![suite_result]);
    assert_eq!(percent(report.summary.success_rate), 100.0);
}

#[test]
fn test_build_report_all_failed() {
    let suite_result = TestSuiteResult {
        name: "All Fail Suite".to_string(),
        results: vec![
            ExecutorTestResult {
                name: "Test 1".to_string(),
                passed: false,
                duration: TimeSpan::from_millis(100),
                error: Some("Error 1".to_string()),
                response_status: Some(500),
                response_body: None,
            },
            ExecutorTestResult {
                name: "Test 2".to_string(),
                passed: false,
                duration: TimeSpan::from_millis(200),
                error: Some("Error 2".to_string()),
                response_status: Some(404),
                response_body: None,
            },
        ],
        duration: TimeSpan::from_millis(300),
        passed: 0,
        failed: 2,
    };

    let report = ReportGenerator::build_report(&vec![suite_result]);
    assert_eq!(percent(report.summary.success_rate), 0.0);
}

#[test]
fn test_build_report_multiple_suites() {
    let suite1 = TestSuiteResult {
        name: "Suite 1".to_string(),
        results: vec![ExecutorTestResult {
            name: "Test 1".to_string(),
            passed: true,
            duration: TimeSpan::from_millis(100),
            error: None,
            response_status: Some(200),
            response_body: None,
        }],
        duration: TimeSpan::from_millis(100),
        passed: 1,
        failed: 0,
    };

    let suite2 = TestSuiteResult {
        name: "Suite 2".to_string(),
        results: vec![
            ExecutorTestResult {
                name: "Test 2".to_string(),
                passed: true,
                duration: TimeSpan::from_millis(150),
                error: None,
                response_status: Some(200),
                response_body: None,
            },
            ExecutorTestResult {
                name: "Test 3".to_string(),
                passed: false,
                duration: TimeSpan::from_millis(200),
                error: Some("Failed".to_string()),
                response_status: Some(500),
                response_body: None,
            },
        ],
        duration: TimeSpan::from_millis(350),
        passed: 1,
        failed: 1,
    };

    let report = ReportGenerator::build_report(&vec![suite1, suite2]);

    // Overall summary should aggregate both suites
    assert_eq!(report.summary.total, 3);
    assert_eq!(report.summary.passed, 2);
    assert_eq!(report.summary.failed, 1);
    assert_eq!(report.summary.duration, TimeSpan::from_millis(450));
    assert!((percent(report.summary.success_rate) - 66.67).abs() < 0.1);
    assert_eq!(report.suites.len(), 2);
    assert_eq!(report.suites[1].summary.success_rate, Ratio { num: 100, den: 2 });
    assert_eq!(report.suites[1].name, "Suite 2");
}

#[test]
fn totals_that_cannot_be_held_are_told_apart() {
    let huge = |passed: usize, failed: usize, secs: u64| TestSuiteResult {
        name: "huge".to_string(),
        results: Vec::new(),
        duration: TimeSpan::from_secs(secs),
        passed,
        failed,
    };
    assert!(ReportGenerator::can_report(&[huge(usize::MAX, 0, u64::MAX)]));
    assert!(ReportGenerator::can_report(&[huge(usize::MAX - 1, 1, 1)]));
    assert!(!ReportGenerator::can_report(&[huge(usize::MAX, 1, 1)]));
    assert!(!ReportGenerator::can_report(&[huge(usize::MAX, 0, 1), huge(1, 0, 1)]));
    assert!(!ReportGenerator::can_report(&[huge(1, 1, u64::MAX), huge(1, 1, 1)]));
    assert!(ReportGenerator::can_report(&[]));
    let summary = ReportGenerator::summarize(3, 1, TimeSpan::from_secs(2));
    assert_eq!(summary.total, 4);
    assert_eq!(summary.success_rate, Ratio { num: 300, den: 4 });
    assert_eq!(ReportGenerator::summarize(0, 0, TimeSpan::zero()).success_rate, Ratio { num: 0, den: 1 });
}
