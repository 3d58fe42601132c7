use rivet::bindings::Bindings;
use rivet::config::{Request, RivetConfig, TestStep};
use rivet::performance::metrics::PerformanceMetrics;
use rivet::performance::monitor::{Grade, PerformanceMonitor};
use rivet::performance::patterns::{delay_of, LoadController, LoadPattern, TargetRate};
use rivet::performance::runner::{PerformanceError, PerformanceTestRunner};
use rivet::ratio::{Rate, Ratio};
use rivet::runner::executor::TestResult;
use rivet::span::TimeSpan;

fn value(rate: TargetRate) -> f64 {
    rate.base as f64 * rate.num as f64 / rate.den as f64
}

fn fraction(ratio: Ratio) -> f64 {
    ratio.num as f64 / ratio.den as f64
}

#[test]
fn test_performance_test_runner_creation() {
    let runner = PerformanceTestRunner::new(
        5,
        Some(10),
        TimeSpan::from_secs(5),
        TimeSpan::from_secs(1),
        TimeSpan::from_secs(2),
        LoadPattern::Constant,
    );
    assert_eq!(runner.concurrent_users, 5);
    assert_eq!(runner.target_rps, Some(10));
    assert_eq!(runner.executor.request_timeout(), TimeSpan::from_secs(60));
    let controller = runner.load_controller();
    assert_eq!(controller.pattern, LoadPattern::Constant);
    assert_eq!(controller.warmup_duration, TimeSpan::from_secs(1));
}

#[test]
fn test_performance_metrics() {
    let mut metrics = PerformanceMetrics::new();

    // Record some test requests
    metrics.record_request(TimeSpan::from_millis(100), 200, 1024, 2048, false);
    metrics.record_request(TimeSpan::from_millis(150), 200, 512, 1024, false);
    metrics.record_request(TimeSpan::from_millis(200), 500, 256, 512, true);

    let results = metrics.calculate_results(TimeSpan::from_secs(2));

    assert_eq!(results.total_requests, 3);
    assert_eq!(results.successful_requests, 2);
    assert_eq!(results.failed_requests, 1);
    assert_eq!(fraction(results.success_rate), 2.0 / 3.0);
    assert_eq!(results.success_rate, Ratio { num: 2, den: 3 });

    // Check response time metrics
    assert!(results.average_response_time > TimeSpan::from_millis(100));
    assert!(results.average_response_time < TimeSpan::from_millis(200));
    assert_eq!(results.average_response_time, TimeSpan::from_millis(150));
    assert_eq!(results.min_response_time, TimeSpan::from_millis(100));
    assert_eq!(results.max_response_time, TimeSpan::from_millis(200));

    // Check status code distribution
    assert_eq!(results.status_code_distribution.get(&200), Some(&2));
    assert_eq!(results.status_code_distribution.get(&500), Some(&1));
    assert_eq!(results.status_code_distribution.len(), 2);

    assert_eq!(
        results.requests_per_second,
        Rate {
            amount: 3,
            nanos: 2_000_000_000
        }
    );
    assert_eq!(results.bytes_per_second_sent.amount, 1024 + 512 + 256);
    assert_eq!(results.bytes_per_second_received.amount, 2048 + 1024 + 512);
    assert_eq!(results.total_duration, TimeSpan::from_secs(2));
    assert_eq!(results.connection_errors, 0);
}

#[test]
fn empty_metrics_give_zeroed_results() {
    let metrics = PerformanceMetrics::new();
    let results = metrics.calculate_results(TimeSpan::from_secs(1));
    assert_eq!(results.total_requests, 0);
    assert_eq!(results.total_requests, results.failed_requests);
    assert_eq!(results.successful_requests, 0);
    assert_eq!(fraction(results.success_rate), 0.0);
    for time in [
        results.average_response_time,
        results.min_response_time,
        results.max_response_time,
        results.p50_response_time,
        results.p95_response_time,
        results.p99_response_time,
    ] {
        assert_eq!(time, TimeSpan::zero());
    }
    assert!(results.status_code_distribution.is_empty());
    assert_eq!(results.requests_per_second.amount, 0);

    let mut only_errors = PerformanceMetrics::new();
    only_errors.record_connection_error();
    only_errors.record_connection_error();
    let results = only_errors.calculate_results(TimeSpan::from_secs(1));
    assert_eq!(results.total_requests, 2);
    assert_eq!(results.failed_requests, 2);
    assert_eq!(results.connection_errors, 2);
    assert_eq!(results.successful_requests, 0);
    assert_eq!(fraction(results.success_rate), 0.0);
    assert_eq!(results.p99_response_time, TimeSpan::zero());
}

#[test]
fn percentiles_index_the_sorted_samples() {
    let mut metrics = PerformanceMetrics::new();
    // 100 samples of 1 ms to 100 ms, recorded out of order.
    for i in 0..100u64 {
        let millis = (i * 37) % 100 + 1;
        metrics.record_request(TimeSpan::from_millis(millis), 200, 1, 1, false);
    }
    let results = metrics.calculate_results(TimeSpan::from_secs(10));
    assert_eq!(results.min_response_time, TimeSpan::from_millis(1));
    assert_eq!(results.max_response_time, TimeSpan::from_millis(100));
    assert_eq!(results.p50_response_time, TimeSpan::from_millis(51));
    assert_eq!(results.p95_response_time, TimeSpan::from_millis(96));
    assert_eq!(results.p99_response_time, TimeSpan::from_millis(100));
    assert_eq!(results.average_response_time, TimeSpan::from_nanos(50_500_000));

    let mut few = PerformanceMetrics::new();
    for millis in [30u64, 10, 20] {
        few.record_request(TimeSpan::from_millis(millis), 200, 0, 0, false);
    }
    let results = few.calculate_results(TimeSpan::from_secs(1));
    assert_eq!(results.p50_response_time, TimeSpan::from_millis(20));
    assert_eq!(results.p95_response_time, TimeSpan::from_millis(30));
    assert_eq!(results.p99_response_time, TimeSpan::from_millis(30));

    let mut one = PerformanceMetrics::new();
    one.record_request(TimeSpan::from_nanos(7), 204, 0, 0, false);
    one.record_request(TimeSpan::from_nanos(8), 204, 0, 0, false);
    let results = one.calculate_results(TimeSpan::from_secs(1));
    // The mean is rounded down to a whole nanosecond.
    assert_eq!(results.average_response_time, TimeSpan::from_nanos(7));
    assert_eq!(results.p50_response_time, TimeSpan::from_nanos(8));
}

#[test]
fn the_mean_of_very_long_samples_does_not_overflow() {
    let mut metrics = PerformanceMetrics::new();
    for _ in 0..3 {
        metrics.record_request(TimeSpan::from_secs(u64::MAX), 200, u64::MAX, u64::MAX, false);
    }
    metrics.record_request(TimeSpan::from_secs(u64::MAX - 4), 200, 0, 0, false);
    let results = metrics.calculate_results(TimeSpan::from_secs(1));
    assert_eq!(results.average_response_time, TimeSpan::from_secs(u64::MAX - 1));
    assert_eq!(results.max_response_time, TimeSpan::from_secs(u64::MAX));
    assert_eq!(results.bytes_per_second_sent.amount, 3 * (u64::MAX as u128));
}

#[test]
fn connection_errors_count_as_requests_and_as_failures() {
    let mut metrics = PerformanceMetrics::new();
    metrics.record_request(TimeSpan::from_millis(10), 200, 0, 0, false);
    metrics.record_request(TimeSpan::from_millis(10), 200, 0, 0, false);
    metrics.record_request(TimeSpan::from_millis(10), 404, 0, 0, true);
    metrics.record_connection_error();
    let results = metrics.calculate_results(TimeSpan::from_secs(1));
    assert_eq!(results.total_requests, 4);
    assert_eq!(results.failed_requests, 2);
    assert_eq!(results.successful_requests, 2);
    assert_eq!(results.connection_errors, 1);
    assert_eq!(results.success_rate, Ratio { num: 2, den: 4 });
    assert!(!PerformanceTestRunner::meets_success_threshold(&results));
}

#[test]
fn merged_metrics_add_up() {
    let mut a = PerformanceMetrics::new();
    a.record_request(TimeSpan::from_millis(10), 200, 1, 2, false);
    a.record_request(TimeSpan::from_millis(30), 500, 1, 2, true);
    a.record_connection_error();
    let mut b = PerformanceMetrics::new();
    b.record_request(TimeSpan::from_millis(20), 200, 10, 20, false);
    b.record_request(TimeSpan::from_millis(40), 404, 10, 20, true);
    b.record_connection_error();
    a.merge(&b);
    let results = a.calculate_results(TimeSpan::from_secs(1));
    assert_eq!(results.total_requests, 6);
    assert_eq!(results.failed_requests, 4);
    assert_eq!(results.connection_errors, 2);
    assert_eq!(results.status_code_distribution.get(&200), Some(&2));
    assert_eq!(results.status_code_distribution.get(&404), Some(&1));
    assert_eq!(results.status_code_distribution.get(&500), Some(&1));
    assert_eq!(results.status_code_distribution.len(), 3);
    assert_eq!(results.bytes_per_second_sent.amount, 22);
    assert_eq!(results.bytes_per_second_received.amount, 44);
    assert_eq!(results.min_response_time, TimeSpan::from_millis(10));
    assert_eq!(results.max_response_time, TimeSpan::from_millis(40));
    assert_eq!(results.average_response_time, TimeSpan::from_millis(25));
    // The other aggregate is as it was.
    assert_eq!(b.calculate_results(TimeSpan::from_secs(1)).total_requests, 3);
}

#[test]
fn test_load_patterns() {
    // Test constant load pattern
    let constant_controller = LoadController::new(
        LoadPattern::Constant,
        Some(100),
        10,
        TimeSpan::from_secs(5),
    );

    let rps = constant_controller.current_target_rps(TimeSpan::zero());
    assert_eq!(value(rps), 100.0);

    let delay = constant_controller.request_delay(TimeSpan::zero());
    assert!(delay.is_some());
    assert_eq!(delay.unwrap(), TimeSpan::from_millis(10)); // 1000ms / 100 RPS = 10ms

    let ramp_controller = LoadController::new(
        LoadPattern::RampUp,
        Some(100),
        10,
        TimeSpan::from_secs(10),
    );

    // At the beginning, RPS should be lower than target
    let initial_rps = ramp_controller.current_target_rps(TimeSpan::zero());
    assert!(value(initial_rps) < 100.0);
    assert_eq!(value(initial_rps), 0.0);
}

#[test]
fn ramp_up_reaches_the_full_rate_at_the_end_of_the_warmup() {
    let ramp = LoadController::new(LoadPattern::RampUp, Some(100), 10, TimeSpan::from_secs(10));
    assert_eq!(value(ramp.current_target_rps(TimeSpan::from_secs(5))), 50.0);
    assert_eq!(value(ramp.current_target_rps(TimeSpan::from_millis(9_999))), 99.99);
    assert_eq!(value(ramp.current_target_rps(TimeSpan::from_secs(10))), 100.0);
    assert_eq!(value(ramp.current_target_rps(TimeSpan::from_secs(3600))), 100.0);
    assert_eq!(
        ramp.request_delay(TimeSpan::from_secs(5)),
        Some(TimeSpan::from_millis(20))
    );
    assert_eq!(
        ramp.request_delay(TimeSpan::from_secs(10)),
        Some(TimeSpan::from_millis(10))
    );
    // At the very start the rate is 0 and the pause as long as a pause can be.
    assert_eq!(
        ramp.request_delay(TimeSpan::zero()),
        Some(TimeSpan::from_millis(u64::MAX))
    );
    let no_warmup = LoadController::new(LoadPattern::RampUp, Some(100), 10, TimeSpan::zero());
    assert_eq!(value(no_warmup.current_target_rps(TimeSpan::zero())), 100.0);
    assert_eq!(ramp.current_concurrent_users(TimeSpan::zero()), 1);
    assert_eq!(ramp.current_concurrent_users(TimeSpan::from_secs(5)), 5);
    assert_eq!(ramp.current_concurrent_users(TimeSpan::from_millis(9_999)), 9);
    assert_eq!(ramp.current_concurrent_users(TimeSpan::from_secs(10)), 10);
    assert_eq!(ramp.current_phase_description(TimeSpan::from_secs(5)), "Ramping up (50%)");
    assert_eq!(ramp.current_phase_description(TimeSpan::zero()), "Ramping up (0%)");
    assert_eq!(ramp.current_phase_description(TimeSpan::from_secs(10)), "Full load");
}

#[test]
fn spikes_double_the_rate_five_seconds_in_thirty() {
    let spike = LoadController::new(LoadPattern::Spike, Some(50), 4, TimeSpan::from_secs(1));
    for (millis, rate) in [
        (0u64, 100.0),
        (4_999, 100.0),
        (5_000, 50.0),
        (29_999, 50.0),
        (30_000, 100.0),
        (34_999, 100.0),
        (35_000, 50.0),
        (3_600_000, 100.0),
    ] {
        assert_eq!(value(spike.current_target_rps(TimeSpan::from_millis(millis))), rate);
    }
    assert_eq!(spike.request_delay(TimeSpan::zero()), Some(TimeSpan::from_millis(10)));
    assert_eq!(
        spike.request_delay(TimeSpan::from_secs(5)),
        Some(TimeSpan::from_millis(20))
    );
    assert_eq!(spike.current_concurrent_users(TimeSpan::from_secs(1)), 8);
    assert_eq!(spike.current_concurrent_users(TimeSpan::from_secs(6)), 4);
    assert_eq!(
        spike.current_phase_description(TimeSpan::zero()),
        "Spike phase (5.0s remaining)"
    );
    assert_eq!(
        spike.current_phase_description(TimeSpan::from_millis(3_750)),
        "Spike phase (1.2s remaining)"
    );
    // An exact half goes to the even tenth, as a formatted float does.
    for quarters in 0u64..120 {
        let millis = quarters * 250;
        let in_cycle = (millis % 30_000) as f64 / 1000.0;
        let expected = if in_cycle < 5.0 {
            format!("Spike phase ({:.1}s remaining)", 5.0 - in_cycle)
        } else {
            format!("Normal phase ({:.1}s to spike)", 30.0 - in_cycle)
        };
        assert_eq!(
            spike.current_phase_description(TimeSpan::from_millis(millis)),
            expected
        );
    }
    assert_eq!(
        spike.current_phase_description(TimeSpan::from_millis(4_960)),
        "Spike phase (0.0s remaining)"
    );
    assert_eq!(
        spike.current_phase_description(TimeSpan::from_secs(5)),
        "Normal phase (25.0s to spike)"
    );
    assert_eq!(
        spike.current_phase_description(TimeSpan::from_millis(29_940)),
        "Normal phase (0.1s to spike)"
    );
    let many = LoadController::new(LoadPattern::Spike, None, u32::MAX, TimeSpan::zero());
    assert_eq!(many.current_concurrent_users(TimeSpan::zero()), 2 * (u32::MAX as u64));
}

#[test]
fn without_a_target_nothing_is_paced() {
    let free = LoadController::new(LoadPattern::Constant, None, 7, TimeSpan::zero());
    assert_eq!(free.base_rps(), 70);
    assert_eq!(value(free.current_target_rps(TimeSpan::from_secs(1))), 70.0);
    assert_eq!(free.request_delay(TimeSpan::from_secs(1)), None);
    assert_eq!(free.current_concurrent_users(TimeSpan::from_secs(1)), 7);
    assert_eq!(free.current_phase_description(TimeSpan::from_secs(1)), "Constant load");
    assert_eq!(
        PerformanceTestRunner::pause_after_request(&free, TimeSpan::from_secs(1)),
        TimeSpan::from_millis(1)
    );
    let paced = LoadController::new(LoadPattern::Constant, Some(100), 7, TimeSpan::zero());
    assert_eq!(
        PerformanceTestRunner::pause_after_request(&paced, TimeSpan::from_secs(1)),
        TimeSpan::from_millis(11)
    );
    let wide = LoadController::new(LoadPattern::Constant, None, u32::MAX, TimeSpan::zero());
    assert_eq!(wide.base_rps(), 10 * (u32::MAX as u64));
}

#[test]
fn delays_round_down_to_whole_milliseconds() {
    let rate = |base: u64, num: u128, den: u128| TargetRate { base, num, den };
    assert_eq!(delay_of(rate(100, 1, 1)), 10);
    assert_eq!(delay_of(rate(3, 1, 1)), 333);
    assert_eq!(delay_of(rate(1000, 1, 1)), 1);
    assert_eq!(delay_of(rate(1001, 1, 1)), 0);
    assert_eq!(delay_of(rate(7, 2, 1)), 71);
    assert_eq!(delay_of(rate(0, 1, 1)), u64::MAX);
    assert_eq!(delay_of(rate(5, 0, 9)), u64::MAX);
    assert_eq!(delay_of(rate(1, 1, 1_000_000_000_000_000_000_000)), u64::MAX);
    assert_eq!(delay_of(rate(u64::MAX, u128::MAX, 1)), 0);
    let controller = LoadController::new(LoadPattern::Constant, Some(0), 1, TimeSpan::zero());
    assert_eq!(
        controller.request_delay(TimeSpan::zero()),
        Some(TimeSpan::from_millis(u64::MAX))
    );
}

#[test]
fn the_monitor_reports_on_its_interval() {
    let monitor = PerformanceMonitor::new(TimeSpan::from_secs(2), LoadPattern::Constant);
    assert!(!monitor.should_report(TimeSpan::from_millis(1_999)));
    assert!(monitor.should_report(TimeSpan::from_secs(2)));
    assert!(monitor.should_report(TimeSpan::from_secs(3)));
    assert_eq!(
        PerformanceMonitor::progress(TimeSpan::from_secs(15), TimeSpan::from_secs(60)),
        25
    );
    assert_eq!(
        PerformanceMonitor::progress(TimeSpan::from_secs(61), TimeSpan::from_secs(60)),
        100
    );
    assert_eq!(PerformanceMonitor::progress(TimeSpan::from_secs(1), TimeSpan::zero()), 0);
    assert_eq!(
        PerformanceMonitor::progress(TimeSpan::from_millis(599), TimeSpan::from_secs(60)),
        0
    );
    assert_eq!(PerformanceMonitor::bar_filled(25), 5);
    assert_eq!(PerformanceMonitor::bar_filled(99), 19);
    assert_eq!(PerformanceMonitor::bar_filled(100), 20);
    assert_eq!(PerformanceMonitor::bar_filled(4), 0);
}

#[test]
fn figures_are_rated_by_fixed_limits() {
    let rate = |num: u128, den: u128| PerformanceMonitor::grade_success_rate(&Ratio { num, den });
    assert_eq!(rate(100, 100), Grade::Excellent);
    assert_eq!(rate(99, 100), Grade::Excellent);
    assert_eq!(rate(989, 1000), Grade::Good);
    assert_eq!(rate(95, 100), Grade::Good);
    assert_eq!(rate(949, 1000), Grade::Fair);
    assert_eq!(rate(90, 100), Grade::Fair);
    assert_eq!(rate(899, 1000), Grade::Poor);
    assert_eq!(rate(0, 1), Grade::Poor);
    let average = |millis: u64| PerformanceMonitor::grade_average(TimeSpan::from_millis(millis));
    assert_eq!(average(100), Grade::Excellent);
    assert_eq!(average(101), Grade::Good);
    assert_eq!(average(500), Grade::Good);
    assert_eq!(average(1000), Grade::Fair);
    assert_eq!(average(1001), Grade::Poor);
    assert_eq!(
        PerformanceMonitor::grade_average(TimeSpan::from_nanos(100_999_999)),
        Grade::Excellent
    );
    let p95 = |millis: u64| PerformanceMonitor::grade_p95(TimeSpan::from_millis(millis));
    assert_eq!(p95(200), Grade::Excellent);
    assert_eq!(p95(201), Grade::Good);
    assert_eq!(p95(1000), Grade::Good);
    assert_eq!(p95(2000), Grade::Fair);
    assert_eq!(p95(2001), Grade::Poor);
    let throughput = |amount: u128, millis: u128| {
        PerformanceMonitor::grade_throughput(&Rate {
            amount,
            nanos: millis * 1_000_000,
        })
    };
    assert_eq!(throughput(100, 1000), Grade::Excellent);
    assert_eq!(throughput(99, 1000), Grade::Good);
    assert_eq!(throughput(50, 1000), Grade::Good);
    assert_eq!(throughput(49, 1000), Grade::Fair);
    assert_eq!(throughput(10, 1000), Grade::Fair);
    assert_eq!(throughput(9, 1000), Grade::Poor);
    assert_eq!(throughput(0, 1000), Grade::Poor);
}

fn step(body: Option<&str>) -> TestStep {
    TestStep {
        name: "s".to_string(),
        description: None,
        request: Request {
            method: "GET".to_string(),
            url: "http://localhost/".to_string(),
            headers: None,
            params: None,
            body: body.map(|b| b.to_string()),
        },
        expect: None,
    }
}

fn result(passed: bool, status: Option<u16>, body: Option<&str>) -> TestResult {
    TestResult {
        name: "r".to_string(),
        passed,
        duration: TimeSpan::from_millis(5),
        error: None,
        response_status: status,
        response_body: body.map(|b| b.to_string()),
    }
}

#[test]
fn workers_record_what_they_see() {
    let mut metrics = PerformanceMetrics::new();
    PerformanceTestRunner::record_outcome(
        &mut metrics,
        &step(Some("h\u{e9}llo")),
        &result(true, Some(200), Some("\u{20ac}")),
    );
    PerformanceTestRunner::record_outcome(&mut metrics, &step(None), &result(false, Some(500), None));
    PerformanceTestRunner::record_outcome(&mut metrics, &step(None), &result(false, None, None));
    PerformanceTestRunner::record_outcome(&mut metrics, &step(None), &result(false, Some(0), None));
    PerformanceTestRunner::record_outcome(&mut metrics, &step(None), &result(true, None, None));
    let results = metrics.calculate_results(TimeSpan::from_secs(1));
    assert_eq!(results.total_requests, 5);
    assert_eq!(results.connection_errors, 2);
    assert_eq!(results.failed_requests, 3);
    assert_eq!(results.successful_requests, 2);
    assert_eq!(results.bytes_per_second_sent.amount, 6 + 100 + 100);
    assert_eq!(results.bytes_per_second_received.amount, 3);
    assert_eq!(results.status_code_distribution.get(&200), Some(&1));
    assert_eq!(results.status_code_distribution.get(&500), Some(&1));
    assert_eq!(results.status_code_distribution.get(&0), Some(&1));
}

#[test]
fn workers_take_the_steps_in_turn() {
    assert_eq!(PerformanceTestRunner::next_index(0, 3), 1);
    assert_eq!(PerformanceTestRunner::next_index(1, 3), 2);
    assert_eq!(PerformanceTestRunner::next_index(2, 3), 0);
    assert_eq!(PerformanceTestRunner::next_index(0, 1), 0);
    assert_eq!(PerformanceTestRunner::request_label(0, 1), "worker_0_test_1");
    assert_eq!(PerformanceTestRunner::request_label(12, 0), "worker_12_test_0");
    let runner = PerformanceTestRunner::new(
        1,
        None,
        TimeSpan::from_secs(1),
        TimeSpan::zero(),
        TimeSpan::from_secs(1),
        LoadPattern::Spike,
    );
    assert!(runner.keeps_running(TimeSpan::from_millis(999)));
    assert!(!runner.keeps_running(TimeSpan::from_secs(1)));
}

#[test]
fn a_run_needs_a_suite_with_steps() {
    let config = |tests: Vec<TestStep>| RivetConfig {
        name: "n".to_string(),
        description: None,
        env: None,
        vars: {
            let mut vars = Bindings::new();
            vars.insert("a".to_string(), "{{b}}".to_string());
            Some(vars)
        },
        setup: None,
        tests,
        dataset: None,
        teardown: None,
    };
    let none: Vec<(String, RivetConfig)> = Vec::new();
    let error = PerformanceTestRunner::select_suite(&none).unwrap_err();
    assert!(matches!(error, PerformanceError::NoSuites));
    assert_eq!(error.message(), "No test suites found in target path");
    let empty = vec![("one.yaml".to_string(), config(Vec::new()))];
    let error = PerformanceTestRunner::select_suite(&empty).unwrap_err();
    assert_eq!(error.message(), "Test suite 'one.yaml' contains no tests");
    let two = vec![
        ("one.yaml".to_string(), config(vec![step(None)])),
        ("two.yaml".to_string(), config(Vec::new())),
    ];
    assert_eq!(PerformanceTestRunner::select_suite(&two).unwrap(), 0);

    let with_env = PerformanceTestRunner::worker_context(&two[0].1, Some("staging"), Bindings::new());
    assert_eq!(with_env.vars.get("a"), Some(&"{{b}}".to_string()));
    let without = PerformanceTestRunner::worker_context(&two[0].1, None, Bindings::new());
    assert!(without.vars.is_empty());
}

#[test]
fn a_run_passes_from_95_percent_on() {
    let run = |ok: u64, failed: u64| {
        let mut metrics = PerformanceMetrics::new();
        for _ in 0..ok {
            metrics.record_request(TimeSpan::from_millis(1), 200, 0, 0, false);
        }
        for _ in 0..failed {
            metrics.record_request(TimeSpan::from_millis(1), 500, 0, 0, true);
        }
        PerformanceTestRunner::meets_success_threshold(
            &metrics.calculate_results(TimeSpan::from_secs(1)),
        )
    };
    assert!(run(95, 5));
    assert!(run(100, 0));
    assert!(!run(94, 6));
    assert!(!run(0, 1));
    assert!(!run(0, 0));
}
