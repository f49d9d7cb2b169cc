use veri::flaky::{environment_info, generate_recommendations, FlakyConfig, FlakyManager, RetryStep, TestRun};

fn run(passed: bool, reason: Option<&str>, ts: u64) -> TestRun {
    TestRun {
        timestamp_secs: ts,
        passed,
        duration_ms: 100,
        failure_reason: reason.map(|r| r.to_string()),
        environment: Some("test".to_string()),
    }
}

#[test]
fn test_flaky_config_default() {
    let config = FlakyConfig::default();
    assert_eq!(config.retry_count, 1);
    assert!(config.auto_retry);
    assert_eq!(config.flaky_threshold_permille, 200);
}

#[test]
fn test_flaky_manager_creation() {
    let manager = FlakyManager::new(FlakyConfig::default());
    assert_eq!(manager.database.test_history.len(), 0);
}

#[test]
fn test_test_execution_with_retry() {
    let mut manager = FlakyManager::new(FlakyConfig::default());
    // The program runs the test as the manager's retry steps say.
    let mut attempts = Vec::new();
    let mut executor_calls = 0;
    let mut waits = Vec::new();
    while let RetryStep::Run { attempt, wait_ms } = manager.next_retry_step(&attempts) {
        waits.push(wait_ms);
        executor_calls += 1;
        let passed = attempt > 1;
        attempts.push(run(passed, if passed { None } else { Some("Flaky failure") }, 1000));
    }
    assert_eq!(executor_calls, 2);
    assert_eq!(waits, vec![0, FlakyConfig::default().retry_delay_ms]);
    let result = manager.finish_execution("test_example", attempts).unwrap();
    assert!(result.passed);
    assert_eq!(result.attempts, 2);
    assert!(result.was_retried);
    assert_eq!(result.failure_reason, None);
    assert_eq!(manager.max_attempts(), 2);
}

#[test]
fn retries_stop_when_attempts_run_out() {
    let mut manager = FlakyManager::new(FlakyConfig::default());
    let mut attempts = Vec::new();
    while let RetryStep::Run { .. } = manager.next_retry_step(&attempts) {
        attempts.push(run(false, Some("boom"), 1000));
    }
    assert_eq!(attempts.len(), 2);
    let result = manager.finish_execution("test_broken", attempts).unwrap();
    assert!(!result.passed);
    assert_eq!(result.failure_reason, Some("boom".to_string()));
    let mut config = FlakyConfig::default();
    config.auto_retry = false;
    let once = FlakyManager::new(config);
    assert_eq!(once.next_retry_step(&vec![run(false, None, 1)]), RetryStep::Finish);
}

#[test]
fn test_flaky_score_calculation() {
    let mut config = FlakyConfig::default();
    config.min_runs_for_flaky = 2;
    config.flaky_threshold_permille = 500;
    let mut manager = FlakyManager::new(config);
    let runs = vec![run(false, Some("Error 1"), 1), run(true, None, 2), run(false, Some("Error 2"), 3)];
    manager.record_test_result("test_flaky", &runs).unwrap();

    let flaky_score = manager.get_flaky_score("test_flaky");
    assert!(flaky_score > 0);
    assert_eq!(flaky_score, 666);
    assert!(manager.is_test_flaky("test_flaky"));
    assert_eq!(manager.get_flaky_tests(), vec!["test_flaky".to_string()]);
    let h = &manager.database.test_history[0];
    assert_eq!(h.recent_runs[0].timestamp_secs, 3);
    assert_eq!(h.consecutive_passes, 0);
    assert!(h.last_flaky_time.is_some());
}

#[test]
fn test_flaky_report_generation() {
    let manager = FlakyManager::new(FlakyConfig::default());
    let report = manager.generate_report();
    assert_eq!(report.total_tests, 0);
    assert_eq!(report.total_flaky, 0);
    assert!(!report.recommendations.is_empty());
    let lines = report.report_lines(false);
    assert!(lines.contains(&"  ✅ No flaky tests detected".to_string()));
}

#[test]
fn too_few_runs_are_not_judged() {
    let mut manager = FlakyManager::new(FlakyConfig::default());
    manager.record_test_result_at("t", &vec![run(false, None, 1)], 5).unwrap();
    assert_eq!(manager.get_flaky_score("t"), 0);
    assert!(!manager.is_test_flaky("t"));
    assert_eq!(manager.database.test_history[0].total_failures, 1);
}

#[test]
fn report_lists_flaky_tests_by_score() {
    let mut config = FlakyConfig::default();
    config.min_runs_for_flaky = 1;
    let mut manager = FlakyManager::new(config);
    manager.record_test_result_at("a", &vec![run(false, Some("timeout after 5s\nmore"), 1), run(true, None, 2)], 9).unwrap();
    manager.record_test_result_at("b", &vec![run(false, Some("boom"), 1)], 9).unwrap();
    manager.record_test_result_at("c", &vec![run(true, None, 1)], 9).unwrap();
    let report = manager.generate_report();
    assert_eq!(report.total_tests, 3);
    assert_eq!(report.total_flaky, 2);
    assert_eq!(report.flaky_permille, 666);
    assert_eq!(report.avg_flaky_score_permille, 750);
    let lines = report.report_lines(false);
    assert!(lines.contains(&"  1. b (score: 1.00, 1/1 failures)".to_string()));
    assert!(lines.contains(&"  2. a (score: 0.50, 1/2 failures)".to_string()));
    assert!(lines.contains(&"     Last failure: timeout after 5s".to_string()));
    assert!(report.recommendations.contains(&"⏱️  1 test(s) appear to be timing-related - consider adding timeouts or sleeps".to_string()));
    assert!(lines.contains(&"  🚨 1 test(s) are highly unstable (>50% failure rate) - prioritize fixing these".to_string()));
    assert_eq!(generate_recommendations(&vec![]).len(), 1);
}

#[test]
fn old_stable_histories_are_dropped() {
    let mut manager = FlakyManager::new(FlakyConfig::default());
    manager.record_test_result_at("old", &vec![run(true, None, 100)], 100).unwrap();
    manager.record_test_result_at("new", &vec![run(true, None, 3_000_000)], 100).unwrap();
    manager.mark_saved(5);
    manager.cleanup_old_entries(3_000_000);
    assert_eq!(manager.database.test_history.len(), 1);
    assert_eq!(manager.database.test_history[0].nodeid, "new");
    assert!(manager.modified);
}

#[test]
fn environment_string() {
    assert_eq!(environment_info("linux", Some("3.12")), "linux-3.12");
    assert_eq!(environment_info("macos", None), "macos-unknown");
}
