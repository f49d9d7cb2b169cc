use veri::schemas::{TestNode, TestsIndex};
use veri::scheduler::{estimate_test_duration, SchedulerConfig, SchedulingStrategy, TestScheduler};

fn index_with(tests: Vec<TestNode>) -> TestsIndex {
    TestsIndex {
        version: "1.0.0".to_string(),
        generated_at: "2023-01-01T00:00:00Z".to_string(),
        python_version: "3.9.0".to_string(),
        pytest_version: "7.0.0".to_string(),
        tests,
        collection_errors: Vec::new(),
    }
}

fn node(nodeid: &str, path: &str, function: &str, module: &str) -> TestNode {
    TestNode {
        nodeid: nodeid.to_string(),
        path: path.to_string(),
        line: 1,
        function: function.to_string(),
        class: None,
        module: module.to_string(),
        markers: vec![],
        fixtures: vec![],
        parametrize: None,
    }
}

#[test]
fn test_scheduler_creation() {
    let config = SchedulerConfig::default();
    let scheduler = TestScheduler::new(config);
    assert_eq!(scheduler.timings.len(), 0);
    assert_eq!(scheduler.last_failed.len(), 0);
}

#[test]
fn test_duration_estimation() {
    let integration_duration = estimate_test_duration("test_integration_flow", None);
    let unit_duration = estimate_test_duration("test_unit_function", None);
    assert!(integration_duration > unit_duration);
}

#[test]
fn test_priority_calculation_fail_first() {
    let mut config = SchedulerConfig::default();
    config.strategy = SchedulingStrategy::FailFirst;
    let scheduler = TestScheduler::new(config);

    let failed_score = scheduler.calculate_priority_score(1000, true, 800);
    let passed_score = scheduler.calculate_priority_score(1000, false, 800);
    assert!(failed_score > passed_score);
}

#[test]
fn test_empty_schedule() {
    let config = SchedulerConfig::default();
    let scheduler = TestScheduler::new(config);
    let tests_index = index_with(Vec::new());
    let batches = scheduler.schedule_tests(&vec![], &tests_index).unwrap();
    assert!(batches.is_empty());
}

#[test]
fn test_single_test_scheduling() {
    let mut config = SchedulerConfig::default();
    config.worker_count = 2;
    let scheduler = TestScheduler::new(config);
    let tests_index = index_with(vec![node(
        "test_example.py::test_function",
        "test_example.py",
        "test_function",
        "test_example",
    )]);

    let nodeids = vec!["test_example.py::test_function".to_string()];
    let batches = scheduler.schedule_tests(&nodeids, &tests_index).unwrap();

    assert_eq!(batches.len(), 1);
    assert_eq!(batches[0].nodeids.len(), 1);
    assert_eq!(batches[0].nodeids[0], "test_example.py::test_function");
}

#[test]
fn plain_estimate_is_one_hundred_ms() {
    assert_eq!(estimate_test_duration("test_unit_function", None), 100);
    assert_eq!(estimate_test_duration("test_integration_flow", None), 1000);
    assert_eq!(estimate_test_duration("test_slow_thing", None), 500);
}

#[test]
fn priority_scores_are_exact() {
    let mut config = SchedulerConfig::default();
    config.strategy = SchedulingStrategy::Fastest;
    let scheduler = TestScheduler::new(config);
    assert_eq!(scheduler.calculate_priority_score(100, false, 1000), 1_000_000 - 1000);
    assert_eq!(scheduler.calculate_priority_score(100, true, 1000), 1_000_000 - 1000 + 100_000);
}

#[test]
fn four_tests_spread_over_two_workers() {
    let mut config = SchedulerConfig::default();
    config.worker_count = 2;
    let scheduler = TestScheduler::new(config);
    let tests: Vec<TestNode> = (0..4)
        .map(|i| node(&format!("t.py::test_{}", i), "t.py", &format!("test_{}", i), "t"))
        .collect();
    let ids: Vec<String> = tests.iter().map(|t| t.nodeid.clone()).collect();
    let batches = scheduler.schedule_tests(&ids, &index_with(tests)).unwrap();
    let total: usize = batches.iter().map(|b| b.nodeids.len()).sum();
    assert_eq!(total, 4);
    assert!(batches.len() <= 2);
    let stats = scheduler.get_scheduling_stats(&batches);
    assert_eq!(stats.total_tests, 4);
    assert_eq!(stats.total_estimated_duration_ms, 400);
}
