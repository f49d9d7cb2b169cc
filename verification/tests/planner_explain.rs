use veri::planner::{SelectionReason, TestPlanner, TestSelection};
use veri::scheduler::{SchedulerConfig, SchedulingStats, TestBatch, TestScheduler};

#[test]
fn selection_explanation_text() {
    let planner = TestPlanner::new(".", ".veri/cache");
    let selection = TestSelection {
        selected_nodeids: vec!["t.py::a".to_string()],
        total_tests: 10,
        selection_reasons: vec![
            SelectionReason::SourceFileChanged {
                path: "src/m.py".to_string(),
                impacted_modules: vec!["m".to_string(), "n".to_string()],
            },
            SelectionReason::ThresholdExceeded { selected: 7, total: 10, threshold_permille: 600 },
        ],
        should_broaden: true,
        broaden_reason: Some("big change".to_string()),
    };
    let expected = [
        "Test Selection Plan:",
        "  Selected: 1 of 10 tests",
        "  Broadened: Yes",
        "  Reason: big change",
        "",
        "Selection Reasons:",
        "  1. Source file changed: src/m.py",
        "     Impacted modules: m, n",
        "  2. Threshold exceeded: 70.0% > 60.0%",
        "",
        "Selected Tests:",
        "  - t.py::a",
    ]
    .join("\n");
    assert_eq!(planner.format_explain(&selection), expected);
}

#[test]
fn schedule_explanation_text() {
    let scheduler = TestScheduler::new(SchedulerConfig::default());
    let batches = vec![TestBatch {
        worker_id: 0,
        nodeids: vec!["a".to_string(), "b".to_string(), "c".to_string(), "d".to_string()],
        estimated_duration_ms: 1250,
        contains_last_failed: true,
    }];
    let stats = SchedulingStats {
        total_tests: 4,
        total_workers: 1,
        total_estimated_duration_ms: 1250,
        max_worker_duration_ms: 1250,
        min_worker_duration_ms: 1250,
        load_balance_permille: 1000,
        batches_with_failed_tests: 1,
    };
    let expected = [
        "Test Scheduling Plan:",
        "  Strategy: Balanced",
        "  Workers: 1",
        "  Total tests: 4",
        "  Estimated duration: 1.2s",
        "  Load balance ratio: 100.0%",
        "  ⚠️  1 workers have last-failed tests (prioritized)",
        "",
        "Worker Distribution:",
        "  Worker 0: 4 tests, 1.2s estimated 🔥",
        "    - a",
        "    - b",
        "    ... and 2 more",
    ]
    .join("\n");
    assert_eq!(scheduler.format_explain(&batches, &stats), expected);
}
