use veri::execution::{
    batch_failure_lines, lines_of, process_and_summarize_results, signed_string, timing_outcome, update_aggregated_timings,
};
use veri::schemas::{AggregatedTiming, TestOutcome};
use veri::worker_pool::{BatchResult, PerTestResult};

fn outcome(nodeid: &str, outcome: &str) -> PerTestResult {
    PerTestResult { nodeid: nodeid.to_string(), outcome: outcome.to_string(), duration_ms: 10 }
}

fn batch(worker_id: usize, exit_code: i32, nodeids: &[&str], per_test: Vec<PerTestResult>) -> BatchResult {
    BatchResult {
        batch_id: format!("batch-{}", worker_id),
        worker_id,
        exit_code,
        stdout: String::new(),
        stderr: String::new(),
        duration_ms: 1500,
        nodeids: nodeids.iter().map(|s| s.to_string()).collect(),
        per_test,
    }
}

#[test]
fn summary_of_passing_batches() {
    let results = vec![
        batch(0, 0, &["a", "b"], vec![outcome("a", "passed"), outcome("b", "skipped")]),
        batch(1, 0, &["c"], vec![outcome("c", "passed")]),
    ];
    let s = process_and_summarize_results(&results, 2500, 2, false);
    assert_eq!(s.exit_code, 0);
    assert_eq!(s.failed_batches, 0);
    assert_eq!(s.total_tests_run, 3);
    assert_eq!((s.passed, s.skipped, s.failed, s.error), (2, 1, 0, 0));
    assert_eq!(
        s.out_lines,
        vec![
            "✅ Completed 3 tests in 2.5s using 2 workers".to_string(),
            "Summary: 2 passed, 1 skipped, 0 failed, 0 error (3 total)".to_string(),
        ]
    );
    assert!(s.err_lines.is_empty());
}

#[test]
fn summary_takes_first_failing_exit_code() {
    let mut failing = batch(1, 2, &["b"], vec![outcome("b", "error")]);
    failing.stdout = "line one\r\nline two\n".to_string();
    failing.stderr = "boom".to_string();
    let results = vec![
        batch(0, 0, &["a"], vec![outcome("a", "passed")]),
        failing,
        batch(2, 1, &["c"], vec![outcome("c", "failed")]),
    ];
    let s = process_and_summarize_results(&results, 4000, 3, true);
    assert_eq!(s.exit_code, 2);
    assert_eq!(s.failed_batches, 2);
    assert_eq!(s.total_tests_run, 3);
    assert_eq!((s.passed, s.skipped, s.failed, s.error), (1, 0, 1, 1));
    assert_eq!(
        s.out_lines,
        vec![
            "Worker 0 completed 1 tests in 1.5s (exit: 0)".to_string(),
            "\n--- Batch failure: worker 1 (1 tests, 1.5s, exit 2) ---".to_string(),
            "[stdout tail]".to_string(),
            "line one".to_string(),
            "line two".to_string(),
            "Worker 1 completed 1 tests in 1.5s (exit: 2)".to_string(),
            "\n--- Batch failure: worker 2 (1 tests, 1.5s, exit 1) ---".to_string(),
            "Worker 2 completed 1 tests in 1.5s (exit: 1)".to_string(),
            "✅ Completed 3 tests in 4.0s using 3 workers".to_string(),
            "❌ 2 of 3 worker batches reported failures".to_string(),
            "Summary: 1 passed, 0 skipped, 1 failed, 1 error (3 total)".to_string(),
        ]
    );
    assert_eq!(s.err_lines, vec!["[stderr tail]".to_string(), "boom".to_string()]);
}

#[test]
fn summary_without_outcomes_has_no_rollup() {
    let results = vec![batch(0, 0, &["a"], vec![outcome("a", "xfailed")])];
    let s = process_and_summarize_results(&results, 0, 1, false);
    assert_eq!(s.out_lines, vec!["✅ Completed 1 tests in 0.0s using 1 workers".to_string()]);
}

#[test]
fn empty_run_summary() {
    let s = process_and_summarize_results(&Vec::new(), 0, 4, false);
    assert_eq!(s.exit_code, 0);
    assert_eq!(s.total_tests_run, 0);
    assert_eq!(s.out_lines.len(), 1);
}

#[test]
fn failure_tail_keeps_last_eighty_lines() {
    let mut b = batch(3, -1, &["x"], vec![]);
    b.stdout = (1..=100).map(|i| format!("out {}\n", i)).collect();
    let (out, err) = batch_failure_lines(&b);
    assert_eq!(out[0], "\n--- Batch failure: worker 3 (1 tests, 1.5s, exit -1) ---");
    assert_eq!(out[1], "[stdout tail]");
    assert_eq!(out.len(), 82);
    assert_eq!(out[2], "out 21");
    assert_eq!(out[81], "out 100");
    assert!(err.is_empty());
}

#[test]
fn lines_like_str_lines() {
    for text in ["", "a", "a\n", "a\n\nb", "a\r\nb\r", "\n", "x\r\n\r\n"] {
        let expected: Vec<String> = text.lines().map(|l| l.to_string()).collect();
        assert_eq!(lines_of(text), expected, "{:?}", text);
    }
}

#[test]
fn signed_numbers() {
    assert_eq!(signed_string(0), "0");
    assert_eq!(signed_string(-7), "-7");
    assert_eq!(signed_string(i32::MIN), i32::MIN.to_string());
}

#[test]
fn parallel_run_scheduler_settings() {
    let c = veri::execution::execution_scheduler_config(6);
    assert_eq!(c.worker_count, 6);
    assert_eq!(c.strategy, veri::scheduler::SchedulingStrategy::Balanced);
    assert!(c.enable_long_pole_detection && c.enable_fail_first);
    assert_eq!((c.long_pole_threshold_ms, c.max_batch_duration_ms), (5000, 30000));
}

#[test]
fn timings_aggregate_over_runs() {
    let mut aggs: Vec<AggregatedTiming> = Vec::new();
    let mut first = batch(0, 1, &["a", "b"], vec![]);
    first.per_test = vec![
        PerTestResult { nodeid: "a".to_string(), outcome: "passed".to_string(), duration_ms: 100 },
        PerTestResult { nodeid: "b".to_string(), outcome: "failed".to_string(), duration_ms: 40 },
    ];
    let mut second = batch(1, 0, &["a"], vec![]);
    second.per_test = vec![PerTestResult { nodeid: "a".to_string(), outcome: "error".to_string(), duration_ms: 301 }];
    update_aggregated_timings(&mut aggs, &vec![first, second]);
    assert_eq!(aggs.len(), 2);
    let a = &aggs[0];
    assert_eq!(a.nodeid, "a");
    assert_eq!(a.run_count, 2);
    assert_eq!(a.avg_ms, 200);
    assert_eq!((a.min_ms, a.max_ms, a.last_ms), (100, 301, 301));
    assert_eq!((a.p50_ms, a.p95_ms), (200, 301));
    assert_eq!(a.stability_permille, 800);
    let b = &aggs[1];
    assert_eq!((b.nodeid.as_str(), b.run_count, b.avg_ms, b.min_ms, b.max_ms), ("b", 1, 40, 40, 40));
    assert_eq!(b.stability_permille, 800);
}

#[test]
fn stability_recovers_on_passes() {
    let mut aggs = vec![AggregatedTiming {
        nodeid: "t".to_string(),
        run_count: 3,
        avg_ms: 10,
        min_ms: 5,
        max_ms: 20,
        p50_ms: 10,
        p95_ms: 20,
        last_ms: 7,
        stability_permille: 500,
    }];
    let mut b = batch(0, 0, &["t"], vec![]);
    b.per_test = vec![PerTestResult { nodeid: "t".to_string(), outcome: "passed".to_string(), duration_ms: 14 }];
    update_aggregated_timings(&mut aggs, &vec![b]);
    assert_eq!(aggs[0].run_count, 4);
    assert_eq!(aggs[0].avg_ms, 11);
    assert_eq!(aggs[0].stability_permille, 600);
}

#[test]
fn recorded_outcomes() {
    assert_eq!(timing_outcome("passed"), TestOutcome::Passed);
    assert_eq!(timing_outcome("failed"), TestOutcome::Failed);
    assert_eq!(timing_outcome("skipped"), TestOutcome::Skipped);
    assert_eq!(timing_outcome("xfail"), TestOutcome::Error);
}
