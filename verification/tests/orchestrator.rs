use veri::cli::ExitCode;
use veri::orchestrator::{parse_usize, parse_worker_count, should_use_pool, MockExecutionService};

#[test]
fn test_parse_worker_count_auto() {
    let wc = parse_worker_count(Some("auto")).expect("parse auto");
    assert!(wc > 0, "auto should resolve to > 0 workers");
}

#[test]
fn test_parse_worker_count_explicit() {
    let wc = parse_worker_count(Some("4")).expect("parse 4");
    assert_eq!(wc, 4);
}

#[test]
fn test_parse_worker_count_default() {
    let wc = parse_worker_count(None).expect("parse None");
    assert!(wc > 0);
}

#[test]
fn test_mock_execution_service() {
    let mock = MockExecutionService::new(ExitCode::Success);
    assert_eq!(mock.result.total_tests_run, 10);
}

#[test]
fn test_parse_worker_count_auto_nonzero() {
    let wc = parse_worker_count(Some("auto")).expect("parse auto");
    assert!(wc > 0, "auto should resolve to > 0 workers");
}

#[test]
fn test_should_use_pool_always_true() {
    assert!(should_use_pool(1, 1));
    assert!(should_use_pool(1, 0));
    assert!(should_use_pool(4, 100));
}

#[test]
fn worker_count_errors() {
    assert_eq!(parse_worker_count(Some("0")), Err("Worker count must be > 0".to_string()));
    assert_eq!(parse_worker_count(Some("many")), Err("Invalid worker count: many".to_string()));
    assert_eq!(parse_worker_count(Some("")), Err("Invalid worker count: ".to_string()));
}

#[test]
fn usize_parsing() {
    assert_eq!(parse_usize("0"), Some(0));
    assert_eq!(parse_usize("12345"), Some(12345));
    assert_eq!(parse_usize("12a"), None);
    assert_eq!(parse_usize("99999999999999999999999"), None);
}

#[test]
fn exit_code_numbers() {
    assert_eq!(ExitCode::Success.code(), 0);
    assert_eq!(ExitCode::TestFailure.code(), 1);
    assert_eq!(i32::from(ExitCode::UsageError), 4);
}
