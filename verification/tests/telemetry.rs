use veri::telemetry::{ErrorCategory, RunEvent, TelemetryClient, TelemetryConfig};

fn counter(cs: &Vec<(String, u64)>, name: &str) -> Option<u64> {
    cs.iter().find(|(n, _)| n == name).map(|(_, c)| *c)
}

fn client(config: TelemetryConfig, opted_out: bool) -> TelemetryClient {
    TelemetryClient::new(config, opted_out, "0.1.0".to_string(), "linux-x86_64".to_string(), 0)
}

fn enabled_config() -> TelemetryConfig {
    let mut c = TelemetryConfig::default();
    c.enabled = true;
    c
}

#[test]
fn test_telemetry_disabled_by_default() {
    let client = client(TelemetryConfig::default(), false);
    assert!(!client.is_enabled());
}

#[test]
fn test_env_var_disables_telemetry() {
    let client = client(enabled_config(), true);
    assert!(!client.is_enabled());
}

#[test]
fn test_record_run_event() {
    let mut client = client(enabled_config(), false);
    client.enabled = true;
    let event = RunEvent {
        test_count: 10,
        worker_count: 4,
        collection_time_ms: 100,
        execution_time_ms: 500,
        coverage_enabled: true,
        watch_mode: false,
        ci_mode: true,
        python_version: Some("3.12.0".to_string()),
        features_used: vec!["coverage".to_string(), "sharding".to_string()],
    };
    client.record_run(event, 1);

    let metrics = client.get_metrics();
    assert_eq!(metrics.runs_total, 1);
    assert_eq!(metrics.runs_with_coverage, 1);
    assert_eq!(metrics.runs_ci_mode, 1);
    assert_eq!(counter(&metrics.features_used, "coverage"), Some(1));
    assert_eq!(metrics.python_version, Some("3.12.0".to_string()));
    assert_eq!(metrics.avg_collection_time_ms, Some(100));
}

#[test]
fn test_record_error() {
    let mut client = client(enabled_config(), false);
    client.enabled = true;
    client.record_error(ErrorCategory::CollectionError, 1);
    client.record_error(ErrorCategory::CollectionError, 2);
    client.record_error(ErrorCategory::ExecutionError, 3);

    let metrics = client.get_metrics();
    assert_eq!(counter(&metrics.error_categories, "collection"), Some(2));
    assert_eq!(counter(&metrics.error_categories, "execution"), Some(1));
}

#[test]
fn test_privacy_guarantees() {
    let client = client(TelemetryConfig::default(), false);
    let status = client.get_status();
    assert!(!status.data_collected.contains_personal_data);
    assert!(!status.data_collected.contains_code_paths);
    assert!(!status.data_collected.contains_test_names);
}

#[test]
fn test_telemetry_status() {
    let client = client(TelemetryConfig::default(), false);
    let status = client.get_status();
    assert!(!status.enabled);
    assert!(!status.opt_out_methods.is_empty());
    assert!(!status.session_id.is_empty());
}

#[test]
fn disabled_client_records_nothing() {
    let mut client = client(TelemetryConfig::default(), false);
    client.record_error(ErrorCategory::CacheError, 1);
    client.record_feature_usage("watch", 1);
    assert!(client.get_metrics().error_categories.is_empty());
    assert!(client.get_metrics().features_used.is_empty());
}

#[test]
fn running_average_weighs_three_to_one() {
    let mut client = client(enabled_config(), false);
    for t in [100u64, 500] {
        client.record_run(
            RunEvent {
                test_count: 1,
                worker_count: 1,
                collection_time_ms: t,
                execution_time_ms: t,
                coverage_enabled: false,
                watch_mode: false,
                ci_mode: false,
                python_version: None,
                features_used: vec![],
            },
            t,
        );
    }
    assert_eq!(client.get_metrics().avg_collection_time_ms, Some(200));
    assert_eq!(client.get_metrics().runs_total, 2);
}

#[test]
fn recorded_errors_hold_exactly_the_recorded_categories() {
    let mut client = client(enabled_config(), false);
    client.record_error(ErrorCategory::CollectionError, 1);
    client.record_error(ErrorCategory::CollectionError, 2);
    client.record_error(ErrorCategory::ExecutionError, 3);
    let mut entries = client.get_metrics().error_categories.clone();
    entries.sort();
    assert_eq!(entries, vec![("collection".to_string(), 2), ("execution".to_string(), 1)]);
    assert_eq!(client.get_metrics().avg_execution_time_ms, None);
}

#[test]
fn first_run_sets_every_average() {
    let mut client = client(enabled_config(), false);
    let event = RunEvent {
        test_count: 10,
        worker_count: 4,
        collection_time_ms: 100,
        execution_time_ms: 500,
        coverage_enabled: true,
        watch_mode: false,
        ci_mode: true,
        python_version: Some("3.12.0".to_string()),
        features_used: vec!["coverage".to_string(), "sharding".to_string()],
    };
    client.record_run(event, 1);
    let m = client.get_metrics();
    assert_eq!(m.runs_watch_mode, 0);
    assert_eq!(counter(&m.features_used, "sharding"), Some(1));
    assert_eq!(m.avg_collection_time_ms, Some(100));
    assert_eq!(m.avg_execution_time_ms, Some(500));
    assert_eq!(m.avg_tests_per_run_milli, Some(10_000));
    assert_eq!(m.avg_workers_used_milli, Some(4_000));
}
