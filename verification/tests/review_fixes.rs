use veri::cli::{Engine, ExitCode};
use veri::config::{Config, FlakyTestConfig};
use veri::python_launcher::{next_launch_step, BackendAttempt, LaunchStep};
use veri::security::{SecurityConfig, SecurityEnv};
use veri::telemetry::{RunEvent, TelemetryClient, TelemetryConfig};

fn empty_config() -> Config {
    Config {
        workers: None,
        cache_dir: None,
        log_level: None,
        no_color: None,
        test_paths: None,
        markers: None,
        keyword: None,
        junit_xml: None,
        jsonl: None,
        cov: None,
        cov_merge_full: None,
        maxfail: None,
        verbose: None,
        quiet: None,
        last_failed: None,
        engine: None,
        watch: None,
        all: None,
        security: None,
        telemetry: None,
        flaky: None,
        auto_retry: None,
        retry_count: None,
    }
}

#[test]
fn merge_takes_retry_and_flaky_settings() {
    let mut config = Config::default();
    let workers_before = config.workers.clone();
    let mut other = empty_config();
    other.auto_retry = Some(true);
    other.retry_count = Some(3);
    other.flaky = Some(FlakyTestConfig::default_config());
    config.merge(other);
    assert_eq!(config.auto_retry, Some(true));
    assert_eq!(config.retry_count, Some(3));
    assert!(config.flaky.is_some());
    assert_eq!(config.workers, workers_before);
    let kept_retry = config.retry_count;
    config.merge(empty_config());
    assert_eq!(config.retry_count, kept_retry);
}

fn quiet_env() -> SecurityEnv {
    SecurityEnv { no_network: false, disable_allowlist: false, telemetry_enabled: false, telemetry_endpoint: None }
}

#[test]
fn security_section_of_the_configuration_is_honoured() {
    let mut config = Config::default();
    config.security = Some(veri::config::SecurityConfig {
        enforce_allowlist: Some(false),
        allowed_plugins: Some(vec!["my-plugin".to_string(), "pytest-cov".to_string()]),
        no_network: Some(true),
    });
    let s = SecurityConfig::from_config(&config, quiet_env());
    assert!(!s.enforce_allowlist);
    assert!(s.no_network);
    assert!(s.allowed_plugins.contains(&"my-plugin".to_string()));
    assert!(s.allowed_plugins.contains(&"pytest".to_string()));
    assert_eq!(s.allowed_plugins.iter().filter(|p| *p == "pytest-cov").count(), 1);
}

#[test]
fn environment_overrides_the_configuration() {
    let mut config = Config::default();
    config.security =
        Some(veri::config::SecurityConfig { enforce_allowlist: Some(true), allowed_plugins: None, no_network: Some(false) });
    let env = SecurityEnv { no_network: true, disable_allowlist: true, telemetry_enabled: false, telemetry_endpoint: None };
    let s = SecurityConfig::from_config(&config, env);
    assert!(!s.enforce_allowlist && s.no_network);
    let d = SecurityConfig::from_config(&empty_config(), quiet_env());
    assert!(d.enforce_allowlist && !d.no_network);
    assert_eq!(d.allowed_plugins, SecurityConfig::default_allowed_plugins());
}

#[test]
fn launcher_tries_backends_in_order_and_stops_at_the_first_that_runs() {
    let args = vec!["-c".to_string(), "print('test')".to_string()];
    // Backend 0 is missing, backend 1 runs, backend 2 must never be tried.
    let outcomes = [BackendAttempt::Unavailable, BackendAttempt::Succeeded];
    let mut attempts: Vec<BackendAttempt> = Vec::new();
    let mut tried = Vec::new();
    let result = loop {
        match next_launch_step(3, &attempts, &args) {
            LaunchStep::Try(i) => {
                tried.push(i);
                attempts.push(match &outcomes[i] {
                    BackendAttempt::Unavailable => BackendAttempt::Unavailable,
                    _ => BackendAttempt::Succeeded,
                });
            },
            LaunchStep::Done(r) => break r,
        }
    };
    assert_eq!(tried, vec![0, 1]);
    assert_eq!(result, Ok(1));
}

#[test]
fn launcher_reports_every_failure() {
    let args = vec!["--version".to_string()];
    let attempts = vec![
        BackendAttempt::BuildFailed { error: "bad-python-1".to_string() },
        BackendAttempt::BuildFailed { error: "bad-python-2".to_string() },
    ];
    match next_launch_step(2, &attempts, &args) {
        LaunchStep::Done(Err(m)) => assert!(m.contains("bad-python-1") && m.contains("bad-python-2")),
        other => panic!("{:?}", other),
    }
    match next_launch_step(0, &vec![], &args) {
        LaunchStep::Done(Err(m)) => assert!(m.starts_with("No python backends available")),
        other => panic!("{:?}", other),
    }
}

#[test]
fn session_id_is_a_uuid() {
    let c = TelemetryClient::new(TelemetryConfig::default(), false, "0.1.0".to_string(), "linux".to_string(), 0);
    let id = &c.session_id;
    assert_eq!(id.len(), 36);
    for (i, ch) in id.chars().enumerate() {
        if [8, 13, 18, 23].contains(&i) {
            assert_eq!(ch, '-');
        } else {
            assert!(ch.is_ascii_hexdigit() && !ch.is_ascii_uppercase());
        }
    }
}

#[test]
fn disabled_telemetry_records_nothing_even_with_full_counters() {
    let mut c = TelemetryClient::new(TelemetryConfig::default(), true, "0.1.0".to_string(), "linux".to_string(), 0);
    c.metrics.runs_total = u64::MAX;
    let event = RunEvent {
        test_count: 1,
        worker_count: 1,
        collection_time_ms: 1,
        execution_time_ms: 1,
        coverage_enabled: true,
        watch_mode: false,
        ci_mode: false,
        python_version: None,
        features_used: vec!["coverage".to_string()],
    };
    c.record_run(event, 5);
    assert_eq!(c.metrics.runs_total, u64::MAX);
    assert!(c.metrics.features_used.is_empty());
    assert!(!c.is_enabled());
}

#[test]
fn digests_are_lowercase_hex() {
    let d = veri::cache::content_digest(b"hello");
    assert_eq!(d, "2cf24dba5fb0a30e26e83b2ac5b9e29e1b161e5c1fa7425e73043362938b9824");
}

#[test]
fn test_exit_codes() {
    assert_eq!(ExitCode::Success as i32, 0);
    assert_eq!(ExitCode::TestFailure as i32, 1);
    assert_eq!(ExitCode::Interrupted as i32, 2);
    assert_eq!(ExitCode::InternalError as i32, 3);
    assert_eq!(ExitCode::UsageError as i32, 4);
}

#[test]
fn test_engine_enum() {
    assert_eq!(Engine::from_name("pytest"), Some(Engine::Pytest));
    assert_eq!(Engine::from_name("veri"), Some(Engine::Veri));
    assert_eq!(Engine::from_name("other"), None);
}
