use veri::cli::{Cli, ExitCode};
use veri::compatibility::CompatibilityMatrix;
use veri::diagnostics::{DiagnosticReporter, VeriDiagnostic};
use veri::orchestrator::{
    DefaultSelectionOrchestrator, DefaultTelemetryOrchestrator, DefaultValidationService, ExecutionResult,
    ALLOWLIST_OFF_LINE, BLOCKED_LINE, FALLBACK_LINE, NO_GRAPHS_ERROR, NO_IMPACT_LINE, VALIDATING_LINE,
};
use veri::schemas::{TestNode, TestsIndex};
use veri::security::SecurityConfig;

fn node(nodeid: &str) -> TestNode {
    TestNode {
        nodeid: nodeid.to_string(),
        path: "tests/test_a.py".to_string(),
        line: 1,
        function: "test_a".to_string(),
        class: None,
        module: "tests.test_a".to_string(),
        markers: vec![],
        fixtures: vec![],
        parametrize: None,
    }
}

fn index(ids: &[&str]) -> TestsIndex {
    TestsIndex {
        version: "1.0.0".to_string(),
        generated_at: "2024-01-01T00:00:00Z".to_string(),
        python_version: "3.11.0".to_string(),
        pytest_version: "8.0.0".to_string(),
        tests: ids.iter().map(|i| node(i)).collect(),
        collection_errors: Vec::new(),
    }
}

#[test]
fn all_flag_runs_every_test() {
    let o = DefaultSelectionOrchestrator::new(".", ".veri/cache");
    let mut cli = Cli::defaults();
    cli.all = true;
    let (outcome, lines) = o.determine_tests_to_run(&index(&["t::a", "t::b"]), &cli, None).unwrap();
    assert_eq!(outcome.nodeids, vec!["t::a".to_string(), "t::b".to_string()]);
    assert_eq!((outcome.stats.total_tests, outcome.stats.selected_tests), (2, 2));
    assert!(!outcome.stats.fallback_triggered && outcome.early_exit.is_none() && lines.is_empty());
}

#[test]
fn selection_without_graphs_is_an_error() {
    let o = DefaultSelectionOrchestrator::new(".", ".veri/cache");
    let r = o.determine_tests_to_run(&index(&["t::a"]), &Cli::defaults(), None);
    assert_eq!(r.err(), Some(NO_GRAPHS_ERROR.to_string()));
}

#[test]
fn impacted_tests_run() {
    let o = DefaultSelectionOrchestrator::new(".", ".veri/cache");
    let (outcome, lines) =
        o.determine_tests_to_run(&index(&["t::a", "t::b"]), &Cli::defaults(), Some(vec!["t::b".to_string()])).unwrap();
    assert_eq!(outcome.nodeids, vec!["t::b".to_string()]);
    assert_eq!((outcome.stats.total_tests, outcome.stats.selected_tests), (2, 1));
    assert_eq!(lines, vec!["🎯 Running 1 selected tests".to_string()]);
}

#[test]
fn nothing_impacted_falls_back_to_all() {
    let o = DefaultSelectionOrchestrator::new(".", ".veri/cache");
    let (outcome, lines) = o.determine_tests_to_run(&index(&["t::a", "t::b"]), &Cli::defaults(), Some(vec![])).unwrap();
    assert_eq!(outcome.nodeids.len(), 2);
    assert!(outcome.stats.fallback_triggered);
    assert_eq!(lines, vec![NO_IMPACT_LINE.to_string(), "🎯 Running 2 selected tests".to_string()]);
}

#[test]
fn no_tests_at_all_is_a_usage_error() {
    let o = DefaultSelectionOrchestrator::new(".", ".veri/cache");
    let (outcome, lines) = o.determine_tests_to_run(&index(&[]), &Cli::defaults(), Some(vec![])).unwrap();
    assert!(outcome.nodeids.is_empty());
    assert_eq!(outcome.early_exit, Some(ExitCode::UsageError));
    assert!(!outcome.stats.fallback_triggered && lines.is_empty());
}

fn result(exit_code: ExitCode) -> ExecutionResult {
    ExecutionResult { exit_code, duration_ms: 1234, total_tests_run: 3, passed: 3, failed: 0, skipped: 0, error: 0 }
}

#[test]
fn telemetry_event_of_a_run() {
    let t = DefaultTelemetryOrchestrator::new();
    let mut cli = Cli::defaults();
    cli.workers = Some("4".to_string());
    cli.cov = true;
    cli.ci = true;
    let e = t.run_event(&result(ExitCode::Success), 50, &cli, false, Some("3.11.2".to_string())).unwrap();
    assert_eq!(e.test_count, 0);
    assert_eq!(e.worker_count, 4);
    assert_eq!((e.collection_time_ms, e.execution_time_ms), (50, 1234));
    assert!(e.coverage_enabled && !e.watch_mode && e.ci_mode);
    assert_eq!(e.python_version, Some("3.11.2".to_string()));
    assert_eq!(e.features_used, vec!["coverage".to_string(), "parallel".to_string(), "impact_analysis".to_string()]);
}

#[test]
fn telemetry_event_with_one_worker_and_full_collection() {
    let t = DefaultTelemetryOrchestrator::new();
    let mut cli = Cli::defaults();
    cli.workers = Some("1".to_string());
    cli.watch = true;
    let e = t.run_event(&result(ExitCode::Success), 0, &cli, true, None).unwrap();
    assert_eq!(e.features_used, vec!["watch".to_string()]);
}

#[test]
fn telemetry_event_refuses_bad_worker_count() {
    let t = DefaultTelemetryOrchestrator::new();
    let mut cli = Cli::defaults();
    cli.workers = Some("0".to_string());
    assert_eq!(t.run_event(&result(ExitCode::Success), 0, &cli, true, None).err(), Some("Worker count must be > 0".to_string()));
    cli.workers = Some("lots".to_string());
    assert_eq!(
        t.run_event(&result(ExitCode::Success), 0, &cli, true, None).err(),
        Some("Invalid worker count: lots".to_string())
    );
}

#[test]
fn execution_errors_recorded() {
    let t = DefaultTelemetryOrchestrator::new();
    assert!(!t.records_execution_error(ExitCode::Success));
    assert!(!t.records_execution_error(ExitCode::TestFailure));
    assert!(t.records_execution_error(ExitCode::UsageError));
}

fn report(plugins: &[&str]) -> veri::compatibility::CompatibilityReport {
    let plugins: Vec<String> = plugins.iter().map(|p| p.to_string()).collect();
    CompatibilityMatrix::default().generate_report("3.11.0", "linux", "venv", &plugins)
}

#[test]
fn compatibility_report_requested() {
    let mut d = DiagnosticReporter::new(false);
    let rep = report(&["pytest-cov"]);
    let v = DefaultValidationService::new().validate_environment(
        &Cli::defaults(),
        true,
        false,
        false,
        &rep,
        None,
        &SecurityConfig::default_config(),
        Ok(vec![]),
        &mut d,
    );
    assert!(!v.result.valid);
    assert_eq!(v.result.fallback_exit, Some(ExitCode::Success));
    assert_eq!(v.result.diagnostics, vec!["Compatibility report requested".to_string()]);
    assert_eq!(v.out_lines, rep.report_lines(false));
    assert!(d.diagnostics.is_empty());
}

#[test]
fn incompatible_plugin_falls_back() {
    let mut d = DiagnosticReporter::new(false);
    let rep = report(&["pytest-xdist"]);
    assert!(rep.plugin_check.needs_fallback);
    let v = DefaultValidationService::new().validate_environment(
        &Cli::defaults(),
        false,
        false,
        false,
        &rep,
        None,
        &SecurityConfig::default_config(),
        Ok(vec!["pytest-xdist".to_string()]),
        &mut d,
    );
    assert_eq!(v.result.fallback_exit, Some(ExitCode::Success));
    assert_eq!(v.out_lines.last(), Some(&FALLBACK_LINE.to_string()));
    assert_eq!(v.out_lines.len(), rep.report_lines(false).len() + 2);
}

#[test]
fn blocked_plugin_stops_the_run() {
    let mut d = DiagnosticReporter::new(false);
    let rep = report(&[]);
    let v = DefaultValidationService::new().validate_environment(
        &Cli::defaults(),
        false,
        false,
        false,
        &rep,
        None,
        &SecurityConfig::default_config(),
        Ok(vec!["pytest-cov".to_string(), "pytest-evil".to_string()]),
        &mut d,
    );
    assert!(!v.result.valid);
    assert_eq!(v.result.fallback_exit, Some(ExitCode::UsageError));
    assert_eq!(v.out_lines, vec![VALIDATING_LINE.to_string(), BLOCKED_LINE.to_string()]);
    assert_eq!(v.err_lines.len(), 1);
    assert!(v.err_lines[0].contains("pytest-evil"));
    assert!(v.plugin_error);
    match &d.diagnostics[..] {
        [VeriDiagnostic::PluginIncompatible { plugin_name, version, reason, fallback_suggested }] => {
            assert_eq!(plugin_name, "pytest-evil");
            assert_eq!(version, "unknown");
            assert_eq!(reason, "Plugin not in allowlist");
            assert!(*fallback_suggested);
        },
        other => panic!("unexpected diagnostics {:?}", other),
    }
}

#[test]
fn blocked_plugin_overridden_goes_on() {
    let mut d = DiagnosticReporter::new(false);
    let rep = report(&[]);
    let v = DefaultValidationService::new().validate_environment(
        &Cli::defaults(),
        false,
        true,
        false,
        &rep,
        None,
        &SecurityConfig::default_config(),
        Ok(vec!["pytest-evil".to_string()]),
        &mut d,
    );
    assert!(v.result.valid && v.result.fallback_exit.is_none());
    assert_eq!(v.err_lines.len(), 1);
    assert_eq!(v.out_lines[0], VALIDATING_LINE);
    assert!(d.diagnostics.is_empty() && !v.plugin_error);
}

#[test]
fn allowed_plugins_are_scanned() {
    let mut d = DiagnosticReporter::new(false);
    let rep = report(&[]);
    let mut sc = SecurityConfig::default_config();
    sc.allowed_plugins.push("pytest-httpbin".to_string());
    let v = DefaultValidationService::new().validate_environment(
        &Cli::defaults(),
        false,
        false,
        false,
        &rep,
        Some(VeriDiagnostic::no_tests_found(None, None, &vec![])),
        &sc,
        Ok(vec!["pytest-cov".to_string(), "pytest-httpbin".to_string()]),
        &mut d,
    );
    assert!(v.result.valid);
    assert_eq!(v.out_lines[0], VALIDATING_LINE);
    assert_eq!(v.out_lines[1], "✅ All 2 plugins are allowed");
    assert_eq!(v.out_lines.len(), 3);
    assert!(v.out_lines[2].contains("pytest-httpbin"));
    assert_eq!(d.diagnostics.len(), 1);
}

#[test]
fn plugins_that_cannot_be_listed() {
    let mut d = DiagnosticReporter::new(false);
    let rep = report(&[]);
    let v = DefaultValidationService::new().validate_environment(
        &Cli::defaults(),
        false,
        false,
        false,
        &rep,
        None,
        &SecurityConfig::default_config(),
        Err("no python".to_string()),
        &mut d,
    );
    assert!(v.result.valid && v.plugin_error);
    assert_eq!(v.out_lines, vec![VALIDATING_LINE.to_string(), "⚠️  Could not validate plugins: no python".to_string()]);
}

#[test]
fn allowlist_off() {
    let mut d = DiagnosticReporter::new(false);
    let rep = report(&[]);
    let mut sc = SecurityConfig::default_config();
    sc.enforce_allowlist = false;
    let v = DefaultValidationService::new().validate_environment(
        &Cli::defaults(),
        false,
        false,
        false,
        &rep,
        None,
        &sc,
        Ok(vec!["anything".to_string()]),
        &mut d,
    );
    assert!(v.result.valid);
    assert_eq!(v.out_lines, vec![ALLOWLIST_OFF_LINE.to_string()]);
}
