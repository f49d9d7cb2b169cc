use veri::cli::Cli;
use veri::orchestrator::DefaultWatchAdapter;
use veri::python_launcher::{
    build_backends_from_config, launch_outcome, system_candidates, BackendAttempt, ConfiguredBackend, PythonBackendConfig,
    PythonRuntime, PythonRuntimeConfig,
};
use veri::python_worker::PythonWorker;

fn args() -> Vec<String> {
    vec!["-m".to_string(), "pytest".to_string()]
}

#[test]
fn first_backend_that_runs_wins() {
    let attempts = vec![
        BackendAttempt::Unavailable,
        BackendAttempt::BuildFailed { error: "no uv".to_string() },
        BackendAttempt::Succeeded,
        BackendAttempt::Succeeded,
    ];
    assert_eq!(launch_outcome(&attempts, &args()), Ok(2));
}

#[test]
fn no_backend_available() {
    let attempts = vec![BackendAttempt::Unavailable, BackendAttempt::Unavailable];
    assert_eq!(
        launch_outcome(&attempts, &args()),
        Err("No python backends available to execute command [\"-m\", \"pytest\"]".to_string())
    );
}

#[test]
fn every_backend_failed() {
    let attempts = vec![
        BackendAttempt::BuildFailed { error: "uv missing".to_string() },
        BackendAttempt::Unavailable,
        BackendAttempt::ExecFailed { backend: "system".to_string(), error: "spawn".to_string() },
    ];
    assert_eq!(
        launch_outcome(&attempts, &args()),
        Err("All python backends failed for args [\"-m\", \"pytest\"]:\nuv missing\nFailed to execute backend system: spawn"
            .to_string())
    );
}

#[test]
fn system_search_list() {
    assert_eq!(system_candidates(None, None), vec!["python3".to_string(), "python".to_string(), "py".to_string()]);
    assert_eq!(
        system_candidates(
            Some("/usr/bin/python3.11".to_string()),
            Some(vec!["python3".to_string(), "/usr/bin/python3.11".to_string(), "python3".to_string()])
        ),
        vec!["/usr/bin/python3.11".to_string(), "python3".to_string()]
    );
    assert_eq!(system_candidates(None, Some(vec![])), vec!["python3".to_string(), "python".to_string(), "py".to_string()]);
}

#[test]
fn watch_adapter_settings() {
    let mut cli = Cli::defaults();
    cli.verbose = 2;
    cli.cov = true;
    let adapter = DefaultWatchAdapter::new();
    let c = adapter.watch_config(&cli);
    assert_eq!((c.debounce_delay_ms, c.max_wait_time_ms), (150, 500));
    assert!(c.enable_tui && c.verbose && c.respect_gitignore);
    let o = adapter.run_options(&cli);
    assert_eq!(o.workers, Some("1".to_string()));
    assert!(o.coverage && o.coverage_xml && o.verbose);
}

#[test]
fn launch_error_lists_args_like_debug() {
    let args = vec!["a\"b".to_string(), "tab\there".to_string(), "esc\u{1b}[0m".to_string(), "del\u{7f}".to_string(), "back\\slash\n".to_string()];
    let err = launch_outcome(&vec![], &args).unwrap_err();
    assert_eq!(err, format!("No python backends available to execute command {:?}", args));
}

#[test]
fn test_launcher_fallback_chain() {
    let bad_backend = veri::python_launcher::SystemPythonBackend::new(vec!["definitely-not-python".to_string()]);
    let args = vec!["-c".to_string(), "print('test')".to_string()];
    let attempts = vec![BackendAttempt::BuildFailed { error: bad_backend.not_found_message() }, BackendAttempt::Succeeded];
    let result = launch_outcome(&attempts, &args);
    assert!(result.is_ok(), "Launcher should fall back to working backend");
}

#[test]
fn test_launcher_aggregates_errors() {
    let bad1 = veri::python_launcher::SystemPythonBackend::new(vec!["bad-python-1".to_string()]);
    let bad2 = veri::python_launcher::SystemPythonBackend::new(vec!["bad-python-2".to_string()]);
    let args = vec!["-c".to_string(), "print('test')".to_string()];
    let attempts = vec![
        BackendAttempt::BuildFailed { error: bad1.not_found_message() },
        BackendAttempt::BuildFailed { error: bad2.not_found_message() },
    ];
    let result = launch_outcome(&attempts, &args);
    assert!(result.is_err(), "All backends should fail");
    let err_msg = format!("{:?}", result.unwrap_err());
    assert!(
        err_msg.contains("bad-python-1") || err_msg.contains("bad-python-2"),
        "Error should aggregate failures from all backends"
    );
}

#[test]
fn runtime_skips_disabled_backends() {
    let configs = vec![
        PythonBackendConfig::Uv { binary: Some("uv".to_string()), project: None, enabled: Some(false) },
        PythonBackendConfig::Python { executable: Some("python3".to_string()), candidates: None, enabled: Some(true) },
    ];
    let backends = build_backends_from_config(configs, "/work");
    assert_eq!(backends.len(), 1);
}

#[test]
fn test_backend_ordering_matters() {
    let configs = vec![
        PythonBackendConfig::Python { executable: Some("python3".to_string()), candidates: None, enabled: Some(true) },
        PythonBackendConfig::Uv { binary: Some("uv".to_string()), project: None, enabled: Some(true) },
    ];
    let backends = build_backends_from_config(configs, "/work");
    assert_eq!(backends[0].name(), "python");
    if backends.len() > 1 {
        assert_eq!(backends[1].name(), "uv");
    }
}

#[test]
fn configured_backends_resolve_projects_and_candidates() {
    let configs = vec![
        PythonBackendConfig::Uv { binary: None, project: Some("tools/py".to_string()), enabled: None },
        PythonBackendConfig::Python {
            executable: None,
            candidates: Some(vec!["python3.12".to_string(), "python3.12".to_string()]),
            enabled: None,
        },
    ];
    let backends = build_backends_from_config(configs, "/work");
    match &backends[0] {
        ConfiguredBackend::Uv(u) => {
            assert_eq!(u.binary, "uv");
            assert_eq!(u.project_override, Some("/work/tools/py".to_string()));
        },
        other => panic!("{:?}", other),
    }
    match &backends[1] {
        ConfiguredBackend::System(s) => assert_eq!(s.candidates, vec!["python3.12".to_string()]),
        other => panic!("{:?}", other),
    }
}

#[test]
fn test_python_worker_creation() {
    let temp_dir = tempfile::TempDir::new().unwrap();
    let work_dir = temp_dir.path().to_path_buf();
    let cache_dir = work_dir.join(".veri").join("cache");
    let worker = PythonWorker::new(work_dir.display().to_string(), cache_dir.display().to_string());
    assert_eq!(worker.tests_index_path(), cache_dir.join("tests.index.json").display().to_string());
    assert_eq!(worker.markers_index_path(), cache_dir.join("markers.index.json").display().to_string());
    let cached = std::path::Path::new(&worker.tests_index_path()).exists()
        && std::path::Path::new(&worker.markers_index_path()).exists();
    assert!(!cached);
}

#[test]
fn runtime_from_config_uses_explicit_paths() {
    let tempdir = tempfile::tempdir().unwrap();
    let explicit_py_worker = tempdir.path().join("py_worker_override").display().to_string();
    let cfg = PythonRuntimeConfig {
        py_worker_path: Some(explicit_py_worker.clone()),
        extra_pythonpath: vec!["extra_lib".to_string()],
        env: vec![],
        backends: vec![],
    };
    let runtime = PythonRuntime::from_config(&tempdir.path().display().to_string(), cfg, None);
    assert_eq!(runtime.py_worker_path.as_ref(), Some(&explicit_py_worker));
    assert!(runtime.python_paths.iter().any(|p| p == &explicit_py_worker));
    let expected_extra = tempdir.path().join("extra_lib").display().to_string();
    assert!(runtime.python_paths.iter().any(|p| p == &expected_extra));
}

#[test]
fn runtime_defaults() {
    let cfg = PythonRuntimeConfig {
        py_worker_path: None,
        extra_pythonpath: vec!["lib".to_string(), "/abs".to_string(), "lib".to_string()],
        env: vec![("A".to_string(), "1".to_string())],
        backends: vec![PythonBackendConfig::Uv { binary: None, project: None, enabled: Some(false) }],
    };
    let runtime = PythonRuntime::from_config("/w", cfg, Some("/w/py_worker".to_string()));
    assert_eq!(runtime.py_worker_path, Some("/w/py_worker".to_string()));
    assert_eq!(runtime.python_paths, vec!["/w/py_worker".to_string(), "/w/lib".to_string(), "/abs".to_string()]);
    assert_eq!(runtime.extra_env, vec![("A".to_string(), "1".to_string())]);
    let names: Vec<&str> = runtime.backends.iter().map(|b| b.name()).collect();
    assert_eq!(names, vec!["uv", "python"]);
}
