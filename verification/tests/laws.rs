use veri::schemas::{ImportsGraph, ModuleInfo, ModuleMap, ModuleReverseDeps, ReverseDepsGraph, TestsIndex};
use veri::worker_pool::BatchResult;
use veri::config::{Config, ConfigEnv};
use veri::coverage::{merge_file_coverage, CoverageCollector, CoverageConfig, CoverageMap, FileCoverage};
use veri::flaky::{FlakyConfig, FlakyManager, TestRun};

fn file(lines: Vec<u32>, total: u32) -> FileCoverage {
    FileCoverage { digest: "d".to_string(), covered_lines: lines, total_lines: total, coverage_percent_hundredths: 0 }
}

#[test]
fn merged_coverage_is_the_union_of_lines() {
    let merged = merge_file_coverage(&file(vec![1, 4, 7], 10), &file(vec![2, 4, 9], 12));
    assert_eq!(merged.covered_lines, vec![1, 2, 4, 7, 9]);
    assert_eq!(merged.total_lines, 12);
    assert_eq!(merged.coverage_percent_hundredths, 4166);
}

#[test]
fn merged_maps_keep_files_of_both() {
    let collector = CoverageCollector::new(CoverageConfig::default(), ".veri/cache".to_string(), ".".to_string());
    let meta = || collector.metadata_at(false, "t".to_string());
    let base = CoverageMap { files: vec![("a.py".to_string(), file(vec![1], 2))], metadata: meta() };
    let delta = CoverageMap {
        files: vec![("a.py".to_string(), file(vec![2], 2)), ("b.py".to_string(), file(vec![3], 4))],
        metadata: meta(),
    };
    let merged = collector.merge_coverage_maps(&base, &delta, meta());
    assert_eq!(merged.files.len(), 2);
    assert_eq!(merged.files[0].1.covered_lines, vec![1, 2]);
    assert_eq!(merged.files[1].0, "b.py");
}

fn env_with_workers(w: Option<&str>) -> ConfigEnv {
    ConfigEnv {
        log: Some("DEBUG".to_string()),
        no_color: false,
        cache_dir: None,
        workers: w.map(|s| s.to_string()),
        no_network: false,
        disable_allowlist: false,
        telemetry_enabled: false,
        telemetry_endpoint: None,
    }
}

#[test]
fn command_line_over_file_over_environment() {
    let mut file_config = Config::default();
    file_config.workers = Some("2".to_string());
    file_config.log_level = None;
    let mut c = Config::load(env_with_workers(Some("8")), Some(file_config));
    assert_eq!(c.workers, Some("2".to_string()));
    assert_eq!(c.log_level(), "DEBUG");
    c.apply_cli_args(
        false, false, None, None, Some("5".to_string()), false, None, None, None, 0, false, false, false, false,
        "veri".to_string(), false, false,
    );
    assert_eq!(c.workers, Some("5".to_string()));
    let e = Config::load(env_with_workers(Some("8")), None);
    assert_eq!(e.workers, Some("8".to_string()));
}

#[test]
fn a_test_that_never_fails_is_never_flaky() {
    let mut config = FlakyConfig::default();
    config.min_runs_for_flaky = 1;
    let mut manager = FlakyManager::new(config);
    let runs: Vec<TestRun> = (0..10)
        .map(|i| TestRun { timestamp_secs: i, passed: true, duration_ms: 5, failure_reason: None, environment: None })
        .collect();
    manager.record_test_result_at("stable", &runs, 100).unwrap();
    assert_eq!(manager.get_flaky_score("stable"), 0);
    assert!(!manager.is_test_flaky("stable"));
    assert_eq!(manager.database.test_history[0].consecutive_passes, 10);
}

fn law_node(nodeid: &str, path: &str, module: &str) -> veri::schemas::TestNode {
    veri::schemas::TestNode {
        nodeid: nodeid.to_string(),
        path: path.to_string(),
        line: 1,
        function: "test_x".to_string(),
        class: None,
        module: module.to_string(),
        markers: vec![],
        fixtures: vec![],
        parametrize: None,
    }
}

#[test]
fn changed_files_select_their_tests_and_dependents() {
    let tests: Vec<_> = vec![
        law_node("tests/test_a.py::test_1", "tests/test_a.py", "tests.test_a"),
        law_node("tests/test_b.py::test_2", "tests/test_b.py", "tests.test_b"),
        law_node("tests/test_c.py::test_3", "tests/test_c.py", "tests.test_c"),
        law_node("tests/test_d.py::test_4", "tests/test_d.py", "tests.test_d"),
        law_node("tests/test_e.py::test_5", "tests/test_e.py", "tests.test_e"),
    ];
    let index = TestsIndex {
        version: "1.0.0".to_string(),
        generated_at: String::new(),
        python_version: "3.11".to_string(),
        pytest_version: "8.0".to_string(),
        tests,
        collection_errors: vec![],
    };
    let info = ModuleInfo {
        module_name: "src.core".to_string(),
        is_package: false,
        is_namespace: false,
        parent_package: None,
        relative_path: "src/core.py".to_string(),
        digest: String::new(),
    };
    let module_map = ModuleMap {
        version: "1".to_string(),
        generated_at: String::new(),
        modules: vec![("src/core.py".to_string(), info)],
        packages: vec![],
    };
    let revdeps = ReverseDepsGraph {
        version: "1".to_string(),
        generated_at: String::new(),
        reverse_deps: vec![(
            "src.core".to_string(),
            ModuleReverseDeps {
                direct_dependents: vec![],
                transitive_dependents: vec![],
                test_dependents: vec!["tests/test_b.py::test_2".to_string()],
                uncertain_dependents: vec![],
            },
        )],
    };
    let imports = ImportsGraph {
        version: "1".to_string(),
        generated_at: String::new(),
        edges: vec![],
        dynamic_imports: vec![],
        unresolved_imports: vec![],
    };
    let planner = veri::planner::TestPlanner::new(".", ".veri/cache");
    let changed = vec!["tests/test_a.py".to_string(), "src/core.py".to_string()];
    let sel = planner.plan_test_selection(&changed, &index, &revdeps, &module_map, &imports).unwrap();
    assert!(!sel.should_broaden);
    assert!(sel.selected_nodeids.contains(&"tests/test_a.py::test_1".to_string()));
    assert!(sel.selected_nodeids.contains(&"tests/test_b.py::test_2".to_string()));
    assert_eq!(sel.selected_nodeids.len(), 2);
}

#[test]
fn run_exit_code_is_zero_only_without_failed_batches() {
    let b = |exit_code: i32| BatchResult {
        batch_id: "b".to_string(),
        worker_id: 0,
        exit_code,
        stdout: String::new(),
        stderr: String::new(),
        duration_ms: 0,
        nodeids: vec![],
        per_test: vec![],
    };
    let ok = veri::execution::process_and_summarize_results(&vec![b(0), b(0)], 0, 1, false);
    assert_eq!((ok.exit_code, ok.failed_batches), (0, 0));
    let bad = veri::execution::process_and_summarize_results(&vec![b(0), b(5), b(1)], 0, 1, false);
    assert_eq!((bad.exit_code, bad.failed_batches), (5, 2));
}
