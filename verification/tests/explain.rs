use veri::cache::CacheKey;
use veri::cli::Cli;
use veri::explain::{explanation_lines, ChangedFiles, GraphCounts, ImpactSummary};

fn key() -> CacheKey {
    CacheKey {
        python_version: "3.12.1".to_string(),
        platform: "linux-x86_64".to_string(),
        veri_version: "0.1.0".to_string(),
        uv_lock_digest: None,
        site_packages_digest: None,
        pytest_version: "8.0.0".to_string(),
        plugins: vec![],
        conftest_digests: vec![],
        veri_config_digest: "d".to_string(),
    }
}

#[test]
fn explanation_for_impact_aware_run() {
    let cli = Cli::defaults();
    let graphs = GraphCounts { modules: 3, edges: 4, dynamic_imports: 1, unresolved_imports: 0 };
    let changed = ChangedFiles::Listed(vec!["src/a.py".to_string()]);
    let impact = ImpactSummary::Planned {
        selected: 2,
        total: 9,
        should_broaden: true,
        broaden_reason: None,
    };
    let lines = explanation_lines(&cli, None, ".veri/cache", "INFO", &key(), Some(&graphs), &changed, &impact);
    assert_eq!(lines[0], "=== veri Execution Plan ===");
    assert!(lines.contains(&"  Workers: auto".to_string()));
    assert!(lines.contains(&"  Engine: veri".to_string()));
    assert!(lines.contains(&"  Modules: 3".to_string()));
    assert!(lines.contains(&"  ⚠️  Dynamic imports detected - may trigger broadening for safety".to_string()));
    assert!(lines.contains(&"Selection: Impact-aware (based on changed files)".to_string()));
    assert!(lines.contains(&"    - src/a.py".to_string()));
    assert!(lines.contains(&"    Selected tests: 2 of 9".to_string()));
    assert!(lines.contains(&"    ⚠️  Broadened: Unknown".to_string()));
    assert_eq!(lines.last().unwrap(), "  • Configuration: https://docs.veri.dev/config");
    let hash_line = format!("  computed_hash: {}", key().compute_hash());
    assert!(lines.contains(&hash_line));
}

#[test]
fn explanation_for_filtered_run_quotes_paths() {
    let mut cli = Cli::defaults();
    cli.keyword = Some("slow".to_string());
    cli.paths = vec!["tests/a b.py".to_string(), "q\"x".to_string()];
    let lines = explanation_lines(
        &cli,
        Some("4"),
        "/c",
        "DEBUG",
        &key(),
        None,
        &ChangedFiles::Unavailable,
        &ImpactSummary::NoGraphs,
    );
    assert!(lines.contains(&"  Status: No cached graphs - will build on first run".to_string()));
    assert!(lines.contains(&"Selection: Keyword filter: 'slow'".to_string()));
    assert!(lines.contains(&"Selection: Path filter: [\"tests/a b.py\", \"q\\\"x\"]".to_string()));
    assert!(lines.contains(&"  Workers: 4".to_string()));
    assert!(lines.contains(&"  • Impact analysis will save time on subsequent runs".to_string()));
}
