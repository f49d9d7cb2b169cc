use veri::cli::{Cli, ExitCode};
use veri::commands::{
    prepare_shard, shard_done_line, shard_run_options, shard_summary_counts, split_done_lines, split_start_line,
    ShardStep,
};
use veri::schemas::{Shard, ShardTest, ShardingStrategy, ShardsManifest};
use veri::sharder::TestSharder;

fn manifest() -> ShardsManifest {
    let mut m = ShardsManifest::new(2, ShardingStrategy::RoundRobin);
    m.shards = vec![
        Shard {
            shard_id: 0,
            estimated_duration_ms: 2500,
            test_count: 2,
            tests: vec![
                ShardTest { nodeid: "t::a".to_string(), estimated_duration_ms: 1000, priority: 1, markers: vec![] },
                ShardTest { nodeid: "t::b".to_string(), estimated_duration_ms: 1500, priority: 1, markers: vec![] },
            ],
        },
        Shard { shard_id: 1, estimated_duration_ms: 0, test_count: 0, tests: vec![] },
    ];
    m
}

#[test]
fn shard_with_tests_runs_them() {
    let sharder = TestSharder::new(".", ".veri/cache");
    match prepare_shard(&sharder, &manifest(), 0).unwrap() {
        ShardStep::Run { header, nodeids, total_tests, test_count, estimated_duration_ms } => {
            assert_eq!(header, "📋 Shard 0: 2 tests, estimated 2.5s");
            assert_eq!(nodeids, vec!["t::a".to_string(), "t::b".to_string()]);
            assert_eq!(total_tests, 2);
            assert_eq!(test_count, 2);
            assert_eq!(estimated_duration_ms, 2500);
        }
        other => panic!("unexpected {:?}", other),
    }
}

#[test]
fn empty_shard_and_errors() {
    let sharder = TestSharder::new(".", ".veri/cache");
    assert!(matches!(prepare_shard(&sharder, &manifest(), 1).unwrap(), ShardStep::Empty { .. }));
    assert_eq!(
        prepare_shard(&sharder, &manifest(), 5).unwrap_err(),
        "Shard ID 5 is out of range (total shards: 2)"
    );
    let mut bad = manifest();
    bad.shards.pop();
    assert!(prepare_shard(&sharder, &bad, 0).unwrap_err().starts_with("Manifest has missing"));
}

#[test]
fn split_and_shard_messages() {
    assert_eq!(split_start_line(4), "🔀 Splitting tests into 4 shards");
    let sharder = TestSharder::new(".", ".veri/cache");
    let mut m = manifest();
    m.estimated_duration_ms = 2500;
    let stats = sharder.generate_stats_summary(&m);
    let lines = split_done_lines(&stats, None);
    assert_eq!(lines[0], "📊 Generated 2 shards with 0.0% load balance");
    assert_eq!(lines[1], "⏱️  Total estimated duration: 2.5s (avg per shard: 1.2s)");
    assert_eq!(shard_done_line(3, 12340), "✅ Shard 3 completed in 12.3s");
    assert_eq!(shard_summary_counts(ExitCode::Success, 7), (7, 0));
    assert_eq!(shard_summary_counts(ExitCode::TestFailure, 7), (0, 7));
    let opts = shard_run_options(&Cli::defaults(), Some("j.xml".to_string()), false, true);
    assert_eq!(opts.workers, Some("1".to_string()));
    assert!(opts.coverage_xml && !opts.coverage);
}
