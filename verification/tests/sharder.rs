use veri::schemas::{Shard, ShardingStrategy, ShardsManifest, TestNode};
use veri::sharder::{SharderConfig, TestSharder};

fn node(nodeid: &str, markers: Vec<&str>) -> TestNode {
    TestNode {
        nodeid: nodeid.to_string(),
        path: "test.py".to_string(),
        line: 1,
        function: "test_x".to_string(),
        class: None,
        module: "test".to_string(),
        markers: markers.into_iter().map(|m| m.to_string()).collect(),
        fixtures: vec![],
        parametrize: None,
    }
}

fn empty_shard(id: u32, ms: u64) -> Shard {
    Shard { shard_id: id, estimated_duration_ms: ms, test_count: 1, tests: vec![] }
}

#[test]
fn test_round_robin_sharding() {
    let sharder = TestSharder::new("/tmp", "/tmp");
    let tests = vec![node("test1", vec![]), node("test2", vec![]), node("test3", vec![])];
    let shards = sharder.round_robin_sharding(&tests, 2).unwrap();
    assert_eq!(shards.len(), 2);
    assert_eq!(shards[0].test_count, 2);
    assert_eq!(shards[1].test_count, 1);
    assert_eq!(shards[0].tests[1].nodeid, "test3");
    assert_eq!(shards[0].estimated_duration_ms, 2000);
}

#[test]
fn test_bin_pack_sharding() {
    let sharder = TestSharder::new("/tmp", "/tmp");
    let tests = vec![node("fast_test", vec![]), node("slow_test", vec![])];
    let timings = vec![("fast_test".to_string(), 1000u64), ("slow_test".to_string(), 10000u64)];
    let shards = sharder.bin_pack_sharding(&tests, 2, &timings).unwrap();
    assert_eq!(shards.len(), 2);
    let total_duration: u64 = shards.iter().map(|s| s.estimated_duration_ms).sum();
    assert_eq!(total_duration, 11000);
    assert_eq!(shards[0].tests[0].nodeid, "slow_test");
    assert_eq!(shards[1].tests[0].nodeid, "fast_test");
}

#[test]
fn test_manifest_validation() {
    let sharder = TestSharder::new("/tmp", "/tmp");
    let mut manifest = ShardsManifest::new(2, ShardingStrategy::RoundRobin);
    manifest.shards = vec![empty_shard(0, 5000), empty_shard(1, 5000)];
    assert!(sharder.validate_manifest(&manifest).is_ok());
    manifest.shards.pop();
    assert!(sharder.validate_manifest(&manifest).is_err());
}

#[test]
fn validation_messages() {
    let sharder = TestSharder::new("/tmp", "/tmp");
    let mut manifest = ShardsManifest::new(3, ShardingStrategy::BinPack);
    manifest.shards = vec![empty_shard(2, 1), empty_shard(0, 1), empty_shard(0, 1)];
    assert_eq!(
        sharder.validate_manifest(&manifest),
        Err("Manifest has missing or duplicate shard IDs. Expected: [0, 1, 2], Found: [0, 0, 2]".to_string())
    );
    manifest.format_version = "other@2".to_string();
    assert_eq!(
        sharder.validate_manifest(&manifest),
        Err("Unsupported manifest format: other@2 (expected: veri-shards@1)".to_string())
    );
}

#[test]
fn last_timing_entry_wins_and_missing_ones_default_to_a_second() {
    let sharder = TestSharder::new("/tmp", "/tmp");
    let tests = vec![node("a", vec![]), node("b", vec![])];
    let timings = vec![("a".to_string(), 50u64), ("a".to_string(), 7000u64)];
    let shards = sharder.bin_pack_sharding(&tests, 1, &timings).unwrap();
    assert_eq!(shards[0].estimated_duration_ms, 8000);
    assert_eq!(shards[0].tests[0].estimated_duration_ms, 7000);
    assert_eq!(shards[0].tests[1].estimated_duration_ms, 1000);
}

#[test]
fn timing_based_spreads_failed_tests_first() {
    let sharder = TestSharder::new("/tmp", "/tmp");
    let tests = vec![
        node("ok_long", vec![]),
        node("failed_1", vec!["failed"]),
        node("failed_2", vec!["failed"]),
        node("ok_short", vec![]),
    ];
    let timings = vec![
        ("ok_long".to_string(), 9000u64),
        ("failed_1".to_string(), 100u64),
        ("failed_2".to_string(), 200u64),
        ("ok_short".to_string(), 300u64),
    ];
    let shards = sharder.timing_based_sharding(&tests, 2, &timings).unwrap();
    // Failed tests first (longest first among them), round-robin: failed_2 -> 0, failed_1 -> 1.
    assert_eq!(shards[0].tests[0].nodeid, "failed_2");
    assert_eq!(shards[0].tests[0].priority, 0);
    assert_eq!(shards[1].tests[0].nodeid, "failed_1");
    // Then ok_long onto the least loaded shard (shard 1, 100 ms), ok_short onto shard 0.
    assert_eq!(shards[1].tests[1].nodeid, "ok_long");
    assert_eq!(shards[0].tests[1].nodeid, "ok_short");
}

#[test]
fn split_rejects_zero_shards_and_honours_selection() {
    let sharder = TestSharder::new("/tmp", "/tmp");
    let tests = vec![node("a", vec![]), node("b", vec![]), node("c", vec![])];
    assert_eq!(
        sharder.split_tests(0, &tests, None, &vec![]).unwrap_err(),
        "Number of shards must be > 0"
    );
    let sel = vec!["c".to_string(), "a".to_string()];
    let manifest = sharder.split_tests(2, &tests, Some(&sel), &vec![]).unwrap();
    assert_eq!(manifest.total_shards, 2);
    assert_eq!(manifest.estimated_duration_ms, 2000);
    let count: u32 = manifest.shards.iter().map(|s| s.test_count).sum();
    assert_eq!(count, 2);
    assert!(sharder.validate_manifest(&manifest).is_ok());
    let shard = sharder.get_shard(&manifest, 1).unwrap().unwrap();
    assert_eq!(shard.shard_id, 1);
    assert_eq!(
        sharder.get_shard(&manifest, 2).unwrap_err(),
        "Shard ID 2 is out of range (total shards: 2)"
    );
    let ids: Vec<String> = manifest.shards.iter().flat_map(|s| sharder.extract_nodeids(s)).collect();
    assert!(ids.contains(&"a".to_string()) && ids.contains(&"c".to_string()));
}

#[test]
fn empty_selection_gives_empty_manifest() {
    let sharder = TestSharder::with_config("/tmp", "/tmp", SharderConfig::default());
    let manifest = sharder.split_tests(3, &vec![node("a", vec![])], Some(&vec![]), &vec![]).unwrap();
    assert!(manifest.shards.is_empty());
    assert_eq!(manifest.estimated_duration_ms, 0);
}

#[test]
fn stats_and_explanation() {
    let sharder = TestSharder::new("/tmp", "/tmp");
    let mut manifest = ShardsManifest::new(2, ShardingStrategy::BinPack);
    manifest.shards = vec![empty_shard(0, 1500), empty_shard(1, 3000)];
    manifest.estimated_duration_ms = 4500;
    let stats = sharder.generate_stats_summary(&manifest);
    assert_eq!(stats.total_tests, 2);
    assert_eq!(stats.min_shard_duration_ms, 1500);
    assert_eq!(stats.max_shard_duration_ms, 3000);
    assert_eq!(stats.avg_shard_duration_ms, 2250);
    assert_eq!(stats.balance_ratio_permille, 500);
    assert_eq!(stats.efficiency_permille, 1000);
    let text = sharder.format_explain(&manifest, &stats);
    assert_eq!(
        text,
        "=== Sharding Analysis ===\nStrategy: BinPack\nTotal shards: 2\nTotal tests: 2\nEstimated duration: 4.5s\n\n\
Balance Analysis:\n  Min shard: 1.5s\n  Max shard: 3.0s\n  Avg shard: 2.2s\n  Balance: 50.0%\n  Efficiency: 100.0%\n\n\
Per-Shard Breakdown:\n  Shard 0: 1 tests, 1.5s\n  Shard 1: 1 tests, 3.0s\n"
    );
}
