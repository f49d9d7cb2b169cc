use veri::cache::{
    compute_config_digest, content_digest, is_conftest_file_name, platform_string, should_descend_into, CacheKey,
};

fn key(config: &str) -> CacheKey {
    CacheKey {
        python_version: "3.11.0".to_string(),
        platform: "linux-x86_64".to_string(),
        veri_version: "0.1.0".to_string(),
        uv_lock_digest: None,
        site_packages_digest: None,
        pytest_version: "7.4.0".to_string(),
        plugins: Vec::new(),
        conftest_digests: Vec::new(),
        veri_config_digest: config.to_string(),
    }
}

#[test]
fn test_cache_key_hash_deterministic() {
    let cache_key = CacheKey {
        python_version: "3.11.0".to_string(),
        platform: "linux-x86_64".to_string(),
        veri_version: "0.1.0".to_string(),
        uv_lock_digest: Some("abc123".to_string()),
        site_packages_digest: Some("def456".to_string()),
        pytest_version: "7.4.0".to_string(),
        plugins: vec!["pytest-cov".to_string()],
        conftest_digests: vec![("conftest.py".to_string(), "ghi789".to_string())],
        veri_config_digest: "config123".to_string(),
    };
    let hash1 = cache_key.compute_hash();
    let hash2 = cache_key.compute_hash();
    assert_eq!(hash1, hash2);
    assert_eq!(hash1.len(), 64);
}

#[test]
fn test_cache_key_different_for_different_configs() {
    assert_ne!(key("config1").compute_hash(), key("config2").compute_hash());
}

#[test]
fn hash_input_layout_sorts_conftests_by_path() {
    let mut k = key("cfg");
    k.uv_lock_digest = Some("u".to_string());
    k.plugins = vec!["p1".to_string(), "p2".to_string()];
    k.conftest_digests = vec![("b/conftest.py".to_string(), "2".to_string()), ("a/conftest.py".to_string(), "1".to_string())];
    assert_eq!(
        k.hash_input(),
        "python_version:3.11.0|platform:linux-x86_64|veri_version:0.1.0|uv_lock_digest:u||pytest_version:7.4.0|\
plugins:p1,p2,|conftest_digests:a/conftest.py:1,b/conftest.py:2,|veri_config_digest:cfg"
    );
}

#[test]
fn hash_is_sha256_of_the_input() {
    let k = key("cfg");
    assert_eq!(k.compute_hash(), content_digest(k.hash_input().as_bytes()));
    assert_eq!(
        content_digest(b"abc"),
        "ba7816bf8f01cfea414140de5dae2223b00361a396177a9cb410ff61f20015ad"
    );
    assert_eq!(compute_config_digest("abc"), content_digest(b"abc"));
}

#[test]
fn explanation_lists_components_then_hash() {
    let mut k = key("cfg");
    k.conftest_digests = vec![("z.py".to_string(), "9".to_string()), ("a.py".to_string(), "1".to_string())];
    let lines = k.explanation_lines();
    assert_eq!(lines[0], "Cache key components:");
    assert_eq!(lines[4], "  uv_lock_digest: (not found)");
    assert_eq!(lines[5], "  site_packages_digest: (not computed)");
    assert_eq!(lines[7], "  plugins: []");
    assert_eq!(lines[8], "  conftest_digests: {");
    assert_eq!(lines[9], "    \"a.py\": \"1\"");
    assert_eq!(lines[10], "    \"z.py\": \"9\"");
    assert_eq!(lines[11], "  }");
    assert_eq!(lines[12], "  veri_config_digest: cfg");
    assert_eq!(lines[13], format!("  computed_hash: {}", k.compute_hash()));
}

#[test]
fn conftest_discovery_rules() {
    assert!(is_conftest_file_name("conftest.py"));
    assert!(!is_conftest_file_name("conftest.pyc"));
    assert!(should_descend_into("tests"));
    assert!(!should_descend_into(".git"));
    assert!(!should_descend_into("node_modules"));
    assert!(!should_descend_into("build"));
    assert_eq!(platform_string("linux", "x86_64"), "linux-x86_64");
}
