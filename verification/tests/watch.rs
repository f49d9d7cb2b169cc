use veri::watch::{glob_match, FileChangeDebouncer, FileChangeEvent, WatchConfig};

#[test]
fn test_glob_match() {
    assert!(glob_match("*.py", "test.py"));
    assert!(glob_match("*.py", ".py"));
    assert!(!glob_match("*.py", "test.txt"));
    assert!(glob_match("test.py", "test.py"));
    assert!(!glob_match("test.py", "other.py"));
}

#[test]
fn glob_with_inner_star() {
    assert!(glob_match("test_*.py", "test_foo.py"));
    assert!(!glob_match("test_*.py", "foo_test.py"));
    assert!(glob_match("*cache*", "my_cache_dir"));
    assert!(glob_match("build*", "build_output"));
    assert!(!glob_match("a*b*c", "abc"));
}

#[test]
fn test_debouncer() {
    let mut debouncer = FileChangeDebouncer::new(100, 500);
    debouncer.add_change(FileChangeEvent { path: "test.py".to_string(), timestamp_ms: 0 });
    assert!(debouncer.should_trigger(0).is_none());
    let result = debouncer.should_trigger(150);
    assert!(result.is_some());
    assert_eq!(result.unwrap(), vec!["test.py".to_string()]);
    assert!(debouncer.should_trigger(150).is_none());
}

#[test]
fn default_watch_config() {
    let config = WatchConfig::default();
    assert_eq!(config.debounce_delay_ms, 150);
    assert_eq!(config.max_wait_time_ms, 500);
    assert!(config.ignore_dirs.iter().any(|d| d == "__pycache__"));
    assert!(config.respect_gitignore);
}

#[test]
fn debouncer_keeps_one_entry_per_path_and_fires_at_max_wait() {
    let mut debouncer = FileChangeDebouncer::new(100, 500);
    debouncer.add_change(FileChangeEvent { path: "a.py".to_string(), timestamp_ms: 0 });
    debouncer.add_change(FileChangeEvent { path: "b.py".to_string(), timestamp_ms: 450 });
    debouncer.add_change(FileChangeEvent { path: "a.py".to_string(), timestamp_ms: 480 });
    assert!(debouncer.should_trigger(490).is_none());
    let files = debouncer.should_trigger(500).unwrap();
    assert_eq!(files, vec!["b.py".to_string(), "a.py".to_string()]);
}
