use veri::config::{Config, ConfigEnv};

#[test]
fn test_default_config() {
    let config = Config::default();
    assert_eq!(config.cache_dir(), ".veri/cache");
    assert_eq!(config.log_level(), "INFO");
    assert!(!config.no_color(false));
}

#[test]
fn test_env_vars() {
    let mut config = Config::default();
    let env = ConfigEnv {
        log: Some("DEBUG".to_string()),
        no_color: true,
        cache_dir: Some("/tmp/veri".to_string()),
        workers: None,
        no_network: false,
        disable_allowlist: false,
        telemetry_enabled: false,
        telemetry_endpoint: None,
    };
    config.apply_env_vars(env);

    assert_eq!(config.log_level(), "DEBUG");
    assert!(config.no_color(false));
    assert_eq!(config.cache_dir(), "/tmp/veri");
}
