use veri::security::{SecurityConfig, SecurityEnv, SecurityScanner, SecuritySeverity};

#[test]
fn test_default_security_config() {
    let config = SecurityConfig::default();
    assert!(config.enforce_allowlist);
    assert!(!config.no_network);
    assert!(!config.telemetry_enabled);
    assert!(config.is_plugin_allowed("pytest-cov"));
    assert!(!config.is_plugin_allowed("unknown-plugin"));
}

#[test]
fn test_plugin_validation() {
    let config = SecurityConfig::default();
    let plugins = vec![
        "pytest-cov".to_string(),
        "unknown-plugin".to_string(),
        "pytest-mock".to_string(),
    ];

    let result = config.validate_plugins(&plugins);
    assert_eq!(result.allowed.len(), 2);
    assert_eq!(result.blocked.len(), 1);
    assert!(result.has_blocked_plugins());
    assert!(result.get_warning_message().is_some());
}

#[test]
fn test_plugin_version_stripping() {
    let config = SecurityConfig::default();
    assert!(config.is_plugin_allowed("pytest-cov==5.0.0"));
    assert!(config.is_plugin_allowed("pytest-mock>=3.0"));
    assert!(!config.is_plugin_allowed("unknown-plugin==1.0"));
}

#[test]
fn test_security_scanner() {
    let plugins = vec![
        "pytest-exec-dangerous".to_string(),
        "pytest-debug".to_string(),
        "pytest-http-client".to_string(),
        "pytest-safe".to_string(),
    ];

    let warnings = SecurityScanner::scan_plugins(&plugins);
    assert!(warnings.len() >= 3);

    let high_severity_warnings: Vec<_> =
        warnings.iter().filter(|w| w.severity == SecuritySeverity::High).collect();
    assert!(!high_severity_warnings.is_empty());
}

#[test]
fn test_env_var_overrides() {
    let env = SecurityEnv { no_network: true, disable_allowlist: true, telemetry_enabled: false, telemetry_endpoint: None };
    let security_config = SecurityConfig::from_env(env);
    assert!(security_config.no_network);
    assert!(!security_config.enforce_allowlist);
}

#[test]
fn disabled_allowlist_allows_everything() {
    let mut config = SecurityConfig::default();
    config.enforce_allowlist = false;
    assert!(config.is_plugin_allowed("anything-at-all"));
    let result = config.validate_plugins(&vec!["x".to_string(), "y".to_string()]);
    assert_eq!(result.allowed.len(), 2);
    assert!(result.get_warning_message().is_none());
}

#[test]
fn allow_then_block_round_trip() {
    let mut config = SecurityConfig::default();
    assert!(!config.is_plugin_allowed("pytest-custom"));
    config.allow_plugin("pytest-custom".to_string());
    assert!(config.is_plugin_allowed("pytest-custom==2.0"));
    config.block_plugin("pytest-custom");
    assert!(!config.is_plugin_allowed("pytest-custom"));
}

#[test]
fn warning_message_lists_blocked_plugins() {
    let config = SecurityConfig::default();
    let result = config.validate_plugins(&vec!["evil-plugin".to_string()]);
    let msg = result.get_warning_message().unwrap();
    assert!(msg.contains("evil-plugin"));
    assert!(msg.contains("\"evil-plugin\""));
}

#[test]
fn severity_labels() {
    assert_eq!(SecuritySeverity::High.label(), "Alert");
    assert_eq!(SecuritySeverity::Low.label(), "Info");
    assert_eq!(SecuritySeverity::Critical.label(), "Critical");
}
