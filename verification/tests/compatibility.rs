use veri::compatibility::{CompatibilityMatrix, CompatibilityStatus, EnvironmentProbe};

#[test]
fn test_default_compatibility_matrix() {
    let matrix = CompatibilityMatrix::default();
    assert!(!matrix.python_versions.is_empty());
    assert!(!matrix.operating_systems.is_empty());
    assert!(!matrix.plugin_compatibility.is_empty());
}

#[test]
fn test_plugin_name_extraction() {
    let matrix = CompatibilityMatrix::default();
    assert_eq!(matrix.extract_plugin_name("pytest-cov==5.0.0"), "pytest-cov");
    assert_eq!(matrix.extract_plugin_name("pytest-mock>=3.0"), "pytest-mock");
    assert_eq!(matrix.extract_plugin_name("simple-plugin"), "simple-plugin");
}

#[test]
fn test_plugin_compatibility_check() {
    let matrix = CompatibilityMatrix::default();
    let plugins = vec![
        "pytest-cov".to_string(),
        "pytest-xdist".to_string(),
        "unknown-plugin".to_string(),
    ];

    let check = matrix.check_plugin_compatibility(&plugins);

    assert!(check.get("pytest-cov").unwrap().0);
    assert!(!check.get("pytest-xdist").unwrap().0);
    assert!(check.needs_fallback);
    assert!(check.get("unknown-plugin").unwrap().0);
    assert!(!check.warnings.is_empty());
}

#[test]
fn test_os_detection() {
    let matrix = CompatibilityMatrix::default();
    let os = matrix.detect_os("linux");
    assert!(["windows", "macos", "linux", "unknown"].contains(&os.as_str()));
    assert_eq!(os, "linux");
    assert_eq!(matrix.detect_os("macos"), "macos");
    assert_eq!(matrix.detect_os("windows"), "windows");
    assert_eq!(matrix.detect_os("freebsd"), "unknown");
}

#[test]
fn extras_are_stripped_from_plugin_names() {
    let matrix = CompatibilityMatrix::default();
    assert_eq!(matrix.extract_plugin_name("pytest-cov[toml]==5.0"), "pytest-cov");
    assert_eq!(matrix.extract_plugin_name("pytest-asyncio~=0.21"), "pytest-asyncio");
}

#[test]
fn unknown_plugin_is_assumed_compatible_with_a_warning() {
    let matrix = CompatibilityMatrix::default();
    let check = matrix.check_plugin_compatibility(&vec!["my-own-plugin==1.0".to_string()]);
    let (ok, status) = check.get("my-own-plugin").unwrap();
    assert!(ok);
    assert!(matches!(status, CompatibilityStatus::Unknown));
    assert_eq!(check.warnings.len(), 1);
    assert!(!check.needs_fallback);
}

#[test]
fn python_version_from_parts() {
    let matrix = CompatibilityMatrix::default();
    assert_eq!(matrix.detect_python_version(Some("3.11".to_string()), None, None), "3.11");
    assert_eq!(
        matrix.detect_python_version(None, Some("3".to_string()), Some("12".to_string())),
        "3.12"
    );
}

#[test]
fn test_environment_type_detection() {
    let matrix = CompatibilityMatrix::default();
    let probe = EnvironmentProbe { virtual_env: false, conda_env: false, uv_lock: true, poetry_lock: false };
    assert_eq!(matrix.detect_environment_type(&probe), "uv");
}

#[test]
fn lock_files_win_over_environment_variables() {
    let matrix = CompatibilityMatrix::default();
    let probe = EnvironmentProbe { virtual_env: true, conda_env: true, uv_lock: false, poetry_lock: true };
    assert_eq!(matrix.detect_environment_type(&probe), "poetry");
    assert_eq!(matrix.detect_environment_type_simple(&probe), "venv");
    let none = EnvironmentProbe { virtual_env: false, conda_env: false, uv_lock: false, poetry_lock: false };
    assert_eq!(matrix.detect_environment_type(&none), "system");
}
