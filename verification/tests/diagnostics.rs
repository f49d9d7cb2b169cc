use veri::diagnostics::{DiagnosticReporter, VeriDiagnostic};

#[test]
fn test_no_tests_found_formatting() {
    let diagnostic = VeriDiagnostic::no_tests_found(Some("test_example"), None, &vec![]);
    let message = diagnostic.format_message();
    assert!(message.contains("No tests found"));
    assert!(message.contains("test_example"));
    assert!(message.contains("--explain"));
}

#[test]
fn test_diagnostic_exit_codes() {
    let no_tests = VeriDiagnostic::no_tests_found(None, None, &vec![]);
    assert_eq!(no_tests.exit_code(), 4);
    assert!(no_tests.is_error());

    let broadened = VeriDiagnostic::selection_broadened(15, 20, 600, "threshold".to_string());
    assert_eq!(broadened.exit_code(), 0);
    assert!(!broadened.is_error());
}

#[test]
fn test_diagnostic_reporter() {
    let mut reporter = DiagnosticReporter::new(false);
    reporter.add(VeriDiagnostic::no_tests_found(None, None, &vec![]));
    reporter.add(VeriDiagnostic::selection_broadened(15, 20, 600, "test".to_string()));

    assert_eq!(reporter.max_exit_code(), 4);
    assert!(reporter.has_errors());

    let (errors, warnings) = reporter.counts();
    assert_eq!(errors, 1);
    assert_eq!(warnings, 1);
}

#[test]
fn quiet_reporter_reports_only_errors() {
    let mut reporter = DiagnosticReporter::new(true);
    reporter.add(VeriDiagnostic::selection_broadened(15, 20, 600, "test".to_string()));
    assert!(reporter.messages_to_report().is_empty());
    assert_eq!(reporter.max_exit_code(), 0);
    reporter.add(VeriDiagnostic::no_tests_found(None, Some("slow"), &vec!["tests/".to_string()]));
    assert_eq!(reporter.messages_to_report().len(), 1);
}

#[test]
fn empty_reporter() {
    let reporter = DiagnosticReporter::new(false);
    assert_eq!(reporter.max_exit_code(), 0);
    assert!(!reporter.has_errors());
    assert_eq!(reporter.counts(), (0, 0));
}
