use veri::event_stream::{escape_xml, format_run_id, generate_run_id, seconds_string, JUnitResult, JUnitTestCase, JUnitWriter};

#[test]
fn test_run_id_generation() {
    let id1 = generate_run_id();
    let id2 = generate_run_id();
    assert!(id1.starts_with("veri-"));
    assert!(id2.starts_with("veri-"));
    assert_ne!(id1, id2);
}

#[test]
fn run_id_layout() {
    assert_eq!(format_run_id(1700000000, 0xdeadbeef), "veri-1700000000-deadbeef");
    assert_eq!(format_run_id(0, 1), "veri-0-00000001");
}

#[test]
fn xml_escaping() {
    assert_eq!(escape_xml("a<b & \"c\" 'd'>"), "a&lt;b &amp; &quot;c&quot; &apos;d&apos;&gt;");
}

#[test]
fn seconds_with_three_decimals() {
    assert_eq!(seconds_string(1500), "1.500");
    assert_eq!(seconds_string(7), "0.007");
}

#[test]
fn test_junit_writer() {
    let mut writer = JUnitWriter::new("junit.xml".to_string());
    writer.add_test_case(JUnitTestCase {
        name: "test_example".to_string(),
        classname: "test.module".to_string(),
        time_ms: 1500,
        result: JUnitResult::Passed,
    });
    writer.add_test_case(JUnitTestCase {
        name: "test_failure".to_string(),
        classname: "test.module".to_string(),
        time_ms: 500,
        result: JUnitResult::Failed {
            message: "assertion failed".to_string(),
            details: "Expected true, got false".to_string(),
        },
    });
    let content = writer.render(2000);
    assert!(content.contains("<testsuite"));
    assert!(content.contains("test_example"));
    assert!(content.contains("<failure"));
    assert!(content.contains("failures=\"1\""));
}
