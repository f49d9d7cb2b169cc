use veri::coverage::{
    class_name, generate_lcov, package_name, CoverageCollector, CoverageConfig, CoverageFormat, CoverageMap, CoverageMetadata,
    FileCoverage, ReportOutput, HTML_PLACEHOLDER,
};

fn file(lines: Vec<u32>, total: u32, hundredths: u128) -> FileCoverage {
    FileCoverage { digest: "d".to_string(), covered_lines: lines, total_lines: total, coverage_percent_hundredths: hundredths }
}

fn map(files: Vec<(&str, FileCoverage)>) -> CoverageMap {
    CoverageMap {
        files: files.into_iter().map(|(p, f)| (p.to_string(), f)).collect(),
        metadata: CoverageMetadata {
            timestamp: "2024-01-01T00:00:00Z".to_string(),
            python_version: "3.x".to_string(),
            coverage_version: "7.x".to_string(),
            incremental: false,
        },
    }
}

#[test]
fn cobertura_report_groups_files_by_package() {
    let collector = CoverageCollector::new(CoverageConfig::default(), ".veri/cache".to_string(), ".".to_string());
    let m = map(vec![
        ("src/pkg/a.py", file(vec![1, 3], 4, 5000)),
        ("setup.py", file(vec![], 2, 0)),
        ("src/pkg/b.tar.py", file(vec![2], 2, 10000)),
    ]);
    let xml = collector.xml_report_text(&m, 1700000000);
    let expected_lines = [
        "<?xml version=\"1.0\" ?>",
        "<coverage version=\"1.0\" timestamp=\"1700000000\">",
        "  <sources>",
        "    <source>src</source>",
        "  </sources>",
        "  <packages>",
        "    <package name=\"src/pkg\">",
        "      <classes>",
        "        <class name=\"a\" filename=\"src/pkg/a.py\" line-rate=\"0.5000\">",
        "          <lines>",
        "            <line number=\"1\" hits=\"1\"/>",
        "            <line number=\"3\" hits=\"1\"/>",
        "          </lines>",
        "        </class>",
        "        <class name=\"b.tar\" filename=\"src/pkg/b.tar.py\" line-rate=\"1.0000\">",
        "          <lines>",
        "            <line number=\"2\" hits=\"1\"/>",
        "          </lines>",
        "        </class>",
        "      </classes>",
        "    </package>",
        "    <package name=\"\">",
        "      <classes>",
        "        <class name=\"setup\" filename=\"setup.py\" line-rate=\"0.0000\">",
        "          <lines>",
        "          </lines>",
        "        </class>",
        "      </classes>",
        "    </package>",
        "  </packages>",
        "</coverage>",
    ];
    let expected: String = expected_lines.iter().map(|l| format!("{}\n", l)).collect();
    assert_eq!(xml, expected);
}

#[test]
fn cobertura_report_of_nothing() {
    let collector = CoverageCollector::new(CoverageConfig::default(), ".veri/cache".to_string(), ".".to_string());
    let xml = collector.generate_xml_report(&map(vec![]));
    assert!(xml.starts_with("<?xml version=\"1.0\" ?>\n<coverage version=\"1.0\" timestamp=\""));
    assert!(xml.ends_with("  <packages>\n  </packages>\n</coverage>\n"));
}

#[test]
fn packages_and_classes_follow_std_paths() {
    for p in ["src/pkg/a.py", "a.py", "/a.py", "src/.hidden", "src/x.y.z", "", "..", "src/"] {
        let std_path = std::path::Path::new(p);
        let pkg = std_path.parent().map(|q| q.to_string_lossy().to_string()).unwrap_or_else(|| ".".to_string());
        let class = std_path.file_stem().map(|s| s.to_string_lossy().to_string()).unwrap_or_else(|| "unknown".to_string());
        assert_eq!(package_name(p), pkg, "{:?}", p);
        assert_eq!(class_name(p), class, "{:?}", p);
    }
}

#[test]
fn metadata_is_stamped_now() {
    let collector = CoverageCollector::new(CoverageConfig::default(), ".veri/cache".to_string(), ".".to_string());
    let m = collector.create_metadata(true);
    assert!(m.incremental);
    assert_eq!((m.python_version.as_str(), m.coverage_version.as_str()), ("3.x", "7.x"));
    assert!(m.timestamp.ends_with("+00:00"));
    let fixed = collector.metadata_at(false, "2024-05-01T00:00:00+00:00".to_string());
    assert_eq!(fixed.timestamp, "2024-05-01T00:00:00+00:00");
}

#[test]
fn full_reports_follow_the_configured_formats() {
    let mut config = CoverageConfig::default();
    config.output_formats = vec![CoverageFormat::Lcov, CoverageFormat::Json, CoverageFormat::Html, CoverageFormat::Xml];
    let m = map(vec![("src/a.py", file(vec![1], 2, 5000))]);
    let off = CoverageCollector::new(config, ".veri/cache".to_string(), ".".to_string());
    assert!(off.full_report_outputs(&m, 7).is_empty());
    let mut config = CoverageConfig::default();
    config.merge_full = true;
    config.output_formats = vec![CoverageFormat::Lcov, CoverageFormat::Json, CoverageFormat::Html, CoverageFormat::Xml];
    let on = CoverageCollector::new(config, ".veri/cache".to_string(), ".".to_string());
    let outs = on.full_report_outputs(&m, 7);
    assert_eq!(outs.len(), 4);
    match &outs[0] {
        ReportOutput::Text { path, contents } => {
            assert_eq!(path, "reports/coverage.info");
            assert_eq!(contents, &generate_lcov(&m));
        },
        other => panic!("{:?}", other),
    }
    match &outs[1] {
        ReportOutput::Json { path } => assert_eq!(path, "reports/coverage.json"),
        other => panic!("{:?}", other),
    }
    match &outs[2] {
        ReportOutput::Text { path, contents } => {
            assert_eq!(path, "reports/htmlcov/index.html");
            assert_eq!(contents, HTML_PLACEHOLDER);
        },
        other => panic!("{:?}", other),
    }
    match &outs[3] {
        ReportOutput::Text { path, contents } => {
            assert_eq!(path, "reports/coverage.xml");
            assert_eq!(contents, &on.xml_report_text(&m, 7));
        },
        other => panic!("{:?}", other),
    }
}
