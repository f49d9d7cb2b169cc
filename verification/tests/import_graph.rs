use veri::import_graph::{is_python_file_name, module_info_for, module_name_for, should_walk_dir, subpackage_name};

#[test]
fn module_discovery_rules() {
    assert!(is_python_file_name("mod.py"));
    assert!(!is_python_file_name("mod.pyc"));
    assert!(should_walk_dir("pkg"));
    assert!(!should_walk_dir(".git"));
    assert!(!should_walk_dir("__pycache__"));
    assert_eq!(subpackage_name("", "pkg"), "pkg");
    assert_eq!(subpackage_name("pkg", "sub"), "pkg.sub");
    assert_eq!(module_name_for("pkg.sub", "mod.py"), "pkg.sub.mod");
    assert_eq!(module_name_for("pkg", "__init__.py"), "pkg");
    assert_eq!(module_name_for("", "top.py"), "top");
    assert!(module_info_for("", "__init__.py", "__init__.py", "d".to_string()).is_none());
    let info = module_info_for("pkg", "__init__.py", "pkg/__init__.py", "d".to_string()).unwrap();
    assert!(info.is_package);
    assert_eq!(info.parent_package, Some("pkg".to_string()));
}

#[test]
fn empty_graphs_and_index() {
    let index = veri::schemas::TestsIndex::new("3.11.4".to_string(), "8.1.0".to_string());
    assert_eq!((index.version.as_str(), index.python_version.as_str(), index.pytest_version.as_str()), ("0.1.0", "3.11.4", "8.1.0"));
    assert!(index.tests.is_empty() && index.collection_errors.is_empty());
    assert!(index.generated_at.ends_with('Z'));
    let m = veri::schemas::ModuleMap::new();
    assert!(m.modules.is_empty() && m.packages.is_empty());
    let g = veri::schemas::ImportsGraph::new();
    assert!(g.edges.is_empty() && g.dynamic_imports.is_empty() && g.unresolved_imports.is_empty());
    let r = veri::schemas::ReverseDepsGraph::new();
    assert_eq!(r.version, "0.1.0");
    assert!(r.reverse_deps.is_empty());
}
