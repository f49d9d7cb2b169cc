//! Data exchanged with the collector and written to the cache: the tests index,
//! the module map, the import graphs, timings and shard manifests.
//!
//! Timestamps are carried as RFC 3339 strings and durations as whole
//! milliseconds.
use vstd::prelude::*;

verus! {

/// One collected test.
#[derive(Debug)]
pub struct TestNode {
    pub nodeid: String,
    pub path: String,
    pub line: u32,
    pub function: String,
    pub class: Option<String>,
    pub module: String,
    pub markers: Vec<String>,
    pub fixtures: Vec<String>,
    pub parametrize: Option<ParametrizeInfo>,
}

/// Parametrization of a test.
#[derive(Debug)]
pub struct ParametrizeInfo {
    pub params: Vec<String>,
    pub ids: Vec<String>,
}

/// A file that could not be collected.
#[derive(Debug)]
pub struct CollectionError {
    pub path: String,
    pub line: Option<u32>,
    pub error_type: String,
    pub message: String,
}

/// The result of a collection run.
#[derive(Debug)]
pub struct TestsIndex {
    pub version: String,
    pub generated_at: String,
    pub python_version: String,
    pub pytest_version: String,
    pub tests: Vec<TestNode>,
    pub collection_errors: Vec<CollectionError>,
}

/// The node ids of a list of tests.
pub open spec fn nodeids_of(tests: Seq<TestNode>) -> Seq<Seq<char>> {
    tests.map_values(|t: TestNode| t.nodeid@)
}

/// The node ids of the tests of an index, in index order.
pub fn all_nodeids(index: &TestsIndex) -> (r: Vec<String>)
    ensures
        crate::order::views(r@) == nodeids_of(index.tests@),
{
    let mut r: Vec<String> = Vec::new();
    let mut i: usize = 0;
    while i < index.tests.len()
        invariant
            i <= index.tests@.len(),
            crate::order::views(r@) == nodeids_of(index.tests@.subrange(0, i as int)),
        decreases index.tests@.len() - i,
    {
        let ghost old_r = r@;
        r.push(index.tests[i].nodeid.clone());
        proof {
            assert(index.tests@.subrange(0, i + 1) =~= index.tests@.subrange(0, i as int).push(
                index.tests@[i as int],
            ));
            assert(crate::order::views(r@) =~= crate::order::views(old_r).push(index.tests@[i as int].nodeid@));
        }
        i = i + 1;
        assert(crate::order::views(r@) =~= nodeids_of(index.tests@.subrange(0, i as int)));
    }
    assert(index.tests@.subrange(0, index.tests@.len() as int) =~= index.tests@);
    r
}

/// Information about one Python module.
#[derive(Debug)]
pub struct ModuleInfo {
    pub module_name: String,
    pub is_package: bool,
    pub is_namespace: bool,
    pub parent_package: Option<String>,
    pub relative_path: String,
    pub digest: String,
}

/// Information about one Python package.
#[derive(Debug)]
pub struct PackageInfo {
    pub name: String,
    pub path: String,
    pub is_namespace: bool,
    pub subpackages: Vec<String>,
}

/// Map from file path (relative, `/`-separated) to module information.
///
/// Each path occurs once in `modules`.
#[derive(Debug)]
pub struct ModuleMap {
    pub version: String,
    pub generated_at: String,
    pub modules: Vec<(String, ModuleInfo)>,
    pub packages: Vec<PackageInfo>,
}

/// Kind of import statement.
#[derive(Debug, Clone, Copy, PartialEq, Eq, Structural)]
pub enum ImportType {
    Import,
    From,
    Relative,
}

/// A static import edge `from_module -> to_module`.
#[derive(Debug)]
pub struct ImportEdge {
    pub from_module: String,
    pub to_module: String,
    pub import_type: ImportType,
    pub line: u32,
    pub names: Vec<String>,
    pub alias: Option<String>,
    pub is_conditional: bool,
}

/// The function through which a dynamic import is made.
#[derive(Debug, Clone, Copy, PartialEq, Eq, Structural)]
pub enum DynamicImportFunction {
    ImportlibImportModule,
    BuiltinImport,
    Exec,
    Eval,
}

/// An import whose target is decided at run time.
#[derive(Debug)]
pub struct DynamicImport {
    pub from_module: String,
    pub line: u32,
    pub function: DynamicImportFunction,
    pub argument: Option<String>,
    pub reason: String,
}

/// An import that does not resolve to a module of the project.
#[derive(Debug)]
pub struct UnresolvedImport {
    pub from_module: String,
    pub import_name: String,
    pub line: u32,
    pub is_third_party: bool,
    pub is_builtin: bool,
}

/// The static and dynamic imports of a project.
#[derive(Debug)]
pub struct ImportsGraph {
    pub version: String,
    pub generated_at: String,
    pub edges: Vec<ImportEdge>,
    pub dynamic_imports: Vec<DynamicImport>,
    pub unresolved_imports: Vec<UnresolvedImport>,
}

/// A module that may depend on another through a dynamic import.
///
/// `confidence_percent` is the confidence in percent.
#[derive(Debug)]
pub struct UncertainDependent {
    pub module: String,
    pub reason: String,
    pub confidence_percent: u32,
}

/// The modules that depend on one module.
#[derive(Debug)]
pub struct ModuleReverseDeps {
    pub direct_dependents: Vec<String>,
    pub transitive_dependents: Vec<String>,
    pub test_dependents: Vec<String>,
    pub uncertain_dependents: Vec<UncertainDependent>,
}

/// Reverse dependencies keyed by module name; each name occurs once.
#[derive(Debug)]
pub struct ReverseDepsGraph {
    pub version: String,
    pub generated_at: String,
    pub reverse_deps: Vec<(String, ModuleReverseDeps)>,
}

/// Outcome of a test.
#[derive(Debug, Clone, Copy, PartialEq, Eq, Structural)]
pub enum TestOutcome {
    Passed,
    Failed,
    Skipped,
    Error,
}

/// Scope of a fixture.
#[derive(Debug, Clone, Copy, PartialEq, Eq, Structural)]
pub enum FixtureScope {
    Function,
    Class,
    Module,
    Package,
    Session,
}

/// A fixture definition.
#[derive(Debug)]
pub struct FixtureInfo {
    pub name: String,
    pub scope: FixtureScope,
    pub defined_in: String,
    pub line: u32,
    pub dependencies: Vec<String>,
    pub autouse: bool,
    pub params: Option<Vec<String>>,
    pub yield_fixture: bool,
}

/// A conftest file and what it defines.
#[derive(Debug)]
pub struct ConftestInfo {
    pub path: String,
    pub scope_path: String,
    pub fixtures: Vec<String>,
    pub plugins: Vec<String>,
    pub digest: String,
}

/// A marker and its usage.
#[derive(Debug)]
pub struct MarkerInfo {
    pub name: String,
    pub description: Option<String>,
    pub registered: bool,
    pub usage_count: u32,
    pub first_seen: String,
    pub common_args: Vec<String>,
}

/// How tests are split into shards.
#[derive(Debug, Clone, Copy, PartialEq, Eq, Structural)]
pub enum ShardingStrategy {
    RoundRobin,
    BinPack,
    TimingBased,
}

/// Level of a log event.
#[derive(Debug, Clone, Copy, PartialEq, Eq, Structural)]
pub enum LogLevel {
    DEBUG,
    INFO,
    WARNING,
    ERROR,
}

/// One test assigned to a shard; durations in milliseconds.
#[derive(Debug)]
pub struct ShardTest {
    pub nodeid: String,
    pub estimated_duration_ms: u64,
    pub priority: u32,
    pub markers: Vec<String>,
}

/// One shard of a manifest; durations in milliseconds.
#[derive(Debug)]
pub struct Shard {
    pub shard_id: u32,
    pub estimated_duration_ms: u64,
    pub test_count: u32,
    pub tests: Vec<ShardTest>,
}

/// A split of the test suite into shards.
#[derive(Debug)]
pub struct ShardsManifest {
    pub version: String,
    pub format_version: String,
    pub generated_at: String,
    pub total_shards: u32,
    pub strategy: ShardingStrategy,
    pub estimated_duration_ms: u64,
    pub shards: Vec<Shard>,
}

/// Historical timing of one test: duration in milliseconds and stability in
/// thousandths (1000 = always passes).
#[derive(Debug)]
pub struct TimingEntry {
    pub nodeid: String,
    pub duration_ms: u64,
    pub outcome: String,
    pub stability_permille: Option<u32>,
}

/// Timing of one test aggregated over runs: durations in milliseconds
/// (the shortest is `u64::MAX` before any run), stability in thousandths.
#[derive(Debug)]
pub struct AggregatedTiming {
    pub nodeid: String,
    pub run_count: u32,
    pub avg_ms: u64,
    pub min_ms: u64,
    pub max_ms: u64,
    pub p50_ms: u64,
    pub p95_ms: u64,
    pub last_ms: u64,
    pub stability_permille: u32,
}

/// The current time as RFC 3339 text in UTC (`Z`, fractional seconds only
/// when present), the form in which manifests store it.
///
/// Wraps `chrono::DateTime::<Utc>::from_timestamp(..)
/// .to_rfc3339_opts(SecondsFormat::AutoSi, true)` on the system clock's time
/// since the epoch (a clock set before 1970 reads as the epoch, where
/// `Utc::now` would panic); nothing is claimed of the value, which depends
/// on the clock.
#[verifier::external_body]
pub(crate) fn now_utc_text() -> (s: String) {
    let d = std::time::SystemTime::now().duration_since(std::time::UNIX_EPOCH).unwrap_or_default();
    chrono::DateTime::<chrono::Utc>::from_timestamp(d.as_secs() as i64, d.subsec_nanos())
        .unwrap_or_default()
        .to_rfc3339_opts(chrono::SecondsFormat::AutoSi, true)
}

impl ShardsManifest {
    /// An empty manifest for `total_shards` shards, generated now.
    pub fn new(total_shards: u32, strategy: ShardingStrategy) -> (m: Self)
        ensures
            m.version@ == "0.1.0"@,
            m.format_version@ == "veri-shards@1"@,
            m.total_shards == total_shards,
            m.strategy == strategy,
            m.estimated_duration_ms == 0,
            m.shards@.len() == 0,
    {
        ShardsManifest {
            version: "0.1.0".to_owned(),
            format_version: "veri-shards@1".to_owned(),
            generated_at: now_utc_text(),
            total_shards,
            strategy,
            estimated_duration_ms: 0,
            shards: Vec::new(),
        }
    }
}

impl TestsIndex {
    /// An empty index for the given Python and pytest versions, generated
    /// now.
    pub fn new(python_version: String, pytest_version: String) -> (t: Self)
        ensures
            t.version@ == "0.1.0"@,
            t.python_version == python_version,
            t.pytest_version == pytest_version,
            t.tests@.len() == 0,
            t.collection_errors@.len() == 0,
    {
        TestsIndex {
            version: "0.1.0".to_owned(),
            generated_at: now_utc_text(),
            python_version,
            pytest_version,
            tests: Vec::new(),
            collection_errors: Vec::new(),
        }
    }
}

impl ModuleMap {
    /// An empty module map, generated now.
    pub fn new() -> (m: Self)
        ensures
            m.version@ == "0.1.0"@,
            m.modules@.len() == 0,
            m.packages@.len() == 0,
    {
        ModuleMap { version: "0.1.0".to_owned(), generated_at: now_utc_text(), modules: Vec::new(), packages: Vec::new() }
    }
}

impl ImportsGraph {
    /// An empty import graph, generated now.
    pub fn new() -> (g: Self)
        ensures
            g.version@ == "0.1.0"@,
            g.edges@.len() == 0,
            g.dynamic_imports@.len() == 0,
            g.unresolved_imports@.len() == 0,
    {
        ImportsGraph {
            version: "0.1.0".to_owned(),
            generated_at: now_utc_text(),
            edges: Vec::new(),
            dynamic_imports: Vec::new(),
            unresolved_imports: Vec::new(),
        }
    }
}

impl ReverseDepsGraph {
    /// An empty reverse-dependency graph, generated now.
    pub fn new() -> (g: Self)
        ensures
            g.version@ == "0.1.0"@,
            g.reverse_deps@.len() == 0,
    {
        ReverseDepsGraph { version: "0.1.0".to_owned(), generated_at: now_utc_text(), reverse_deps: Vec::new() }
    }
}

} // verus!
