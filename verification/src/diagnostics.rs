//! User-facing diagnostics: what went wrong or was noticed, how it is
//! explained, and which exit code it calls for.
use crate::order::views;
use crate::planner::decimal;
use vstd::prelude::*;

verus! {

/// What went wrong in a configuration file.
#[derive(Debug)]
pub enum ConfigErrorType {
    InvalidSyntax(String),
    ConflictingOptions(String, String),
    InvalidValue(String, String),
    MissingRequired(String),
}

/// Why cached analysis could not be used.
#[derive(Debug, Clone, Copy, PartialEq, Eq, Structural)]
pub enum CacheMissReason {
    FirstRun,
    ConfigChanged,
    PythonVersionChanged,
    DependenciesChanged,
    FileSystemChanged,
    CacheCorrupted,
}

/// A problem with the Python environment.
#[derive(Debug)]
pub enum PythonIssueType {
    NotFound,
    /// Expected and actual versions.
    VersionMismatch(String, String),
    MissingDependencies(Vec<String>),
    PermissionDenied,
    VirtualEnvNotActivated,
}

/// A situation worth explaining to the user.  The broadening threshold is
/// in thousandths.
#[derive(Debug)]
pub enum VeriDiagnostic {
    NoTestsFound {
        filters_applied: bool,
        keyword_filter: Option<String>,
        marker_filter: Option<String>,
        paths_provided: bool,
    },
    ImportGraphBuildFailed { error_count: usize, syntax_errors: Vec<String>, missing_files: Vec<String> },
    DynamicImportDetected { from_module: String, import_expression: String, broadening_triggered: bool },
    PluginIncompatible { plugin_name: String, version: String, reason: String, fallback_suggested: bool },
    ConfigurationError { config_path: String, error_type: ConfigErrorType, suggestions: Vec<String> },
    SelectionBroadened { original_count: usize, total_count: usize, threshold_permille: u32, reason: String },
    CacheMiss { reason: CacheMissReason, rebuild_time_estimate: Option<String> },
    PythonEnvironmentIssue { issue_type: PythonIssueType, current_python: String, suggestions: Vec<String> },
}

/// Bullet lines, one per item.
pub open spec fn bullets(items: Seq<Seq<char>>) -> Seq<char>
    decreases items.len(),
{
    if items.len() == 0 {
        Seq::empty()
    } else {
        bullets(items.drop_last()) + "  • "@ + items.last() + "\n"@
    }
}

/// At most five bullet lines, then how many more there were.
pub open spec fn first_five(items: Seq<Seq<char>>) -> Seq<char> {
    if items.len() > 5 {
        bullets(items.take(5)) + "  • ... and "@ + decimal((items.len() - 5) as nat) + " more\n"@
    } else {
        bullets(items)
    }
}

/// A ratio as a percentage with one decimal, as `{:.1}` prints it for the
/// exact quotient (ties to even; `NaN` and `inf` when dividing by zero).
pub open spec fn ratio_percent(num: nat, den: nat) -> Seq<char> {
    if den == 0 && num == 0 {
        "NaN"@
    } else {
        crate::planner::percent_text(num, den)
    }
}

pub open spec fn no_tests_text(filters: bool, keyword: Option<Seq<char>>, marker: Option<Seq<char>>, paths: bool) -> Seq<char> {
    "❌ No tests found matching your criteria\n\n"@ + "Possible reasons:\n"@ + (if filters {
        (match keyword {
            Some(k) => "  • Keyword filter '"@ + k + "' too restrictive\n"@,
            None => Seq::empty(),
        }) + (match marker {
            Some(m) => "  • Marker filter '"@ + m + "' excludes all tests\n"@,
            None => Seq::empty(),
        }) + (if paths { "  • Specified paths don't contain test files\n"@ } else { Seq::empty() })
    } else {
        "  • No test files found in current directory\n"@ + "  • Test files don't follow naming convention\n"@
            + "  • Import errors preventing test collection\n"@
    }) + "\nSuggestions:\n"@ + "  • Run 'veri --explain' to see selection logic\n"@
        + "  • Check test file naming (test_*.py or *_test.py)\n"@ + "  • Verify Python path and dependencies\n"@
        + (if filters { "  • Try removing filters (-k, -m, paths) to see all tests\n"@ } else { Seq::empty() })
        + "\nFor more help: https://docs.veri.dev/troubleshooting#no-tests-found"@
}

pub open spec fn import_failed_text(count: nat, syntax: Seq<Seq<char>>, missing: Seq<Seq<char>>) -> Seq<char> {
    "⚠️  Import graph build encountered issues\n\n"@ + "Encountered "@ + decimal(count)
        + " errors during analysis:\n"@ + (if syntax.len() > 0 {
        "\nSyntax errors:\n"@ + first_five(syntax)
    } else {
        Seq::empty()
    }) + (if missing.len() > 0 {
        "\nMissing files:\n"@ + first_five(missing)
    } else {
        Seq::empty()
    }) + "\nImpact: Some tests may be selected unnecessarily (broadening for safety)\n"@
        + "\nSuggestions:\n"@ + "  • Fix syntax errors in Python files\n"@
        + "  • Ensure all imported modules are available\n"@
        + "  • Consider adding problematic files to .veriignore\n"@
        + "  • Run with --engine pytest to bypass impact analysis\n"@
}

pub open spec fn dynamic_text(module: Seq<char>, expr: Seq<char>, broadened: bool) -> Seq<char> {
    "🔍 Dynamic import detected\n\n"@ + "Module: "@ + module + "\n"@ + "Expression: "@ + expr + "\n"@ + (
    if broadened {
        "\n⚠️  Selection broadened to all tests for safety\n"@
            + "\nWhy: Dynamic imports can't be statically analyzed, so veri runs all tests\n"@
            + "to ensure nothing is missed.\n"@ + "\nTo avoid broadening:\n"@
            + "  • Replace dynamic imports with static imports where possible\n"@
            + "  • Use --engine pytest to bypass impact analysis\n"@
            + "  • Add the module to .veriignore if it's not test-related\n"@
    } else {
        "\nNote: Dynamic import detected but not affecting current selection\n"@
    })
}

pub open spec fn plugin_text(name: Seq<char>, version: Seq<char>, reason: Seq<char>, fallback: bool) -> Seq<char> {
    "🔌 Plugin compatibility issue\n\n"@ + "Plugin: "@ + name + " ("@ + version + ")\n"@ + "Issue: "@
        + reason + "\n"@ + (if fallback {
        "\n✨ Automatic fallback activated\n"@
            + "Veri will use --engine pytest for this run to ensure compatibility.\n"@
            + "\nTo resolve:\n"@ + "  • Update to a compatible plugin version\n"@
            + "  • Check veri plugin compatibility list\n"@
            + "  • Remove problematic plugins if not needed\n"@
    } else {
        "\nSuggestions:\n"@ + "  • Try running with --engine pytest\n"@
            + "  • Update plugin to a compatible version\n"@ + "  • Disable plugin temporarily\n"@
    }) + "\nCompatibility guide: https://docs.veri.dev/plugins#compatibility"@
}

pub open spec fn config_error_line(e: ConfigErrorType) -> Seq<char> {
    match e {
        ConfigErrorType::InvalidSyntax(d) => "Error: Invalid TOML syntax\n"@ + d@ + "\n"@,
        ConfigErrorType::ConflictingOptions(a, b) => "Error: Conflicting options '"@ + a@ + "' and '"@ + b@ + "'\n"@,
        ConfigErrorType::InvalidValue(o, v) => "Error: Invalid value '"@ + v@ + "' for option '"@ + o@ + "'\n"@,
        ConfigErrorType::MissingRequired(o) => "Error: Missing required option '"@ + o@ + "'\n"@,
    }
}

pub open spec fn suggestions_text(s: Seq<Seq<char>>) -> Seq<char> {
    if s.len() > 0 {
        "\nSuggestions:\n"@ + bullets(s)
    } else {
        Seq::empty()
    }
}

pub open spec fn config_text(path: Seq<char>, e: ConfigErrorType, sug: Seq<Seq<char>>) -> Seq<char> {
    "⚙️  Configuration error\n\n"@ + "File: "@ + path + "\n"@ + config_error_line(e) + suggestions_text(sug)
        + "\nConfiguration reference: https://docs.veri.dev/config"@
}

pub open spec fn broadened_text(orig: nat, total: nat, permille: nat, reason: Seq<char>) -> Seq<char> {
    "📈 Test selection broadened\n\n"@ + "Impact analysis selected "@ + decimal(orig) + " of "@
        + decimal(total) + " tests ("@ + ratio_percent(orig, total) + "%)\n"@ + "Threshold: "@
        + crate::planner::tenths_text(permille) + "%\n"@ + "Reason: "@ + reason + "\n"@
        + "\n🚀 Running all tests for optimal performance\n"@
        + "\nWhy: When most tests would run anyway, it's faster to run them all\n"@
        + "without the overhead of selective execution.\n"@ + "\nTo avoid broadening:\n"@
        + "  • Make smaller, more focused changes\n"@ + "  • Increase threshold in configuration\n"@
        + "  • Use test filters (-k, -m) to narrow selection\n"@
}

pub open spec fn cache_reason_line(r: CacheMissReason) -> Seq<char> {
    match r {
        CacheMissReason::FirstRun => "Reason: First run in this project\n"@,
        CacheMissReason::ConfigChanged => "Reason: Configuration changed\n"@,
        CacheMissReason::PythonVersionChanged => "Reason: Python version changed\n"@,
        CacheMissReason::DependenciesChanged => "Reason: Dependencies changed (detected via uv.lock)\n"@,
        CacheMissReason::FileSystemChanged => "Reason: File system structure changed\n"@,
        CacheMissReason::CacheCorrupted => "Reason: Cache files corrupted or invalid\n"@,
    }
}

pub open spec fn cache_text(r: CacheMissReason, estimate: Option<Seq<char>>) -> Seq<char> {
    "🔄 Cache miss - rebuilding analysis\n\n"@ + cache_reason_line(r) + (match estimate {
        Some(e) => "Estimated rebuild time: "@ + e + "\n"@,
        None => Seq::empty(),
    }) + "\nNote: Subsequent runs will be much faster using cached analysis\n"@
}

pub open spec fn python_issue_line(i: PythonIssueType) -> Seq<char> {
    match i {
        PythonIssueType::NotFound => "Error: Python interpreter not found\n"@,
        PythonIssueType::VersionMismatch(e, a) => "Error: Python version mismatch\n"@ + "Expected: "@ + e@
            + "\n"@ + "Actual: "@ + a@ + "\n"@,
        PythonIssueType::MissingDependencies(deps) => "Error: Missing required dependencies\n"@ + bullets(
            views(deps@),
        ),
        PythonIssueType::PermissionDenied => "Error: Permission denied accessing Python environment\n"@,
        PythonIssueType::VirtualEnvNotActivated => "Warning: Virtual environment not activated\n"@,
    }
}

pub open spec fn python_text(i: PythonIssueType, current: Seq<char>, sug: Seq<Seq<char>>) -> Seq<char> {
    "🐍 Python environment issue\n\n"@ + python_issue_line(i) + "Current Python: "@ + current + "\n"@
        + suggestions_text(sug)
}

pub open spec fn opt_chars(o: Option<String>) -> Option<Seq<char>> {
    match o {
        Some(s) => Some(s@),
        None => None,
    }
}

/// The explanation shown for a diagnostic.
pub open spec fn diagnostic_text(d: VeriDiagnostic) -> Seq<char> {
    match d {
        VeriDiagnostic::NoTestsFound { filters_applied, keyword_filter, marker_filter, paths_provided } =>
            no_tests_text(filters_applied, opt_chars(keyword_filter), opt_chars(marker_filter), paths_provided),
        VeriDiagnostic::ImportGraphBuildFailed { error_count, syntax_errors, missing_files } => import_failed_text(
            error_count as nat,
            views(syntax_errors@),
            views(missing_files@),
        ),
        VeriDiagnostic::DynamicImportDetected { from_module, import_expression, broadening_triggered } =>
            dynamic_text(from_module@, import_expression@, broadening_triggered),
        VeriDiagnostic::PluginIncompatible { plugin_name, version, reason, fallback_suggested } => plugin_text(
            plugin_name@,
            version@,
            reason@,
            fallback_suggested,
        ),
        VeriDiagnostic::ConfigurationError { config_path, error_type, suggestions } => config_text(
            config_path@,
            error_type,
            views(suggestions@),
        ),
        VeriDiagnostic::SelectionBroadened { original_count, total_count, threshold_permille, reason } =>
            broadened_text(original_count as nat, total_count as nat, threshold_permille as nat, reason@),
        VeriDiagnostic::CacheMiss { reason, rebuild_time_estimate } => cache_text(reason, opt_chars(rebuild_time_estimate)),
        VeriDiagnostic::PythonEnvironmentIssue { issue_type, current_python, suggestions } => python_text(
            issue_type,
            current_python@,
            views(suggestions@),
        ),
    }
}

/// The exit code a diagnostic calls for: 4 (usage error) when no tests were
/// found or the configuration is wrong, 3 (internal error) for Python
/// environment and plugin problems, 0 for the others, which only inform.
pub open spec fn exit_code_of(d: VeriDiagnostic) -> i32 {
    match d {
        VeriDiagnostic::NoTestsFound { .. } => 4,
        VeriDiagnostic::ConfigurationError { .. } => 4,
        VeriDiagnostic::PythonEnvironmentIssue { .. } => 3,
        VeriDiagnostic::PluginIncompatible { .. } => 3,
        _ => 0,
    }
}

/// Appends bullet lines for the first `n` items.
fn push_bullets(m: &mut String, items: &Vec<String>, n: usize)
    requires
        n <= items@.len(),
    ensures
        final(m)@ == old(m)@ + bullets(views(items@).take(n as int)),
{
    let ghost m0 = old(m)@;
    let mut i: usize = 0;
    while i < n
        invariant
            i <= n <= items@.len(),
            m0 == old(m)@,
            m@ == m0 + bullets(views(items@).take(i as int)),
        decreases n - i,
    {
        m.append("  • ");
        m.append(items[i].as_str());
        m.append("\n");
        proof {
            let t = views(items@).take(i + 1);
            assert(t.drop_last() =~= views(items@).take(i as int));
            assert(t.last() == items@[i as int]@);
            assert(m@ =~= m0 + bullets(t));
        }
        i = i + 1;
    }
}

/// Appends at most five bullet lines and a count of the rest.
fn push_first_five(m: &mut String, items: &Vec<String>)
    ensures
        final(m)@ == old(m)@ + first_five(views(items@)),
{
    if items.len() > 5 {
        push_bullets(m, items, 5);
        m.append("  • ... and ");
        let k = crate::planner::decimal_string((items.len() - 5) as u128);
        m.append(k.as_str());
        m.append(" more\n");
    } else {
        push_bullets(m, items, items.len());
        assert(views(items@).take(items@.len() as int) =~= views(items@));
    }
}

/// Appends the suggestions block.
fn push_suggestions(m: &mut String, s: &Vec<String>)
    ensures
        final(m)@ == old(m)@ + suggestions_text(views(s@)),
{
    if s.len() > 0 {
        m.append("\nSuggestions:\n");
        push_bullets(m, s, s.len());
        assert(views(s@).take(s@.len() as int) =~= views(s@));
    }
}

fn no_tests_message(filters_applied: &bool, keyword_filter: &Option<String>, marker_filter: &Option<String>, paths_provided: &bool) -> (m: String)
    ensures
        m@ == no_tests_text(*filters_applied, opt_chars(*keyword_filter), opt_chars(*marker_filter), *paths_provided),
{
    let mut m = "❌ No tests found matching your criteria\n\n".to_owned();
    m.append("Possible reasons:\n");
    if *filters_applied {
        match keyword_filter {
            Some(k) => {
                m.append("  • Keyword filter '");
                m.append(k.as_str());
                m.append("' too restrictive\n");
            },
            None => {},
        }
        match marker_filter {
            Some(k) => {
                m.append("  • Marker filter '");
                m.append(k.as_str());
                m.append("' excludes all tests\n");
            },
            None => {},
        }
        if *paths_provided {
            m.append("  • Specified paths don't contain test files\n");
        }
    } else {
        m.append("  • No test files found in current directory\n");
        m.append("  • Test files don't follow naming convention\n");
        m.append("  • Import errors preventing test collection\n");
    }
    m.append("\nSuggestions:\n");
    m.append("  • Run 'veri --explain' to see selection logic\n");
    m.append("  • Check test file naming (test_*.py or *_test.py)\n");
    m.append("  • Verify Python path and dependencies\n");
    if *filters_applied {
        m.append("  • Try removing filters (-k, -m, paths) to see all tests\n");
    }
    m.append("\nFor more help: https://docs.veri.dev/troubleshooting#no-tests-found");
    assert(m@ =~= no_tests_text(*filters_applied, opt_chars(*keyword_filter), opt_chars(*marker_filter), *paths_provided));
    m
}

fn import_failed_message(error_count: &usize, syntax_errors: &Vec<String>, missing_files: &Vec<String>) -> (m: String)
    ensures
        m@ == import_failed_text(*error_count as nat, views(syntax_errors@), views(missing_files@)),
{
    let mut m = "⚠️  Import graph build encountered issues\n\n".to_owned();
    m.append("Encountered ");
    let c = crate::planner::decimal_string(*error_count as u128);
    m.append(c.as_str());
    m.append(" errors during analysis:\n");
    let ghost m1 = m@;
    if syntax_errors.len() > 0 {
        m.append("\nSyntax errors:\n");
        push_first_five(&mut m, syntax_errors);
    }
    let ghost m2 = m@;
    if missing_files.len() > 0 {
        m.append("\nMissing files:\n");
        push_first_five(&mut m, missing_files);
    }
    let ghost m3 = m@;
    m.append("\nImpact: Some tests may be selected unnecessarily (broadening for safety)\n");
    m.append("\nSuggestions:\n");
    m.append("  • Fix syntax errors in Python files\n");
    m.append("  • Ensure all imported modules are available\n");
    m.append("  • Consider adding problematic files to .veriignore\n");
    m.append("  • Run with --engine pytest to bypass impact analysis\n");
    assert(m@ =~= import_failed_text(*error_count as nat, views(syntax_errors@), views(missing_files@)));
    m
}

fn dynamic_message(from_module: &String, import_expression: &String, broadening_triggered: &bool) -> (m: String)
    ensures
        m@ == dynamic_text(from_module@, import_expression@, *broadening_triggered),
{
    let mut m = "🔍 Dynamic import detected\n\n".to_owned();
    m.append("Module: ");
    m.append(from_module.as_str());
    m.append("\n");
    m.append("Expression: ");
    m.append(import_expression.as_str());
    m.append("\n");
    if *broadening_triggered {
        m.append("\n⚠️  Selection broadened to all tests for safety\n");
        m.append("\nWhy: Dynamic imports can't be statically analyzed, so veri runs all tests\n");
        m.append("to ensure nothing is missed.\n");
        m.append("\nTo avoid broadening:\n");
        m.append("  • Replace dynamic imports with static imports where possible\n");
        m.append("  • Use --engine pytest to bypass impact analysis\n");
        m.append("  • Add the module to .veriignore if it's not test-related\n");
    } else {
        m.append("\nNote: Dynamic import detected but not affecting current selection\n");
    }
    assert(m@ =~= dynamic_text(from_module@, import_expression@, *broadening_triggered));
    m
}

fn plugin_message(plugin_name: &String, version: &String, reason: &String, fallback_suggested: &bool) -> (m: String)
    ensures
        m@ == plugin_text(plugin_name@, version@, reason@, *fallback_suggested),
{
    let mut m = "🔌 Plugin compatibility issue\n\n".to_owned();
    m.append("Plugin: ");
    m.append(plugin_name.as_str());
    m.append(" (");
    m.append(version.as_str());
    m.append(")\n");
    m.append("Issue: ");
    m.append(reason.as_str());
    m.append("\n");
    if *fallback_suggested {
        m.append("\n✨ Automatic fallback activated\n");
        m.append("Veri will use --engine pytest for this run to ensure compatibility.\n");
        m.append("\nTo resolve:\n");
        m.append("  • Update to a compatible plugin version\n");
        m.append("  • Check veri plugin compatibility list\n");
        m.append("  • Remove problematic plugins if not needed\n");
    } else {
        m.append("\nSuggestions:\n");
        m.append("  • Try running with --engine pytest\n");
        m.append("  • Update plugin to a compatible version\n");
        m.append("  • Disable plugin temporarily\n");
    }
    m.append("\nCompatibility guide: https://docs.veri.dev/plugins#compatibility");
    assert(m@ =~= plugin_text(plugin_name@, version@, reason@, *fallback_suggested));
    m
}

fn config_message(config_path: &String, error_type: &ConfigErrorType, suggestions: &Vec<String>) -> (m: String)
    ensures
        m@ == config_text(config_path@, *error_type, views(suggestions@)),
{
    let mut m = "⚙️  Configuration error\n\n".to_owned();
    m.append("File: ");
    m.append(config_path.as_str());
    m.append("\n");
    let ghost m1 = m@;
    match error_type {
        ConfigErrorType::InvalidSyntax(d) => {
            m.append("Error: Invalid TOML syntax\n");
            m.append(d.as_str());
            m.append("\n");
        },
        ConfigErrorType::ConflictingOptions(a, b) => {
            m.append("Error: Conflicting options '");
            m.append(a.as_str());
            m.append("' and '");
            m.append(b.as_str());
            m.append("'\n");
        },
        ConfigErrorType::InvalidValue(o, v) => {
            m.append("Error: Invalid value '");
            m.append(v.as_str());
            m.append("' for option '");
            m.append(o.as_str());
            m.append("'\n");
        },
        ConfigErrorType::MissingRequired(o) => {
            m.append("Error: Missing required option '");
            m.append(o.as_str());
            m.append("'\n");
        },
    }
    assert(m@ =~= m1 + config_error_line(*error_type));
    push_suggestions(&mut m, suggestions);
    m.append("\nConfiguration reference: https://docs.veri.dev/config");
    assert(m@ =~= config_text(config_path@, *error_type, views(suggestions@)));
    m
}

fn broadened_message(original_count: &usize, total_count: &usize, threshold_permille: &u32, reason: &String) -> (m: String)
    ensures
        m@ == broadened_text(*original_count as nat, *total_count as nat, *threshold_permille as nat, reason@),
{
    let mut m = "📈 Test selection broadened\n\n".to_owned();
    m.append("Impact analysis selected ");
    let a = crate::planner::decimal_string(*original_count as u128);
    m.append(a.as_str());
    m.append(" of ");
    let b = crate::planner::decimal_string(*total_count as u128);
    m.append(b.as_str());
    m.append(" tests (");
    if *total_count == 0 && *original_count == 0 {
        m.append("NaN");
    } else {
        let p = crate::planner::percent_string(*original_count as u64, *total_count as u64);
        m.append(p.as_str());
    }
    m.append("%)\n");
    m.append("Threshold: ");
    let t = crate::planner::tenths_string(*threshold_permille as u128);
    m.append(t.as_str());
    m.append("%\n");
    m.append("Reason: ");
    m.append(reason.as_str());
    m.append("\n");
    m.append("\n🚀 Running all tests for optimal performance\n");
    m.append("\nWhy: When most tests would run anyway, it's faster to run them all\n");
    m.append("without the overhead of selective execution.\n");
    m.append("\nTo avoid broadening:\n");
    m.append("  • Make smaller, more focused changes\n");
    m.append("  • Increase threshold in configuration\n");
    m.append("  • Use test filters (-k, -m) to narrow selection\n");
    assert(m@ =~= broadened_text(*original_count as nat, *total_count as nat, *threshold_permille as nat, reason@));
    m
}

fn cache_message(reason: &CacheMissReason, rebuild_time_estimate: &Option<String>) -> (m: String)
    ensures
        m@ == cache_text(*reason, opt_chars(*rebuild_time_estimate)),
{
    let mut m = "🔄 Cache miss - rebuilding analysis\n\n".to_owned();
    match reason {
        CacheMissReason::FirstRun => m.append("Reason: First run in this project\n"),
        CacheMissReason::ConfigChanged => m.append("Reason: Configuration changed\n"),
        CacheMissReason::PythonVersionChanged => m.append("Reason: Python version changed\n"),
        CacheMissReason::DependenciesChanged => m.append(
            "Reason: Dependencies changed (detected via uv.lock)\n",
        ),
        CacheMissReason::FileSystemChanged => m.append("Reason: File system structure changed\n"),
        CacheMissReason::CacheCorrupted => m.append("Reason: Cache files corrupted or invalid\n"),
    }
    match rebuild_time_estimate {
        Some(e) => {
            m.append("Estimated rebuild time: ");
            m.append(e.as_str());
            m.append("\n");
        },
        None => {},
    }
    m.append("\nNote: Subsequent runs will be much faster using cached analysis\n");
    assert(m@ =~= cache_text(*reason, opt_chars(*rebuild_time_estimate)));
    m
}

fn python_message(issue_type: &PythonIssueType, current_python: &String, suggestions: &Vec<String>) -> (m: String)
    ensures
        m@ == python_text(*issue_type, current_python@, views(suggestions@)),
{
    let mut m = "🐍 Python environment issue\n\n".to_owned();
    let ghost m1 = m@;
    match issue_type {
        PythonIssueType::NotFound => m.append("Error: Python interpreter not found\n"),
        PythonIssueType::VersionMismatch(e, a) => {
            m.append("Error: Python version mismatch\n");
            m.append("Expected: ");
            m.append(e.as_str());
            m.append("\n");
            m.append("Actual: ");
            m.append(a.as_str());
            m.append("\n");
        },
        PythonIssueType::MissingDependencies(deps) => {
            m.append("Error: Missing required dependencies\n");
            push_bullets(&mut m, deps, deps.len());
            assert(views(deps@).take(deps@.len() as int) =~= views(deps@));
        },
        PythonIssueType::PermissionDenied => m.append(
            "Error: Permission denied accessing Python environment\n",
        ),
        PythonIssueType::VirtualEnvNotActivated => m.append("Warning: Virtual environment not activated\n"),
    }
    assert(m@ =~= m1 + python_issue_line(*issue_type));
    m.append("Current Python: ");
    m.append(current_python.as_str());
    m.append("\n");
    push_suggestions(&mut m, suggestions);
    assert(m@ =~= python_text(*issue_type, current_python@, views(suggestions@)));
    m
}

impl VeriDiagnostic {
    /// The explanation for the user (see [`diagnostic_text`]).
    pub fn format_message(&self) -> (r: String)
        ensures
            r@ == diagnostic_text(*self),
    {
        match self {
            VeriDiagnostic::NoTestsFound { filters_applied, keyword_filter, marker_filter, paths_provided } => no_tests_message(filters_applied, keyword_filter, marker_filter, paths_provided),
            VeriDiagnostic::ImportGraphBuildFailed { error_count, syntax_errors, missing_files } => import_failed_message(error_count, syntax_errors, missing_files),
            VeriDiagnostic::DynamicImportDetected { from_module, import_expression, broadening_triggered } => dynamic_message(from_module, import_expression, broadening_triggered),
            VeriDiagnostic::PluginIncompatible { plugin_name, version, reason, fallback_suggested } => plugin_message(plugin_name, version, reason, fallback_suggested),
            VeriDiagnostic::ConfigurationError { config_path, error_type, suggestions } => config_message(config_path, error_type, suggestions),
            VeriDiagnostic::SelectionBroadened { original_count, total_count, threshold_permille, reason } => broadened_message(original_count, total_count, threshold_permille, reason),
            VeriDiagnostic::CacheMiss { reason, rebuild_time_estimate } => cache_message(reason, rebuild_time_estimate),
            VeriDiagnostic::PythonEnvironmentIssue { issue_type, current_python, suggestions } => python_message(issue_type, current_python, suggestions),
        }
    }

    /// The exit code this diagnostic calls for (see [`exit_code_of`]).
    pub fn exit_code(&self) -> (r: i32)
        ensures
            r == exit_code_of(*self),
    {
        match self {
            VeriDiagnostic::NoTestsFound { .. } => 4,
            VeriDiagnostic::ConfigurationError { .. } => 4,
            VeriDiagnostic::PythonEnvironmentIssue { .. } => 3,
            VeriDiagnostic::PluginIncompatible { .. } => 3,
            _ => 0,
        }
    }

    /// Whether the diagnostic is an error, that is calls for a non-zero exit.
    pub fn is_error(&self) -> (r: bool)
        ensures
            r == (exit_code_of(*self) != 0),
    {
        self.exit_code() != 0
    }

    /// A short title.
    pub fn title(&self) -> (r: &'static str)
        ensures
            r@ == match *self {
                VeriDiagnostic::NoTestsFound { .. } => "No Tests Found"@,
                VeriDiagnostic::ImportGraphBuildFailed { .. } => "Import Analysis Issues"@,
                VeriDiagnostic::DynamicImportDetected { .. } => "Dynamic Import Detected"@,
                VeriDiagnostic::PluginIncompatible { .. } => "Plugin Incompatible"@,
                VeriDiagnostic::ConfigurationError { .. } => "Configuration Error"@,
                VeriDiagnostic::SelectionBroadened { .. } => "Selection Broadened"@,
                VeriDiagnostic::CacheMiss { .. } => "Cache Miss"@,
                VeriDiagnostic::PythonEnvironmentIssue { .. } => "Python Environment Issue"@,
            },
    {
        match self {
            VeriDiagnostic::NoTestsFound { .. } => "No Tests Found",
            VeriDiagnostic::ImportGraphBuildFailed { .. } => "Import Analysis Issues",
            VeriDiagnostic::DynamicImportDetected { .. } => "Dynamic Import Detected",
            VeriDiagnostic::PluginIncompatible { .. } => "Plugin Incompatible",
            VeriDiagnostic::ConfigurationError { .. } => "Configuration Error",
            VeriDiagnostic::SelectionBroadened { .. } => "Selection Broadened",
            VeriDiagnostic::CacheMiss { .. } => "Cache Miss",
            VeriDiagnostic::PythonEnvironmentIssue { .. } => "Python Environment Issue",
        }
    }

    /// No tests were found; filters count as applied when a keyword, a
    /// marker or paths were given.
    pub fn no_tests_found(keyword: Option<&str>, marker: Option<&str>, paths: &Vec<String>) -> (d: Self)
        ensures
            d == (VeriDiagnostic::NoTestsFound {
                filters_applied: keyword is Some || marker is Some || paths@.len() > 0,
                keyword_filter: d->keyword_filter,
                marker_filter: d->marker_filter,
                paths_provided: paths@.len() > 0,
            }),
            opt_chars(d->keyword_filter) == match keyword {
                Some(k) => Some(k@),
                None => None,
            },
            opt_chars(d->marker_filter) == match marker {
                Some(k) => Some(k@),
                None => None,
            },
    {
        let filters_applied = keyword.is_some() || marker.is_some() || paths.len() > 0;
        VeriDiagnostic::NoTestsFound {
            filters_applied,
            keyword_filter: match keyword {
                Some(k) => Some(k.to_owned()),
                None => None,
            },
            marker_filter: match marker {
                Some(k) => Some(k.to_owned()),
                None => None,
            },
            paths_provided: paths.len() > 0,
        }
    }

    /// A dynamic import was found.
    pub fn dynamic_import_detected(from_module: String, import_expr: String, broadened: bool) -> (d: Self)
        ensures
            d == (VeriDiagnostic::DynamicImportDetected {
                from_module,
                import_expression: import_expr,
                broadening_triggered: broadened,
            }),
    {
        VeriDiagnostic::DynamicImportDetected {
            from_module,
            import_expression: import_expr,
            broadening_triggered: broadened,
        }
    }

    /// The selection was broadened.
    pub fn selection_broadened(original: usize, total: usize, threshold_permille: u32, reason: String) -> (d: Self)
        ensures
            d == (VeriDiagnostic::SelectionBroadened {
                original_count: original,
                total_count: total,
                threshold_permille,
                reason,
            }),
    {
        VeriDiagnostic::SelectionBroadened { original_count: original, total_count: total, threshold_permille, reason }
    }
}

/// The largest exit code of the diagnostics, 0 when there are none.
pub open spec fn max_code(ds: Seq<VeriDiagnostic>) -> i32
    decreases ds.len(),
{
    if ds.len() == 0 {
        0
    } else {
        let m = max_code(ds.drop_last());
        let c = exit_code_of(ds.last());
        if c > m {
            c
        } else {
            m
        }
    }
}

/// Number of diagnostics that are errors.
pub open spec fn error_count(ds: Seq<VeriDiagnostic>) -> nat
    decreases ds.len(),
{
    if ds.len() == 0 {
        0
    } else {
        error_count(ds.drop_last()) + if exit_code_of(ds.last()) != 0 {
            1nat
        } else {
            0nat
        }
    }
}

/// The messages that are shown: all of them, or only the errors when quiet.
pub open spec fn shown(ds: Seq<VeriDiagnostic>, quiet: bool) -> Seq<Seq<char>>
    decreases ds.len(),
{
    if ds.len() == 0 {
        Seq::empty()
    } else {
        let rest = shown(ds.drop_last(), quiet);
        if !quiet || exit_code_of(ds.last()) != 0 {
            rest.push(diagnostic_text(ds.last()))
        } else {
            rest
        }
    }
}

/// Collects diagnostics during a run.
pub struct DiagnosticReporter {
    pub diagnostics: Vec<VeriDiagnostic>,
    pub quiet: bool,
}

impl DiagnosticReporter {
    pub fn new(quiet: bool) -> (r: Self)
        ensures
            r.diagnostics@.len() == 0,
            r.quiet == quiet,
    {
        DiagnosticReporter { diagnostics: Vec::new(), quiet }
    }

    pub fn add(&mut self, diagnostic: VeriDiagnostic)
        ensures
            final(self).diagnostics@ == old(self).diagnostics@.push(diagnostic),
            final(self).quiet == old(self).quiet,
    {
        self.diagnostics.push(diagnostic);
    }

    /// The messages to print, in order: all of them, or only the errors when
    /// quiet.  Each is followed by an empty line when printed.
    pub fn messages_to_report(&self) -> (r: Vec<String>)
        ensures
            views(r@) == shown(self.diagnostics@, self.quiet),
    {
        let mut r: Vec<String> = Vec::new();
        let mut i: usize = 0;
        while i < self.diagnostics.len()
            invariant
                i <= self.diagnostics@.len(),
                views(r@) == shown(self.diagnostics@.subrange(0, i as int), self.quiet),
            decreases self.diagnostics@.len() - i,
        {
            let d = &self.diagnostics[i];
            proof {
                let sub = self.diagnostics@.subrange(0, i + 1);
                assert(sub.drop_last() =~= self.diagnostics@.subrange(0, i as int));
                assert(sub.last() == *d);
            }
            if !self.quiet || d.is_error() {
                let ghost r0 = views(r@);
                let m = d.format_message();
                r.push(m);
                assert(views(r@) =~= r0.push(m@));
            }
            i = i + 1;
        }
        assert(self.diagnostics@.subrange(0, self.diagnostics@.len() as int) =~= self.diagnostics@);
        r
    }

    /// The highest exit code among the diagnostics, 0 without any.
    pub fn max_exit_code(&self) -> (r: i32)
        ensures
            r == max_code(self.diagnostics@),
    {
        let mut m: i32 = 0;
        let mut i: usize = 0;
        while i < self.diagnostics.len()
            invariant
                i <= self.diagnostics@.len(),
                m == max_code(self.diagnostics@.subrange(0, i as int)),
            decreases self.diagnostics@.len() - i,
        {
            proof {
                let sub = self.diagnostics@.subrange(0, i + 1);
                assert(sub.drop_last() =~= self.diagnostics@.subrange(0, i as int));
            }
            let c = self.diagnostics[i].exit_code();
            if c > m {
                m = c;
            }
            i = i + 1;
        }
        assert(self.diagnostics@.subrange(0, self.diagnostics@.len() as int) =~= self.diagnostics@);
        m
    }

    /// Whether any diagnostic is an error.
    pub fn has_errors(&self) -> (r: bool)
        ensures
            r == (error_count(self.diagnostics@) > 0),
    {
        let (e, _w) = self.counts();
        e > 0
    }

    /// Numbers of errors and of other diagnostics.
    pub fn counts(&self) -> (r: (usize, usize))
        ensures
            r.0 == error_count(self.diagnostics@),
            r.0 + r.1 == self.diagnostics@.len(),
    {
        let mut e: usize = 0;
        let mut i: usize = 0;
        while i < self.diagnostics.len()
            invariant
                i <= self.diagnostics@.len(),
                e == error_count(self.diagnostics@.subrange(0, i as int)),
                e <= i,
            decreases self.diagnostics@.len() - i,
        {
            proof {
                let sub = self.diagnostics@.subrange(0, i + 1);
                assert(sub.drop_last() =~= self.diagnostics@.subrange(0, i as int));
            }
            if self.diagnostics[i].is_error() {
                e = e + 1;
            }
            i = i + 1;
        }
        assert(self.diagnostics@.subrange(0, self.diagnostics@.len() as int) =~= self.diagnostics@);
        (e, self.diagnostics.len() - e)
    }
}


proof fn lemma_exit_codes_nonnegative(d: VeriDiagnostic)
    ensures
        exit_code_of(d) >= 0,
{
}

/// The reported exit code is nonzero exactly when some diagnostic is an
/// error: warnings alone never fail a run, and an error always does.
pub proof fn lemma_exit_code_reflects_errors(ds: Seq<VeriDiagnostic>)
    ensures
        max_code(ds) >= 0,
        (max_code(ds) != 0) <==> error_count(ds) > 0,
    decreases ds.len(),
{
    if ds.len() > 0 {
        lemma_exit_code_reflects_errors(ds.drop_last());
        lemma_exit_codes_nonnegative(ds.last());
    }
}

} // verus!
