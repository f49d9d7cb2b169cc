//! Decisions of a command-line run: whether tests run, how many workers,
//! the options handed to the workers, and what the run reports.
use crate::cli::{Cli, ExitCode};
use crate::compatibility::{check_view, env_view, report_text, CompatibilityReport};
use crate::diagnostics::{DiagnosticReporter, VeriDiagnostic};
use crate::order::views;
use crate::planner::decimal;
use crate::security::{all_findings, blocked_warning, warning_text, warning_views, SecurityConfig, SecurityScanner, WarningView};
use crate::telemetry::RunEvent;
use crate::text::join;
use crate::python_worker::TestRunOptions;
use crate::schemas::{all_nodeids, nodeids_of, ImportsGraph, TestsIndex};
use vstd::prelude::*;

verus! {

/// Whether the options ask for tests to run rather than only collection:
/// a keyword or marker filter, last-failed mode, paths, or watch mode.
pub open spec fn runs_tests(cli: Cli) -> bool {
    cli.keyword is Some || cli.marker is Some || cli.last_failed || cli.paths@.len() > 0 || cli.watch
}

/// Whether tests should run (see [`runs_tests`]).
pub fn should_run_tests(cli: &Cli) -> (r: bool)
    ensures
        r == runs_tests(*cli),
{
    cli.keyword.is_some() || cli.marker.is_some() || cli.last_failed || cli.paths.len() > 0 || cli.watch
}

/// Execution always goes through the worker pool, even for one worker and
/// one test.
pub fn should_use_pool(worker_count: usize, selected_len: usize) -> (r: bool)
    ensures
        r,
{
    let _ = worker_count;
    let _ = selected_len;
    true
}

/// The value of a decimal numeral, as `str::parse::<usize>` reads it: an
/// optional `+` then at least one digit.
pub open spec fn numeral_value(s: Seq<char>) -> Option<nat> {
    let d = unsigned_part(s);
    if d.len() > 0 && all_digits(d) {
        Some(digits_value(d))
    } else {
        None
    }
}

/// The text without a leading `+`.
pub open spec fn unsigned_part(s: Seq<char>) -> Seq<char> {
    if s.len() > 0 && s[0] == '+' {
        s.drop_first()
    } else {
        s
    }
}

/// Every character is a decimal digit.
pub open spec fn all_digits(d: Seq<char>) -> bool {
    forall|i: int| 0 <= i < d.len() ==> '0' <= #[trigger] d[i] <= '9'
}

/// The value of a string of decimal digits.
pub open spec fn digits_value(d: Seq<char>) -> nat
    decreases d.len(),
{
    if d.len() == 0 {
        0
    } else {
        digits_value(d.drop_last()) * 10 + ((d.last() as int - '0' as int) as nat)
    }
}

/// `str::parse::<usize>`: the number, or none when the text is not a
/// numeral or the number does not fit.
pub fn parse_usize(s: &str) -> (r: Option<usize>)
    ensures
        match r {
            Some(n) => numeral_value(s@) == Some(n as nat),
            None => numeral_value(s@) is None || numeral_value(s@)->0 > usize::MAX,
        },
{
    let cs = crate::text::chars_of(s);
    let start: usize = if cs.len() > 0 && cs[0] == '+' { 1 } else { 0 };
    let ghost d = unsigned_part(s@);
    assert(d =~= s@.subrange(start as int, s@.len() as int));
    if start == cs.len() {
        return None;
    }
    let mut v: usize = 0;
    let mut i: usize = start;
    let mut overflow = false;
    while i < cs.len()
        invariant
            start <= i <= cs@.len(),
            start < cs@.len(),
            cs@ == s@,
            d == s@.subrange(start as int, s@.len() as int),
            d == unsigned_part(s@),
            forall|k: int| start <= k < i ==> '0' <= #[trigger] cs@[k] <= '9',
            !overflow ==> v as nat == digits_value(s@.subrange(start as int, i as int)),
            overflow ==> digits_value(s@.subrange(start as int, i as int)) > usize::MAX,
        decreases cs@.len() - i,
    {
        let c = cs[i];
        if !('0' <= c && c <= '9') {
            proof {
                let k = i - start;
                assert(d[k as int] == c);
                assert(!('0' <= d[k as int] <= '9'));
                assert(!all_digits(d));
            }
            return None;
        }
        let dv: usize = (c as u32 - '0' as u32) as usize;
        proof {
            let sub = s@.subrange(start as int, i + 1);
            assert(sub.drop_last() =~= s@.subrange(start as int, i as int));
            assert(sub.last() == c);
        }
        if !overflow {
            if v > (usize::MAX - dv) / 10 {
                overflow = true;
            } else {
                v = v * 10 + dv;
            }
        }
        i = i + 1;
    }
    assert(s@.subrange(start as int, cs@.len() as int) == d);
    if overflow {
        None
    } else {
        Some(v)
    }
}

/// The number of workers asked for: `auto` or nothing means one per CPU,
/// otherwise a positive number.
pub fn parse_worker_count(workers: Option<&str>) -> (r: Result<usize, String>)
    ensures
        match workers {
            None => r is Ok && r->Ok_0 >= 1,
            Some(w) => if w@ == "auto"@ {
                r is Ok && r->Ok_0 >= 1
            } else {
                match numeral_value(w@) {
                    Some(n) => if n == 0 {
                        r is Err && r->Err_0@ == "Worker count must be > 0"@
                    } else if n <= usize::MAX {
                        r == Ok::<usize, String>(n as usize)
                    } else {
                        r is Err && r->Err_0@ == "Invalid worker count: "@ + w@
                    },
                    None => r is Err && r->Err_0@ == "Invalid worker count: "@ + w@,
                }
            },
        },
{
    match workers {
        None => Ok(crate::scheduler::cpu_count()),
        Some(w) => {
            if crate::text::str_eq(w, "auto") {
                return Ok(crate::scheduler::cpu_count());
            }
            match parse_usize(w) {
                Some(n) => {
                    if n == 0 {
                        Err("Worker count must be > 0".to_owned())
                    } else {
                        Ok(n)
                    }
                },
                None => {
                    let mut m = "Invalid worker count: ".to_owned();
                    m.append(w);
                    Err(m)
                },
            }
        },
    }
}

/// The patterns left out of coverage for command-line runs.
fn coverage_omit() -> (v: Vec<String>)
    ensures
        views(v@) == crate::coverage::default_omit(),
{
    let mut v: Vec<String> = Vec::new();
    v.push("*/tests/*".to_owned());
    v.push("*/test_*".to_owned());
    v.push("*/__pycache__/*".to_owned());
    v.push("*/venv/*".to_owned());
    v.push("*/.venv/*".to_owned());
    assert(views(v@) =~= crate::coverage::default_omit());
    v
}

/// The options the workers run tests with: the command line's verbosity,
/// capture, stop and report settings, the worker count, coverage of `src`
/// when asked for (XML also for a full merge), the usual omissions.
pub fn run_options_for(cli: &Cli, workers: String) -> (o: TestRunOptions)
    ensures
        o.verbose == (cli.verbose > 0),
        o.quiet == cli.quiet,
        o.no_capture == cli.no_capture,
        o.exitfirst == cli.exitfirst,
        o.maxfail == cli.maxfail,
        crate::compatibility::opt_view(o.junit_xml) == crate::compatibility::opt_view(cli.junit_xml),
        o.workers == Some(workers),
        o.ignore@.len() == 0,
        o.coverage == cli.cov,
        o.coverage_xml == (cli.cov || cli.cov_merge_full),
        !o.coverage_html,
        views(o.coverage_source_dirs@) == seq!["src"@],
        views(o.coverage_omit@) == crate::coverage::default_omit(),
{
    let mut src: Vec<String> = Vec::new();
    src.push("src".to_owned());
    assert(views(src@) =~= seq!["src"@]);
    TestRunOptions {
        verbose: cli.verbose > 0,
        quiet: cli.quiet,
        no_capture: cli.no_capture,
        exitfirst: cli.exitfirst,
        maxfail: cli.maxfail,
        junit_xml: match &cli.junit_xml {
            Some(p) => Some(p.clone()),
            None => None,
        },
        workers: Some(workers),
        ignore: Vec::new(),
        coverage: cli.cov,
        coverage_xml: cli.cov || cli.cov_merge_full,
        coverage_html: false,
        coverage_source_dirs: src,
        coverage_omit: coverage_omit(),
    }
}

/// What a test execution produced; the duration is in milliseconds.
#[derive(Debug)]
pub struct ExecutionResult {
    pub exit_code: ExitCode,
    pub duration_ms: u64,
    pub total_tests_run: usize,
    pub passed: u32,
    pub failed: u32,
    pub skipped: u32,
    pub error: u32,
}

/// An execution service that reports a fixed result, for tests.
#[derive(Debug)]
pub struct MockExecutionService {
    pub result: ExecutionResult,
}

impl MockExecutionService {
    /// Ten tests, all passed, in one second, ending with `exit_code`.
    pub fn new(exit_code: ExitCode) -> (m: Self)
        ensures
            m.result.exit_code == exit_code,
            m.result.duration_ms == 1000,
            m.result.total_tests_run == 10,
            m.result.passed == 10,
            m.result.failed == 0 && m.result.skipped == 0 && m.result.error == 0,
    {
        MockExecutionService {
            result: ExecutionResult {
                exit_code,
                duration_ms: 1000,
                total_tests_run: 10,
                passed: 10,
                failed: 0,
                skipped: 0,
                error: 0,
            },
        }
    }

    /// A service reporting the given result.
    pub fn with_result(result: ExecutionResult) -> (m: Self)
        ensures
            m.result == result,
    {
        MockExecutionService { result }
    }

    /// The fixed result.
    pub fn execute_tests(&self, nodeids: &Vec<String>) -> (r: ExecutionResult)
        ensures
            r == self.result,
    {
        let _ = nodeids;
        ExecutionResult {
            exit_code: self.result.exit_code,
            duration_ms: self.result.duration_ms,
            total_tests_run: self.result.total_tests_run,
            passed: self.result.passed,
            failed: self.result.failed,
            skipped: self.result.skipped,
            error: self.result.error,
        }
    }
}

/// An execution and whether coverage was collected.
#[derive(Debug)]
pub struct ExecutionOutcome {
    pub result: ExecutionResult,
    pub coverage_collected: bool,
}

/// Runs tests of a project with coverage when asked for.
#[derive(Debug)]
pub struct DefaultExecutionOrchestrator {
    pub work_dir: String,
    pub cache_dir: String,
}

impl DefaultExecutionOrchestrator {
    pub fn new(work_dir: &str, cache_dir: &str) -> (o: Self)
        ensures
            o.work_dir@ == work_dir@,
            o.cache_dir@ == cache_dir@,
    {
        DefaultExecutionOrchestrator { work_dir: work_dir.to_owned(), cache_dir: cache_dir.to_owned() }
    }

    /// The outcome of an execution: coverage counts as collected when
    /// `--cov` or `--cov-merge-full` was given.
    pub fn outcome(&self, cli: &Cli, result: ExecutionResult) -> (o: ExecutionOutcome)
        ensures
            o.result == result,
            o.coverage_collected == (cli.cov || cli.cov_merge_full),
    {
        ExecutionOutcome { result, coverage_collected: cli.cov || cli.cov_merge_full }
    }
}

/// Statistics of a selection.
#[derive(Debug)]
pub struct SelectionStats {
    pub total_tests: usize,
    pub selected_tests: usize,
    pub fallback_triggered: bool,
}

impl SelectionStats {
    pub fn new(total_tests: usize, selected_tests: usize, fallback_triggered: bool) -> (s: Self)
        ensures
            s.total_tests == total_tests,
            s.selected_tests == selected_tests,
            s.fallback_triggered == fallback_triggered,
    {
        SelectionStats { total_tests, selected_tests, fallback_triggered }
    }
}

/// The tests selected to run.
#[derive(Debug)]
pub struct SelectionOutcome {
    pub nodeids: Vec<String>,
    pub stats: SelectionStats,
    /// Set when the run should end right away with this code.
    pub early_exit: Option<ExitCode>,
}

/// Chooses the tests a run executes.
#[derive(Debug)]
pub struct DefaultSelectionOrchestrator {
    pub work_dir: String,
    pub cache_dir: String,
}

/// Printed when impact selection chose nothing and all tests run instead.
pub const NO_IMPACT_LINE: &'static str = "ℹ️  No impacted tests detected; defaulting to run all tests";

/// The error when impact selection did not run for a run without `--all`.
pub const NO_GRAPHS_ERROR: &'static str = "Internal error: graphs should be provided for non-all selection";

impl DefaultSelectionOrchestrator {
    pub fn new(work_dir: &str, cache_dir: &str) -> (o: Self)
        ensures
            o.work_dir@ == work_dir@,
            o.cache_dir@ == cache_dir@,
    {
        DefaultSelectionOrchestrator { work_dir: work_dir.to_owned(), cache_dir: cache_dir.to_owned() }
    }

    /// The tests to run and the lines to show.  With `--all` every test of
    /// the index runs.  Otherwise `selected` is what impact selection chose
    /// (none when it could not run, an error); when it chose nothing but
    /// the index has tests, all tests run instead; when nothing is left to
    /// run, the run ends with a usage error.
    pub fn determine_tests_to_run(
        &self,
        tests_index: &TestsIndex,
        cli: &Cli,
        selected: Option<Vec<String>>,
    ) -> (r: Result<(SelectionOutcome, Vec<String>), String>)
        ensures
            cli.all ==> (r matches Ok((o, lines)) && views(o.nodeids@) == nodeids_of(tests_index.tests@)
                && o.stats.total_tests == tests_index.tests@.len() && o.stats.selected_tests
                == tests_index.tests@.len() && !o.stats.fallback_triggered && o.early_exit is None && lines@.len()
                == 0),
            !cli.all && selected is None ==> (r matches Err(e) && e@ == NO_GRAPHS_ERROR@),
            !cli.all && selected is Some ==> {
                let sel = views(selected->0@);
                let fallback = sel.len() == 0 && tests_index.tests@.len() > 0;
                let chosen = if fallback {
                    nodeids_of(tests_index.tests@)
                } else {
                    sel
                };
                r matches Ok((o, lines)) && views(o.nodeids@) == chosen && o.stats.total_tests
                    == tests_index.tests@.len() && o.stats.fallback_triggered == fallback && if chosen.len() == 0 {
                    &&& o.stats.selected_tests == 0
                    &&& o.early_exit == Some(ExitCode::UsageError)
                    &&& lines@.len() == 0
                } else {
                    &&& o.stats.selected_tests == chosen.len()
                    &&& o.early_exit is None
                    &&& views(lines@) == (if fallback {
                        seq![NO_IMPACT_LINE@]
                    } else {
                        Seq::empty()
                    }) + seq!["🎯 Running "@ + decimal(chosen.len()) + " selected tests"@]
                }
            },
    {
        let total = tests_index.tests.len();
        if cli.all {
            let ids = all_nodeids(tests_index);
            let n = ids.len();
            assert(views(ids@).len() == n && nodeids_of(tests_index.tests@).len() == total);
            return Ok((
                SelectionOutcome { nodeids: ids, stats: SelectionStats::new(total, n, false), early_exit: None },
                Vec::new(),
            ));
        }
        let sel = match selected {
            Some(s) => s,
            None => {
                return Err(NO_GRAPHS_ERROR.to_owned());
            },
        };
        let mut lines: Vec<String> = Vec::new();
        let fallback = sel.len() == 0 && total > 0;
        let ids = if fallback {
            lines.push(NO_IMPACT_LINE.to_owned());
            all_nodeids(tests_index)
        } else {
            sel
        };
        let n = ids.len();
        assert(views(ids@).len() == n && nodeids_of(tests_index.tests@).len() == total);
        if n == 0 {
            return Ok((
                SelectionOutcome {
                    nodeids: ids,
                    stats: SelectionStats::new(total, 0, fallback),
                    early_exit: Some(ExitCode::UsageError),
                },
                lines,
            ));
        }
        let ghost l0 = views(lines@);
        let mut l = "🎯 Running ".to_owned();
        l.append(crate::planner::decimal_string(n as u128).as_str());
        l.append(" selected tests");
        lines.push(l);
        assert(views(lines@) =~= l0.push(l@));
        Ok((SelectionOutcome { nodeids: ids, stats: SelectionStats::new(total, n, fallback), early_exit: None }, lines))
    }
}

/// Worker counts the option `--workers` allows: any positive count for
/// `auto` or no option (one per CPU), otherwise the positive number given.
pub open spec fn workers_allow(workers: Option<String>, n: nat) -> bool {
    match workers {
        None => n >= 1,
        Some(w) => if w@ == "auto"@ {
            n >= 1
        } else {
            numeral_value(w@) == Some(n) && 1 <= n <= usize::MAX
        },
    }
}

/// Whether `--workers` is refused: a value other than `auto` that is not a
/// positive number that fits.
pub open spec fn workers_refused(workers: Option<String>) -> bool {
    match workers {
        None => false,
        Some(w) => w@ != "auto"@ && !(numeral_value(w@) matches Some(n) && 1 <= n <= usize::MAX),
    }
}

/// The features a run used, in this order: coverage, watch mode, parallel
/// workers, impact analysis.
pub open spec fn features_for(coverage: bool, watch: bool, parallel: bool, impact: bool) -> Seq<Seq<char>> {
    (if coverage { seq!["coverage"@] } else { Seq::empty() }) + (if watch { seq!["watch"@] } else { Seq::empty() })
        + (if parallel { seq!["parallel"@] } else { Seq::empty() }) + (if impact {
        seq!["impact_analysis"@]
    } else {
        Seq::empty()
    })
}

/// Records the telemetry of runs.
#[derive(Debug)]
pub struct DefaultTelemetryOrchestrator {}

impl DefaultTelemetryOrchestrator {
    pub fn new() -> (o: Self) {
        DefaultTelemetryOrchestrator {}
    }

    /// The telemetry event of a run: no test count, the worker count the
    /// command line asks for, the collection and execution times, the
    /// coverage, watch and CI settings, the Python version, and the
    /// features used (impact analysis when no full collection was needed).
    /// Fails when `--workers` is refused.
    pub fn run_event(
        &self,
        result: &ExecutionResult,
        collection_time_ms: u64,
        cli: &Cli,
        needs_collection: bool,
        python_version: Option<String>,
    ) -> (r: Result<RunEvent, String>)
        ensures
            r is Err <==> workers_refused(cli.workers),
            r matches Err(e) ==> cli.workers matches Some(w) && e@ == if numeral_value(w@) == Some(0nat) {
                "Worker count must be > 0"@
            } else {
                "Invalid worker count: "@ + w@
            },
            r matches Ok(e) ==> {
                &&& exists|n: nat| #[trigger] workers_allow(cli.workers, n) && e.worker_count == (n as usize) as u32
                    && views(e.features_used@) == features_for(
                    cli.cov || cli.cov_merge_full,
                    cli.watch,
                    n > 1,
                    !needs_collection,
                )
                &&& e.test_count == 0
                &&& e.collection_time_ms == collection_time_ms
                &&& e.execution_time_ms == result.duration_ms
                &&& e.coverage_enabled == (cli.cov || cli.cov_merge_full)
                &&& e.watch_mode == cli.watch
                &&& e.ci_mode == cli.ci
                &&& e.python_version == python_version
            },
    {
        let w: Option<&str> = match &cli.workers {
            Some(w) => Some(w.as_str()),
            None => None,
        };
        let n = match parse_worker_count(w) {
            Ok(n) => n,
            Err(e) => {
                return Err(e);
            },
        };
        let coverage = cli.cov || cli.cov_merge_full;
        let mut features: Vec<String> = Vec::new();
        if coverage {
            features.push("coverage".to_owned());
        }
        if cli.watch {
            features.push("watch".to_owned());
        }
        if n > 1 {
            features.push("parallel".to_owned());
        }
        if !needs_collection {
            features.push("impact_analysis".to_owned());
        }
        assert(views(features@) =~= features_for(coverage, cli.watch, n > 1, !needs_collection));
        assert(workers_allow(cli.workers, n as nat));
        Ok(
            RunEvent {
                test_count: 0,
                worker_count: n as u32,
                collection_time_ms,
                execution_time_ms: result.duration_ms,
                coverage_enabled: coverage,
                watch_mode: cli.watch,
                ci_mode: cli.ci,
                python_version,
                features_used: features,
            },
        )
    }

    /// Whether a run that ended with `exit` records an execution error:
    /// any exit but success and test failures.
    pub fn records_execution_error(&self, exit: ExitCode) -> (r: bool)
        ensures
            r == (exit != ExitCode::Success && exit != ExitCode::TestFailure),
    {
        match exit {
            ExitCode::Success => false,
            ExitCode::TestFailure => false,
            _ => true,
        }
    }
}

/// One `-v` per verbosity level.
pub open spec fn verbosity_flags(n: nat) -> Seq<Seq<char>>
    decreases n,
{
    if n == 0 {
        Seq::empty()
    } else {
        verbosity_flags((n - 1) as nat).push("-v"@)
    }
}

/// The flag when the option is set.
pub open spec fn flag_if(on: bool, flag: Seq<char>) -> Seq<Seq<char>> {
    if on {
        seq![flag]
    } else {
        Seq::empty()
    }
}

/// The flag and the value when one is given.
pub open spec fn flag_with(value: Option<String>, flag: Seq<char>) -> Seq<Seq<char>> {
    match value {
        Some(v) => seq![flag, v@],
        None => Seq::empty(),
    }
}

/// `--ignore` and the path, for each ignored path.
pub open spec fn ignore_flags(ignore: Seq<Seq<char>>) -> Seq<Seq<char>>
    decreases ignore.len(),
{
    if ignore.len() == 0 {
        Seq::empty()
    } else {
        ignore_flags(ignore.drop_last()) + seq!["--ignore"@, ignore.last()]
    }
}

/// The pytest arguments the options give, before the default path.
pub open spec fn pytest_flags(cli: Cli, ignore: Seq<Seq<char>>, paths: Seq<Seq<char>>) -> Seq<Seq<char>> {
    verbosity_flags(cli.verbose as nat) + flag_if(cli.quiet, "-q"@) + flag_if(cli.no_capture, "-s"@) + flag_if(
        cli.exitfirst,
        "-x"@,
    ) + (match cli.maxfail {
        Some(n) => seq!["--maxfail"@, decimal(n as nat)],
        None => Seq::empty(),
    }) + flag_with(cli.keyword, "-k"@) + flag_with(cli.marker, "-m"@) + flag_with(cli.junit_xml, "--junit-xml"@)
        + (match cli.workers {
        Some(w) => if w@ != "1"@ {
            seq!["-n"@, w@]
        } else {
            Seq::empty()
        },
        None => Seq::empty(),
    }) + ignore_flags(ignore) + paths
}

/// The pytest arguments of a run with the pytest engine (see
/// [`pytest_flags`]), or `.` when they are empty and not `--all`.
pub open spec fn pytest_engine_spec(cli: Cli, ignore: Seq<Seq<char>>, paths: Seq<Seq<char>>) -> Seq<Seq<char>> {
    let f = pytest_flags(cli, ignore, paths);
    if f.len() == 0 && !cli.all {
        seq!["."@]
    } else {
        f
    }
}

fn push_pair(v: &mut Vec<String>, flag: &str, value: &String)
    ensures
        views(final(v)@) == views(old(v)@) + seq![flag@, value@],
{
    let ghost v0 = views(v@);
    v.push(flag.to_owned());
    v.push(value.clone());
    assert(views(v@) =~= v0 + seq![flag@, value@]);
}

/// The pytest arguments of a run handed over to pytest: the verbosity,
/// quiet, capture and stop options, the keyword and marker filters, the
/// JUnit report, the worker count unless one worker, the ignored paths
/// and the paths; `.` when nothing was given and not `--all`.
pub fn pytest_engine_args(cli: &Cli, ignore: &Vec<String>, paths: &Vec<String>) -> (r: Vec<String>)
    ensures
        views(r@) == pytest_engine_spec(*cli, views(ignore@), views(paths@)),
{
    let mut r: Vec<String> = Vec::new();
    let mut k: u8 = 0;
    while k < cli.verbose
        invariant
            k <= cli.verbose,
            views(r@) == verbosity_flags(k as nat),
        decreases cli.verbose - k,
    {
        let ghost r0 = views(r@);
        r.push("-v".to_owned());
        assert(views(r@) =~= r0.push("-v"@));
        k = k + 1;
    }
    let ghost a = views(r@);
    if cli.quiet {
        r.push("-q".to_owned());
    }
    if cli.no_capture {
        r.push("-s".to_owned());
    }
    if cli.exitfirst {
        r.push("-x".to_owned());
    }
    assert(views(r@) =~= a + flag_if(cli.quiet, "-q"@) + flag_if(cli.no_capture, "-s"@) + flag_if(cli.exitfirst, "-x"@));
    match cli.maxfail {
        Some(n) => {
            let d = crate::planner::decimal_string(n as u128);
            push_pair(&mut r, "--maxfail", &d);
        },
        None => {},
    }
    match &cli.keyword {
        Some(kw) => push_pair(&mut r, "-k", kw),
        None => {},
    }
    match &cli.marker {
        Some(m) => push_pair(&mut r, "-m", m),
        None => {},
    }
    match &cli.junit_xml {
        Some(j) => push_pair(&mut r, "--junit-xml", j),
        None => {},
    }
    match &cli.workers {
        Some(w) => {
            if !crate::text::str_eq(w.as_str(), "1") {
                push_pair(&mut r, "-n", w);
            }
        },
        None => {},
    }
    let ghost b = views(r@);
    let mut i: usize = 0;
    while i < ignore.len()
        invariant
            i <= ignore@.len(),
            views(r@) == b + ignore_flags(views(ignore@).subrange(0, i as int)),
        decreases ignore@.len() - i,
    {
        push_pair(&mut r, "--ignore", &ignore[i]);
        proof {
            let sub = views(ignore@).subrange(0, i + 1);
            assert(sub.drop_last() =~= views(ignore@).subrange(0, i as int));
            assert(sub.last() == ignore@[i as int]@);
        }
        i = i + 1;
    }
    assert(views(ignore@).subrange(0, ignore@.len() as int) =~= views(ignore@));
    let ghost c = views(r@);
    let mut j: usize = 0;
    while j < paths.len()
        invariant
            j <= paths@.len(),
            views(r@) == c + views(paths@).subrange(0, j as int),
        decreases paths@.len() - j,
    {
        let ghost r0 = views(r@);
        r.push(paths[j].clone());
        assert(views(r@) =~= r0.push(paths@[j as int]@));
        assert(views(paths@).subrange(0, j + 1) =~= views(paths@).subrange(0, j as int).push(paths@[j as int]@));
        j = j + 1;
    }
    assert(views(paths@).subrange(0, paths@.len() as int) =~= views(paths@));
    assert(views(r@) =~= pytest_flags(*cli, views(ignore@), views(paths@)));
    if r.len() == 0 && !cli.all {
        r.push(".".to_owned());
        assert(views(r@) =~= seq!["."@]);
    }
    r
}

/// The run's exit code for pytest's exit status: 0 success, 1 test
/// failures, 2 interrupted, 4 usage error, anything else an internal
/// error.
pub fn pytest_exit_code(status: i32) -> (c: ExitCode)
    ensures
        c == if status == 0 {
            ExitCode::Success
        } else if status == 1 {
            ExitCode::TestFailure
        } else if status == 2 {
            ExitCode::Interrupted
        } else if status == 4 {
            ExitCode::UsageError
        } else {
            ExitCode::InternalError
        },
{
    if status == 0 {
        ExitCode::Success
    } else if status == 1 {
        ExitCode::TestFailure
    } else if status == 2 {
        ExitCode::Interrupted
    } else if status == 4 {
        ExitCode::UsageError
    } else {
        ExitCode::InternalError
    }
}

/// The result of validating the environment.
#[derive(Debug)]
pub struct ValidationResult {
    pub valid: bool,
    /// Set when the run should end right away with this code.
    pub fallback_exit: Option<ExitCode>,
    pub diagnostics: Vec<String>,
}

/// Validates the environment before a run.
#[derive(Debug)]
pub struct DefaultValidationService {}

/// How an environment validation went: the result, the lines for standard
/// output and standard error, and whether a plugin error is to be recorded
/// in telemetry.
#[derive(Debug)]
pub struct ValidationRun {
    pub result: ValidationResult,
    pub out_lines: Vec<String>,
    pub err_lines: Vec<String>,
    pub plugin_error: bool,
}

/// The compatibility report as lines.
pub open spec fn report_view(report: CompatibilityReport, use_color: bool) -> Seq<Seq<char>> {
    report_text(env_view(report.environment), check_view(report.plugin_check), views(report.recommendations@), use_color)
}

/// The report followed by an empty line when verbose or when something is
/// unsupported or needs the fallback; nothing otherwise.
pub open spec fn shown_report(cli: Cli, report: CompatibilityReport, use_color: bool) -> Seq<Seq<char>> {
    if cli.verbose > 0 || !report.environment.overall_supported || report.plugin_check.needs_fallback {
        report_view(report, use_color) + seq![Seq::<char>::empty()]
    } else {
        Seq::empty()
    }
}

/// The security findings for the plugins, as lines.
pub open spec fn finding_lines(ps: Seq<Seq<char>>, use_color: bool) -> Seq<Seq<char>> {
    all_findings(ps, false).map_values(|w: WarningView| warning_text(w, use_color))
}

/// The result of a validation that let the run go on.
pub open spec fn passed_validation(r: ValidationResult) -> bool {
    r.valid && r.fallback_exit is None && r.diagnostics@.len() == 0
}

/// The result of a validation that ends the run with `code`.
pub open spec fn stopped_validation(r: ValidationResult, code: ExitCode, why: Seq<char>) -> bool {
    !r.valid && r.fallback_exit == Some(code) && views(r.diagnostics@) == seq![why]
}

/// The diagnostics with the environment issue, when there is one, added.
pub open spec fn with_issue(ds: Seq<VeriDiagnostic>, issue: Option<VeriDiagnostic>) -> Seq<VeriDiagnostic> {
    match issue {
        Some(d) => ds.push(d),
        None => ds,
    }
}

fn stopped(code: ExitCode, why: &str) -> (r: ValidationResult)
    ensures
        stopped_validation(r, code, why@),
{
    let mut d: Vec<String> = Vec::new();
    d.push(why.to_owned());
    assert(views(d@) =~= seq![why@]);
    ValidationResult { valid: false, fallback_exit: Some(code), diagnostics: d }
}

fn push_lines(out: &mut Vec<String>, more: &Vec<String>)
    ensures
        views(final(out)@) == views(old(out)@) + views(more@),
{
    let ghost o0 = views(out@);
    let mut i: usize = 0;
    while i < more.len()
        invariant
            i <= more@.len(),
            views(out@) == o0 + views(more@).subrange(0, i as int),
        decreases more@.len() - i,
    {
        let ghost b = views(out@);
        out.push(more[i].clone());
        assert(views(out@) =~= b.push(more@[i as int]@));
        assert(views(more@).subrange(0, i + 1) =~= views(more@).subrange(0, i as int).push(more@[i as int]@));
        i = i + 1;
    }
    assert(views(more@).subrange(0, more@.len() as int) =~= views(more@));
}

impl DefaultValidationService {
    pub fn new() -> (s: Self) {
        DefaultValidationService {}
    }

    /// Validates the environment before a run with the veri engine, from
    /// the compatibility report, the issue the Python probe found, the
    /// security settings and the installed plugins (or why they could not
    /// be listed); `report_requested` asks only for the compatibility
    /// report and `allowlist_disabled` overrides the plugin allowlist.  A
    /// requested report ends the run with success; plugins that need the
    /// fallback end it with success too unless the allowlist is disabled;
    /// otherwise the environment issue is recorded and, when
    /// the allowlist is enforced, blocked plugins end the run with a usage
    /// error unless the allowlist is disabled, and the plugins are scanned.
    #[verifier::spinoff_prover]
    #[verifier::rlimit(30)]
    pub fn validate_environment(
        &self,
        cli: &Cli,
        report_requested: bool,
        allowlist_disabled: bool,
        use_color: bool,
        report: &CompatibilityReport,
        environment_issue: Option<VeriDiagnostic>,
        security_config: &SecurityConfig,
        plugins: Result<Vec<String>, String>,
        diagnostics: &mut DiagnosticReporter,
    ) -> (v: ValidationRun)
        ensures
            final(diagnostics).quiet == old(diagnostics).quiet,
            if report_requested {
                &&& views(v.out_lines@) == report_view(*report, use_color)
                &&& v.err_lines@.len() == 0 && !v.plugin_error
                &&& stopped_validation(v.result, ExitCode::Success, "Compatibility report requested"@)
                &&& final(diagnostics).diagnostics@ == old(diagnostics).diagnostics@
            } else if report.plugin_check.needs_fallback && !allowlist_disabled {
                &&& views(v.out_lines@) == shown_report(*cli, *report, use_color) + seq![FALLBACK_LINE@]
                &&& v.err_lines@.len() == 0 && !v.plugin_error
                &&& stopped_validation(v.result, ExitCode::Success, "Fallback to pytest due to plugin incompatibility"@)
                &&& final(diagnostics).diagnostics@ == old(diagnostics).diagnostics@
            } else {
                let shown = shown_report(*cli, *report, use_color);
                let d1 = with_issue(old(diagnostics).diagnostics@, environment_issue);
                if !security_config.enforce_allowlist {
                    &&& views(v.out_lines@) == shown + seq![ALLOWLIST_OFF_LINE@]
                    &&& v.err_lines@.len() == 0 && !v.plugin_error
                    &&& passed_validation(v.result)
                    &&& final(diagnostics).diagnostics@ == d1
                } else {
                    match plugins {
                        Err(e) => {
                            &&& views(v.out_lines@) == shown + seq![VALIDATING_LINE@, "⚠️  Could not validate plugins: "@ + e@]
                            &&& v.err_lines@.len() == 0 && v.plugin_error
                            &&& passed_validation(v.result)
                            &&& final(diagnostics).diagnostics@ == d1
                        },
                        Ok(ps) => if blocked_of(security_config, views(ps@)).len() > 0 && !allowlist_disabled {
                            &&& views(v.out_lines@) == shown + seq![VALIDATING_LINE@, BLOCKED_LINE@]
                            &&& views(v.err_lines@) == plugin_err_lines(security_config, views(ps@))
                            &&& v.plugin_error
                            &&& stopped_validation(v.result, ExitCode::UsageError, "Blocked plugins detected"@)
                            &&& final(diagnostics).diagnostics@.len() == d1.len() + 1
                            &&& final(diagnostics).diagnostics@.drop_last() == d1
                            &&& final(diagnostics).diagnostics@.last() matches VeriDiagnostic::PluginIncompatible {
                                plugin_name,
                                version,
                                reason,
                                fallback_suggested,
                            } && plugin_name@ == join(blocked_of(security_config, views(ps@)), ", "@) && version@
                                == "unknown"@ && reason@ == "Plugin not in allowlist"@ && fallback_suggested
                        } else {
                            &&& views(v.out_lines@) == shown + seq![VALIDATING_LINE@] + plugin_out_lines(
                                security_config,
                                views(ps@),
                                use_color,
                            )
                            &&& views(v.err_lines@) == plugin_err_lines(security_config, views(ps@))
                            &&& !v.plugin_error
                            &&& passed_validation(v.result)
                            &&& final(diagnostics).diagnostics@ == d1
                        },
                    }
                }
            },
    {
        let mut out: Vec<String> = Vec::new();
        let mut err: Vec<String> = Vec::new();
        if report_requested {
            let lines = report.report_lines(use_color);
            return ValidationRun {
                result: stopped(ExitCode::Success, "Compatibility report requested"),
                out_lines: lines,
                err_lines: err,
                plugin_error: false,
            };
        }
        if cli.verbose > 0 || !report.environment.overall_supported || report.plugin_check.needs_fallback {
            let lines = report.report_lines(use_color);
            push_lines(&mut out, &lines);
            out.push(String::new());
        }
        let ghost shown = views(out@);
        assert(shown == shown_report(*cli, *report, use_color));
        if report.plugin_check.needs_fallback && !allowlist_disabled {
            out.push(FALLBACK_LINE.to_owned());
            assert(views(out@) =~= shown + seq![FALLBACK_LINE@]);
            return ValidationRun {
                result: stopped(ExitCode::Success, "Fallback to pytest due to plugin incompatibility"),
                out_lines: out,
                err_lines: err,
                plugin_error: false,
            };
        }
        match environment_issue {
            Some(d) => diagnostics.add(d),
            None => {},
        }
        if !security_config.enforce_allowlist {
            out.push(ALLOWLIST_OFF_LINE.to_owned());
            assert(views(out@) =~= shown + seq![ALLOWLIST_OFF_LINE@]);
            return ValidationRun { result: passed(), out_lines: out, err_lines: err, plugin_error: false };
        }
        out.push(VALIDATING_LINE.to_owned());
        match plugins {
            Err(e) => {
                let mut l = "⚠️  Could not validate plugins: ".to_owned();
                l.append(e.as_str());
                out.push(l);
                assert(views(out@) =~= shown + seq![VALIDATING_LINE@, "⚠️  Could not validate plugins: "@ + e@]);
                ValidationRun { result: passed(), out_lines: out, err_lines: err, plugin_error: true }
            },
            Ok(ps) => {
                let blocked_stop = check_plugins(security_config, allowlist_disabled, use_color, &ps, &mut out, &mut err, diagnostics);
                assert(views(err@) =~= plugin_err_lines(security_config, views(ps@)));
                if blocked_stop {
                    assert(views(out@) =~= shown + seq![VALIDATING_LINE@, BLOCKED_LINE@]);
                    ValidationRun {
                        result: stopped(ExitCode::UsageError, "Blocked plugins detected"),
                        out_lines: out,
                        err_lines: err,
                        plugin_error: true,
                    }
                } else {
                    assert(views(out@) =~= shown + seq![VALIDATING_LINE@] + plugin_out_lines(security_config, views(ps@), use_color));
                    ValidationRun { result: passed(), out_lines: out, err_lines: err, plugin_error: false }
                }
            },
        }
    }
}

/// Plugins that the allowlist blocks.
pub open spec fn blocked_of(sc: &SecurityConfig, ps: Seq<Seq<char>>) -> Seq<Seq<char>> {
    ps.filter(|p: Seq<char>| !sc.allows(p))
}

/// What the plugin check shows on standard output when it lets the run go
/// on: that all plugins are allowed (when none is blocked), then the
/// security findings.
pub open spec fn plugin_out_lines(sc: &SecurityConfig, ps: Seq<Seq<char>>, use_color: bool) -> Seq<Seq<char>> {
    (if blocked_of(sc, ps).len() == 0 {
        seq!["✅ All "@ + decimal(ps.filter(|p: Seq<char>| sc.allows(p)).len()) + " plugins are allowed"@]
    } else {
        Seq::empty()
    }) + finding_lines(ps, use_color)
}

/// What the plugin check shows on standard error: the blocked-plugins
/// warning when any is blocked.
pub open spec fn plugin_err_lines(sc: &SecurityConfig, ps: Seq<Seq<char>>) -> Seq<Seq<char>> {
    if blocked_of(sc, ps).len() > 0 {
        seq![blocked_warning(blocked_of(sc, ps))]
    } else {
        Seq::empty()
    }
}

/// Checks the plugins against the allowlist; returns whether blocked
/// plugins stop the run.
fn check_plugins(
    security_config: &SecurityConfig,
    allowlist_disabled: bool,
    use_color: bool,
    ps: &Vec<String>,
    out: &mut Vec<String>,
    err: &mut Vec<String>,
    diagnostics: &mut DiagnosticReporter,
) -> (stop: bool)
    requires
        old(err)@.len() == 0,
    ensures
        stop == (blocked_of(security_config, views(ps@)).len() > 0 && !allowlist_disabled),
        final(diagnostics).quiet == old(diagnostics).quiet,
        views(final(err)@) == plugin_err_lines(security_config, views(ps@)),
        stop ==> {
            &&& views(final(out)@) == views(old(out)@).push(BLOCKED_LINE@)
            &&& final(diagnostics).diagnostics@.len() == old(diagnostics).diagnostics@.len() + 1
            &&& final(diagnostics).diagnostics@.drop_last() == old(diagnostics).diagnostics@
            &&& final(diagnostics).diagnostics@.last() matches VeriDiagnostic::PluginIncompatible {
                plugin_name,
                version,
                reason,
                fallback_suggested,
            } && plugin_name@ == join(blocked_of(security_config, views(ps@)), ", "@) && version@ == "unknown"@
                && reason@ == "Plugin not in allowlist"@ && fallback_suggested
        },
        !stop ==> {
            &&& views(final(out)@) == views(old(out)@) + plugin_out_lines(security_config, views(ps@), use_color)
            &&& final(diagnostics).diagnostics@ == old(diagnostics).diagnostics@
        },
{
    let checked = security_config.validate_plugins(ps);
    let ghost o0 = views(out@);
    let ghost blocked = views(ps@).filter(|p: Seq<char>| !security_config.allows(p));
    if checked.has_blocked_plugins() {
        let warning = checked.get_warning_message();
        if !allowlist_disabled {
            let name = crate::text::join_strings(&checked.blocked, ", ");
            diagnostics.add(
                VeriDiagnostic::PluginIncompatible {
                    plugin_name: name,
                    version: "unknown".to_owned(),
                    reason: "Plugin not in allowlist".to_owned(),
                    fallback_suggested: true,
                },
            );
            match warning {
                Some(w) => err.push(w),
                None => {},
            }
            out.push(BLOCKED_LINE.to_owned());
            assert(views(err@) =~= seq![blocked_warning(blocked)]);
            return true;
        }
        match warning {
            Some(w) => err.push(w),
            None => {},
        }
        assert(views(err@) =~= seq![blocked_warning(blocked)]);
    } else {
        assert(views(err@) =~= Seq::<Seq<char>>::empty());
        let mut l = "✅ All ".to_owned();
        l.append(crate::planner::decimal_string(checked.allowed.len() as u128).as_str());
        l.append(" plugins are allowed");
        out.push(l);
    }
    let ghost before = views(out@);
    let ws = SecurityScanner::scan_plugins(ps);
    let mut i: usize = 0;
    while i < ws.len()
        invariant
            i <= ws@.len(),
            warning_views(ws@) == all_findings(views(ps@), false),
            views(out@) == before + warning_views(ws@).subrange(0, i as int).map_values(
                |w: WarningView| warning_text(w, use_color),
            ),
        decreases ws@.len() - i,
    {
        let line = ws[i].format(use_color);
        let ghost b = views(out@);
        out.push(line);
        assert(views(out@) =~= b.push(line@));
        assert(warning_views(ws@).subrange(0, i + 1).map_values(|w: WarningView| warning_text(w, use_color))
            =~= warning_views(ws@).subrange(0, i as int).map_values(|w: WarningView| warning_text(w, use_color)).push(
            warning_text(warning_views(ws@)[i as int], use_color),
        ));
        i = i + 1;
    }
    assert(warning_views(ws@).subrange(0, ws@.len() as int) =~= warning_views(ws@));
    assert(views(out@) =~= o0 + plugin_out_lines(security_config, views(ps@), use_color));
    false
}

fn passed() -> (r: ValidationResult)
    ensures
        passed_validation(r),
{
    ValidationResult { valid: true, fallback_exit: None, diagnostics: Vec::new() }
}

/// Printed when plugins need the fallback to pytest.
pub const FALLBACK_LINE: &'static str = "🔄 Automatically falling back to pytest engine due to plugin compatibility issues";

/// Printed when the plugin allowlist is not enforced.
pub const ALLOWLIST_OFF_LINE: &'static str = "ℹ️  Plugin allowlist enforcement disabled";

/// Printed before the plugins are checked.
pub const VALIDATING_LINE: &'static str = "🔒 Validating pytest plugins...";

/// Printed when plugins were blocked.
pub const BLOCKED_LINE: &'static str = "🚨 Blocked plugins detected. Use --disable-allowlist to override (not recommended)";

/// The watch settings for a command-line run: the usual debounce, the
/// terminal display unless quiet, verbose with `-v`.
pub fn watch_config_for(cli: &Cli) -> (c: crate::watch::WatchConfig)
    ensures
        c.debounce_delay_ms == 150,
        c.max_wait_time_ms == 500,
        c.respect_gitignore,
        c.enable_tui == !cli.quiet,
        c.verbose == (cli.verbose > 0),
        views(c.ignore_dirs@) == crate::watch::default_ignore_dirs(),
        views(c.ignore_patterns@) == crate::watch::default_ignore_patterns(),
{
    let mut c = crate::watch::WatchConfig::default_config();
    c.enable_tui = !cli.quiet;
    c.verbose = cli.verbose > 0;
    c
}

/// The diagnostic for imports that could not be resolved: each named with
/// the module importing it; none when all resolved.
pub fn unresolved_imports_diagnostic(graph: &ImportsGraph) -> (d: Option<VeriDiagnostic>)
    ensures
        graph.unresolved_imports@.len() == 0 ==> d is None,
        graph.unresolved_imports@.len() > 0 ==> (d matches Some(
            VeriDiagnostic::ImportGraphBuildFailed { error_count, syntax_errors, missing_files },
        ) && error_count == graph.unresolved_imports@.len() && syntax_errors@.len() == 0 && views(missing_files@)
            == graph.unresolved_imports@.map_values(
            |u: crate::schemas::UnresolvedImport| u.import_name@ + " (from "@ + u.from_module@ + ")"@,
        )),
{
    let us = &graph.unresolved_imports;
    if us.len() == 0 {
        return None;
    }
    let mut missing: Vec<String> = Vec::new();
    let mut i: usize = 0;
    while i < us.len()
        invariant
            i <= us@.len(),
            views(missing@) == us@.subrange(0, i as int).map_values(
                |u: crate::schemas::UnresolvedImport| u.import_name@ + " (from "@ + u.from_module@ + ")"@,
            ),
        decreases us@.len() - i,
    {
        let mut m = us[i].import_name.clone();
        m.append(" (from ");
        m.append(us[i].from_module.as_str());
        m.append(")");
        let ghost m0 = views(missing@);
        missing.push(m);
        assert(views(missing@) =~= m0.push(m@));
        assert(us@.subrange(0, i + 1).map_values(
            |u: crate::schemas::UnresolvedImport| u.import_name@ + " (from "@ + u.from_module@ + ")"@,
        ) =~= us@.subrange(0, i as int).map_values(
            |u: crate::schemas::UnresolvedImport| u.import_name@ + " (from "@ + u.from_module@ + ")"@,
        ).push(m@));
        i = i + 1;
    }
    assert(us@.subrange(0, us@.len() as int) =~= us@);
    Some(
        VeriDiagnostic::ImportGraphBuildFailed {
            error_count: us.len(),
            syntax_errors: Vec::new(),
            missing_files: missing,
        },
    )
}

/// The diagnostic when the import graph could not be built.
pub fn graph_failure_diagnostic(error: String) -> (d: VeriDiagnostic)
    ensures
        d matches VeriDiagnostic::ImportGraphBuildFailed { error_count, syntax_errors, missing_files }
            && error_count == 1 && syntax_errors@ == seq![error] && missing_files@.len() == 0,
{
    let mut s: Vec<String> = Vec::new();
    s.push(error);
    VeriDiagnostic::ImportGraphBuildFailed { error_count: 1, syntax_errors: s, missing_files: Vec::new() }
}


/// Runs watch mode for a command line.  The program implements it (it
/// watches the files and runs the tests), and so can tests.
pub trait WatchAdapter {
    fn run(&self, cli: &Cli, work_dir: &str, cache_dir: &str) -> Result<ExitCode, String>;
}

/// The watch mode of the command line: the settings and test options it
/// runs with.
#[derive(Debug)]
pub struct DefaultWatchAdapter {}

impl DefaultWatchAdapter {
    pub fn new() -> (a: Self) {
        DefaultWatchAdapter {}
    }

    /// The watch settings (see [`watch_config_for`]).
    pub fn watch_config(&self, cli: &Cli) -> (c: crate::watch::WatchConfig)
        ensures
            c.debounce_delay_ms == 150,
            c.max_wait_time_ms == 500,
            c.respect_gitignore,
            c.enable_tui == !cli.quiet,
            c.verbose == (cli.verbose > 0),
            views(c.ignore_dirs@) == crate::watch::default_ignore_dirs(),
            views(c.ignore_patterns@) == crate::watch::default_ignore_patterns(),
    {
        watch_config_for(cli)
    }

    /// The options watched runs use: those of the command line with one
    /// worker.
    pub fn run_options(&self, cli: &Cli) -> (o: TestRunOptions)
        ensures
            o.verbose == (cli.verbose > 0),
            o.quiet == cli.quiet,
            o.no_capture == cli.no_capture,
            o.exitfirst == cli.exitfirst,
            o.maxfail == cli.maxfail,
            crate::compatibility::opt_view(o.junit_xml) == crate::compatibility::opt_view(cli.junit_xml),
            o.workers matches Some(w) && w@ == "1"@,
            o.coverage == cli.cov,
            o.coverage_xml == (cli.cov || cli.cov_merge_full),
            !o.coverage_html,
            views(o.coverage_source_dirs@) == seq!["src"@],
            views(o.coverage_omit@) == crate::coverage::default_omit(),
    {
        run_options_for(cli, "1".to_owned())
    }
}

impl Default for DefaultWatchAdapter {
    fn default() -> (a: Self) {
        DefaultWatchAdapter {}
    }
}

} // verus!
