//! The command line: its options and subcommands as values, the execution
//! engines, and the exit codes.  Parsing the arguments is left to the
//! program's argument parser.
use vstd::prelude::*;

verus! {

/// Options of a run.
#[derive(Debug)]
pub struct Cli {
    pub all: bool,
    pub watch: bool,
    pub keyword: Option<String>,
    pub marker: Option<String>,
    pub workers: Option<String>,
    pub last_failed: bool,
    pub junit_xml: Option<String>,
    pub jsonl: Option<String>,
    pub explain: bool,
    pub engine: Engine,
    pub exitfirst: bool,
    pub maxfail: Option<u32>,
    pub verbose: u8,
    pub quiet: bool,
    pub no_capture: bool,
    pub cov: bool,
    pub cov_merge_full: bool,
    pub ci: bool,
    pub config: Option<String>,
    pub paths: Vec<String>,
    pub command: Option<Commands>,
}

/// Subcommands for CI sharding.
#[derive(Debug, Clone, Copy, PartialEq, Eq, Structural)]
pub enum Commands {
    /// Split the tests into this many shards.
    Split { shards: u32 },
    /// Run one shard, from a manifest file or standard input.
    Shard { shard_id: u32 },
}

/// The test execution engine.
#[derive(Debug, Clone, Copy, PartialEq, Eq, Structural)]
pub enum Engine {
    /// The runner's own impact-aware engine.
    Veri,
    /// Plain pytest, for compatibility.
    Pytest,
}

impl Engine {
    /// The engine's name as written on the command line.
    pub fn as_str(&self) -> (r: &'static str)
        ensures
            r@ == match *self {
                Engine::Veri => "veri"@,
                Engine::Pytest => "pytest"@,
            },
    {
        match self {
            Engine::Veri => "veri",
            Engine::Pytest => "pytest",
        }
    }

    /// The engine named on the command line (`veri` or `pytest`), if any.
    pub fn from_name(name: &str) -> (r: Option<Engine>)
        ensures
            r == if name@ == "veri"@ {
                Some(Engine::Veri)
            } else if name@ == "pytest"@ {
                Some(Engine::Pytest)
            } else {
                None::<Engine>
            },
    {
        if crate::text::str_eq(name, "veri") {
            Some(Engine::Veri)
        } else if crate::text::str_eq(name, "pytest") {
            Some(Engine::Pytest)
        } else {
            None
        }
    }
}

/// How a run ends.
#[derive(Debug, Clone, Copy, PartialEq, Eq, Structural)]
pub enum ExitCode {
    /// All tests passed.
    Success,
    /// Some tests failed.
    TestFailure,
    /// The run was interrupted.
    Interrupted,
    /// An internal error occurred.
    InternalError,
    /// Bad arguments or configuration.
    UsageError,
}

/// The process exit status of an exit code: 0 to 4 in declaration order.
pub open spec fn exit_status(c: ExitCode) -> i32 {
    match c {
        ExitCode::Success => 0,
        ExitCode::TestFailure => 1,
        ExitCode::Interrupted => 2,
        ExitCode::InternalError => 3,
        ExitCode::UsageError => 4,
    }
}

impl ExitCode {
    /// The process exit status (see [`exit_status`]).
    pub fn code(&self) -> (r: i32)
        ensures
            r == exit_status(*self),
    {
        match self {
            ExitCode::Success => 0,
            ExitCode::TestFailure => 1,
            ExitCode::Interrupted => 2,
            ExitCode::InternalError => 3,
            ExitCode::UsageError => 4,
        }
    }
}

impl From<ExitCode> for i32 {
    fn from(c: ExitCode) -> (r: i32)
        ensures
            r == exit_status(c),
    {
        c.code()
    }
}

impl vstd::std_specs::convert::FromSpecImpl<ExitCode> for i32 {
    open spec fn obeys_from_spec() -> bool {
        true
    }

    open spec fn from_spec(v: ExitCode) -> i32 {
        exit_status(v)
    }
}

impl Cli {
    /// No options, no paths, the veri engine.
    pub fn defaults() -> (c: Self)
        ensures
            !c.all && !c.watch && !c.last_failed && !c.explain && !c.exitfirst && !c.quiet,
            !c.no_capture && !c.cov && !c.cov_merge_full && !c.ci,
            c.keyword is None && c.marker is None && c.workers is None,
            c.junit_xml is None && c.jsonl is None && c.maxfail is None && c.config is None,
            c.engine == Engine::Veri,
            c.verbose == 0,
            c.paths@.len() == 0,
            c.command is None,
    {
        Cli {
            all: false,
            watch: false,
            keyword: None,
            marker: None,
            workers: None,
            last_failed: false,
            junit_xml: None,
            jsonl: None,
            explain: false,
            engine: Engine::Veri,
            exitfirst: false,
            maxfail: None,
            verbose: 0,
            quiet: false,
            no_capture: false,
            cov: false,
            cov_merge_full: false,
            ci: false,
            config: None,
            paths: Vec::new(),
            command: None,
        }
    }
}

} // verus!
