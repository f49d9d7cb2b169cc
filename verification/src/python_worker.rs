//! What the runner asks of its Python worker: run options, the cache files
//! it keeps, and the diagnostics drawn from its answers.
use crate::diagnostics::{PythonIssueType, VeriDiagnostic};
use crate::order::views;
use crate::schemas::{CollectionError, TestsIndex};
use crate::text::has_substr;
use vstd::prelude::*;

verus! {

/// Options for running tests.
#[derive(Debug)]
pub struct TestRunOptions {
    pub verbose: bool,
    pub quiet: bool,
    pub no_capture: bool,
    pub exitfirst: bool,
    pub maxfail: Option<u32>,
    pub junit_xml: Option<String>,
    pub workers: Option<String>,
    pub ignore: Vec<String>,
    pub coverage: bool,
    pub coverage_xml: bool,
    pub coverage_html: bool,
    pub coverage_source_dirs: Vec<String>,
    pub coverage_omit: Vec<String>,
}

impl TestRunOptions {
    /// Everything off and empty.
    pub fn default_options() -> (o: Self)
        ensures
            !o.verbose && !o.quiet && !o.no_capture && !o.exitfirst,
            o.maxfail is None && o.junit_xml is None && o.workers is None,
            o.ignore@.len() == 0,
            !o.coverage && !o.coverage_xml && !o.coverage_html,
            o.coverage_source_dirs@.len() == 0 && o.coverage_omit@.len() == 0,
    {
        TestRunOptions {
            verbose: false,
            quiet: false,
            no_capture: false,
            exitfirst: false,
            maxfail: None,
            junit_xml: None,
            workers: None,
            ignore: Vec::new(),
            coverage: false,
            coverage_xml: false,
            coverage_html: false,
            coverage_source_dirs: Vec::new(),
            coverage_omit: Vec::new(),
        }
    }
}

/// `dir` joined with a file name, as `Path::join` does for a relative name.
pub open spec fn joined(dir: Seq<char>, name: Seq<char>) -> Seq<char> {
    if dir.len() == 0 {
        name
    } else if dir.last() == '/' {
        dir + name
    } else {
        dir + "/"@ + name
    }
}

/// `dir` joined with a relative file name (see [`joined`]).
pub fn join_path(dir: &str, name: &str) -> (r: String)
    ensures
        r@ == joined(dir@, name@),
{
    let d = crate::text::chars_of(dir);
    let mut r = dir.to_owned();
    if d.len() > 0 && d[d.len() - 1] != '/' {
        r.append("/");
    }
    r.append(name);
    r
}

/// The Python worker of a project.  Launching it is left to the program.
#[derive(Debug)]
pub struct PythonWorker {
    pub work_dir: String,
    pub cache_dir: String,
}

/// What running `python --version` and `python -m pytest --version` showed.
#[derive(Debug)]
pub enum PythonProbe {
    /// `python` could not be started.
    NotAccessible,
    /// `python --version` failed.
    Failed,
    /// `python --version` printed this; pytest was found or not (none when
    /// it could not be asked).
    Found { version: String, pytest_ok: Option<bool> },
}

impl PythonWorker {
    pub fn new(work_dir: String, cache_dir: String) -> (w: Self)
        ensures
            w.work_dir == work_dir,
            w.cache_dir == cache_dir,
    {
        PythonWorker { work_dir, cache_dir }
    }

    /// The interpreter arguments that hand a run over to pytest through the
    /// worker module: the pytest engine in the working directory, then
    /// `--pytest-args` and the arguments when there are any.
    pub fn pytest_engine_command(&self, pytest_args: &Vec<String>) -> (r: Vec<String>)
        ensures
            views(r@) == seq!["-m"@, "veri_worker"@, "pytest-engine"@, "--work-dir"@, self.work_dir@] + if pytest_args@.len()
                > 0 {
                seq!["--pytest-args"@] + views(pytest_args@)
            } else {
                Seq::empty()
            },
    {
        let mut r: Vec<String> = Vec::new();
        r.push("-m".to_owned());
        r.push("veri_worker".to_owned());
        r.push("pytest-engine".to_owned());
        r.push("--work-dir".to_owned());
        r.push(self.work_dir.clone());
        let ghost head = views(r@);
        assert(head =~= seq!["-m"@, "veri_worker"@, "pytest-engine"@, "--work-dir"@, self.work_dir@]);
        if pytest_args.len() > 0 {
            r.push("--pytest-args".to_owned());
            let ghost h2 = views(r@);
            let mut i: usize = 0;
            while i < pytest_args.len()
                invariant
                    i <= pytest_args@.len(),
                    views(r@) == h2 + views(pytest_args@).subrange(0, i as int),
                decreases pytest_args@.len() - i,
            {
                let ghost b = views(r@);
                r.push(pytest_args[i].clone());
                assert(views(r@) =~= b.push(pytest_args@[i as int]@));
                assert(views(pytest_args@).subrange(0, i + 1) =~= views(pytest_args@).subrange(0, i as int).push(
                    pytest_args@[i as int]@,
                ));
                i = i + 1;
            }
            assert(views(pytest_args@).subrange(0, pytest_args@.len() as int) =~= views(pytest_args@));
            assert(views(r@) =~= head + (seq!["--pytest-args"@] + views(pytest_args@)));
        } else {
            assert(views(r@) =~= head + Seq::<Seq<char>>::empty());
        }
        r
    }

    /// Where the collected test index is cached.
    pub fn tests_index_path(&self) -> (r: String)
        ensures
            r@ == joined(self.cache_dir@, "tests.index.json"@),
    {
        join_path(self.cache_dir.as_str(), "tests.index.json")
    }

    /// Where the marker index is cached.
    pub fn markers_index_path(&self) -> (r: String)
        ensures
            r@ == joined(self.cache_dir@, "markers.index.json"@),
    {
        join_path(self.cache_dir.as_str(), "markers.index.json")
    }

    /// The diagnostic for a Python environment probe: Python missing or not
    /// accessible, pytest missing, or nothing when all is well.
    pub fn environment_diagnostic(&self, probe: PythonProbe) -> (d: Option<VeriDiagnostic>)
        ensures
            match probe {
                PythonProbe::NotAccessible => d matches Some(VeriDiagnostic::PythonEnvironmentIssue {
                    issue_type: PythonIssueType::NotFound,
                    current_python,
                    suggestions,
                }) && current_python@ == "python not accessible"@ && views(suggestions@) == seq![
                    "Install Python 3.8 or higher"@,
                    "Ensure Python is in your PATH"@,
                    "Activate virtual environment if using one"@,
                ],
                PythonProbe::Failed => d matches Some(VeriDiagnostic::PythonEnvironmentIssue {
                    issue_type: PythonIssueType::NotFound,
                    current_python,
                    suggestions,
                }) && current_python@ == "python not found"@ && views(suggestions@) == seq![
                    "Install Python 3.8 or higher"@,
                    "Ensure Python is in your PATH"@,
                    "Try 'python3' if 'python' doesn't work"@,
                ],
                PythonProbe::Found { version, pytest_ok } => if pytest_ok == Some(false) {
                    d matches Some(VeriDiagnostic::PythonEnvironmentIssue {
                        issue_type: PythonIssueType::MissingDependencies(deps),
                        current_python,
                        suggestions,
                    }) && views(deps@) == seq!["pytest"@] && current_python == version && views(suggestions@)
                        == seq![
                        "Install pytest: pip install pytest"@,
                        "Or: uv add pytest"@,
                        "Check virtual environment activation"@,
                    ]
                } else {
                    d is None
                },
            },
    {
        match probe {
            PythonProbe::NotAccessible => {
                let mut s: Vec<String> = Vec::new();
                s.push("Install Python 3.8 or higher".to_owned());
                s.push("Ensure Python is in your PATH".to_owned());
                s.push("Activate virtual environment if using one".to_owned());
                assert(views(s@) =~= seq![
                    "Install Python 3.8 or higher"@,
                    "Ensure Python is in your PATH"@,
                    "Activate virtual environment if using one"@,
                ]);
                Some(
                    VeriDiagnostic::PythonEnvironmentIssue {
                        issue_type: PythonIssueType::NotFound,
                        current_python: "python not accessible".to_owned(),
                        suggestions: s,
                    },
                )
            },
            PythonProbe::Failed => {
                let mut s: Vec<String> = Vec::new();
                s.push("Install Python 3.8 or higher".to_owned());
                s.push("Ensure Python is in your PATH".to_owned());
                s.push("Try 'python3' if 'python' doesn't work".to_owned());
                assert(views(s@) =~= seq![
                    "Install Python 3.8 or higher"@,
                    "Ensure Python is in your PATH"@,
                    "Try 'python3' if 'python' doesn't work"@,
                ]);
                Some(
                    VeriDiagnostic::PythonEnvironmentIssue {
                        issue_type: PythonIssueType::NotFound,
                        current_python: "python not found".to_owned(),
                        suggestions: s,
                    },
                )
            },
            PythonProbe::Found { version, pytest_ok } => {
                match pytest_ok {
                    Some(false) => {
                        let mut deps: Vec<String> = Vec::new();
                        deps.push("pytest".to_owned());
                        assert(views(deps@) =~= seq!["pytest"@]);
                        let mut s: Vec<String> = Vec::new();
                        s.push("Install pytest: pip install pytest".to_owned());
                        s.push("Or: uv add pytest".to_owned());
                        s.push("Check virtual environment activation".to_owned());
                        assert(views(s@) =~= seq![
                            "Install pytest: pip install pytest"@,
                            "Or: uv add pytest"@,
                            "Check virtual environment activation"@,
                        ]);
                        Some(
                            VeriDiagnostic::PythonEnvironmentIssue {
                                issue_type: PythonIssueType::MissingDependencies(deps),
                                current_python: version,
                                suggestions: s,
                            },
                        )
                    },
                    _ => None,
                }
            },
        }
    }

    /// The diagnostic for collection errors: their number, the messages of
    /// syntax errors and the paths of import and module errors; none when
    /// collection was clean.
    pub fn collection_diagnostic(&self, tests_index: &TestsIndex) -> (d: Option<VeriDiagnostic>)
        ensures
            tests_index.collection_errors@.len() == 0 ==> d is None,
            tests_index.collection_errors@.len() > 0 ==> (d matches Some(
                VeriDiagnostic::ImportGraphBuildFailed { error_count, syntax_errors, missing_files },
            ) && error_count == tests_index.collection_errors@.len() && views(syntax_errors@)
                == syntax_messages(tests_index.collection_errors@) && views(missing_files@) == import_paths(
                tests_index.collection_errors@,
            )),
    {
        let es = &tests_index.collection_errors;
        if es.len() == 0 {
            return None;
        }
        let mut syntax: Vec<String> = Vec::new();
        let mut missing: Vec<String> = Vec::new();
        let mut i: usize = 0;
        while i < es.len()
            invariant
                i <= es@.len(),
                views(syntax@) == syntax_messages(es@.subrange(0, i as int)),
                views(missing@) == import_paths(es@.subrange(0, i as int)),
            decreases es@.len() - i,
        {
            let e = &es[i];
            proof {
                let sub = es@.subrange(0, i + 1);
                assert(sub.drop_last() =~= es@.subrange(0, i as int));
                assert(sub.last() == *e);
            }
            if crate::text::str_contains(e.error_type.as_str(), "Syntax") {
                let ghost s0 = views(syntax@);
                syntax.push(e.message.clone());
                assert(views(syntax@) =~= s0.push(e.message@));
            }
            if crate::text::str_contains(e.error_type.as_str(), "Import") || crate::text::str_contains(
                e.error_type.as_str(),
                "Module",
            ) {
                let ghost m0 = views(missing@);
                missing.push(e.path.clone());
                assert(views(missing@) =~= m0.push(e.path@));
            }
            i = i + 1;
        }
        assert(es@.subrange(0, es@.len() as int) =~= es@);
        Some(
            VeriDiagnostic::ImportGraphBuildFailed {
                error_count: es.len(),
                syntax_errors: syntax,
                missing_files: missing,
            },
        )
    }
}

/// Messages of the collection errors whose type mentions `Syntax`.
pub open spec fn syntax_messages(es: Seq<CollectionError>) -> Seq<Seq<char>>
    decreases es.len(),
{
    if es.len() == 0 {
        Seq::empty()
    } else {
        let rest = syntax_messages(es.drop_last());
        if has_substr(es.last().error_type@, "Syntax"@) {
            rest.push(es.last().message@)
        } else {
            rest
        }
    }
}

/// Paths of the collection errors whose type mentions `Import` or `Module`.
pub open spec fn import_paths(es: Seq<CollectionError>) -> Seq<Seq<char>>
    decreases es.len(),
{
    if es.len() == 0 {
        Seq::empty()
    } else {
        let rest = import_paths(es.drop_last());
        if has_substr(es.last().error_type@, "Import"@) || has_substr(es.last().error_type@, "Module"@) {
            rest.push(es.last().path@)
        } else {
            rest
        }
    }
}

} // verus!
