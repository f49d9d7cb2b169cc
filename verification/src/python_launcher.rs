//! How Python processes are launched: through `uv run` or a system
//! interpreter, with the command line each backend builds.  Spawning the
//! processes is left to the program.
use crate::order::views;
use vstd::prelude::*;

verus! {

/// `value` taken relative to `base` unless it is absolute, as
/// `Path::join` gives it for `/`-separated paths.
pub open spec fn resolved(base: Seq<char>, value: Seq<char>) -> Seq<char> {
    if value.len() > 0 && value[0] == '/' {
        value
    } else {
        crate::python_worker::joined(base, value)
    }
}

/// A path relative to `base` unless absolute (see [`resolved`]).
pub fn resolve_path(base: &str, value: &str) -> (r: String)
    ensures
        r@ == resolved(base@, value@),
{
    let v = crate::text::chars_of(value);
    if v.len() > 0 && v[0] == '/' {
        value.to_owned()
    } else {
        crate::python_worker::join_path(base, value)
    }
}

/// Launches Python through `uv run --project <project> python`.
#[derive(Debug)]
pub struct UvBackend {
    pub binary: String,
    pub project_override: Option<String>,
}

impl UvBackend {
    pub fn new(binary: String, project_override: Option<String>) -> (b: Self)
        ensures
            b.binary == binary,
            b.project_override == project_override,
    {
        UvBackend { binary, project_override }
    }

    /// The `uv` binary without a project of its own.
    pub fn default_backend() -> (b: Self)
        ensures
            b.binary@ == "uv"@,
            b.project_override is None,
    {
        UvBackend { binary: "uv".to_owned(), project_override: None }
    }

    pub fn name(&self) -> (r: &'static str)
        ensures
            r@ == "uv"@,
    {
        "uv"
    }

    /// The project to run in: the backend's own, else the worker's, else
    /// the working directory.
    pub fn resolve_project(&self, work_dir: &str, py_worker_project: Option<&str>) -> (r: String)
        ensures
            r@ == match self.project_override {
                Some(p) => p@,
                None => match py_worker_project {
                    Some(p) => p@,
                    None => work_dir@,
                },
            },
    {
        match &self.project_override {
            Some(p) => p.clone(),
            None => match py_worker_project {
                Some(p) => p.to_owned(),
                None => work_dir.to_owned(),
            },
        }
    }

    /// The program and arguments: `uv run --project <project> python <args>`.
    pub fn command_line(&self, work_dir: &str, py_worker_project: Option<&str>, args: &Vec<String>) -> (r: (String, Vec<String>))
        ensures
            r.0@ == self.binary@,
            views(r.1@) == seq!["run"@, "--project"@, self.resolve_project_spec(work_dir@, py_worker_project), "python"@]
                + views(args@),
    {
        let project = self.resolve_project(work_dir, py_worker_project);
        let mut v: Vec<String> = Vec::new();
        v.push("run".to_owned());
        v.push("--project".to_owned());
        v.push(project);
        v.push("python".to_owned());
        let ghost head = views(v@);
        let mut i: usize = 0;
        while i < args.len()
            invariant
                i <= args@.len(),
                views(v@) == head + views(args@).subrange(0, i as int),
            decreases args@.len() - i,
        {
            let ghost v0 = views(v@);
            v.push(args[i].clone());
            assert(views(v@) =~= v0.push(args@[i as int]@));
            assert(views(args@).subrange(0, i + 1) =~= views(args@).subrange(0, i as int).push(args@[i as int]@));
            i = i + 1;
        }
        assert(views(args@).subrange(0, args@.len() as int) =~= views(args@));
        (self.binary.clone(), v)
    }

    pub open spec fn resolve_project_spec(&self, work_dir: Seq<char>, py_worker_project: Option<&str>) -> Seq<char> {
        match self.project_override {
            Some(p) => p@,
            None => match py_worker_project {
                Some(p) => p@,
                None => work_dir,
            },
        }
    }
}

/// Launches the first Python interpreter among the candidates that starts.
#[derive(Debug)]
pub struct SystemPythonBackend {
    pub candidates: Vec<String>,
    pub resolved: Option<String>,
}

impl SystemPythonBackend {
    pub fn new(candidates: Vec<String>) -> (b: Self)
        ensures
            b.candidates == candidates,
            b.resolved is None,
    {
        SystemPythonBackend { candidates, resolved: None }
    }

    /// `python3`, `python` and `py`, in that order.
    pub fn default_backend() -> (b: Self)
        ensures
            views(b.candidates@) == seq!["python3"@, "python"@, "py"@],
            b.resolved is None,
    {
        let mut c: Vec<String> = Vec::new();
        c.push("python3".to_owned());
        c.push("python".to_owned());
        c.push("py".to_owned());
        assert(views(c@) =~= seq!["python3"@, "python"@, "py"@]);
        SystemPythonBackend { candidates: c, resolved: None }
    }

    pub fn name(&self) -> (r: &'static str)
        ensures
            r@ == "python"@,
    {
        "python"
    }

    /// Remembers the interpreter found to start.
    pub fn set_resolved(&mut self, python: String)
        ensures
            final(self).resolved == Some(python),
            final(self).candidates == old(self).candidates,
    {
        self.resolved = Some(python);
    }

    /// The message when no candidate starts.
    pub fn not_found_message(&self) -> (r: String)
        ensures
            r@ == "Could not find a python interpreter (candidates: ["@ + crate::text::join(
                views(self.candidates@).map_values(|c: Seq<char>| "\""@ + c + "\""@),
                ", "@,
            ) + "])"@,
    {
        let mut q: Vec<String> = Vec::new();
        let mut i: usize = 0;
        while i < self.candidates.len()
            invariant
                i <= self.candidates@.len(),
                views(q@) == views(self.candidates@).subrange(0, i as int).map_values(|c: Seq<char>| "\""@ + c + "\""@),
            decreases self.candidates@.len() - i,
        {
            let mut one = "\"".to_owned();
            one.append(self.candidates[i].as_str());
            one.append("\"");
            let ghost q0 = views(q@);
            q.push(one);
            assert(views(q@) =~= q0.push(one@));
            assert(views(self.candidates@).subrange(0, i + 1).map_values(|c: Seq<char>| "\""@ + c + "\""@)
                =~= views(self.candidates@).subrange(0, i as int).map_values(|c: Seq<char>| "\""@ + c + "\""@).push(one@));
            i = i + 1;
        }
        assert(views(self.candidates@).subrange(0, self.candidates@.len() as int) =~= views(self.candidates@));
        let mut m = "Could not find a python interpreter (candidates: [".to_owned();
        let j = crate::text::join_strings(&q, ", ");
        m.append(j.as_str());
        m.append("])");
        m
    }
}


/// What happened when a backend was tried.
#[derive(Debug)]
pub enum BackendAttempt {
    /// The backend is not available here; it was skipped.
    Unavailable,
    /// Its command could not be built, for this reason.
    BuildFailed { error: String },
    /// Its command could not be executed.
    ExecFailed { backend: String, error: String },
    /// Its command ran.
    Succeeded,
}

/// The message recorded for an attempt, if it failed.
pub open spec fn attempt_error(a: BackendAttempt) -> Option<Seq<char>> {
    match a {
        BackendAttempt::Unavailable => None,
        BackendAttempt::BuildFailed { error } => Some(error@),
        BackendAttempt::ExecFailed { backend, error } => Some(
            "Failed to execute backend "@ + backend@ + ": "@ + error@,
        ),
        BackendAttempt::Succeeded => None,
    }
}

/// The failure messages of the attempts, in order.
pub open spec fn attempt_errors(attempts: Seq<BackendAttempt>) -> Seq<Seq<char>>
    decreases attempts.len(),
{
    if attempts.len() == 0 {
        Seq::empty()
    } else {
        match attempt_error(attempts.last()) {
            Some(e) => attempt_errors(attempts.drop_last()).push(e),
            None => attempt_errors(attempts.drop_last()),
        }
    }
}

/// The launch error after every backend was tried without success: none
/// was available, or all failed, each failure on a line of its own.
pub open spec fn launch_error(attempts: Seq<BackendAttempt>, args: Seq<Seq<char>>) -> Seq<char> {
    let errors = attempt_errors(attempts);
    if errors.len() == 0 {
        "No python backends available to execute command "@ + crate::explain::debug_list(args)
    } else {
        "All python backends failed for args "@ + crate::explain::debug_list(args) + ":\n"@
            + crate::text::join(errors, "\n"@)
    }
}

/// The outcome of trying the backends in order: the first that ran, or
/// the error naming what went wrong with each.
pub fn launch_outcome(attempts: &Vec<BackendAttempt>, args: &Vec<String>) -> (r: Result<usize, String>)
    ensures
        match r {
            Ok(k) => k < attempts@.len() && attempts@[k as int] is Succeeded && forall|j: int|
                0 <= j < k ==> !(#[trigger] attempts@[j] is Succeeded),
            Err(m) => (forall|j: int| 0 <= j < attempts@.len() ==> !(#[trigger] attempts@[j] is Succeeded))
                && m@ == launch_error(attempts@, views(args@)),
        },
{
    let mut errors: Vec<String> = Vec::new();
    let mut i: usize = 0;
    assert(attempts@.take(0) =~= Seq::<BackendAttempt>::empty());
    while i < attempts.len()
        invariant
            i <= attempts@.len(),
            views(errors@) == attempt_errors(attempts@.take(i as int)),
            forall|j: int| 0 <= j < i ==> !(#[trigger] attempts@[j] is Succeeded),
        decreases attempts@.len() - i,
    {
        let ghost e0 = views(errors@);
        assert(attempts@.take(i + 1).drop_last() =~= attempts@.take(i as int));
        match &attempts[i] {
            BackendAttempt::Succeeded => {
                return Ok(i);
            },
            BackendAttempt::Unavailable => {},
            BackendAttempt::BuildFailed { error } => {
                let e = error.clone();
                errors.push(e);
                assert(views(errors@) =~= e0.push(error@));
            },
            BackendAttempt::ExecFailed { backend, error } => {
                let mut e = "Failed to execute backend ".to_owned();
                e.append(backend.as_str());
                e.append(": ");
                e.append(error.as_str());
                let ghost ev = e@;
                errors.push(e);
                assert(views(errors@) =~= e0.push(ev));
            },
        }
        i = i + 1;
    }
    assert(attempts@.take(attempts@.len() as int) =~= attempts@);
    let listed = crate::explain::debug_list_string(args);
    if errors.len() == 0 {
        let mut m = "No python backends available to execute command ".to_owned();
        m.append(listed.as_str());
        Err(m)
    } else {
        let mut m = "All python backends failed for args ".to_owned();
        m.append(listed.as_str());
        m.append(":\n");
        let j = crate::text::join_strings(&errors, "\n");
        m.append(j.as_str());
        Err(m)
    }
}

/// What the launcher does next.
#[derive(Debug)]
pub enum LaunchStep {
    /// Try the backend with this index (check that it is available, build
    /// its command, run it) and report how that went.
    Try(usize),
    /// Stop with the index of the backend whose command ran, or the error.
    Done(Result<usize, String>),
}

/// The launcher's next step after the attempts made so far on its
/// `backend_count` backends, which it tries one after the other: it stops at
/// the first backend whose command ran and tries none after it; it tries
/// the next backend while some are left; once all failed or were
/// unavailable it stops with the error naming every failure (see
/// [`launch_error`]).
pub fn next_launch_step(backend_count: usize, attempts: &Vec<BackendAttempt>, args: &Vec<String>) -> (r: LaunchStep)
    requires
        attempts@.len() <= backend_count,
    ensures
        (exists|j: int| 0 <= j < attempts@.len() && #[trigger] attempts@[j] is Succeeded) ==> (r matches LaunchStep::Done(
            Ok(k),
        ) && k < attempts@.len() && attempts@[k as int] is Succeeded && forall|j: int|
            0 <= j < k ==> !(#[trigger] attempts@[j] is Succeeded)),
        (forall|j: int| 0 <= j < attempts@.len() ==> !(#[trigger] attempts@[j] is Succeeded)) ==> if attempts@.len()
            < backend_count {
            r matches LaunchStep::Try(i) && i == attempts@.len()
        } else {
            r matches LaunchStep::Done(Err(m)) && m@ == launch_error(attempts@, views(args@))
        },
{
    let mut i: usize = 0;
    while i < attempts.len()
        invariant
            i <= attempts@.len(),
            forall|j: int| 0 <= j < i ==> !(#[trigger] attempts@[j] is Succeeded),
        decreases attempts@.len() - i,
    {
        if let BackendAttempt::Succeeded = attempts[i] {
            return LaunchStep::Done(Ok(i));
        }
        i = i + 1;
    }
    if attempts.len() < backend_count {
        LaunchStep::Try(attempts.len())
    } else {
        LaunchStep::Done(launch_outcome(attempts, args))
    }
}

/// The interpreters a system backend searches: the configured executable,
/// then the configured candidates not already listed, and `python3`,
/// `python`, `py` when nothing is configured.
pub open spec fn search_list(executable: Option<Seq<char>>, candidates: Seq<Seq<char>>) -> Seq<Seq<char>> {
    let first = match executable {
        Some(e) => seq![e],
        None => Seq::empty(),
    };
    let all = distinct_after(first, candidates);
    if all.len() == 0 {
        seq!["python3"@, "python"@, "py"@]
    } else {
        all
    }
}

/// `start` followed by the items not yet listed, in order.
pub open spec fn distinct_after(start: Seq<Seq<char>>, items: Seq<Seq<char>>) -> Seq<Seq<char>>
    decreases items.len(),
{
    if items.len() == 0 {
        start
    } else {
        let s = distinct_after(start, items.drop_last());
        if s.contains(items.last()) {
            s
        } else {
            s.push(items.last())
        }
    }
}

/// The interpreters a configured system backend searches (see
/// [`search_list`]).
pub fn system_candidates(executable: Option<String>, candidates: Option<Vec<String>>) -> (r: Vec<String>)
    ensures
        views(r@) == search_list(
            match executable {
                Some(e) => Some(e@),
                None => None,
            },
            match candidates {
                Some(c) => views(c@),
                None => Seq::empty(),
            },
        ),
{
    let mut search: Vec<String> = Vec::new();
    let ghost first: Seq<Seq<char>> = match &executable {
        Some(e) => seq![e@],
        None => Seq::empty(),
    };
    match executable {
        Some(e) => {
            search.push(e);
        },
        None => {},
    }
    assert(views(search@) =~= first);
    let list = match candidates {
        Some(c) => c,
        None => Vec::new(),
    };
    let ghost items = views(list@);
    let mut i: usize = 0;
    assert(items.take(0) =~= Seq::<Seq<char>>::empty());
    while i < list.len()
        invariant
            i <= list@.len(),
            items == views(list@),
            views(search@) == distinct_after(first, items.take(i as int)),
        decreases list@.len() - i,
    {
        assert(items.take(i + 1).drop_last() =~= items.take(i as int));
        assert(items.take(i + 1).last() == list@[i as int]@);
        if !crate::import_graph::contains_string(&search, &list[i]) {
            let ghost s0 = views(search@);
            let c = list[i].clone();
            search.push(c);
            assert(views(search@) =~= s0.push(list@[i as int]@));
        }
        i = i + 1;
    }
    assert(items.take(list@.len() as int) =~= items);
    if search.len() == 0 {
        let mut d: Vec<String> = Vec::new();
        d.push("python3".to_owned());
        d.push("python".to_owned());
        d.push("py".to_owned());
        assert(views(d@) =~= seq!["python3"@, "python"@, "py"@]);
        return d;
    }
    search
}

/// A configured Python backend; an unset `enabled` means enabled.
#[derive(Debug)]
pub enum PythonBackendConfig {
    /// `uv run`, with its binary (`uv` when unset) and project directory.
    Uv { binary: Option<String>, project: Option<String>, enabled: Option<bool> },
    /// A system interpreter: the executable and further candidates.
    Python { executable: Option<String>, candidates: Option<Vec<String>>, enabled: Option<bool> },
}

/// A backend the launcher tries.
#[derive(Debug)]
pub enum ConfiguredBackend {
    Uv(UvBackend),
    System(SystemPythonBackend),
}

impl ConfiguredBackend {
    /// The backend's name: `uv` or `python`.
    pub fn name(&self) -> (r: &'static str)
        ensures
            r@ == match self {
                ConfiguredBackend::Uv(_) => "uv"@,
                ConfiguredBackend::System(_) => "python"@,
            },
    {
        match self {
            ConfiguredBackend::Uv(b) => b.name(),
            ConfiguredBackend::System(b) => b.name(),
        }
    }
}

/// The option's value, `true` when unset.
pub open spec fn enabled_or_default(e: Option<bool>) -> bool {
    match e {
        Some(b) => b,
        None => true,
    }
}

/// Whether a configured backend is enabled.
pub open spec fn config_enabled(c: PythonBackendConfig) -> bool {
    match c {
        PythonBackendConfig::Uv { enabled, .. } => enabled_or_default(enabled),
        PythonBackendConfig::Python { enabled, .. } => enabled_or_default(enabled),
    }
}

/// The enabled configured backends, in order.
pub open spec fn enabled_configs(cs: Seq<PythonBackendConfig>) -> Seq<PythonBackendConfig>
    decreases cs.len(),
{
    if cs.len() == 0 {
        Seq::empty()
    } else if config_enabled(cs.last()) {
        enabled_configs(cs.drop_last()).push(cs.last())
    } else {
        enabled_configs(cs.drop_last())
    }
}

/// The backend built from an enabled configuration: `uv` (or the binary
/// given) with its project resolved against the working directory, or a
/// system interpreter searching [`search_list`].
pub open spec fn built_from(b: ConfiguredBackend, c: PythonBackendConfig, work_dir: Seq<char>) -> bool {
    match c {
        PythonBackendConfig::Uv { binary, project, .. } => b matches ConfiguredBackend::Uv(u) && u.binary@ == (
        match binary {
            Some(x) => x@,
            None => "uv"@,
        }) && match project {
            Some(p) => u.project_override matches Some(q) && q@ == resolved(work_dir, p@),
            None => u.project_override is None,
        },
        PythonBackendConfig::Python { executable, candidates, .. } => b matches ConfiguredBackend::System(sb)
            && sb.resolved is None && views(sb.candidates@) == search_list(
            match executable {
                Some(e) => Some(e@),
                None => None,
            },
            match candidates {
                Some(cs) => views(cs@),
                None => Seq::empty(),
            },
        ),
    }
}

/// The backends the launcher tries, from the configuration: one per
/// enabled entry, in the configured order (see [`built_from`]).
pub fn build_backends_from_config(configs: Vec<PythonBackendConfig>, work_dir: &str) -> (r: Vec<ConfiguredBackend>)
    ensures
        r@.len() == enabled_configs(configs@).len(),
        forall|i: int| 0 <= i < r@.len() ==> built_from(#[trigger] r@[i], enabled_configs(configs@)[i], work_dir@),
{
    let ghost cs = configs@;
    let mut r: Vec<ConfiguredBackend> = Vec::new();
    let mut rest = configs;
    let mut i: usize = 0;
    let n = rest.len();
    assert(rest@ =~= cs.skip(0));
    assert(cs.take(0) =~= Seq::<PythonBackendConfig>::empty());
    while i < n
        invariant
            n == cs.len(),
            i <= n,
            rest@ == cs.skip(i as int),
            r@.len() == enabled_configs(cs.take(i as int)).len(),
            forall|k: int| 0 <= k < r@.len() ==> built_from(#[trigger] r@[k], enabled_configs(cs.take(i as int))[k], work_dir@),
        decreases n - i,
    {
        let ghost pre = cs.take(i as int);
        proof {
            assert(cs.skip(i as int)[0] == cs[i as int]);
            assert(cs.take(i + 1).drop_last() =~= pre);
            assert(cs.take(i + 1).last() == cs[i as int]);
        }
        let c = rest.remove(0);
        proof {
            assert(rest@ =~= cs.skip(i + 1));
        }
        let ghost cv = c;
        let ghost r0 = r@;
        match c {
            PythonBackendConfig::Uv { binary, project, enabled } => {
                let on = match enabled {
                    Some(b) => b,
                    None => true,
                };
                if on {
                    let bin = match binary {
                        Some(x) => x,
                        None => "uv".to_owned(),
                    };
                    let proj = match project {
                        Some(p) => Some(resolve_path(work_dir, p.as_str())),
                        None => None,
                    };
                    r.push(ConfiguredBackend::Uv(UvBackend::new(bin, proj)));
                }
            },
            PythonBackendConfig::Python { executable, candidates, enabled } => {
                let on = match enabled {
                    Some(b) => b,
                    None => true,
                };
                if on {
                    let search = system_candidates(executable, candidates);
                    r.push(ConfiguredBackend::System(SystemPythonBackend::new(search)));
                }
            },
        }
        proof {
            let e0 = enabled_configs(pre);
            if config_enabled(cv) {
                assert(enabled_configs(cs.take(i + 1)) == e0.push(cv));
                assert forall|k: int| 0 <= k < r@.len() implies built_from(#[trigger] r@[k], enabled_configs(cs.take(i + 1))[k], work_dir@) by {
                    if k < r0.len() {
                        assert(r@[k] == r0[k]);
                    }
                }
            } else {
                assert(enabled_configs(cs.take(i + 1)) == e0);
            }
        }
        i = i + 1;
    }
    assert(cs.take(n as int) =~= cs);
    r
}

/// How Python processes are set up: the worker module's location, extra
/// import paths (relative to the working directory unless absolute),
/// environment variables, and the backends to try (the defaults when none
/// is configured).
#[derive(Debug)]
pub struct PythonRuntimeConfig {
    pub py_worker_path: Option<String>,
    pub extra_pythonpath: Vec<String>,
    pub env: Vec<(String, String)>,
    pub backends: Vec<PythonBackendConfig>,
}

/// The Python setup of a run.
#[derive(Debug)]
pub struct PythonRuntime {
    pub backends: Vec<ConfiguredBackend>,
    pub python_paths: Vec<String>,
    pub extra_env: Vec<(String, String)>,
    pub py_worker_path: Option<String>,
}

/// The import paths of a runtime: the worker's directory, then each extra
/// path resolved against the working directory, each once (compared as
/// text).
pub open spec fn runtime_paths(work_dir: Seq<char>, worker: Option<Seq<char>>, extra: Seq<Seq<char>>) -> Seq<Seq<char>> {
    distinct_after(
        match worker {
            Some(w) => seq![w],
            None => Seq::empty(),
        },
        extra.map_values(|p: Seq<char>| resolved(work_dir, p)),
    )
}

impl PythonRuntime {
    /// The runtime a configuration describes in `work_dir`: the configured
    /// worker path resolved against it, else `found_py_worker` (where the
    /// worker module was found); the import paths (see [`runtime_paths`]);
    /// the environment; the configured backends (see
    /// [`build_backends_from_config`]), or `uv` then the system
    /// interpreters when none is enabled.
    pub fn from_config(work_dir: &str, cfg: PythonRuntimeConfig, found_py_worker: Option<String>) -> (r: Self)
        ensures
            match cfg.py_worker_path {
                Some(p) => r.py_worker_path matches Some(q) && q@ == resolved(work_dir@, p@),
                None => r.py_worker_path == found_py_worker,
            },
            views(r.python_paths@) == runtime_paths(
                work_dir@,
                match r.py_worker_path {
                    Some(w) => Some(w@),
                    None => None,
                },
                views(cfg.extra_pythonpath@),
            ),
            r.extra_env == cfg.env,
            enabled_configs(cfg.backends@).len() == 0 ==> r.backends@.len() == 2 && (r.backends@[0] matches ConfiguredBackend::Uv(u)
                && u.binary@ == "uv"@ && u.project_override is None) && (r.backends@[1] matches ConfiguredBackend::System(sb)
                && views(sb.candidates@) == seq!["python3"@, "python"@, "py"@] && sb.resolved is None),
            enabled_configs(cfg.backends@).len() > 0 ==> r.backends@.len() == enabled_configs(cfg.backends@).len()
                && forall|i: int|
                0 <= i < r.backends@.len() ==> built_from(
                    #[trigger] r.backends@[i],
                    enabled_configs(cfg.backends@)[i],
                    work_dir@,
                ),
    {
        let PythonRuntimeConfig { py_worker_path, extra_pythonpath, env, backends } = cfg;
        let worker: Option<String> = match py_worker_path {
            Some(p) => Some(resolve_path(work_dir, p.as_str())),
            None => found_py_worker,
        };
        let mut paths: Vec<String> = Vec::new();
        match &worker {
            Some(w) => paths.push(w.clone()),
            None => {},
        }
        let ghost first: Seq<Seq<char>> = match &worker {
            Some(w) => seq![w@],
            None => Seq::empty(),
        };
        assert(views(paths@) =~= first);
        let ghost ext = views(extra_pythonpath@).map_values(|p: Seq<char>| resolved(work_dir@, p));
        let mut i: usize = 0;
        assert(ext.take(0) =~= Seq::<Seq<char>>::empty());
        while i < extra_pythonpath.len()
            invariant
                i <= extra_pythonpath@.len(),
                ext == views(extra_pythonpath@).map_values(|p: Seq<char>| resolved(work_dir@, p)),
                views(paths@) == distinct_after(first, ext.take(i as int)),
            decreases extra_pythonpath@.len() - i,
        {
            let absolute = resolve_path(work_dir, extra_pythonpath[i].as_str());
            assert(ext.take(i + 1).drop_last() =~= ext.take(i as int));
            assert(ext.take(i + 1).last() == absolute@);
            if !crate::import_graph::contains_string(&paths, &absolute) {
                let ghost p0 = views(paths@);
                paths.push(absolute);
                assert(views(paths@) =~= p0.push(ext[i as int]));
            }
            i = i + 1;
        }
        assert(ext.take(extra_pythonpath@.len() as int) =~= ext);
        let ghost bcfg = backends@;
        let built = build_backends_from_config(backends, work_dir);
        let chosen = if built.len() == 0 {
            let mut d: Vec<ConfiguredBackend> = Vec::new();
            d.push(ConfiguredBackend::Uv(UvBackend::default_backend()));
            d.push(ConfiguredBackend::System(SystemPythonBackend::default_backend()));
            d
        } else {
            built
        };
        PythonRuntime { backends: chosen, python_paths: paths, extra_env: env, py_worker_path: worker }
    }
}

} // verus!
