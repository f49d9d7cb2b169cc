//! Plugin and environment compatibility: the known-plugin table, the checks
//! against it and the report built from them.
use crate::order::views;
use crate::text::{has_prefix, join, prefix_before};
use vstd::prelude::*;

verus! {

/// How well a plugin works with the runner.
#[derive(Debug, Clone, Copy, PartialEq, Eq, Structural)]
pub enum CompatibilityStatus {
    FullyCompatible,
    NeedsSpecialHandling,
    Incompatible,
    Unknown,
}

/// What is known about one plugin.
#[derive(Debug)]
pub struct PluginCompatibilityInfo {
    pub status: CompatibilityStatus,
    pub veri_versions: Vec<String>,
    pub python_versions: Vec<String>,
    pub notes: Option<String>,
    pub fallback_required: bool,
    pub mutates_collection: bool,
    pub known_issues: Vec<String>,
}

/// A plugin record as values.
pub ghost struct InfoView {
    pub status: CompatibilityStatus,
    pub veri_versions: Seq<Seq<char>>,
    pub python_versions: Seq<Seq<char>>,
    pub notes: Option<Seq<char>>,
    pub fallback_required: bool,
    pub mutates_collection: bool,
    pub known_issues: Seq<Seq<char>>,
}

pub open spec fn opt_view(o: Option<String>) -> Option<Seq<char>> {
    match o {
        Some(s) => Some(s@),
        None => None,
    }
}

pub open spec fn info_view(i: PluginCompatibilityInfo) -> InfoView {
    InfoView {
        status: i.status,
        veri_versions: views(i.veri_versions@),
        python_versions: views(i.python_versions@),
        notes: opt_view(i.notes),
        fallback_required: i.fallback_required,
        mutates_collection: i.mutates_collection,
        known_issues: views(i.known_issues@),
    }
}

/// The tested environments and the known plugins (name and record, each name once).
#[derive(Debug)]
pub struct CompatibilityMatrix {
    pub python_versions: Vec<String>,
    pub operating_systems: Vec<String>,
    pub environment_types: Vec<String>,
    pub package_managers: Vec<String>,
    pub plugin_compatibility: Vec<(String, PluginCompatibilityInfo)>,
}

pub open spec fn entries_view(es: Seq<(String, PluginCompatibilityInfo)>) -> Seq<(Seq<char>, InfoView)> {
    es.map_values(|e: (String, PluginCompatibilityInfo)| (e.0@, info_view(e.1)))
}

pub open spec fn record(
    status: CompatibilityStatus,
    python: Seq<char>,
    notes: Seq<char>,
    fallback: bool,
    mutates: bool,
    issues: Seq<Seq<char>>,
) -> InfoView {
    InfoView {
        status,
        veri_versions: seq!["*"@],
        python_versions: seq![python],
        notes: Some(notes),
        fallback_required: fallback,
        mutates_collection: mutates,
        known_issues: issues,
    }
}

/// The plugins known out of the box.
pub open spec fn default_entries() -> Seq<(Seq<char>, InfoView)> {
    let full = CompatibilityStatus::FullyCompatible;
    let special = CompatibilityStatus::NeedsSpecialHandling;
    let bad = CompatibilityStatus::Incompatible;
    seq![
        ("pytest-cov"@, record(full, ">=3.8"@, NOTE_COV@, false, false, seq![])),
        ("pytest-mock"@, record(full, ">=3.8"@, NOTE_MOCK@, false, false, seq![])),
        ("pytest-asyncio"@, record(full, ">=3.8"@, NOTE_ASYNCIO@, false, false, seq![])),
        ("pytest-xdist"@, record(bad, "*"@, NOTE_XDIST@, true, false, seq![ISSUE_XDIST_1@, ISSUE_XDIST_2@])),
        ("pytest-testmon"@, record(bad, "*"@, NOTE_TESTMON@, true, false, seq![ISSUE_TESTMON_1@, ISSUE_TESTMON_2@])),
        ("pytest-randomly"@, record(special, "*"@, NOTE_RANDOMLY@, false, true, seq![ISSUE_RANDOMLY@])),
        ("pytest-order"@, record(special, "*"@, NOTE_ORDER@, false, true, seq![ISSUE_ORDER@])),
        ("pytest-django"@, record(full, ">=3.8"@, NOTE_DJANGO@, false, false, seq![])),
        ("pytest-flask"@, record(full, ">=3.8"@, NOTE_FLASK@, false, false, seq![])),
    ]
}

pub const NOTE_COV: &'static str = "Fully supported with incremental coverage";
pub const NOTE_MOCK: &'static str = "Mock fixtures work normally";
pub const NOTE_ASYNCIO: &'static str = "Async test execution supported";
pub const NOTE_XDIST: &'static str = "Conflicts with veri's own parallelization - use veri's --workers instead";
pub const ISSUE_XDIST_1: &'static str = "Parallel execution conflicts";
pub const ISSUE_XDIST_2: &'static str = "Worker management interference";
pub const NOTE_TESTMON: &'static str = "Conflicts with veri's impact analysis - veri provides better impact detection";
pub const ISSUE_TESTMON_1: &'static str = "Impact analysis conflicts";
pub const ISSUE_TESTMON_2: &'static str = "File monitoring interference";
pub const NOTE_RANDOMLY: &'static str = "Test ordering changes may affect impact analysis";
pub const ISSUE_RANDOMLY: &'static str = "Test order randomization affects caching";
pub const NOTE_ORDER: &'static str = "Test ordering changes may affect scheduling";
pub const ISSUE_ORDER: &'static str = "Custom test ordering affects scheduling optimization";
pub const NOTE_DJANGO: &'static str = "Django test database handling supported";
pub const NOTE_FLASK: &'static str = "Flask test client fixtures work normally";
pub const NOTE_UNKNOWN: &'static str = "Unknown plugin - compatibility not verified";

/// A list of strings from literals.
fn strings1(a: &str) -> (v: Vec<String>)
    ensures
        views(v@) == seq![a@],
{
    let mut v: Vec<String> = Vec::new();
    v.push(a.to_owned());
    assert(views(v@) =~= seq![a@]);
    v
}

fn strings2(a: &str, b: &str) -> (v: Vec<String>)
    ensures
        views(v@) == seq![a@, b@],
{
    let mut v: Vec<String> = Vec::new();
    v.push(a.to_owned());
    v.push(b.to_owned());
    assert(views(v@) =~= seq![a@, b@]);
    v
}

fn no_strings() -> (v: Vec<String>)
    ensures
        views(v@) == Seq::<Seq<char>>::empty(),
{
    let v: Vec<String> = Vec::new();
    assert(views(v@) =~= Seq::<Seq<char>>::empty());
    v
}

fn make_record(
    status: CompatibilityStatus,
    python: &str,
    notes: &str,
    fallback: bool,
    mutates: bool,
    issues: Vec<String>,
) -> (i: PluginCompatibilityInfo)
    ensures
        info_view(i) == record(status, python@, notes@, fallback, mutates, views(issues@)),
{
    let i = PluginCompatibilityInfo {
        status,
        veri_versions: strings1("*"),
        python_versions: strings1(python),
        notes: Some(notes.to_owned()),
        fallback_required: fallback,
        mutates_collection: mutates,
        known_issues: issues,
    };
    i
}

impl PluginCompatibilityInfo {
    /// A copy of the record.
    pub fn clone_info(&self) -> (r: Self)
        ensures
            info_view(r) == info_view(*self),
    {
        PluginCompatibilityInfo {
            status: self.status,
            veri_versions: crate::planner::clone_strings(&self.veri_versions),
            python_versions: crate::planner::clone_strings(&self.python_versions),
            notes: match &self.notes {
                Some(n) => Some(n.clone()),
                None => None,
            },
            fallback_required: self.fallback_required,
            mutates_collection: self.mutates_collection,
            known_issues: crate::planner::clone_strings(&self.known_issues),
        }
    }
}

/// The characters that end a plugin name in a requirement (version
/// specifiers and extras).
pub open spec fn plugin_seps() -> Seq<char> {
    seq!['=', '>', '<', '~', '!', '[']
}

/// The record of the first entry named `name`.
pub open spec fn lookup(es: Seq<(Seq<char>, InfoView)>, name: Seq<char>) -> Option<InfoView>
    decreases es.len(),
{
    if es.len() == 0 {
        None
    } else if es[0].0 == name {
        Some(es[0].1)
    } else {
        lookup(es.drop_first(), name)
    }
}

/// Whether a plugin of this status can run under the runner.
pub open spec fn status_compatible(s: CompatibilityStatus) -> bool {
    s != CompatibilityStatus::Incompatible
}

/// The record given to a plugin that is not in the table.
pub open spec fn unknown_record() -> InfoView {
    InfoView {
        status: CompatibilityStatus::Unknown,
        veri_versions: seq!["*"@],
        python_versions: seq!["*"@],
        notes: Some(NOTE_UNKNOWN@),
        fallback_required: false,
        mutates_collection: false,
        known_issues: seq![],
    }
}

/// A plugin check as values.
pub ghost struct CheckView {
    pub results: Seq<(Seq<char>, bool, InfoView)>,
    pub needs_fallback: bool,
    pub collection_mutating: bool,
    pub warnings: Seq<Seq<char>>,
}

/// Index of the result for `name`, -1 when there is none.
pub open spec fn result_index(rs: Seq<(Seq<char>, bool, InfoView)>, name: Seq<char>) -> int
    decreases rs.len(),
{
    if rs.len() == 0 {
        -1
    } else if rs.last().0 == name {
        rs.len() - 1
    } else {
        result_index(rs.drop_last(), name)
    }
}

/// The results with the entry for `name` set, replacing an earlier one
/// in place or else added at the end.
pub open spec fn upsert(
    rs: Seq<(Seq<char>, bool, InfoView)>,
    name: Seq<char>,
    ok: bool,
    info: InfoView,
) -> Seq<(Seq<char>, bool, InfoView)> {
    let k = result_index(rs, name);
    if k >= 0 {
        rs.update(k, (name, ok, info))
    } else {
        rs.push((name, ok, info))
    }
}

pub open spec fn mutating_warning(name: Seq<char>) -> Seq<char> {
    "Plugin '"@ + name + "' may affect test collection/ordering - caching may be less effective"@
}

pub open spec fn issue_warning(name: Seq<char>, issue: Seq<char>) -> Seq<char> {
    "Plugin '"@ + name + "': "@ + issue
}

pub open spec fn unknown_warning(name: Seq<char>) -> Seq<char> {
    "Plugin '"@ + name + UNKNOWN_TAIL@
}

pub const UNKNOWN_TAIL: &'static str = "' compatibility unknown - assuming compatible. Report issues at https://github.com/dennis8/veri/issues";

/// The check after one more plugin requirement.
pub open spec fn check_one(es: Seq<(Seq<char>, InfoView)>, st: CheckView, req: Seq<char>) -> CheckView {
    let name = prefix_before(req, plugin_seps());
    match lookup(es, name) {
        Some(info) => CheckView {
            results: upsert(st.results, name, status_compatible(info.status), info),
            needs_fallback: st.needs_fallback || info.fallback_required,
            collection_mutating: st.collection_mutating || info.mutates_collection,
            warnings: st.warnings + (if info.mutates_collection {
                seq![mutating_warning(name)]
            } else {
                Seq::empty()
            }) + info.known_issues.map_values(|iss: Seq<char>| issue_warning(name, iss)),
        },
        None => CheckView {
            results: upsert(st.results, name, true, unknown_record()),
            needs_fallback: st.needs_fallback,
            collection_mutating: st.collection_mutating,
            warnings: st.warnings.push(unknown_warning(name)),
        },
    }
}

/// The check of all the plugin requirements, in order.
pub open spec fn check_all(es: Seq<(Seq<char>, InfoView)>, reqs: Seq<Seq<char>>) -> CheckView
    decreases reqs.len(),
{
    if reqs.len() == 0 {
        CheckView { results: seq![], needs_fallback: false, collection_mutating: false, warnings: seq![] }
    } else {
        check_one(es, check_all(es, reqs.drop_last()), reqs.last())
    }
}

/// Result of checking plugins against the table.
#[derive(Debug)]
pub struct PluginCompatibilityCheck {
    pub results: Vec<(String, bool, PluginCompatibilityInfo)>,
    pub needs_fallback: bool,
    pub collection_mutating: bool,
    pub warnings: Vec<String>,
}

pub open spec fn results_view(rs: Seq<(String, bool, PluginCompatibilityInfo)>) -> Seq<(Seq<char>, bool, InfoView)> {
    rs.map_values(|r: (String, bool, PluginCompatibilityInfo)| (r.0@, r.1, info_view(r.2)))
}

pub open spec fn check_view(c: PluginCompatibilityCheck) -> CheckView {
    CheckView {
        results: results_view(c.results@),
        needs_fallback: c.needs_fallback,
        collection_mutating: c.collection_mutating,
        warnings: views(c.warnings@),
    }
}

/// What the process sees of its environment.
#[derive(Debug)]
pub struct EnvironmentProbe {
    /// `VIRTUAL_ENV` is set.
    pub virtual_env: bool,
    /// `CONDA_DEFAULT_ENV` is set.
    pub conda_env: bool,
    /// The directory holds `uv.lock`.
    pub uv_lock: bool,
    /// The directory holds `poetry.lock`.
    pub poetry_lock: bool,
}

/// Result of the environment check.
#[derive(Debug)]
pub struct EnvironmentCompatibility {
    pub python_version: String,
    pub python_supported: bool,
    pub os: String,
    pub os_supported: bool,
    pub environment_type: String,
    pub environment_supported: bool,
    pub overall_supported: bool,
    pub warnings: Vec<String>,
}

/// Some supported Python version is a prefix of `v`.
pub open spec fn python_ok(supported: Seq<Seq<char>>, v: Seq<char>) -> bool {
    exists|i: int| 0 <= i < supported.len() && has_prefix(v, #[trigger] supported[i])
}

/// The warnings for an environment outside the matrix.
pub open spec fn environment_warnings(
    m: (Seq<Seq<char>>, Seq<Seq<char>>, Seq<Seq<char>>),
    py: Seq<char>,
    os: Seq<char>,
    env: Seq<char>,
) -> Seq<Seq<char>> {
    (if !python_ok(m.0, py) {
        seq!["Python "@ + py + " is not in the tested compatibility matrix. Supported versions: "@ + join(m.0, ", "@)]
    } else {
        Seq::empty()
    }) + (if !m.1.contains(os) {
        seq!["Operating system '"@ + os + "' is not in the tested compatibility matrix. Supported: "@ + join(m.1, ", "@)]
    } else {
        Seq::empty()
    }) + (if !m.2.contains(env) {
        seq!["Environment type '"@ + env + "' is not in the tested compatibility matrix. Supported: "@ + join(m.2, ", "@)]
    } else {
        Seq::empty()
    })
}

/// Recommendations from an environment check and a plugin check.
pub open spec fn recommendations_for(
    m: (Seq<Seq<char>>, Seq<Seq<char>>, Seq<Seq<char>>),
    overall: bool,
    py_ok: bool,
    os_ok: bool,
    env_ok: bool,
    os: Seq<char>,
    fallback: bool,
    mutating: bool,
    any_warning: bool,
) -> Seq<Seq<char>> {
    (if !overall && !py_ok {
        seq!["Consider upgrading to a supported Python version: "@ + join(m.0, ", "@)]
    } else {
        Seq::empty()
    }) + (if !overall && !os_ok {
        seq!["Your OS '"@ + os + "' may have limited support. Consider testing on: "@ + join(m.1, ", "@)]
    } else {
        Seq::empty()
    }) + (if !overall && !env_ok {
        seq!["Consider using a supported environment type: "@ + join(m.2, ", "@)]
    } else {
        Seq::empty()
    }) + (if fallback {
        seq![REC_FALLBACK@]
    } else {
        Seq::empty()
    }) + (if mutating {
        seq![REC_MUTATING@]
    } else {
        Seq::empty()
    }) + (if any_warning {
        seq![REC_WARNINGS@]
    } else {
        Seq::empty()
    })
}

pub const REC_FALLBACK: &'static str = "Some plugins require fallback to pytest engine. Consider using --engine pytest";
pub const REC_MUTATING: &'static str = "Collection-mutating plugins detected. Cache effectiveness may be reduced";
pub const REC_WARNINGS: &'static str = "Check plugin compatibility warnings above and consider updating or replacing problematic plugins";

impl CompatibilityMatrix {
    /// The tested versions, systems and environment types as values.
    pub open spec fn lists(&self) -> (Seq<Seq<char>>, Seq<Seq<char>>, Seq<Seq<char>>) {
        (views(self.python_versions@), views(self.operating_systems@), views(self.environment_types@))
    }

    /// Python 3.9 to 3.13, Linux, macOS and Windows, the usual environment
    /// types and package managers, and the known plugins.
    pub fn default_matrix() -> (m: Self)
        ensures
            views(m.python_versions@) == seq!["3.9"@, "3.10"@, "3.11"@, "3.12"@, "3.13"@],
            views(m.operating_systems@) == seq!["linux"@, "macos"@, "windows"@],
            views(m.environment_types@) == seq!["venv"@, "conda"@, "poetry"@, "uv"@, "system"@],
            views(m.package_managers@) == seq!["pip"@, "conda"@, "uv"@, "poetry"@],
            entries_view(m.plugin_compatibility@) == default_entries(),
    {
        let mut pv: Vec<String> = Vec::new();
        pv.push("3.9".to_owned());
        pv.push("3.10".to_owned());
        pv.push("3.11".to_owned());
        pv.push("3.12".to_owned());
        pv.push("3.13".to_owned());
        assert(views(pv@) =~= seq!["3.9"@, "3.10"@, "3.11"@, "3.12"@, "3.13"@]);
        let mut os: Vec<String> = Vec::new();
        os.push("linux".to_owned());
        os.push("macos".to_owned());
        os.push("windows".to_owned());
        assert(views(os@) =~= seq!["linux"@, "macos"@, "windows"@]);
        let mut et: Vec<String> = Vec::new();
        et.push("venv".to_owned());
        et.push("conda".to_owned());
        et.push("poetry".to_owned());
        et.push("uv".to_owned());
        et.push("system".to_owned());
        assert(views(et@) =~= seq!["venv"@, "conda"@, "poetry"@, "uv"@, "system"@]);
        let mut pm: Vec<String> = Vec::new();
        pm.push("pip".to_owned());
        pm.push("conda".to_owned());
        pm.push("uv".to_owned());
        pm.push("poetry".to_owned());
        assert(views(pm@) =~= seq!["pip"@, "conda"@, "uv"@, "poetry"@]);
        CompatibilityMatrix {
            python_versions: pv,
            operating_systems: os,
            environment_types: et,
            package_managers: pm,
            plugin_compatibility: Self::default_plugin_compatibility(),
        }
    }

    /// The plugins known out of the box (see [`default_entries`]).
    pub fn default_plugin_compatibility() -> (r: Vec<(String, PluginCompatibilityInfo)>)
        ensures
            entries_view(r@) == default_entries(),
    {
        let full = CompatibilityStatus::FullyCompatible;
        let special = CompatibilityStatus::NeedsSpecialHandling;
        let bad = CompatibilityStatus::Incompatible;
        let mut r: Vec<(String, PluginCompatibilityInfo)> = Vec::new();
        r.push(("pytest-cov".to_owned(), make_record(full, ">=3.8", NOTE_COV, false, false, no_strings())));
        r.push(("pytest-mock".to_owned(), make_record(full, ">=3.8", NOTE_MOCK, false, false, no_strings())));
        r.push(("pytest-asyncio".to_owned(), make_record(full, ">=3.8", NOTE_ASYNCIO, false, false, no_strings())));
        r.push(("pytest-xdist".to_owned(), make_record(bad, "*", NOTE_XDIST, true, false, strings2(ISSUE_XDIST_1, ISSUE_XDIST_2))));
        r.push(("pytest-testmon".to_owned(), make_record(bad, "*", NOTE_TESTMON, true, false, strings2(ISSUE_TESTMON_1, ISSUE_TESTMON_2))));
        r.push(("pytest-randomly".to_owned(), make_record(special, "*", NOTE_RANDOMLY, false, true, strings1(ISSUE_RANDOMLY))));
        r.push(("pytest-order".to_owned(), make_record(special, "*", NOTE_ORDER, false, true, strings1(ISSUE_ORDER))));
        r.push(("pytest-django".to_owned(), make_record(full, ">=3.8", NOTE_DJANGO, false, false, no_strings())));
        r.push(("pytest-flask".to_owned(), make_record(full, ">=3.8", NOTE_FLASK, false, false, no_strings())));
        assert(entries_view(r@) =~= default_entries());
        r
    }

    /// The name of a plugin requirement: the part before a version
    /// specifier or extras.
    pub fn extract_plugin_name(&self, plugin_spec: &str) -> (r: String)
        ensures
            r@ == prefix_before(plugin_spec@, plugin_seps()),
    {
        let mut seps: Vec<char> = Vec::new();
        seps.push('=');
        seps.push('>');
        seps.push('<');
        seps.push('~');
        seps.push('!');
        seps.push('[');
        assert(seps@ =~= plugin_seps());
        crate::text::prefix_until(plugin_spec, seps.as_slice())
    }

    /// Checks each plugin requirement against the table (see [`check_all`]):
    /// known plugins bring their record, fallback and ordering flags and
    /// their warnings; unknown ones are assumed compatible with a warning.
    pub fn check_plugin_compatibility(&self, plugins: &Vec<String>) -> (c: PluginCompatibilityCheck)
        ensures
            check_view(c) == check_all(entries_view(self.plugin_compatibility@), views(plugins@)),
    {
        let ghost es = entries_view(self.plugin_compatibility@);
        let ghost ps = views(plugins@);
        let mut results: Vec<(String, bool, PluginCompatibilityInfo)> = Vec::new();
        let mut needs_fallback = false;
        let mut collection_mutating = false;
        let mut warnings: Vec<String> = Vec::new();
        let mut i: usize = 0;
        proof {
            assert(ps.subrange(0, 0) =~= Seq::<Seq<char>>::empty());
            assert(results_view(results@) =~= Seq::<(Seq<char>, bool, InfoView)>::empty());
            assert(views(warnings@) =~= Seq::<Seq<char>>::empty());
        }
        while i < plugins.len()
            invariant
                i <= plugins@.len(),
                es == entries_view(self.plugin_compatibility@),
                ps == views(plugins@),
                check_all(es, ps.subrange(0, i as int)) == (CheckView {
                    results: results_view(results@),
                    needs_fallback,
                    collection_mutating,
                    warnings: views(warnings@),
                }),
            decreases plugins@.len() - i,
        {
            let ghost st = CheckView {
                results: results_view(results@),
                needs_fallback,
                collection_mutating,
                warnings: views(warnings@),
            };
            let name = self.extract_plugin_name(plugins[i].as_str());
            let found = find_entry(&self.plugin_compatibility, &name);
            let ghost w0 = views(warnings@);
            match found {
                Some(k) => {
                    let info = &self.plugin_compatibility[k].1;
                    if info.fallback_required {
                        needs_fallback = true;
                    }
                    if info.mutates_collection {
                        collection_mutating = true;
                        let mut m = "Plugin '".to_owned();
                        m.append(name.as_str());
                        m.append("' may affect test collection/ordering - caching may be less effective");
                        warnings.push(m);
                    }
                    let ghost w1 = views(warnings@);
                    let mut j: usize = 0;
                    while j < info.known_issues.len()
                        invariant
                            j <= info.known_issues@.len(),
                            views(warnings@) == w1 + views(info.known_issues@).subrange(0, j as int).map_values(
                                |iss: Seq<char>| issue_warning(name@, iss),
                            ),
                        decreases info.known_issues@.len() - j,
                    {
                        let mut m = "Plugin '".to_owned();
                        m.append(name.as_str());
                        m.append("': ");
                        m.append(info.known_issues[j].as_str());
                        assert(m@ =~= issue_warning(name@, views(info.known_issues@)[j as int]));
                        let ghost w2 = views(warnings@);
                        warnings.push(m);
                        assert(views(warnings@) =~= w2.push(m@));
                        assert(views(warnings@) =~= w1 + views(info.known_issues@).subrange(0, j + 1).map_values(
                            |iss: Seq<char>| issue_warning(name@, iss),
                        ));
                        j = j + 1;
                    }
                    assert(views(info.known_issues@).subrange(0, info.known_issues@.len() as int) =~= views(info.known_issues@));
                    let ok = match info.status {
                        CompatibilityStatus::Incompatible => false,
                        _ => true,
                    };
                    let copy = info.clone_info();
                    set_result(&mut results, name, ok, copy);
                    proof {
                        assert(es[k as int].1 == info_view(*info));
                    }
                },
                None => {
                    let mut m = "Plugin '".to_owned();
                    m.append(name.as_str());
                    m.append(UNKNOWN_TAIL);
                    warnings.push(m);
                    let unknown = PluginCompatibilityInfo {
                        status: CompatibilityStatus::Unknown,
                        veri_versions: strings1("*"),
                        python_versions: strings1("*"),
                        notes: Some(NOTE_UNKNOWN.to_owned()),
                        fallback_required: false,
                        mutates_collection: false,
                        known_issues: no_strings(),
                    };
                    assert(info_view(unknown) =~= unknown_record());
                    set_result(&mut results, name, true, unknown);
                },
            }
            proof {
                let pre = ps.subrange(0, i as int);
                let post = ps.subrange(0, i + 1);
                assert(post.drop_last() =~= pre);
                assert(post.last() == plugins@[i as int]@);
                let nv = check_one(es, st, plugins@[i as int]@);
                assert(views(warnings@) =~= nv.warnings);
            }
            i = i + 1;
        }
        assert(ps.subrange(0, ps.len() as int) =~= ps);
        PluginCompatibilityCheck { results, needs_fallback, collection_mutating, warnings }
    }

    /// The operating system named by a target name: `windows`, `macos`,
    /// `linux`, or `unknown` for any other.
    pub fn detect_os(&self, target_os: &str) -> (r: String)
        ensures
            r@ == if target_os@ == "windows"@ {
                "windows"@
            } else if target_os@ == "macos"@ {
                "macos"@
            } else if target_os@ == "linux"@ {
                "linux"@
            } else {
                "unknown"@
            },
    {
        if crate::text::str_eq(target_os, "windows") {
            "windows".to_owned()
        } else if crate::text::str_eq(target_os, "macos") {
            "macos".to_owned()
        } else if crate::text::str_eq(target_os, "linux") {
            "linux".to_owned()
        } else {
            "unknown".to_owned()
        }
    }

    /// The environment type from the environment variables first, then the
    /// lock files: venv, conda, uv, poetry, else system.
    pub fn detect_environment_type_simple(&self, probe: &EnvironmentProbe) -> (r: String)
        ensures
            r@ == if probe.virtual_env {
                "venv"@
            } else if probe.conda_env {
                "conda"@
            } else if probe.uv_lock {
                "uv"@
            } else if probe.poetry_lock {
                "poetry"@
            } else {
                "system"@
            },
    {
        if probe.virtual_env {
            "venv".to_owned()
        } else if probe.conda_env {
            "conda".to_owned()
        } else if probe.uv_lock {
            "uv".to_owned()
        } else if probe.poetry_lock {
            "poetry".to_owned()
        } else {
            "system".to_owned()
        }
    }

    /// The environment type of a directory from its lock files first, then
    /// the environment variables: uv, poetry, venv, conda, else system.
    pub fn detect_environment_type(&self, probe: &EnvironmentProbe) -> (r: String)
        ensures
            r@ == if probe.uv_lock {
                "uv"@
            } else if probe.poetry_lock {
                "poetry"@
            } else if probe.virtual_env {
                "venv"@
            } else if probe.conda_env {
                "conda"@
            } else {
                "system"@
            },
    {
        if probe.uv_lock {
            "uv".to_owned()
        } else if probe.poetry_lock {
            "poetry".to_owned()
        } else if probe.virtual_env {
            "venv".to_owned()
        } else if probe.conda_env {
            "conda".to_owned()
        } else {
            "system".to_owned()
        }
    }

    /// The Python version from `PYTHON_VERSION`, else `major.minor` from
    /// `PYTHON_VERSION_MAJOR` and `PYTHON_VERSION_MINOR` (3 and 11 by default).
    pub fn detect_python_version(&self, version: Option<String>, major: Option<String>, minor: Option<String>) -> (r: String)
        ensures
            r@ == match version {
                Some(v) => v@,
                None => (match major {
                    Some(m) => m@,
                    None => "3"@,
                }) + "."@ + (match minor {
                    Some(m) => m@,
                    None => "11"@,
                }),
            },
    {
        match version {
            Some(v) => v,
            None => {
                let mut s = match major {
                    Some(m) => m,
                    None => "3".to_owned(),
                };
                s.append(".");
                match minor {
                    Some(m) => s.append(m.as_str()),
                    None => s.append("11"),
                }
                s
            },
        }
    }

    /// The environment against the matrix: each part supported or not, and
    /// the warnings for those that are not.
    pub fn check_current_environment(&self, python_version: &str, os: &str, env_type: &str) -> (e: EnvironmentCompatibility)
        ensures
            e.python_version@ == python_version@,
            e.python_supported == python_ok(self.lists().0, python_version@),
            e.os@ == os@,
            e.os_supported == self.lists().1.contains(os@),
            e.environment_type@ == env_type@,
            e.environment_supported == self.lists().2.contains(env_type@),
            e.overall_supported == (e.python_supported && e.os_supported && e.environment_supported),
            views(e.warnings@) == environment_warnings(self.lists(), python_version@, os@, env_type@),
    {
        let py_ok = self.python_supported(python_version);
        let os_ok = contains_str(&self.operating_systems, os);
        let env_ok = contains_str(&self.environment_types, env_type);
        EnvironmentCompatibility {
            python_version: python_version.to_owned(),
            python_supported: py_ok,
            os: os.to_owned(),
            os_supported: os_ok,
            environment_type: env_type.to_owned(),
            environment_supported: env_ok,
            overall_supported: py_ok && os_ok && env_ok,
            warnings: self.generate_environment_warnings(python_version, os, env_type),
        }
    }

    fn python_supported(&self, v: &str) -> (r: bool)
        ensures
            r == python_ok(self.lists().0, v@),
    {
        let mut i: usize = 0;
        while i < self.python_versions.len()
            invariant
                i <= self.python_versions@.len(),
                forall|k: int| 0 <= k < i ==> !has_prefix(v@, #[trigger] views(self.python_versions@)[k]),
            decreases self.python_versions@.len() - i,
        {
            if crate::text::str_starts_with(v, self.python_versions[i].as_str()) {
                assert(has_prefix(v@, views(self.python_versions@)[i as int]));
                return true;
            }
            i = i + 1;
        }
        false
    }

    /// Warnings for the parts of the environment outside the matrix (see
    /// [`environment_warnings`]).
    pub fn generate_environment_warnings(&self, python_version: &str, os: &str, env_type: &str) -> (r: Vec<String>)
        ensures
            views(r@) == environment_warnings(self.lists(), python_version@, os@, env_type@),
    {
        let mut r: Vec<String> = Vec::new();
        if !self.python_supported(python_version) {
            let mut m = "Python ".to_owned();
            m.append(python_version);
            m.append(" is not in the tested compatibility matrix. Supported versions: ");
            let j = crate::text::join_strings(&self.python_versions, ", ");
            m.append(j.as_str());
            r.push(m);
        }
        let ghost r1 = views(r@);
        if !contains_str(&self.operating_systems, os) {
            let mut m = "Operating system '".to_owned();
            m.append(os);
            m.append("' is not in the tested compatibility matrix. Supported: ");
            let j = crate::text::join_strings(&self.operating_systems, ", ");
            m.append(j.as_str());
            r.push(m);
        }
        let ghost r2 = views(r@);
        if !contains_str(&self.environment_types, env_type) {
            let mut m = "Environment type '".to_owned();
            m.append(env_type);
            m.append("' is not in the tested compatibility matrix. Supported: ");
            let j = crate::text::join_strings(&self.environment_types, ", ");
            m.append(j.as_str());
            r.push(m);
        }
        assert(views(r@) =~= environment_warnings(self.lists(), python_version@, os@, env_type@));
        r
    }

    /// What to do about an environment and plugin check (see
    /// [`recommendations_for`]).
    pub fn generate_recommendations(&self, env: &EnvironmentCompatibility, plugins: &PluginCompatibilityCheck) -> (r: Vec<String>)
        ensures
            views(r@) == recommendations_for(
                self.lists(),
                env.overall_supported,
                env.python_supported,
                env.os_supported,
                env.environment_supported,
                env.os@,
                plugins.needs_fallback,
                plugins.collection_mutating,
                plugins.warnings@.len() > 0,
            ),
    {
        let mut r: Vec<String> = Vec::new();
        if !env.overall_supported {
            if !env.python_supported {
                let mut m = "Consider upgrading to a supported Python version: ".to_owned();
                let j = crate::text::join_strings(&self.python_versions, ", ");
                m.append(j.as_str());
                r.push(m);
            }
            if !env.os_supported {
                let mut m = "Your OS '".to_owned();
                m.append(env.os.as_str());
                m.append("' may have limited support. Consider testing on: ");
                let j = crate::text::join_strings(&self.operating_systems, ", ");
                m.append(j.as_str());
                r.push(m);
            }
            if !env.environment_supported {
                let mut m = "Consider using a supported environment type: ".to_owned();
                let j = crate::text::join_strings(&self.environment_types, ", ");
                m.append(j.as_str());
                r.push(m);
            }
        }
        if plugins.needs_fallback {
            r.push(REC_FALLBACK.to_owned());
        }
        if plugins.collection_mutating {
            r.push(REC_MUTATING.to_owned());
        }
        if plugins.warnings.len() > 0 {
            r.push(REC_WARNINGS.to_owned());
        }
        assert(views(r@) =~= recommendations_for(
            self.lists(),
            env.overall_supported,
            env.python_supported,
            env.os_supported,
            env.environment_supported,
            env.os@,
            plugins.needs_fallback,
            plugins.collection_mutating,
            plugins.warnings@.len() > 0,
        ));
        r
    }

    /// The report for the given environment and plugins.
    pub fn generate_report(&self, python_version: &str, os: &str, env_type: &str, plugins: &Vec<String>) -> (r: CompatibilityReport)
        ensures
            r.environment.python_version@ == python_version@,
            r.environment.os@ == os@,
            r.environment.environment_type@ == env_type@,
            r.environment.python_supported == python_ok(self.lists().0, python_version@),
            r.environment.os_supported == self.lists().1.contains(os@),
            r.environment.environment_supported == self.lists().2.contains(env_type@),
            r.environment.overall_supported == (r.environment.python_supported
                && r.environment.os_supported && r.environment.environment_supported),
            views(r.environment.warnings@) == environment_warnings(self.lists(), python_version@, os@, env_type@),
            check_view(r.plugin_check) == check_all(entries_view(self.plugin_compatibility@), views(plugins@)),
            views(r.recommendations@) == recommendations_for(
                self.lists(),
                r.environment.overall_supported,
                r.environment.python_supported,
                r.environment.os_supported,
                r.environment.environment_supported,
                os@,
                r.plugin_check.needs_fallback,
                r.plugin_check.collection_mutating,
                r.plugin_check.warnings@.len() > 0,
            ),
    {
        let environment = self.check_current_environment(python_version, os, env_type);
        let plugin_check = self.check_plugin_compatibility(plugins);
        let recommendations = self.generate_recommendations(&environment, &plugin_check);
        CompatibilityReport { environment, plugin_check, recommendations }
    }
}

impl Default for CompatibilityMatrix {
    fn default() -> (m: Self)
        ensures
            views(m.python_versions@) == seq!["3.9"@, "3.10"@, "3.11"@, "3.12"@, "3.13"@],
            views(m.operating_systems@) == seq!["linux"@, "macos"@, "windows"@],
            views(m.environment_types@) == seq!["venv"@, "conda"@, "poetry"@, "uv"@, "system"@],
            views(m.package_managers@) == seq!["pip"@, "conda"@, "uv"@, "poetry"@],
            entries_view(m.plugin_compatibility@) == default_entries(),
    {
        Self::default_matrix()
    }
}

/// Whether `s` is one of the strings.
fn contains_str(v: &Vec<String>, s: &str) -> (r: bool)
    ensures
        r == views(v@).contains(s@),
{
    let mut i: usize = 0;
    while i < v.len()
        invariant
            i <= v@.len(),
            forall|k: int| 0 <= k < i ==> views(v@)[k] != s@,
        decreases v@.len() - i,
    {
        if crate::text::str_eq(v[i].as_str(), s) {
            assert(views(v@)[i as int] == s@);
            return true;
        }
        i = i + 1;
    }
    false
}

/// The index of the first table entry named `name`.
fn find_entry(es: &Vec<(String, PluginCompatibilityInfo)>, name: &String) -> (r: Option<usize>)
    ensures
        match r {
            Some(k) => k < es@.len() && lookup(entries_view(es@), name@) == Some(info_view(es@[k as int].1)),
            None => lookup(entries_view(es@), name@) is None,
        },
{
    let ghost ev = entries_view(es@);
    let mut i: usize = 0;
    assert(ev.skip(0) =~= ev);
    while i < es.len()
        invariant
            i <= es@.len(),
            ev == entries_view(es@),
            lookup(ev, name@) == lookup(ev.skip(i as int), name@),
        decreases es@.len() - i,
    {
        proof {
            assert(ev.skip(i as int)[0] == ev[i as int]);
            assert(ev.skip(i as int).drop_first() =~= ev.skip(i + 1));
        }
        if crate::text::str_eq(es[i].0.as_str(), name.as_str()) {
            return Some(i);
        }
        i = i + 1;
    }
    assert(ev.skip(i as int) =~= Seq::<(Seq<char>, InfoView)>::empty());
    None
}

/// Sets the result for `name` (see [`upsert`]).
fn set_result(rs: &mut Vec<(String, bool, PluginCompatibilityInfo)>, name: String, ok: bool, info: PluginCompatibilityInfo)
    ensures
        results_view(final(rs)@) == upsert(results_view(old(rs)@), name@, ok, info_view(info)),
{
    let ghost rv = results_view(rs@);
    let ghost nv = name@;
    let ghost iv = info_view(info);
    let mut i: usize = rs.len();
    assert(rv.subrange(0, rv.len() as int) =~= rv);
    while i > 0
        invariant
            i <= rs@.len(),
            rv == results_view(rs@),
            rv == results_view(old(rs)@),
            nv == name@,
            iv == info_view(info),
            result_index(rv, nv) == result_index(rv.subrange(0, i as int), nv),
        decreases i,
    {
        proof {
            let sub = rv.subrange(0, i as int);
            assert(sub.drop_last() =~= rv.subrange(0, i - 1));
            assert(sub.last() == rv[i - 1]);
        }
        if crate::text::str_eq(rs[i - 1].0.as_str(), name.as_str()) {
            let k = i - 1;
            proof {
                let sub = rv.subrange(0, i as int);
                assert(sub.last() == rv[k as int]);
                assert(rv[k as int].0 == nv);
                assert(result_index(sub, nv) == k as int);
            }
            rs.set(k, (name, ok, info));
            assert(results_view(rs@) =~= rv.update(k as int, (nv, ok, iv)));
            return;
        }
        i = i - 1;
    }
    assert(rv.subrange(0, 0) =~= Seq::<(Seq<char>, bool, InfoView)>::empty());
    rs.push((name, ok, info));
    assert(results_view(rs@) =~= rv.push((nv, ok, iv)));
}

impl PluginCompatibilityCheck {
    /// The result recorded for a plugin name.
    pub fn get(&self, plugin: &str) -> (r: Option<(bool, CompatibilityStatus)>)
        ensures
            match r {
                Some(x) => {
                    let k = result_index(results_view(self.results@), plugin@);
                    k >= 0 && x.0 == self.results@[k].1 && x.1 == self.results@[k].2.status
                },
                None => result_index(results_view(self.results@), plugin@) < 0,
            },
    {
        let ghost rv = results_view(self.results@);
        let mut i: usize = self.results.len();
        assert(rv.subrange(0, rv.len() as int) =~= rv);
        while i > 0
            invariant
                i <= self.results@.len(),
                rv == results_view(self.results@),
                result_index(rv, plugin@) == result_index(rv.subrange(0, i as int), plugin@),
            decreases i,
        {
            proof {
                let sub = rv.subrange(0, i as int);
                assert(sub.drop_last() =~= rv.subrange(0, i - 1));
                assert(sub.last() == rv[i - 1]);
            }
            if crate::text::str_eq(self.results[i - 1].0.as_str(), plugin) {
                return Some((self.results[i - 1].1, self.results[i - 1].2.status));
            }
            i = i - 1;
        }
        assert(rv.subrange(0, 0) =~= Seq::<(Seq<char>, bool, InfoView)>::empty());
        None
    }
}

/// Environment check, plugin check and recommendations together.
#[derive(Debug)]
pub struct CompatibilityReport {
    pub environment: EnvironmentCompatibility,
    pub plugin_check: PluginCompatibilityCheck,
    pub recommendations: Vec<String>,
}

/// The mark for a supported or unsupported part.
pub open spec fn mark(ok: bool) -> Seq<char> {
    if ok {
        "✅"@
    } else {
        "❌"@
    }
}

/// Warning lines, each indented and highlighted.
pub open spec fn warning_lines(ws: Seq<Seq<char>>, yellow: Seq<char>, reset: Seq<char>) -> Seq<Seq<char>> {
    ws.map_values(|w: Seq<char>| "    "@ + yellow + "⚠️  "@ + w + reset)
}

/// The symbol of a compatibility status.
pub open spec fn status_icon(s: CompatibilityStatus) -> Seq<char> {
    match s {
        CompatibilityStatus::FullyCompatible => "✅"@,
        CompatibilityStatus::NeedsSpecialHandling => "⚠️"@,
        CompatibilityStatus::Incompatible => "❌"@,
        CompatibilityStatus::Unknown => "❓"@,
    }
}

/// The lines for one plugin result.
pub open spec fn plugin_lines(r: (Seq<char>, bool, InfoView), yellow: Seq<char>, reset: Seq<char>) -> Seq<Seq<char>> {
    seq!["  "@ + status_icon(r.2.status) + " "@ + r.0] + (match r.2.notes {
        Some(n) => seq!["     "@ + n],
        None => Seq::empty(),
    }) + (if r.2.fallback_required {
        seq!["     "@ + yellow + "📋 Requires fallback to pytest engine"@ + reset]
    } else {
        Seq::empty()
    }) + (if r.2.mutates_collection {
        seq!["     "@ + yellow + "🔄 May affect test collection/ordering"@ + reset]
    } else {
        Seq::empty()
    })
}

/// The lines for all plugin results.
pub open spec fn results_lines(rs: Seq<(Seq<char>, bool, InfoView)>, yellow: Seq<char>, reset: Seq<char>) -> Seq<Seq<char>>
    decreases rs.len(),
{
    if rs.len() == 0 {
        Seq::empty()
    } else {
        results_lines(rs.drop_last(), yellow, reset) + plugin_lines(rs.last(), yellow, reset)
    }
}

/// The environment as a tuple of values: Python version and support, OS and
/// support, environment type and support, overall support, warnings.
pub type EnvView = (Seq<char>, bool, Seq<char>, bool, Seq<char>, bool, bool, Seq<Seq<char>>);

/// The heading and environment lines.
pub open spec fn env_section(env: EnvView) -> Seq<Seq<char>> {
    seq![
        "🔍 Compatibility Report"@,
        "========================"@,
        Seq::empty(),
        "Environment:"@,
        "  Status: "@ + (if env.6 { "✅ Fully Supported"@ } else { "⚠️  Limited Support"@ }),
        "  Python: "@ + env.0 + " ("@ + mark(env.1) + ")"@,
        "  OS: "@ + env.2 + " ("@ + mark(env.3) + ")"@,
        "  Environment: "@ + env.4 + " ("@ + mark(env.5) + ")"@,
    ]
}

/// A titled block of warnings, nothing when there are none.
pub open spec fn warn_section(title: Seq<char>, ws: Seq<Seq<char>>, yellow: Seq<char>, reset: Seq<char>) -> Seq<Seq<char>> {
    if ws.len() > 0 {
        seq![Seq::empty(), title] + warning_lines(ws, yellow, reset)
    } else {
        Seq::empty()
    }
}

/// The plugin block.
pub open spec fn plugins_section(rs: Seq<(Seq<char>, bool, InfoView)>, yellow: Seq<char>, reset: Seq<char>) -> Seq<Seq<char>> {
    seq![Seq::empty(), "Plugins:"@] + (if rs.len() == 0 {
        seq!["  No plugins detected"@]
    } else {
        results_lines(rs, yellow, reset)
    })
}

/// The recommendations block, nothing when there are none.
pub open spec fn recs_section(recs: Seq<Seq<char>>) -> Seq<Seq<char>> {
    if recs.len() > 0 {
        seq![Seq::empty(), "Recommendations:"@] + recs.map_values(|r: Seq<char>| "  💡 "@ + r)
    } else {
        Seq::empty()
    }
}

/// The closing verdict and link.
pub open spec fn footer_section(overall: bool, fallback: bool) -> Seq<Seq<char>> {
    seq![
        Seq::empty(),
        if overall && !fallback {
            "✅ Your environment is fully compatible with veri"@
        } else if fallback {
            "⚠️  Some plugins require fallback mode - use --engine pytest for full compatibility"@
        } else {
            "⚠️  Environment has compatibility limitations"@
        },
        Seq::empty(),
        "📖 For more details: https://docs.veri.dev/compatibility"@,
    ]
}

/// The report as lines of text; colours are used on request.
pub open spec fn report_text(env: EnvView, check: CheckView, recs: Seq<Seq<char>>, use_color: bool) -> Seq<Seq<char>> {
    let yellow = if use_color { "\x1b[33m"@ } else { ""@ };
    let reset = if use_color { "\x1b[0m"@ } else { ""@ };
    env_section(env) + warn_section("  Environment Warnings:"@, env.7, yellow, reset) + plugins_section(
        check.results,
        yellow,
        reset,
    ) + warn_section("  Plugin Warnings:"@, check.warnings, yellow, reset) + recs_section(recs)
        + footer_section(env.6, check.needs_fallback)
}

/// Appends a line.
fn line(out: &mut Vec<String>, s: String)
    ensures
        views(final(out)@) == views(old(out)@).push(s@),
{
    out.push(s);
    assert(views(out@) =~= views(old(out)@).push(s@));
}

/// Appends the highlighted warning lines.
fn push_warning_lines(out: &mut Vec<String>, ws: &Vec<String>, yellow: &str, reset: &str)
    ensures
        views(final(out)@) == views(old(out)@) + warning_lines(views(ws@), yellow@, reset@),
{
    let ghost o0 = views(out@);
    let mut i: usize = 0;
    while i < ws.len()
        invariant
            i <= ws@.len(),
            o0 == views(old(out)@),
            views(out@) == o0 + warning_lines(views(ws@).subrange(0, i as int), yellow@, reset@),
        decreases ws@.len() - i,
    {
        let mut m = "    ".to_owned();
        m.append(yellow);
        m.append("⚠️  ");
        m.append(ws[i].as_str());
        m.append(reset);
        line(out, m);
        assert(warning_lines(views(ws@).subrange(0, i + 1), yellow@, reset@) =~= warning_lines(
            views(ws@).subrange(0, i as int),
            yellow@,
            reset@,
        ).push(m@));
        i = i + 1;
    }
    assert(views(ws@).subrange(0, ws@.len() as int) =~= views(ws@));
}

/// Appends the lines for one plugin result.
fn push_plugin_lines(out: &mut Vec<String>, r: &(String, bool, PluginCompatibilityInfo), yellow: &str, reset: &str)
    ensures
        views(final(out)@) == views(old(out)@) + plugin_lines((r.0@, r.1, info_view(r.2)), yellow@, reset@),
{
    let ghost o0 = views(out@);
    let mut m = "  ".to_owned();
    m.append(match r.2.status {
        CompatibilityStatus::FullyCompatible => "✅",
        CompatibilityStatus::NeedsSpecialHandling => "⚠️",
        CompatibilityStatus::Incompatible => "❌",
        CompatibilityStatus::Unknown => "❓",
    });
    m.append(" ");
    m.append(r.0.as_str());
    line(out, m);
    match &r.2.notes {
        Some(n) => {
            let mut m = "     ".to_owned();
            m.append(n.as_str());
            line(out, m);
        },
        None => {},
    }
    if r.2.fallback_required {
        let mut m = "     ".to_owned();
        m.append(yellow);
        m.append("📋 Requires fallback to pytest engine");
        m.append(reset);
        line(out, m);
    }
    if r.2.mutates_collection {
        let mut m = "     ".to_owned();
        m.append(yellow);
        m.append("🔄 May affect test collection/ordering");
        m.append(reset);
        line(out, m);
    }
    assert(views(out@) =~= o0 + plugin_lines((r.0@, r.1, info_view(r.2)), yellow@, reset@));
}

fn mark_str(ok: bool) -> (r: &'static str)
    ensures
        r@ == mark(ok),
{
    if ok {
        "✅"
    } else {
        "❌"
    }
}

/// Appends the heading and environment lines.
fn push_env_section(out: &mut Vec<String>, env: &EnvironmentCompatibility)
    ensures
        views(final(out)@) == views(old(out)@) + env_section(env_view(*env)),
{
    let ghost o0 = views(out@);
    line(out, "🔍 Compatibility Report".to_owned());
    line(out, "========================".to_owned());
    line(out, String::new());
    line(out, "Environment:".to_owned());
    let mut m = "  Status: ".to_owned();
    if env.overall_supported {
        m.append("✅ Fully Supported");
    } else {
        m.append("⚠️  Limited Support");
    }
    line(out, m);
    let mut m = "  Python: ".to_owned();
    m.append(env.python_version.as_str());
    m.append(" (");
    m.append(mark_str(env.python_supported));
    m.append(")");
    line(out, m);
    let mut m = "  OS: ".to_owned();
    m.append(env.os.as_str());
    m.append(" (");
    m.append(mark_str(env.os_supported));
    m.append(")");
    line(out, m);
    let mut m = "  Environment: ".to_owned();
    m.append(env.environment_type.as_str());
    m.append(" (");
    m.append(mark_str(env.environment_supported));
    m.append(")");
    line(out, m);
    assert(views(out@) =~= o0 + env_section(env_view(*env)));
}

/// Appends a titled warning block.
fn push_warn_section(out: &mut Vec<String>, title: &str, ws: &Vec<String>, yellow: &str, reset: &str)
    ensures
        views(final(out)@) == views(old(out)@) + warn_section(title@, views(ws@), yellow@, reset@),
{
    let ghost o0 = views(out@);
    if ws.len() > 0 {
        line(out, String::new());
        line(out, title.to_owned());
        push_warning_lines(out, ws, yellow, reset);
    }
    assert(views(out@) =~= o0 + warn_section(title@, views(ws@), yellow@, reset@));
}

/// Appends the plugin block.
fn push_plugins_section(out: &mut Vec<String>, rs: &Vec<(String, bool, PluginCompatibilityInfo)>, yellow: &str, reset: &str)
    ensures
        views(final(out)@) == views(old(out)@) + plugins_section(results_view(rs@), yellow@, reset@),
{
    let ghost o0 = views(out@);
    line(out, String::new());
    line(out, "Plugins:".to_owned());
    let ghost o1 = views(out@);
    if rs.len() == 0 {
        line(out, "  No plugins detected".to_owned());
    } else {
        let mut i: usize = 0;
        while i < rs.len()
            invariant
                i <= rs@.len(),
                views(out@) == o1 + results_lines(results_view(rs@).subrange(0, i as int), yellow@, reset@),
            decreases rs@.len() - i,
        {
            push_plugin_lines(out, &rs[i], yellow, reset);
            proof {
                let pre = results_view(rs@).subrange(0, i as int);
                let post = results_view(rs@).subrange(0, i + 1);
                assert(post.drop_last() =~= pre);
                assert(post.last() == results_view(rs@)[i as int]);
            }
            i = i + 1;
        }
        assert(results_view(rs@).subrange(0, rs@.len() as int) =~= results_view(rs@));
    }
    assert(views(out@) =~= o0 + plugins_section(results_view(rs@), yellow@, reset@));
}

/// Appends the recommendations block.
fn push_recs_section(out: &mut Vec<String>, recs: &Vec<String>)
    ensures
        views(final(out)@) == views(old(out)@) + recs_section(views(recs@)),
{
    let ghost o0 = views(out@);
    if recs.len() > 0 {
        line(out, String::new());
        line(out, "Recommendations:".to_owned());
        let ghost o1 = views(out@);
        let mut i: usize = 0;
        while i < recs.len()
            invariant
                i <= recs@.len(),
                views(out@) == o1 + views(recs@).subrange(0, i as int).map_values(|r: Seq<char>| "  💡 "@ + r),
            decreases recs@.len() - i,
        {
            let mut m = "  💡 ".to_owned();
            m.append(recs[i].as_str());
            line(out, m);
            assert(views(recs@).subrange(0, i + 1).map_values(|r: Seq<char>| "  💡 "@ + r)
                =~= views(recs@).subrange(0, i as int).map_values(|r: Seq<char>| "  💡 "@ + r).push(m@));
            i = i + 1;
        }
        assert(views(recs@).subrange(0, recs@.len() as int) =~= views(recs@));
    }
    assert(views(out@) =~= o0 + recs_section(views(recs@)));
}

/// Appends the closing lines.
fn push_footer(out: &mut Vec<String>, overall: bool, fallback: bool)
    ensures
        views(final(out)@) == views(old(out)@) + footer_section(overall, fallback),
{
    let ghost o0 = views(out@);
    line(out, String::new());
    if overall && !fallback {
        line(out, "✅ Your environment is fully compatible with veri".to_owned());
    } else if fallback {
        line(out, "⚠️  Some plugins require fallback mode - use --engine pytest for full compatibility".to_owned());
    } else {
        line(out, "⚠️  Environment has compatibility limitations".to_owned());
    }
    line(out, String::new());
    line(out, "📖 For more details: https://docs.veri.dev/compatibility".to_owned());
    assert(views(out@) =~= o0 + footer_section(overall, fallback));
}

/// The environment check as values.
pub open spec fn env_view(e: EnvironmentCompatibility) -> EnvView {
    (
        e.python_version@,
        e.python_supported,
        e.os@,
        e.os_supported,
        e.environment_type@,
        e.environment_supported,
        e.overall_supported,
        views(e.warnings@),
    )
}

impl CompatibilityReport {
    /// The report as lines of text (see [`report_text`]).
    pub fn report_lines(&self, use_color: bool) -> (r: Vec<String>)
        ensures
            views(r@) == report_text(
                env_view(self.environment),
                check_view(self.plugin_check),
                views(self.recommendations@),
                use_color,
            ),
    {
        let yellow = if use_color { "\x1b[33m" } else { "" };
        let reset = if use_color { "\x1b[0m" } else { "" };
        let mut out: Vec<String> = Vec::new();
        push_env_section(&mut out, &self.environment);
        push_warn_section(&mut out, "  Environment Warnings:", &self.environment.warnings, yellow, reset);
        push_plugins_section(&mut out, &self.plugin_check.results, yellow, reset);
        push_warn_section(&mut out, "  Plugin Warnings:", &self.plugin_check.warnings, yellow, reset);
        push_recs_section(&mut out, &self.recommendations);
        push_footer(&mut out, self.environment.overall_supported, self.plugin_check.needs_fallback);
        assert(views(out@) =~= report_text(
            env_view(self.environment),
            check_view(self.plugin_check),
            views(self.recommendations@),
            use_color,
        ));
        out
    }
}


/// Every result of a plugin check marks the plugin compatible exactly when
/// its recorded status is not `Incompatible`: plugins needing special
/// handling, fully compatible ones and unknown ones all count as compatible.
pub proof fn lemma_compatible_unless_incompatible(es: Seq<(Seq<char>, InfoView)>, reqs: Seq<Seq<char>>)
    ensures
        forall|i: int|
            0 <= i < check_all(es, reqs).results.len() ==> (#[trigger] check_all(es, reqs).results[i]).1 == (
            check_all(es, reqs).results[i].2.status != CompatibilityStatus::Incompatible),
    decreases reqs.len(),
{
    if reqs.len() > 0 {
        let prev = check_all(es, reqs.drop_last());
        lemma_compatible_unless_incompatible(es, reqs.drop_last());
        let name = prefix_before(reqs.last(), plugin_seps());
        let rs = check_all(es, reqs).results;
        let (ok, info) = match lookup(es, name) {
            Some(info) => (info.status != CompatibilityStatus::Incompatible, info),
            None => (true, unknown_record()),
        };
        assert(rs == upsert(prev.results, name, ok, info));
        let k = result_index(prev.results, name);
        assert forall|i: int| 0 <= i < rs.len() implies (#[trigger] rs[i]).1 == (rs[i].2.status
            != CompatibilityStatus::Incompatible) by {
            if k >= 0 {
                lemma_result_index_range(prev.results, name);
                if i != k {
                    assert(rs[i] == prev.results[i]);
                }
            } else if i < prev.results.len() {
                assert(rs[i] == prev.results[i]);
            }
        }
    }
}

proof fn lemma_result_index_range(rs: Seq<(Seq<char>, bool, InfoView)>, name: Seq<char>)
    ensures
        -1 <= result_index(rs, name) < rs.len(),
    decreases rs.len(),
{
    if rs.len() > 0 {
        lemma_result_index_range(rs.drop_last(), name);
    }
}

/// The checked plugins of a matrix: each is flagged compatible exactly when
/// its status is not `Incompatible`.
pub proof fn lemma_check_flags(m: CompatibilityMatrix, plugins: Seq<Seq<char>>, c: PluginCompatibilityCheck)
    requires
        check_view(c) == check_all(entries_view(m.plugin_compatibility@), plugins),
    ensures
        forall|i: int|
            0 <= i < c.results@.len() ==> (#[trigger] c.results@[i]).1 == (c.results@[i].2.status
                != CompatibilityStatus::Incompatible),
{
    let es = entries_view(m.plugin_compatibility@);
    lemma_compatible_unless_incompatible(es, plugins);
    assert forall|i: int| 0 <= i < c.results@.len() implies (#[trigger] c.results@[i]).1 == (c.results@[i].2.status
        != CompatibilityStatus::Incompatible) by {
        assert(results_view(c.results@)[i] == check_all(es, plugins).results[i]);
    }
}

} // verus!
