//! Impact analysis: which tests to run for a set of changed files.
use crate::import_graph::is_test_module_spec;
use crate::order::views;
use crate::paths::{file_name_spec, parent_spec};
use crate::schemas::{
    DynamicImport, ImportsGraph, ModuleInfo, ModuleMap, ModuleReverseDeps, ReverseDepsGraph,
    TestNode, TestsIndex,
};
use crate::text::{has_prefix, has_suffix};
use vstd::prelude::*;

verus! {

/// Why tests were selected.
#[derive(Debug)]
pub enum SelectionReason {
    TestFileChanged { path: String },
    SourceFileChanged { path: String, impacted_modules: Vec<String> },
    ConftestChanged { path: String, scope: String },
    PluginChanged { plugin: String },
    DynamicImportDetected { from_module: String, reason: String },
    /// `selected` of `total` tests were selected, more than `threshold_permille`
    /// thousandths of the suite.
    ThresholdExceeded { selected: usize, total: usize, threshold_permille: u32 },
    FullRun { reason: String },
}

/// The meaning of a [`SelectionReason`].
pub ghost enum ReasonView {
    TestFileChanged(Seq<char>),
    SourceFileChanged(Seq<char>, Seq<Seq<char>>),
    ConftestChanged(Seq<char>, Seq<char>),
    PluginChanged(Seq<char>),
    DynamicImportDetected(Seq<char>, Seq<char>),
    ThresholdExceeded(nat, nat, u32),
    FullRun(Seq<char>),
}

pub open spec fn reason_view(r: SelectionReason) -> ReasonView {
    match r {
        SelectionReason::TestFileChanged { path } => ReasonView::TestFileChanged(path@),
        SelectionReason::SourceFileChanged { path, impacted_modules } => ReasonView::SourceFileChanged(
            path@,
            views(impacted_modules@),
        ),
        SelectionReason::ConftestChanged { path, scope } => ReasonView::ConftestChanged(
            path@,
            scope@,
        ),
        SelectionReason::PluginChanged { plugin } => ReasonView::PluginChanged(plugin@),
        SelectionReason::DynamicImportDetected { from_module, reason } =>
            ReasonView::DynamicImportDetected(from_module@, reason@),
        SelectionReason::ThresholdExceeded { selected, total, threshold_permille } =>
            ReasonView::ThresholdExceeded(selected as nat, total as nat, threshold_permille),
        SelectionReason::FullRun { reason } => ReasonView::FullRun(reason@),
    }
}

pub open spec fn reasons_view(rs: Seq<SelectionReason>) -> Seq<ReasonView> {
    rs.map_values(|r: SelectionReason| reason_view(r))
}

/// The outcome of planning.
#[derive(Debug)]
pub struct TestSelection {
    pub selected_nodeids: Vec<String>,
    pub total_tests: usize,
    pub selection_reasons: Vec<SelectionReason>,
    pub should_broaden: bool,
    pub broaden_reason: Option<String>,
}

/// Planner settings.  The threshold is in thousandths of the suite.
#[derive(Debug)]
pub struct PlannerConfig {
    pub broaden_threshold_permille: u32,
    pub enable_dynamic_import_safety: bool,
    pub enable_conftest_scope: bool,
}

impl PlannerConfig {
    /// The defaults: broaden above 60% of the suite, all safety rules on.
    pub fn default_config() -> (c: Self)
        ensures
            c.broaden_threshold_permille == 600,
            c.enable_dynamic_import_safety,
            c.enable_conftest_scope,
    {
        PlannerConfig {
            broaden_threshold_permille: 600,
            enable_dynamic_import_safety: true,
            enable_conftest_scope: true,
        }
    }

    /// The threshold is a fraction of the suite, at most the whole of it.
    pub fn validate(&self) -> (r: Result<(), String>)
        ensures
            r is Ok <==> self.broaden_threshold_permille <= 1000,
    {
        if self.broaden_threshold_permille > 1000 {
            Err(
                "broaden_threshold must be between 0.0 and 1.0 (fraction). Use 0.6 for 60%, not 60.".to_string(),
            )
        } else {
            Ok(())
        }
    }
}

impl Default for PlannerConfig {
    fn default() -> (c: Self)
        ensures
            c.broaden_threshold_permille == 600,
            c.enable_dynamic_import_safety,
            c.enable_conftest_scope,
    {
        Self::default_config()
    }
}

/// A changed file is a test file: its name starts with `test_` or ends with `_test.py`.
pub open spec fn is_test_file_spec(f: Seq<char>) -> bool {
    match file_name_spec(f) {
        Some(n) => has_prefix(n, "test_"@) || has_suffix(n, "_test.py"@),
        None => false,
    }
}

/// The directory a conftest file governs (empty when it has none).
pub open spec fn conftest_dir_spec(f: Seq<char>) -> Seq<char> {
    match parent_spec(f) {
        Some(d) => d,
        None => Seq::empty(),
    }
}

/// The scope shown for a changed conftest file.
pub open spec fn conftest_scope_spec(f: Seq<char>) -> Seq<char> {
    match parent_spec(f) {
        Some(d) => d,
        None => "root"@,
    }
}

/// Test `t` matches `key` by path (mode 0), by path prefix (mode 1) or by module (mode 2).
pub open spec fn test_matches(t: TestNode, mode: int, key: Seq<char>) -> bool {
    if mode == 0 {
        t.path@ == key
    } else if mode == 1 {
        has_prefix(t.path@, key)
    } else {
        t.module@ == key
    }
}

/// The node ids of the tests matching `key`, in index order.
pub open spec fn ids_where(tests: Seq<TestNode>, mode: int, key: Seq<char>) -> Seq<Seq<char>>
    decreases tests.len(),
{
    if tests.len() == 0 {
        Seq::empty()
    } else {
        let prev = ids_where(tests.drop_last(), mode, key);
        if test_matches(tests.last(), mode, key) {
            prev.push(tests.last().nodeid@)
        } else {
            prev
        }
    }
}

/// The module name of the first entry whose path is `f`.
pub open spec fn first_path_match(mods: Seq<(String, ModuleInfo)>, f: Seq<char>) -> Option<Seq<char>>
    decreases mods.len(),
{
    if mods.len() == 0 {
        None
    } else if mods[0].0@ == f {
        Some(mods[0].1.module_name@)
    } else {
        first_path_match(mods.drop_first(), f)
    }
}

/// The module name of the first entry whose path or relative path is `f`.
pub open spec fn first_path_or_rel_match(mods: Seq<(String, ModuleInfo)>, f: Seq<char>) -> Option<
    Seq<char>,
>
    decreases mods.len(),
{
    if mods.len() == 0 {
        None
    } else if mods[0].0@ == f || mods[0].1.relative_path@ == f {
        Some(mods[0].1.module_name@)
    } else {
        first_path_or_rel_match(mods.drop_first(), f)
    }
}

/// `f` with every `\` replaced by `/`.
pub open spec fn normalize_seps(f: Seq<char>) -> Seq<char> {
    f.map_values(|c: char| if c == '\\' { '/' } else { c })
}

/// The module a changed file belongs to: by exact path, by path with `/`
/// separators, then by path or relative path.
pub open spec fn resolve_spec(mods: Seq<(String, ModuleInfo)>, f: Seq<char>) -> Option<Seq<char>> {
    match first_path_match(mods, f) {
        Some(m) => Some(m),
        None => match first_path_match(mods, normalize_seps(f)) {
            Some(m) => Some(m),
            None => first_path_or_rel_match(mods, f),
        },
    }
}

/// Index of the first reverse-dependency entry for `m`, or -1.
pub open spec fn find_rd(rd: Seq<(String, ModuleReverseDeps)>, m: Seq<char>) -> int
    decreases rd.len(),
{
    if rd.len() == 0 {
        -1
    } else if rd[0].0@ == m {
        0
    } else {
        let r = find_rd(rd.drop_first(), m);
        if r < 0 {
            -1
        } else {
            r + 1
        }
    }
}

/// The test modules among `ts`.
pub open spec fn test_modules_of(ts: Seq<Seq<char>>) -> Seq<Seq<char>>
    decreases ts.len(),
{
    if ts.len() == 0 {
        Seq::empty()
    } else {
        let prev = test_modules_of(ts.drop_last());
        if is_test_module_spec(ts.last()) {
            prev.push(ts.last())
        } else {
            prev
        }
    }
}

/// The node ids of the tests in the test modules among `ts`.
pub open spec fn module_test_ids(tests: Seq<TestNode>, ts: Seq<Seq<char>>) -> Seq<Seq<char>>
    decreases ts.len(),
{
    if ts.len() == 0 {
        Seq::empty()
    } else {
        let prev = module_test_ids(tests, ts.drop_last());
        if is_test_module_spec(ts.last()) {
            prev + ids_where(tests, 2, ts.last())
        } else {
            prev
        }
    }
}

/// The reverse dependencies of the module a changed file belongs to.
pub open spec fn source_entry(
    rd: Seq<(String, ModuleReverseDeps)>,
    mods: Seq<(String, ModuleInfo)>,
    f: Seq<char>,
) -> Option<ModuleReverseDeps> {
    match resolve_spec(mods, f) {
        Some(m) => {
            let k = find_rd(rd, m);
            if k >= 0 {
                Some(rd[k].1)
            } else {
                None
            }
        },
        None => None,
    }
}

/// Candidates selected by rule 3: dependents of the module of a changed source file.
pub open spec fn rule3_ids(
    tests: Seq<TestNode>,
    rd: Seq<(String, ModuleReverseDeps)>,
    mods: Seq<(String, ModuleInfo)>,
    f: Seq<char>,
) -> Seq<Seq<char>> {
    match source_entry(rd, mods, f) {
        Some(e) => views(e.test_dependents@) + module_test_ids(
            tests,
            views(e.transitive_dependents@),
        ),
        None => Seq::empty(),
    }
}

/// All node ids one changed file selects, in the order the rules add them.
pub open spec fn file_candidates(
    conftest_scope: bool,
    tests: Seq<TestNode>,
    rd: Seq<(String, ModuleReverseDeps)>,
    mods: Seq<(String, ModuleInfo)>,
    f: Seq<char>,
) -> Seq<Seq<char>> {
    let r1 = if is_test_file_spec(f) {
        ids_where(tests, 0, f)
    } else {
        Seq::empty()
    };
    let r2 = if has_suffix(f, "conftest.py"@) && conftest_scope {
        ids_where(tests, 1, conftest_dir_spec(f))
    } else {
        Seq::empty()
    };
    r1 + r2 + rule3_ids(tests, rd, mods, f)
}

/// The candidates of all changed files.
pub open spec fn all_candidates(
    conftest_scope: bool,
    tests: Seq<TestNode>,
    rd: Seq<(String, ModuleReverseDeps)>,
    mods: Seq<(String, ModuleInfo)>,
    files: Seq<Seq<char>>,
) -> Seq<Seq<char>>
    decreases files.len(),
{
    if files.len() == 0 {
        Seq::empty()
    } else {
        all_candidates(conftest_scope, tests, rd, mods, files.drop_last()) + file_candidates(
            conftest_scope,
            tests,
            rd,
            mods,
            files.last(),
        )
    }
}

/// The reasons one changed file contributes.
pub open spec fn file_reasons(
    conftest_scope: bool,
    rd: Seq<(String, ModuleReverseDeps)>,
    mods: Seq<(String, ModuleInfo)>,
    f: Seq<char>,
) -> Seq<ReasonView> {
    let a = if is_test_file_spec(f) {
        seq![ReasonView::TestFileChanged(f)]
    } else {
        Seq::empty()
    };
    let b = if has_suffix(f, "conftest.py"@) && conftest_scope {
        seq![ReasonView::ConftestChanged(f, conftest_scope_spec(f))]
    } else {
        Seq::empty()
    };
    let c = match source_entry(rd, mods, f) {
        Some(e) => {
            let impacted = views(e.test_dependents@) + test_modules_of(
                views(e.transitive_dependents@),
            );
            if impacted.len() > 0 {
                seq![ReasonView::SourceFileChanged(f, impacted)]
            } else {
                Seq::empty()
            }
        },
        None => Seq::empty(),
    };
    a + b + c
}

/// The reasons all changed files contribute.
pub open spec fn all_file_reasons(
    conftest_scope: bool,
    rd: Seq<(String, ModuleReverseDeps)>,
    mods: Seq<(String, ModuleInfo)>,
    files: Seq<Seq<char>>,
) -> Seq<ReasonView>
    decreases files.len(),
{
    if files.len() == 0 {
        Seq::empty()
    } else {
        all_file_reasons(conftest_scope, rd, mods, files.drop_last()) + file_reasons(
            conftest_scope,
            rd,
            mods,
            files.last(),
        )
    }
}

/// A change to module `m` may change what the dynamic import `d` loads: it has
/// no static argument, or its argument is `m` or a submodule of `m`.
pub open spec fn could_affect_spec(m: Seq<char>, d: DynamicImport) -> bool {
    match d.argument {
        Some(a) => a@ == m || has_prefix(a@, m + "."@),
        None => true,
    }
}

/// Some changed file resolves to a module that could affect `d`.
pub open spec fn dyn_triggered(
    mods: Seq<(String, ModuleInfo)>,
    files: Seq<Seq<char>>,
    d: DynamicImport,
) -> bool {
    exists|j: int|
        0 <= j < files.len() && #[trigger] resolve_spec(mods, files[j]) is Some && could_affect_spec(
            resolve_spec(mods, files[j])->0,
            d,
        )
}

/// Index of the first dynamic import a change could affect, or -1.
pub open spec fn first_dyn(
    mods: Seq<(String, ModuleInfo)>,
    files: Seq<Seq<char>>,
    dyns: Seq<DynamicImport>,
) -> int
    decreases dyns.len(),
{
    if dyns.len() == 0 {
        -1
    } else if dyn_triggered(mods, files, dyns[0]) {
        0
    } else {
        let r = first_dyn(mods, files, dyns.drop_first());
        if r < 0 {
            -1
        } else {
            r + 1
        }
    }
}

/// Decimal digits of `n`.
pub open spec fn decimal(n: nat) -> Seq<char>
    decreases n,
{
    if n < 10 {
        seq![digit_char(n)]
    } else {
        decimal(n / 10).push(digit_char(n % 10))
    }
}

pub open spec fn digit_char(d: nat) -> char {
    if d == 0 {
        '0'
    } else if d == 1 {
        '1'
    } else if d == 2 {
        '2'
    } else if d == 3 {
        '3'
    } else if d == 4 {
        '4'
    } else if d == 5 {
        '5'
    } else if d == 6 {
        '6'
    } else if d == 7 {
        '7'
    } else if d == 8 {
        '8'
    } else {
        '9'
    }
}

/// `t` tenths written with one decimal, e.g. 605 as `60.5`.
pub open spec fn tenths_text(t: nat) -> Seq<char> {
    decimal(t / 10) + "."@ + seq![digit_char(t % 10)]
}

/// `num / den` as a percentage with one decimal, rounded half to even;
/// `inf` when `den` is zero.
pub open spec fn percent_text(num: nat, den: nat) -> Seq<char> {
    if den == 0 {
        "inf"@
    } else {
        let q = (num * 1000) / den;
        let rem = (num * 1000) % den;
        let t = if 2 * rem > den || (2 * rem == den && q % 2 == 1) {
            q + 1
        } else {
            q
        };
        tenths_text(t as nat)
    }
}

/// The broadening message when the selection exceeds the threshold.
pub open spec fn threshold_message(selected: nat, total: nat, permille: u32) -> Seq<char> {
    "Selection threshold exceeded: "@ + percent_text(selected, total) + "% > "@ + tenths_text(
        permille as nat,
    ) + "% - running all tests"@
}

/// The broadening message for a dynamic import.
pub open spec fn dynamic_message(from_module: Seq<char>) -> Seq<char> {
    "Dynamic import detected in "@ + from_module + " - broadening for safety"@
}


/// The node ids of the tests matching `key` (see [`test_matches`]).
fn ids_matching(tests: &Vec<TestNode>, mode: u8, key: &str) -> (r: Vec<String>)
    ensures
        views(r@) == ids_where(tests@, mode as int, key@),
{
    let kv = crate::text::chars_of(key);
    let mut r: Vec<String> = Vec::new();
    let mut i: usize = 0;
    while i < tests.len()
        invariant
            i <= tests@.len(),
            kv@ == key@,
            views(r@) == ids_where(tests@.subrange(0, i as int), mode as int, key@),
        decreases tests@.len() - i,
    {
        let t = &tests[i];
        let hit = if mode == 0 {
            crate::text::str_eq(t.path.as_str(), key)
        } else if mode == 1 {
            crate::text::str_starts_with(t.path.as_str(), key)
        } else {
            crate::text::str_eq(t.module.as_str(), key)
        };
        proof {
            assert(tests@.subrange(0, i + 1).drop_last() =~= tests@.subrange(0, i as int));
        }
        if hit {
            let ghost old_r = r@;
            r.push(t.nodeid.clone());
            assert(views(r@) =~= views(old_r).push(t.nodeid@));
        }
        i = i + 1;
    }
    assert(tests@.subrange(0, tests@.len() as int) =~= tests@);
    r
}

/// The module name of the first entry whose path (or, with `rel`, also relative path) is `f`.
fn first_match(mods: &Vec<(String, ModuleInfo)>, f: &String, rel: bool) -> (r: Option<String>)
    ensures
        !rel ==> (r is None <==> first_path_match(mods@, f@) is None),
        !rel ==> (r is Some ==> first_path_match(mods@, f@) == Some(r->0@)),
        rel ==> (r is None <==> first_path_or_rel_match(mods@, f@) is None),
        rel ==> (r is Some ==> first_path_or_rel_match(mods@, f@) == Some(r->0@)),
{
    let mut i: usize = 0;
    assert(mods@.skip(0) =~= mods@);
    while i < mods.len()
        invariant
            i <= mods@.len(),
            !rel ==> first_path_match(mods@, f@) == first_path_match(mods@.skip(i as int), f@),
            rel ==> first_path_or_rel_match(mods@, f@) == first_path_or_rel_match(mods@.skip(i as int), f@),
        decreases mods@.len() - i,
    {
        let e = &mods[i];
        proof {
            assert(mods@.skip(i as int)[0] == mods@[i as int]);
            assert(mods@.skip(i as int).drop_first() =~= mods@.skip(i + 1));
        }
        if e.0 == *f || (rel && e.1.relative_path == *f) {
            return Some(e.1.module_name.clone());
        }
        i = i + 1;
    }
    assert(mods@.skip(i as int) =~= Seq::<(String, ModuleInfo)>::empty());
    None
}

/// `f` with `\` replaced by `/`.
fn normalize_separators(f: &String) -> (r: String)
    ensures
        r@ == normalize_seps(f@),
{
    let v = crate::text::chars_of(f.as_str());
    let mut out: Vec<char> = Vec::new();
    let mut i: usize = 0;
    while i < v.len()
        invariant
            i <= v@.len(),
            v@ == f@,
            out@ == normalize_seps(v@.subrange(0, i as int)),
        decreases v@.len() - i,
    {
        let c = v[i];
        if c == '\\' {
            out.push('/');
        } else {
            out.push(c);
        }
        i = i + 1;
        assert(out@ =~= normalize_seps(v@.subrange(0, i as int)));
    }
    assert(v@.subrange(0, v@.len() as int) =~= v@);
    crate::text::string_from_chars(out.as_slice())
}

/// The module a changed file belongs to.
fn resolve_module(mods: &Vec<(String, ModuleInfo)>, f: &String) -> (r: Option<String>)
    ensures
        r is None <==> resolve_spec(mods@, f@) is None,
        r is Some ==> resolve_spec(mods@, f@) == Some(r->0@),
{
    match first_match(mods, f, false) {
        Some(m) => Some(m),
        None => {
            let nf = normalize_separators(f);
            match first_match(mods, &nf, false) {
                Some(m) => Some(m),
                None => first_match(mods, f, true),
            }
        },
    }
}

/// The first reverse-dependency entry for `m`.
fn find_revdeps(rd: &Vec<(String, ModuleReverseDeps)>, m: &String) -> (r: Option<usize>)
    ensures
        r is None <==> find_rd(rd@, m@) < 0,
        r is Some ==> r->0 as int == find_rd(rd@, m@) && r->0 < rd@.len(),
{
    let mut i: usize = 0;
    assert(rd@.skip(0) =~= rd@);
    while i < rd.len()
        invariant
            i <= rd@.len(),
            find_rd(rd@, m@) == if find_rd(rd@.skip(i as int), m@) < 0 {
                -1
            } else {
                find_rd(rd@.skip(i as int), m@) + i
            },
        decreases rd@.len() - i,
    {
        proof {
            assert(rd@.skip(i as int)[0] == rd@[i as int]);
            assert(rd@.skip(i as int).drop_first() =~= rd@.skip(i + 1));
        }
        if rd[i].0 == *m {
            return Some(i);
        }
        i = i + 1;
    }
    assert(rd@.skip(i as int) =~= Seq::<(String, ModuleReverseDeps)>::empty());
    None
}

/// The test modules among `ts`.
fn test_modules(ts: &Vec<String>) -> (r: Vec<String>)
    ensures
        views(r@) == test_modules_of(views(ts@)),
{
    let mut r: Vec<String> = Vec::new();
    let mut i: usize = 0;
    while i < ts.len()
        invariant
            i <= ts@.len(),
            views(r@) == test_modules_of(views(ts@.subrange(0, i as int))),
        decreases ts@.len() - i,
    {
        proof {
            assert(views(ts@.subrange(0, i + 1)).drop_last() =~= views(ts@.subrange(0, i as int)));
            assert(views(ts@.subrange(0, i + 1)).last() == ts@[i as int]@);
        }
        if crate::import_graph::is_test_module(ts[i].as_str()) {
            let ghost old_r = r@;
            r.push(ts[i].clone());
            assert(views(r@) =~= views(old_r).push(ts@[i as int]@));
        }
        i = i + 1;
    }
    assert(ts@.subrange(0, ts@.len() as int) =~= ts@);
    r
}

/// The node ids of the tests in the test modules among `ts`.
fn module_ids(tests: &Vec<TestNode>, ts: &Vec<String>) -> (r: Vec<String>)
    ensures
        views(r@) == module_test_ids(tests@, views(ts@)),
{
    let mut r: Vec<String> = Vec::new();
    let mut i: usize = 0;
    while i < ts.len()
        invariant
            i <= ts@.len(),
            views(r@) == module_test_ids(tests@, views(ts@.subrange(0, i as int))),
        decreases ts@.len() - i,
    {
        proof {
            assert(views(ts@.subrange(0, i + 1)).drop_last() =~= views(ts@.subrange(0, i as int)));
            assert(views(ts@.subrange(0, i + 1)).last() == ts@[i as int]@);
        }
        if crate::import_graph::is_test_module(ts[i].as_str()) {
            let ids = ids_matching(tests, 2, ts[i].as_str());
            let ghost old_r = r@;
            append_strings(&mut r, &ids);
            assert(views(r@) =~= views(old_r) + views(ids@));
        }
        i = i + 1;
    }
    assert(ts@.subrange(0, ts@.len() as int) =~= ts@);
    r
}

/// Appends copies of `extra` to `v`.
fn append_strings(v: &mut Vec<String>, extra: &Vec<String>)
    ensures
        views(final(v)@) == views(old(v)@) + views(extra@),
{
    let ghost start = views(v@);
    let mut i: usize = 0;
    while i < extra.len()
        invariant
            i <= extra@.len(),
            views(v@) == start + views(extra@.subrange(0, i as int)),
        decreases extra@.len() - i,
    {
        let ghost before = views(v@);
        v.push(extra[i].clone());
        assert(views(v@) =~= before.push(extra@[i as int]@));
        assert(views(extra@.subrange(0, i + 1)) =~= views(extra@.subrange(0, i as int)).push(extra@[i as int]@));
        i = i + 1;
    }
    assert(extra@.subrange(0, extra@.len() as int) =~= extra@);
}

/// Adds the members of `extra` that `v` lacks, keeping `v` free of duplicates.
fn extend_distinct(v: &mut Vec<String>, extra: &Vec<String>)
    requires
        views(old(v)@).no_duplicates(),
    ensures
        views(final(v)@).no_duplicates(),
        views(final(v)@).to_set() == views(old(v)@).to_set() + views(extra@).to_set(),
{
    let ghost start = views(v@).to_set();
    let mut i: usize = 0;
    while i < extra.len()
        invariant
            i <= extra@.len(),
            views(v@).no_duplicates(),
            views(v@).to_set() == start + views(extra@.subrange(0, i as int)).to_set(),
        decreases extra@.len() - i,
    {
        let ghost before = views(v@);
        let x = &extra[i];
        if !crate::import_graph::contains_string(v, x) {
            v.push(x.clone());
            assert(views(v@) =~= before.push(x@));
        }
        proof {
            let pre = views(extra@.subrange(0, i as int));
            let post = views(extra@.subrange(0, i + 1));
            assert(post =~= pre.push(x@));
            assert(views(v@).to_set() =~= start + post.to_set()) by {
                assert forall|e: Seq<char>| views(v@).to_set().contains(e) <==> (start + post.to_set()).contains(e) by {
                    if views(v@).to_set().contains(e) {
                        let k = choose|k: int| 0 <= k < views(v@).len() && views(v@)[k] == e;
                        if k < before.len() {
                            assert(before[k] == e);
                            assert(before.to_set().contains(e));
                            if !start.contains(e) {
                                let j = choose|j: int| 0 <= j < pre.len() && pre[j] == e;
                                assert(post[j] == e);
                            }
                        } else {
                            assert(post[i as int] == e);
                        }
                    }
                    if (start + post.to_set()).contains(e) {
                        if start.contains(e) {
                            assert((start + pre.to_set()).contains(e));
                            let k = choose|k: int| 0 <= k < before.len() && before[k] == e;
                            assert(views(v@)[k] == e);
                        } else {
                            let j = choose|j: int| 0 <= j < post.len() && post[j] == e;
                            if j < i {
                                assert(pre[j] == e);
                                assert((start + pre.to_set()).contains(e));
                                let k = choose|k: int| 0 <= k < before.len() && before[k] == e;
                                assert(views(v@)[k] == e);
                            } else {
                                if before.contains(e) {
                                    let k = choose|k: int| 0 <= k < before.len() && before[k] == e;
                                    assert(views(v@)[k] == e);
                                } else {
                                    assert(views(v@)[views(v@).len() - 1] == e);
                                }
                            }
                        }
                    }
                }
            }
        }
        i = i + 1;
    }
    assert(extra@.subrange(0, extra@.len() as int) =~= extra@);
}

/// Decimal digits of `n`.
pub fn decimal_string(n: u128) -> (s: String)
    ensures
        s@ == decimal(n as nat),
    decreases n,
{
    if n < 10 {
        let mut s = String::new();
        crate::text::push_char(&mut s, digit(n));
        assert(s@ =~= seq![digit_char(n as nat)]);
        s
    } else {
        let mut s = decimal_string(n / 10);
        crate::text::push_char(&mut s, digit(n % 10));
        s
    }
}

/// The character of a decimal digit.
pub fn digit(d: u128) -> (c: char)
    requires
        d < 10,
    ensures
        c == digit_char(d as nat),
{
    if d == 0 {
        '0'
    } else if d == 1 {
        '1'
    } else if d == 2 {
        '2'
    } else if d == 3 {
        '3'
    } else if d == 4 {
        '4'
    } else if d == 5 {
        '5'
    } else if d == 6 {
        '6'
    } else if d == 7 {
        '7'
    } else if d == 8 {
        '8'
    } else {
        '9'
    }
}

/// `t` tenths with one decimal.
pub fn tenths_string(t: u128) -> (s: String)
    ensures
        s@ == tenths_text(t as nat),
{
    let mut s = decimal_string(t / 10);
    s.append(".");
    crate::text::push_char(&mut s, digit(t % 10));
    s
}

/// `num / den` as a percentage with one decimal.
pub fn percent_string(num: u64, den: u64) -> (s: String)
    ensures
        s@ == percent_text(num as nat, den as nat),
{
    if den == 0 {
        return "inf".to_string();
    }
    let n: u128 = (num as u128) * 1000;
    let d: u128 = den as u128;
    let q = n / d;
    let rem = n % d;
    let t = if 2 * rem > d || (2 * rem == d && q % 2 == 1) {
        q + 1
    } else {
        q
    };
    tenths_string(t)
}

/// The planning result the rules determine for the changed files `files`.
pub open spec fn plan_spec(
    cfg: &PlannerConfig,
    files: Seq<Seq<char>>,
    idx: &TestsIndex,
    rd: &ReverseDepsGraph,
    mm: &ModuleMap,
    ig: &ImportsGraph,
    sel: &TestSelection,
) -> bool {
    let tests = idx.tests@;
    let rdv = rd.reverse_deps@;
    let mods = mm.modules@;
    let dyns = ig.dynamic_imports@;
    let cands = all_candidates(cfg.enable_conftest_scope, tests, rdv, mods, files);
    let count = cands.to_set().len();
    let fd = first_dyn(mods, files, dyns);
    let dyn_b = cfg.enable_dynamic_import_safety && fd >= 0;
    let thr = count * 1000 > cfg.broaden_threshold_permille * tests.len();
    let dyn_reasons = if dyn_b {
        seq![ReasonView::DynamicImportDetected(dyns[fd].from_module@, dyns[fd].reason@)]
    } else {
        Seq::empty()
    };
    let thr_reasons = if thr {
        seq![ReasonView::ThresholdExceeded(count, tests.len(), cfg.broaden_threshold_permille)]
    } else {
        Seq::empty()
    };
    &&& sel.total_tests == tests.len()
    &&& if files.len() == 0 {
        &&& sel.selected_nodeids@.len() == 0
        &&& sel.selection_reasons@.len() == 0
        &&& !sel.should_broaden
        &&& sel.broaden_reason is None
    } else {
        &&& reasons_view(sel.selection_reasons@) == all_file_reasons(
            cfg.enable_conftest_scope,
            rdv,
            mods,
            files,
        ) + dyn_reasons + thr_reasons
        &&& sel.should_broaden == (dyn_b || thr)
        &&& if thr {
            sel.broaden_reason is Some && sel.broaden_reason->0@ == threshold_message(
                count,
                tests.len(),
                cfg.broaden_threshold_permille,
            )
        } else if dyn_b {
            sel.broaden_reason is Some && sel.broaden_reason->0@ == dynamic_message(
                dyns[fd].from_module@,
            )
        } else {
            sel.broaden_reason is None
        }
        &&& if dyn_b || thr {
            views(sel.selected_nodeids@) == crate::schemas::nodeids_of(tests)
        } else {
            &&& views(sel.selected_nodeids@).no_duplicates()
            &&& views(sel.selected_nodeids@).to_set() == cands.to_set()
        }
    }
}

/// Copies a list of strings.
pub fn clone_strings(v: &Vec<String>) -> (r: Vec<String>)
    ensures
        views(r@) == views(v@),
{
    let mut r: Vec<String> = Vec::new();
    append_strings(&mut r, v);
    assert(views(r@) =~= views(v@));
    r
}

/// Impact-aware test planner.
#[derive(Debug)]
pub struct TestPlanner {
    pub work_dir: String,
    pub cache_dir: String,
    pub config: PlannerConfig,
}

impl TestPlanner {
    /// A planner with the default settings.
    pub fn new(work_dir: &str, cache_dir: &str) -> (p: Self)
        ensures
            p.work_dir@ == work_dir@,
            p.cache_dir@ == cache_dir@,
            p.config.broaden_threshold_permille == 600,
            p.config.enable_dynamic_import_safety,
            p.config.enable_conftest_scope,
    {
        TestPlanner {
            work_dir: work_dir.to_string(),
            cache_dir: cache_dir.to_string(),
            config: PlannerConfig::default_config(),
        }
    }

    /// A planner with the given settings, refused when they are invalid.
    pub fn with_config(work_dir: &str, cache_dir: &str, config: PlannerConfig) -> (r: Result<
        Self,
        String,
    >)
        ensures
            r is Ok <==> config.broaden_threshold_permille <= 1000,
            r is Ok ==> r->Ok_0.config == config && r->Ok_0.work_dir@ == work_dir@
                && r->Ok_0.cache_dir@ == cache_dir@,
    {
        match config.validate() {
            Ok(()) => Ok(
                TestPlanner {
                    work_dir: work_dir.to_string(),
                    cache_dir: cache_dir.to_string(),
                    config,
                },
            ),
            Err(e) => Err(e),
        }
    }

    /// Whether a changed file is a test file.
    pub fn is_test_file(&self, file_path: &str) -> (b: bool)
        ensures
            b == is_test_file_spec(file_path@),
    {
        match crate::paths::file_name(file_path) {
            Some(n) => crate::text::str_starts_with(n.as_str(), "test_")
                || crate::text::str_ends_with(n.as_str(), "_test.py"),
            None => false,
        }
    }

    /// Selects the tests to run for the changed files.
    ///
    /// A changed test file selects its tests; a changed `conftest.py` the
    /// tests under its directory; a changed source file the tests that import
    /// its module, directly or transitively.  A dynamic import a change could
    /// affect, or a selection above the threshold, broadens to the whole suite.
    pub fn plan_test_selection(
        &self,
        changed_files: &Vec<String>,
        tests_index: &TestsIndex,
        revdeps_graph: &ReverseDepsGraph,
        module_map: &ModuleMap,
        imports_graph: &ImportsGraph,
    ) -> (r: Result<TestSelection, String>)
        ensures
            r is Ok,
            plan_spec(
                &self.config,
                views(changed_files@),
                tests_index,
                revdeps_graph,
                module_map,
                imports_graph,
                &r->Ok_0,
            ),
    {
        let cfg = &self.config;
        let tests = &tests_index.tests;
        let total = tests.len();
        let ghost files = views(changed_files@);
        let ghost rdv = revdeps_graph.reverse_deps@;
        let ghost mods = module_map.modules@;
        if changed_files.len() == 0 {
            return Ok(
                TestSelection {
                    selected_nodeids: Vec::new(),
                    total_tests: total,
                    selection_reasons: Vec::new(),
                    should_broaden: false,
                    broaden_reason: None,
                },
            );
        }
        let mut sel: Vec<String> = Vec::new();
        let mut reasons: Vec<SelectionReason> = Vec::new();
        let mut resolved: Vec<Option<String>> = Vec::new();
        let mut i: usize = 0;
        while i < changed_files.len()
            invariant
                i <= changed_files@.len(),
                files == views(changed_files@),
                rdv == revdeps_graph.reverse_deps@,
                mods == module_map.modules@,
                tests == &tests_index.tests,
                views(sel@).no_duplicates(),
                views(sel@).to_set() == all_candidates(
                    cfg.enable_conftest_scope,
                    tests@,
                    rdv,
                    mods,
                    files.subrange(0, i as int),
                ).to_set(),
                reasons_view(reasons@) == all_file_reasons(
                    cfg.enable_conftest_scope,
                    rdv,
                    mods,
                    files.subrange(0, i as int),
                ),
                resolved@.len() == i,
                forall|j: int|
                    0 <= j < i ==> (#[trigger] resolved@[j] is None <==> resolve_spec(
                        mods,
                        files[j],
                    ) is None) && (resolved@[j] is Some ==> resolve_spec(mods, files[j]) == Some(
                        resolved@[j]->0@,
                    )),
            decreases changed_files@.len() - i,
        {
            let f = &changed_files[i];
            assert(files[i as int] == f@);
            let ghost old_reasons = reasons_view(reasons@);
            let ghost r_a: Seq<ReasonView> = Seq::empty();
            let ghost r_b: Seq<ReasonView> = Seq::empty();
            let ghost r_c: Seq<ReasonView> = Seq::empty();
            let mut cand: Vec<String> = Vec::new();
            if self.is_test_file(f.as_str()) {
                cand = ids_matching(tests, 0, f.as_str());
                reasons.push(SelectionReason::TestFileChanged { path: f.clone() });
                proof {
                    r_a = seq![ReasonView::TestFileChanged(f@)];
                }
            }
            let ghost c1 = views(cand@);
            if crate::text::str_ends_with(f.as_str(), "conftest.py") && cfg.enable_conftest_scope {
                let dir = match crate::paths::parent(f.as_str()) {
                    Some(d) => d,
                    None => String::new(),
                };
                let scope = match crate::paths::parent(f.as_str()) {
                    Some(d) => d,
                    None => "root".to_string(),
                };
                let c2 = ids_matching(tests, 1, dir.as_str());
                append_strings(&mut cand, &c2);
                reasons.push(SelectionReason::ConftestChanged { path: f.clone(), scope });
                proof {
                    r_b = seq![ReasonView::ConftestChanged(f@, conftest_scope_spec(f@))];
                }
            }
            let ghost c12 = views(cand@);
            let res = resolve_module(&module_map.modules, f);
            match &res {
                Some(m) => {
                    match find_revdeps(&revdeps_graph.reverse_deps, m) {
                        Some(k) => {
                            let e = &revdeps_graph.reverse_deps[k].1;
                            assert(source_entry(rdv, mods, f@) == Some(*e));
                            append_strings(&mut cand, &e.test_dependents);
                            let c3 = module_ids(tests, &e.transitive_dependents);
                            append_strings(&mut cand, &c3);
                            let mut impacted = clone_strings(&e.test_dependents);
                            let tm = test_modules(&e.transitive_dependents);
                            append_strings(&mut impacted, &tm);
                            if impacted.len() > 0 {
                                reasons.push(
                                    SelectionReason::SourceFileChanged {
                                        path: f.clone(),
                                        impacted_modules: impacted,
                                    },
                                );
                                proof {
                                    r_c = seq![ReasonView::SourceFileChanged(f@, views(e.test_dependents@) + test_modules_of(views(e.transitive_dependents@)))];
                                }
                            }
                        },
                        None => {
                            assert(source_entry(rdv, mods, f@) is None);
                        },
                    }
                },
                None => {
                    assert(source_entry(rdv, mods, f@) is None);
                },
            }
            proof {
                assert(views(cand@) =~= file_candidates(
                    cfg.enable_conftest_scope,
                    tests@,
                    rdv,
                    mods,
                    f@,
                ));
                assert(reasons_view(reasons@) =~= old_reasons + r_a + r_b + r_c);
                assert(r_a + r_b + r_c =~= file_reasons(cfg.enable_conftest_scope, rdv, mods, f@));
                assert(files.subrange(0, i + 1).drop_last() =~= files.subrange(0, i as int));
            }
            let ghost sel_before = views(sel@);
            extend_distinct(&mut sel, &cand);
            proof {
                vstd::seq_lib::seq_to_set_distributes_over_add(
                    all_candidates(cfg.enable_conftest_scope, tests@, rdv, mods, files.subrange(0, i as int)),
                    views(cand@),
                );
            }
            resolved.push(res);
            i = i + 1;
        }
        proof {
            assert(files.subrange(0, i as int) =~= files);
        }
        let ghost cands = all_candidates(cfg.enable_conftest_scope, tests@, rdv, mods, files);
        // Dynamic imports that a change could affect broaden the selection.
        let mut dyn_hit: Option<usize> = None;
        if cfg.enable_dynamic_import_safety {
            let dyns = &imports_graph.dynamic_imports;
            let mut di: usize = 0;
            assert(dyns@.skip(0) =~= dyns@);
            while di < dyns.len()
                invariant_except_break
                    dyn_hit is None,
                invariant
                    di <= dyns@.len(),
                    dyns == &imports_graph.dynamic_imports,
                    di == dyns@.len() ==> first_dyn(mods, files, dyns@.skip(di as int)) == -1,
                    files == views(changed_files@),
                    mods == module_map.modules@,
                    resolved@.len() == files.len(),
                    forall|j: int|
                        0 <= j < files.len() ==> (#[trigger] resolved@[j] is None <==> resolve_spec(
                            mods,
                            files[j],
                        ) is None) && (resolved@[j] is Some ==> resolve_spec(mods, files[j]) == Some(
                            resolved@[j]->0@,
                        )),
                    first_dyn(mods, files, dyns@) == if first_dyn(mods, files, dyns@.skip(di as int)) < 0 {
                        -1
                    } else {
                        first_dyn(mods, files, dyns@.skip(di as int)) + di
                    },
                ensures
                    dyn_hit is Some ==> first_dyn(mods, files, dyns@) == dyn_hit->0 as int && dyn_hit->0 < dyns@.len(),
                    dyn_hit is None ==> first_dyn(mods, files, dyns@) < 0,
                decreases dyns@.len() - di,
            {
                let d = &dyns[di];
                let mut hit = false;
                let mut j: usize = 0;
                while j < resolved.len()
                    invariant
                        j <= resolved@.len(),
                        resolved@.len() == files.len(),
                        forall|jj: int|
                            0 <= jj < files.len() ==> (#[trigger] resolved@[jj] is None <==> resolve_spec(
                                mods,
                                files[jj],
                            ) is None) && (resolved@[jj] is Some ==> resolve_spec(mods, files[jj]) == Some(
                                resolved@[jj]->0@,
                            )),
                        hit ==> dyn_triggered(mods, files, *d),
                        !hit ==> forall|jj: int|
                            0 <= jj < j ==> !(#[trigger] resolve_spec(mods, files[jj]) is Some && could_affect_spec(
                                resolve_spec(mods, files[jj])->0,
                                *d,
                            )),
                    decreases resolved@.len() - j,
                {
                    if !hit {
                        match &resolved[j] {
                            Some(m) => {
                                if could_affect(m, d) {
                                    hit = true;
                                    assert(resolve_spec(mods, files[j as int]) is Some);
                                }
                            },
                            None => {},
                        }
                    }
                    j = j + 1;
                }
                proof {
                    assert(dyns@.skip(di as int)[0] == *d);
                    assert(dyns@.skip(di as int).drop_first() =~= dyns@.skip(di + 1));
                    if di + 1 == dyns@.len() {
                        assert(dyns@.skip(di + 1) =~= Seq::<DynamicImport>::empty());
                    }
                }
                if hit {
                    dyn_hit = Some(di);
                    break;
                }
                di = di + 1;
            }
        }
        let count = sel.len();
        proof {
            views(sel@).unique_seq_to_set();
        }
        let mut should_broaden = false;
        let mut broaden_reason: Option<String> = None;
        let ghost fd = first_dyn(mods, files, imports_graph.dynamic_imports@);
        let ghost dyn_b = cfg.enable_dynamic_import_safety && fd >= 0;
        let ghost file_rs = reasons_view(reasons@);
        assert(dyn_hit is Some <==> dyn_b);
        assert(count == cands.to_set().len());
        match dyn_hit {
            Some(k) => {
                let d = &imports_graph.dynamic_imports[k];
                should_broaden = true;
                let mut msg = String::new();
                msg.append("Dynamic import detected in ");
                msg.append(d.from_module.as_str());
                msg.append(" - broadening for safety");
                broaden_reason = Some(msg);
                reasons.push(
                    SelectionReason::DynamicImportDetected {
                        from_module: d.from_module.clone(),
                        reason: d.reason.clone(),
                    },
                );
            },
            None => {},
        }
        let pm = cfg.broaden_threshold_permille as u128;
        let tot = total as u128;
        assert(pm * tot <= 0xffff_ffffu128 * 0xffff_ffff_ffff_ffffu128) by (nonlinear_arith)
            requires
                pm <= 0xffff_ffffu128,
                tot <= 0xffff_ffff_ffff_ffffu128,
        ;
        let thr = (count as u128) * 1000 > pm * tot;
        if thr {
            should_broaden = true;
            let mut msg = String::new();
            msg.append("Selection threshold exceeded: ");
            let pct = percent_string(count as u64, total as u64);
            msg.append(pct.as_str());
            msg.append("% > ");
            let tp = tenths_string(cfg.broaden_threshold_permille as u128);
            msg.append(tp.as_str());
            msg.append("% - running all tests");
            broaden_reason = Some(msg);
            reasons.push(
                SelectionReason::ThresholdExceeded {
                    selected: count,
                    total,
                    threshold_permille: cfg.broaden_threshold_permille,
                },
            );
        }
        let selected = if should_broaden {
            crate::schemas::all_nodeids(tests_index)
        } else {
            sel
        };
        proof {
            let thr_s = count * 1000 > cfg.broaden_threshold_permille * tests@.len();
            assert(thr == thr_s);
            let dyns = imports_graph.dynamic_imports@;
            let dyn_reasons = if dyn_b {
                seq![ReasonView::DynamicImportDetected(dyns[fd].from_module@, dyns[fd].reason@)]
            } else {
                Seq::empty()
            };
            let thr_reasons = if thr_s {
                seq![ReasonView::ThresholdExceeded(count as nat, tests@.len(), cfg.broaden_threshold_permille)]
            } else {
                Seq::empty()
            };
            assert(reasons_view(reasons@) =~= file_rs + dyn_reasons + thr_reasons);
            assert(should_broaden == (dyn_b || thr_s));
        }
        Ok(
            TestSelection {
                selected_nodeids: selected,
                total_tests: total,
                selection_reasons: reasons,
                should_broaden,
                broaden_reason,
            },
        )
    }

    /// Selects the whole suite.
    pub fn plan_full_run(&self, tests_index: &TestsIndex) -> (s: TestSelection)
        ensures
            views(s.selected_nodeids@) == crate::schemas::nodeids_of(tests_index.tests@),
            s.total_tests == tests_index.tests@.len(),
            reasons_view(s.selection_reasons@) == seq![ReasonView::FullRun("Full test run requested"@)],
            !s.should_broaden,
            s.broaden_reason is None,
    {
        let mut reasons: Vec<SelectionReason> = Vec::new();
        reasons.push(SelectionReason::FullRun { reason: "Full test run requested".to_string() });
        assert(reasons_view(reasons@) =~= seq![ReasonView::FullRun("Full test run requested"@)]);
        TestSelection {
            selected_nodeids: crate::schemas::all_nodeids(tests_index),
            total_tests: tests_index.tests.len(),
            selection_reasons: reasons,
            should_broaden: false,
            broaden_reason: None,
        }
    }
}

/// Whether a change to module `m` could affect the dynamic import `d`.
fn could_affect(m: &String, d: &DynamicImport) -> (b: bool)
    ensures
        b == could_affect_spec(m@, *d),
{
    match &d.argument {
        Some(a) => {
            if *a == *m {
                return true;
            }
            let mut prefix = m.clone();
            prefix.append(".");
            crate::text::str_starts_with(a.as_str(), prefix.as_str())
        },
        None => true,
    }
}


/// The line(s) explaining one selection reason, numbered `rank`.
pub open spec fn reason_lines(rank: nat, r: ReasonView) -> Seq<Seq<char>> {
    let n = "  "@ + decimal(rank) + ". "@;
    match r {
        ReasonView::TestFileChanged(path) => seq![n + "Test file changed: "@ + path],
        ReasonView::SourceFileChanged(path, mods) => seq![
            n + "Source file changed: "@ + path,
            "     Impacted modules: "@ + crate::text::join(mods, ", "@),
        ],
        ReasonView::ConftestChanged(path, scope) => seq![
            n + "conftest.py changed: "@ + path + " (scope: "@ + scope + ")"@,
        ],
        ReasonView::PluginChanged(plugin) => seq![n + "Plugin changed: "@ + plugin],
        ReasonView::DynamicImportDetected(from_module, reason) => seq![
            n + "Dynamic import detected in "@ + from_module + ": "@ + reason,
        ],
        ReasonView::ThresholdExceeded(selected, total, permille) => seq![
            n + "Threshold exceeded: "@ + percent_text(selected, total) + "% > "@ + tenths_text(permille as nat)
                + "%"@,
        ],
        ReasonView::FullRun(reason) => seq![n + "Full run: "@ + reason],
    }
}

/// The explanation of all reasons, numbered from 1.
pub open spec fn all_reason_lines(rs: Seq<ReasonView>) -> Seq<Seq<char>>
    decreases rs.len(),
{
    if rs.len() == 0 {
        Seq::empty()
    } else {
        all_reason_lines(rs.drop_last()) + reason_lines(rs.len() as nat, rs.last())
    }
}

/// The lines of a selection's explanation: counts, broadening, reasons,
/// and the selected tests when there are at most 20.
pub open spec fn selection_explain_lines(s: TestSelection) -> Seq<Seq<char>> {
    let ids = views(s.selected_nodeids@);
    seq!["Test Selection Plan:"@, "  Selected: "@ + decimal(ids.len()) + " of "@ + decimal(s.total_tests as nat) + " tests"@]
        + (if s.should_broaden {
        seq!["  Broadened: Yes"@] + match s.broaden_reason {
            Some(r) => seq!["  Reason: "@ + r@],
            None => Seq::empty(),
        }
    } else {
        seq!["  Broadened: No"@]
    }) + seq![""@, "Selection Reasons:"@] + all_reason_lines(reasons_view(s.selection_reasons@)) + (if ids.len()
        == 0 {
        Seq::empty()
    } else if ids.len() <= 20 {
        seq![""@, "Selected Tests:"@] + ids.map_values(|id: Seq<char>| "  - "@ + id)
    } else {
        seq![""@, "Selected Tests: "@ + decimal(ids.len()) + " tests (too many to list)"@]
    })
}

fn push_reason_lines(out: &mut Vec<String>, rank: usize, r: &SelectionReason)
    ensures
        views(final(out)@) == views(old(out)@) + reason_lines(rank as nat, reason_view(*r)),
{
    let ghost o = views(out@);
    let mut n = "  ".to_owned();
    let d = decimal_string(rank as u128);
    n.append(d.as_str());
    n.append(". ");
    match r {
        SelectionReason::TestFileChanged { path } => {
            n.append("Test file changed: ");
            n.append(path.as_str());
            let ghost v = n@;
            out.push(n);
            assert(views(out@) =~= o + seq![v]);
        },
        SelectionReason::SourceFileChanged { path, impacted_modules } => {
            n.append("Source file changed: ");
            n.append(path.as_str());
            let ghost v = n@;
            out.push(n);
            let mut m = "     Impacted modules: ".to_owned();
            let j = crate::text::join_strings(impacted_modules, ", ");
            m.append(j.as_str());
            let ghost w = m@;
            out.push(m);
            assert(views(out@) =~= o + seq![v, w]);
        },
        SelectionReason::ConftestChanged { path, scope } => {
            n.append("conftest.py changed: ");
            n.append(path.as_str());
            n.append(" (scope: ");
            n.append(scope.as_str());
            n.append(")");
            let ghost v = n@;
            out.push(n);
            assert(views(out@) =~= o + seq![v]);
        },
        SelectionReason::PluginChanged { plugin } => {
            n.append("Plugin changed: ");
            n.append(plugin.as_str());
            let ghost v = n@;
            out.push(n);
            assert(views(out@) =~= o + seq![v]);
        },
        SelectionReason::DynamicImportDetected { from_module, reason } => {
            n.append("Dynamic import detected in ");
            n.append(from_module.as_str());
            n.append(": ");
            n.append(reason.as_str());
            let ghost v = n@;
            out.push(n);
            assert(views(out@) =~= o + seq![v]);
        },
        SelectionReason::ThresholdExceeded { selected, total, threshold_permille } => {
            n.append("Threshold exceeded: ");
            let p = percent_string(*selected as u64, *total as u64);
            n.append(p.as_str());
            n.append("% > ");
            let t = tenths_string(*threshold_permille as u128);
            n.append(t.as_str());
            n.append("%");
            let ghost v = n@;
            out.push(n);
            assert(views(out@) =~= o + seq![v]);
        },
        SelectionReason::FullRun { reason } => {
            n.append("Full run: ");
            n.append(reason.as_str());
            let ghost v = n@;
            out.push(n);
            assert(views(out@) =~= o + seq![v]);
        },
    }
}

impl TestPlanner {
    /// The explanation of a selection, its lines joined by newlines (see
    /// [`selection_explain_lines`]).
    pub fn format_explain(&self, selection: &TestSelection) -> (r: String)
        ensures
            r@ == crate::text::join(selection_explain_lines(*selection), "\n"@),
    {
        let mut out: Vec<String> = Vec::new();
        out.push("Test Selection Plan:".to_owned());
        let mut c = "  Selected: ".to_owned();
        let a = decimal_string(selection.selected_nodeids.len() as u128);
        c.append(a.as_str());
        c.append(" of ");
        let b = decimal_string(selection.total_tests as u128);
        c.append(b.as_str());
        c.append(" tests");
        let ghost cv = c@;
        out.push(c);
        let ghost head = views(out@);
        assert(head =~= seq!["Test Selection Plan:"@, cv]);
        if selection.should_broaden {
            out.push("  Broadened: Yes".to_owned());
            if let Some(r) = &selection.broaden_reason {
                let mut l = "  Reason: ".to_owned();
                l.append(r.as_str());
                let ghost lv = l@;
                out.push(l);
                assert(views(out@) =~= head + seq!["  Broadened: Yes"@, lv]);
            } else {
                assert(views(out@) =~= head + seq!["  Broadened: Yes"@]);
            }
        } else {
            out.push("  Broadened: No".to_owned());
            assert(views(out@) =~= head + seq!["  Broadened: No"@]);
        }
        let ghost bpart = if selection.should_broaden {
            seq!["  Broadened: Yes"@] + match &selection.broaden_reason {
                Some(r) => seq!["  Reason: "@ + r@],
                None => Seq::empty(),
            }
        } else {
            seq!["  Broadened: No"@]
        };
        assert(views(out@) =~= head + bpart);
        let ghost o2 = views(out@);
        out.push("".to_owned());
        out.push("Selection Reasons:".to_owned());
        let ghost base = views(out@);
        assert(base =~= o2 + seq![""@, "Selection Reasons:"@]);
        let ghost rs = reasons_view(selection.selection_reasons@);
        let mut i: usize = 0;
        assert(rs.take(0) =~= Seq::<ReasonView>::empty());
        while i < selection.selection_reasons.len()
            invariant
                i <= selection.selection_reasons@.len(),
                rs == reasons_view(selection.selection_reasons@),
                views(out@) == base + all_reason_lines(rs.take(i as int)),
            decreases selection.selection_reasons@.len() - i,
        {
            push_reason_lines(&mut out, i + 1, &selection.selection_reasons[i]);
            assert(rs.take(i + 1).drop_last() =~= rs.take(i as int));
            assert(rs.take(i + 1).last() == reason_view(selection.selection_reasons@[i as int]));
            assert(views(out@) =~= base + all_reason_lines(rs.take(i + 1)));
            i = i + 1;
        }
        assert(rs.take(selection.selection_reasons@.len() as int) =~= rs);
        let ghost mid = views(out@);
        let n = selection.selected_nodeids.len();
        let ghost ids = views(selection.selected_nodeids@);
        if n > 0 && n <= 20 {
            out.push("".to_owned());
            out.push("Selected Tests:".to_owned());
            let ghost b2 = views(out@);
            let mut j: usize = 0;
            while j < n
                invariant
                    j <= n,
                    n == selection.selected_nodeids@.len(),
                    ids == views(selection.selected_nodeids@),
                    views(out@) == b2 + ids.take(j as int).map_values(|id: Seq<char>| "  - "@ + id),
                decreases n - j,
            {
                let mut l = "  - ".to_owned();
                l.append(selection.selected_nodeids[j].as_str());
                let ghost lv = l@;
                let ghost o = views(out@);
                out.push(l);
                assert(views(out@) =~= o.push(lv));
                assert(ids.take(j + 1).map_values(|id: Seq<char>| "  - "@ + id) =~= ids.take(j as int).map_values(
                    |id: Seq<char>| "  - "@ + id,
                ).push("  - "@ + ids[j as int]));
                j = j + 1;
            }
            assert(ids.take(n as int) =~= ids);
            assert(views(out@) =~= mid + seq![""@, "Selected Tests:"@] + ids.map_values(|id: Seq<char>| "  - "@ + id));
        } else if n > 20 {
            out.push("".to_owned());
            let mut l = "Selected Tests: ".to_owned();
            let d = decimal_string(n as u128);
            l.append(d.as_str());
            l.append(" tests (too many to list)");
            let ghost lv = l@;
            out.push(l);
            assert(views(out@) =~= mid + seq![""@, lv]);
        } else {
            assert(views(out@) =~= mid + Seq::<Seq<char>>::empty());
        }
        assert(views(out@) =~= selection_explain_lines(*selection));
        crate::text::join_strings(&out, "\n")
    }
}

proof fn lemma_ids_where_has(tests: Seq<TestNode>, mode: int, key: Seq<char>, t: int)
    requires
        0 <= t < tests.len(),
        test_matches(tests[t], mode, key),
    ensures
        ids_where(tests, mode, key).contains(tests[t].nodeid@),
    decreases tests.len(),
{
    let prev = ids_where(tests.drop_last(), mode, key);
    if t == tests.len() - 1 {
        assert(ids_where(tests, mode, key) == prev.push(tests.last().nodeid@));
        assert(ids_where(tests, mode, key)[prev.len() as int] == tests[t].nodeid@);
    } else {
        assert(tests.drop_last()[t] == tests[t]);
        lemma_ids_where_has(tests.drop_last(), mode, key, t);
        let k = choose|k: int| 0 <= k < prev.len() && prev[k] == tests[t].nodeid@;
        if test_matches(tests.last(), mode, key) {
            assert(ids_where(tests, mode, key)[k] == prev[k]);
        }
    }
}

proof fn lemma_all_candidates_has(
    cs: bool,
    tests: Seq<TestNode>,
    rd: Seq<(String, ModuleReverseDeps)>,
    mods: Seq<(String, ModuleInfo)>,
    files: Seq<Seq<char>>,
    j: int,
    x: Seq<char>,
)
    requires
        0 <= j < files.len(),
        file_candidates(cs, tests, rd, mods, files[j]).contains(x),
    ensures
        all_candidates(cs, tests, rd, mods, files).contains(x),
    decreases files.len(),
{
    let prev = all_candidates(cs, tests, rd, mods, files.drop_last());
    let last = file_candidates(cs, tests, rd, mods, files.last());
    if j == files.len() - 1 {
        let k = choose|k: int| 0 <= k < last.len() && last[k] == x;
        assert((prev + last)[prev.len() + k] == x);
    } else {
        assert(files.drop_last()[j] == files[j]);
        lemma_all_candidates_has(cs, tests, rd, mods, files.drop_last(), j, x);
        let k = choose|k: int| 0 <= k < prev.len() && prev[k] == x;
        assert((prev + last)[k] == x);
    }
}

/// Impact selection never misses the tests of a changed test file: each of
/// them is selected, whether the selection stayed narrow or was broadened
/// to the whole suite.
pub proof fn lemma_changed_test_file_selected(
    cfg: PlannerConfig,
    files: Seq<Seq<char>>,
    idx: TestsIndex,
    rd: ReverseDepsGraph,
    mm: ModuleMap,
    ig: ImportsGraph,
    sel: TestSelection,
    j: int,
    t: int,
)
    requires
        plan_spec(&cfg, files, &idx, &rd, &mm, &ig, &sel),
        0 <= j < files.len(),
        0 <= t < idx.tests@.len(),
        is_test_file_spec(files[j]),
        idx.tests@[t].path@ == files[j],
    ensures
        views(sel.selected_nodeids@).contains(idx.tests@[t].nodeid@),
{
    let tests = idx.tests@;
    let x = tests[t].nodeid@;
    let f = files[j];
    lemma_ids_where_has(tests, 0, f, t);
    let r1 = ids_where(tests, 0, f);
    let r2 = if has_suffix(f, "conftest.py"@) && cfg.enable_conftest_scope {
        ids_where(tests, 1, conftest_dir_spec(f))
    } else {
        Seq::empty()
    };
    let fc = file_candidates(cfg.enable_conftest_scope, tests, rd.reverse_deps@, mm.modules@, f);
    let k = choose|k: int| 0 <= k < r1.len() && r1[k] == x;
    assert(fc == r1 + r2 + rule3_ids(tests, rd.reverse_deps@, mm.modules@, f));
    assert(fc[k] == x);
    lemma_all_candidates_has(cfg.enable_conftest_scope, tests, rd.reverse_deps@, mm.modules@, files, j, x);
    let cands = all_candidates(cfg.enable_conftest_scope, tests, rd.reverse_deps@, mm.modules@, files);
    let sv = views(sel.selected_nodeids@);
    if sv == crate::schemas::nodeids_of(tests) {
        assert(sv[t] == x);
    } else {
        assert(cands.to_set().contains(x));
        assert(sv.to_set().contains(x));
    }
}

/// Impact selection never misses a test that depends on the module of a
/// changed source file: it is selected, or the selection was broadened to
/// the whole suite.
pub proof fn lemma_dependent_test_selected(
    cfg: PlannerConfig,
    files: Seq<Seq<char>>,
    idx: TestsIndex,
    rd: ReverseDepsGraph,
    mm: ModuleMap,
    ig: ImportsGraph,
    sel: TestSelection,
    j: int,
    e: ModuleReverseDeps,
    k: int,
)
    requires
        plan_spec(&cfg, files, &idx, &rd, &mm, &ig, &sel),
        0 <= j < files.len(),
        source_entry(rd.reverse_deps@, mm.modules@, files[j]) == Some(e),
        0 <= k < e.test_dependents@.len(),
    ensures
        sel.should_broaden || views(sel.selected_nodeids@).contains(e.test_dependents@[k]@),
{
    let tests = idx.tests@;
    let f = files[j];
    let x = e.test_dependents@[k]@;
    let r3 = rule3_ids(tests, rd.reverse_deps@, mm.modules@, f);
    assert(r3 == views(e.test_dependents@) + module_test_ids(tests, views(e.transitive_dependents@)));
    assert(r3[k] == x);
    let r1 = if is_test_file_spec(f) {
        ids_where(tests, 0, f)
    } else {
        Seq::empty()
    };
    let r2 = if has_suffix(f, "conftest.py"@) && cfg.enable_conftest_scope {
        ids_where(tests, 1, conftest_dir_spec(f))
    } else {
        Seq::empty()
    };
    let fc = file_candidates(cfg.enable_conftest_scope, tests, rd.reverse_deps@, mm.modules@, f);
    assert(fc == r1 + r2 + r3);
    assert(fc[r1.len() + r2.len() + k] == x);
    lemma_all_candidates_has(cfg.enable_conftest_scope, tests, rd.reverse_deps@, mm.modules@, files, j, x);
    let cands = all_candidates(cfg.enable_conftest_scope, tests, rd.reverse_deps@, mm.modules@, files);
    if !sel.should_broaden {
        assert(cands.to_set().contains(x));
        assert(views(sel.selected_nodeids@).to_set().contains(x));
    }
}


/// A changed file is a test file exactly when its name starts with `test_`
/// or ends with `_test.py`, whatever directory it lies in (or none).
pub proof fn lemma_test_file_names(d: Seq<char>, n: Seq<char>)
    requires
        n.len() > 0,
        forall|i: int| 0 <= i < n.len() ==> n[i] != '/',
        n != "."@,
    ensures
        is_test_file_spec(d + "/"@ + n) <==> (has_prefix(n, "test_"@) || has_suffix(n, "_test.py"@)),
        is_test_file_spec(n) <==> (has_prefix(n, "test_"@) || has_suffix(n, "_test.py"@)),
{
    reveal_strlit("..");
    reveal_strlit("test_");
    reveal_strlit("_test.py");
    crate::paths::lemma_file_name_of_join(d, n);
}

/// Impact selection runs every test of a changed file named `test_…` or
/// `…_test.py`: each test whose path is that file is selected.
pub proof fn lemma_changed_named_test_file_selected(
    cfg: PlannerConfig,
    files: Seq<Seq<char>>,
    idx: TestsIndex,
    rd: ReverseDepsGraph,
    mm: ModuleMap,
    ig: ImportsGraph,
    sel: TestSelection,
    j: int,
    t: int,
    d: Seq<char>,
    n: Seq<char>,
)
    requires
        plan_spec(&cfg, files, &idx, &rd, &mm, &ig, &sel),
        0 <= j < files.len(),
        files[j] == d + "/"@ + n || files[j] == n,
        forall|i: int| 0 <= i < n.len() ==> n[i] != '/',
        has_prefix(n, "test_"@) || has_suffix(n, "_test.py"@),
        0 <= t < idx.tests@.len(),
        idx.tests@[t].path@ == files[j],
    ensures
        views(sel.selected_nodeids@).contains(idx.tests@[t].nodeid@),
{
    reveal_strlit(".");
    reveal_strlit("test_");
    reveal_strlit("_test.py");
    assert(n.len() >= 5);
    assert(n != "."@);
    lemma_test_file_names(d, n);
    lemma_changed_test_file_selected(cfg, files, idx, rd, mm, ig, sel, j, t);
}

} // verus!
