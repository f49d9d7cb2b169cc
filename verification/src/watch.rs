//! Watch-mode decisions: which file events count, debouncing of changes,
//! the glob patterns of ignored files, and what a run reports.
use crate::order::views;
use crate::text::{first_index_of, has_prefix, has_substr, has_suffix, last_index_of, split_on};
use vstd::prelude::*;

verus! {

/// Watch settings; times are in milliseconds.
#[derive(Debug)]
pub struct WatchConfig {
    pub debounce_delay_ms: u64,
    pub max_wait_time_ms: u64,
    pub ignore_dirs: Vec<String>,
    pub ignore_patterns: Vec<String>,
    pub respect_gitignore: bool,
    pub enable_tui: bool,
    pub verbose: bool,
}

/// The directories ignored out of the box.
pub open spec fn default_ignore_dirs() -> Seq<Seq<char>> {
    seq![
        ".git"@, ".veri"@, "__pycache__"@, ".pytest_cache"@, "node_modules"@, ".venv"@, "venv"@,
        ".env"@, "env"@, "htmlcov"@, "reports"@, "target"@, "build"@, "dist"@, ".mypy_cache"@,
        ".ruff_cache"@,
    ]
}

/// The file patterns ignored out of the box.
pub open spec fn default_ignore_patterns() -> Seq<Seq<char>> {
    seq![
        "*.pyc"@, "*.pyo"@, "*.pyd"@, "*.so"@, "*.egg-info"@, "*.coverage"@, "*.log"@, "*.tmp"@,
        "*.swp"@, "*.swo"@, "*~"@, ".DS_Store"@, "Thumbs.db"@,
    ]
}

fn push_all(v: &mut Vec<String>, items: &[&str])
    ensures
        views(final(v)@) == views(old(v)@) + items@.map_values(|s: &str| s@),
{
    let mut i: usize = 0;
    while i < items.len()
        invariant
            i <= items@.len(),
            views(v@) == views(old(v)@) + items@.subrange(0, i as int).map_values(|s: &str| s@),
        decreases items@.len() - i,
    {
        let ghost v0 = views(v@);
        v.push(items[i].to_owned());
        assert(views(v@) =~= v0.push(items@[i as int]@));
        assert(items@.subrange(0, i + 1).map_values(|s: &str| s@) =~= items@.subrange(0, i as int).map_values(
            |s: &str| s@,
        ).push(items@[i as int]@));
        i = i + 1;
    }
    assert(items@.subrange(0, items@.len() as int) =~= items@);
}

impl WatchConfig {
    /// 150 ms debounce, 500 ms longest wait, the usual build, cache and
    /// environment directories and temporary files ignored, `.gitignore`
    /// respected, terminal UI on, quiet.
    pub fn default_config() -> (c: Self)
        ensures
            c.debounce_delay_ms == 150,
            c.max_wait_time_ms == 500,
            views(c.ignore_dirs@) == default_ignore_dirs(),
            views(c.ignore_patterns@) == default_ignore_patterns(),
            c.respect_gitignore,
            c.enable_tui,
            !c.verbose,
    {
        let mut dirs: Vec<String> = Vec::new();
        let dir_list: [&str; 16] = [
            ".git", ".veri", "__pycache__", ".pytest_cache", "node_modules", ".venv", "venv", ".env",
            "env", "htmlcov", "reports", "target", "build", "dist", ".mypy_cache", ".ruff_cache",
        ];
        push_all(&mut dirs, &dir_list);
        let mut pats: Vec<String> = Vec::new();
        let pat_list: [&str; 13] = [
            "*.pyc", "*.pyo", "*.pyd", "*.so", "*.egg-info", "*.coverage", "*.log", "*.tmp", "*.swp",
            "*.swo", "*~", ".DS_Store", "Thumbs.db",
        ];
        push_all(&mut pats, &pat_list);
        assert(views(dirs@) =~= default_ignore_dirs());
        assert(views(pats@) =~= default_ignore_patterns());
        WatchConfig {
            debounce_delay_ms: 150,
            max_wait_time_ms: 500,
            ignore_dirs: dirs,
            ignore_patterns: pats,
            respect_gitignore: true,
            enable_tui: true,
            verbose: false,
        }
    }
}

impl Default for WatchConfig {
    fn default() -> (c: Self)
        ensures
            c.debounce_delay_ms == 150,
            c.max_wait_time_ms == 500,
            views(c.ignore_dirs@) == default_ignore_dirs(),
            views(c.ignore_patterns@) == default_ignore_patterns(),
            c.respect_gitignore,
            c.enable_tui,
            !c.verbose,
    {
        Self::default_config()
    }
}

/// The simple glob patterns of the ignore list: an exact name, `*x*`
/// (contains), `*x` (suffix), `x*` (prefix), or `x*y` with one star
/// (prefix and suffix); other patterns match only themselves.
pub open spec fn glob_spec(p: Seq<char>, t: Seq<char>) -> bool {
    if p == t {
        true
    } else if first_index_of(p, '*') < 0 {
        false
    } else if p[0] == '*' && p.len() >= 2 && p.last() == '*' {
        has_substr(t, p.subrange(1, p.len() - 1))
    } else if p[0] == '*' {
        has_suffix(t, p.subrange(1, p.len() as int))
    } else if p.last() == '*' {
        has_prefix(t, p.subrange(0, p.len() - 1))
    } else if first_index_of(p, '*') == last_index_of(p, '*') {
        let k = first_index_of(p, '*');
        has_prefix(t, p.subrange(0, k)) && has_suffix(t, p.subrange(k + 1, p.len() as int))
    } else {
        false
    }
}

/// The debouncer reports its changes at `now_ms`: it holds some, and the
/// newest is at least the debounce delay old or the first at least the
/// longest wait old (times before a change count as no time passed).
pub open spec fn fires(d: FileChangeDebouncer, now_ms: u64) -> bool {
    let cs = changes_view(d.changes@);
    cs.len() > 0 && d.first_change_time_ms is Some && ((if now_ms >= latest(cs) {
        now_ms - latest(cs)
    } else {
        0
    }) >= d.debounce_delay_ms || (if now_ms >= d.first_change_time_ms->0 {
        now_ms - d.first_change_time_ms->0
    } else {
        0
    }) >= d.max_wait_time_ms)
}

/// Changes are reported once: a debouncer holding no changes (as one is
/// after reporting) does not fire, whatever the time.
pub proof fn lemma_reported_changes_are_not_repeated(d: FileChangeDebouncer, now_ms: u64)
    requires
        d.changes@.len() == 0,
    ensures
        !fires(d, now_ms),
{
}

/// A pattern without wildcards matches exactly itself.
pub proof fn lemma_glob_literal(p: Seq<char>, t: Seq<char>)
    requires
        first_index_of(p, '*') < 0,
    ensures
        glob_spec(p, t) <==> p == t,
{
}

/// `*suffix` (with no other wildcard) matches exactly the texts that end
/// with `suffix`.
pub proof fn lemma_glob_suffix(suffix: Seq<char>, t: Seq<char>)
    requires
        !crate::text::has_char(suffix, '*'),
    ensures
        glob_spec(seq!['*'] + suffix, t) <==> has_suffix(t, suffix),
{
    let p = seq!['*'] + suffix;
    assert(p[0] == '*');
    assert(p.subrange(1, p.len() as int) =~= suffix);
    if p.len() >= 2 {
        assert(p.last() == suffix.last());
        assert(suffix[suffix.len() - 1] == suffix.last());
        if suffix.last() == '*' {
            assert(crate::text::has_char(suffix, '*'));
        }
    }
    if p == t {
        assert(t.subrange(t.len() - suffix.len(), t.len() as int) =~= suffix);
    }
}

/// Index of the first `c` in the slice.
fn first_index(v: &[char], c: char) -> (r: Option<usize>)
    ensures
        match r {
            Some(k) => k as int == first_index_of(v@, c),
            None => first_index_of(v@, c) == -1,
        },
{
    let mut i: usize = 0;
    while i < v.len()
        invariant
            i <= v@.len(),
            forall|j: int| 0 <= j < i ==> v@[j] != c,
        decreases v@.len() - i,
    {
        if v[i] == c {
            proof {
                lemma_first_index_at(v@, c, i as int);
            }
            return Some(i);
        }
        i = i + 1;
    }
    proof {
        lemma_first_index_none(v@, c);
    }
    None
}

proof fn lemma_first_index_at(s: Seq<char>, c: char, i: int)
    requires
        0 <= i < s.len(),
        s[i] == c,
        forall|j: int| 0 <= j < i ==> s[j] != c,
    ensures
        first_index_of(s, c) == i,
    decreases i,
{
    if i > 0 {
        assert forall|j: int| 0 <= j < i - 1 implies s.drop_first()[j] != c by {
            assert(s.drop_first()[j] == s[j + 1]);
        }
        lemma_first_index_at(s.drop_first(), c, i - 1);
    }
}

proof fn lemma_first_index_none(s: Seq<char>, c: char)
    requires
        forall|j: int| 0 <= j < s.len() ==> s[j] != c,
    ensures
        first_index_of(s, c) == -1,
    decreases s.len(),
{
    if s.len() > 0 {
        assert forall|j: int| 0 <= j < s.len() - 1 implies s.drop_first()[j] != c by {
            assert(s.drop_first()[j] == s[j + 1]);
        }
        lemma_first_index_none(s.drop_first(), c);
    }
}

/// Index of the last `c` in the slice.
fn last_index(v: &[char], c: char) -> (r: Option<usize>)
    ensures
        match r {
            Some(k) => k as int == last_index_of(v@, c),
            None => last_index_of(v@, c) == -1,
        },
{
    let mut i: usize = v.len();
    assert(v@.take(i as int) =~= v@);
    while i > 0
        invariant
            i <= v@.len(),
            last_index_of(v@, c) == last_index_of(v@.take(i as int), c),
        decreases i,
    {
        proof {
            assert(v@.take(i as int).drop_last() =~= v@.take(i - 1));
            assert(v@.take(i as int).last() == v@[i - 1]);
        }
        if v[i - 1] == c {
            return Some(i - 1);
        }
        i = i - 1;
    }
    None
}

/// Whether the file name or path matches the pattern (see [`glob_spec`]).
pub fn glob_match(pattern: &str, text: &str) -> (r: bool)
    ensures
        r == glob_spec(pattern@, text@),
{
    if crate::text::str_eq(pattern, text) {
        return true;
    }
    let p = crate::text::chars_of(pattern);
    let first = match first_index(p.as_slice(), '*') {
        Some(k) => k,
        None => {
            return false;
        },
    };
    let n = p.len();
    if p[0] == '*' && n >= 2 && p[n - 1] == '*' {
        let mid = crate::text::string_from_chars(&p.as_slice()[1..n - 1]);
        assert(mid@ =~= pattern@.subrange(1, pattern@.len() - 1));
        return crate::text::str_contains(text, mid.as_str());
    }
    if p[0] == '*' {
        let suf = crate::text::string_from_chars(&p.as_slice()[1..n]);
        assert(suf@ =~= pattern@.subrange(1, pattern@.len() as int));
        return crate::text::str_ends_with(text, suf.as_str());
    }
    if p[n - 1] == '*' {
        let pre = crate::text::string_from_chars(&p.as_slice()[0..n - 1]);
        assert(pre@ =~= pattern@.subrange(0, pattern@.len() - 1));
        return crate::text::str_starts_with(text, pre.as_str());
    }
    let last = last_index(p.as_slice(), '*');
    match last {
        Some(l) => {
            if first == l {
                proof {
                    crate::text::lemma_last_index_bounds(pattern@, '*');
                }
                let pre = crate::text::string_from_chars(&p.as_slice()[0..first]);
                let suf = crate::text::string_from_chars(&p.as_slice()[first + 1..n]);
                assert(pre@ =~= pattern@.subrange(0, first as int));
                assert(suf@ =~= pattern@.subrange(first + 1, pattern@.len() as int));
                return crate::text::str_starts_with(text, pre.as_str()) && crate::text::str_ends_with(
                    text,
                    suf.as_str(),
                );
            }
            false
        },
        None => false,
    }
}

/// A change to one file, at a time in milliseconds of a monotonic clock.
#[derive(Debug)]
pub struct FileChangeEvent {
    pub path: String,
    pub timestamp_ms: u64,
}

/// A pending change as values.
pub open spec fn change_view(e: FileChangeEvent) -> (Seq<char>, u64) {
    (e.path@, e.timestamp_ms)
}

pub open spec fn changes_view(es: Seq<FileChangeEvent>) -> Seq<(Seq<char>, u64)> {
    es.map_values(|e: FileChangeEvent| change_view(e))
}

/// The pending changes without those for `path`.
pub open spec fn without_path(cs: Seq<(Seq<char>, u64)>, path: Seq<char>) -> Seq<(Seq<char>, u64)> {
    cs.filter(|c: (Seq<char>, u64)| c.0 != path)
}

/// Latest time among the pending changes (0 when there are none).
pub open spec fn latest(cs: Seq<(Seq<char>, u64)>) -> u64
    decreases cs.len(),
{
    if cs.len() == 0 {
        0
    } else {
        let m = latest(cs.drop_last());
        if cs.last().1 > m {
            cs.last().1
        } else {
            m
        }
    }
}

/// Collects file changes until they settle: a batch is released once no
/// change came for the debounce delay, or the first change is older than
/// the longest wait.
#[derive(Debug)]
pub struct FileChangeDebouncer {
    pub changes: Vec<FileChangeEvent>,
    pub debounce_delay_ms: u64,
    pub max_wait_time_ms: u64,
    pub first_change_time_ms: Option<u64>,
}

impl FileChangeDebouncer {
    /// An empty debouncer.
    pub fn new(debounce_delay_ms: u64, max_wait_time_ms: u64) -> (d: Self)
        ensures
            d.changes@.len() == 0,
            d.first_change_time_ms is None,
            d.debounce_delay_ms == debounce_delay_ms,
            d.max_wait_time_ms == max_wait_time_ms,
    {
        FileChangeDebouncer {
            changes: Vec::new(),
            debounce_delay_ms,
            max_wait_time_ms,
            first_change_time_ms: None,
        }
    }

    /// Records a change: an earlier pending change of the same file is
    /// dropped and this one goes last; the first change time is kept.
    pub fn add_change(&mut self, change: FileChangeEvent)
        ensures
            changes_view(final(self).changes@) == without_path(changes_view(old(self).changes@), change.path@).push(
                change_view(change),
            ),
            final(self).first_change_time_ms == match old(self).first_change_time_ms {
                Some(t) => Some(t),
                None => Some(change.timestamp_ms),
            },
            final(self).debounce_delay_ms == old(self).debounce_delay_ms,
            final(self).max_wait_time_ms == old(self).max_wait_time_ms,
    {
        if self.first_change_time_ms.is_none() {
            self.first_change_time_ms = Some(change.timestamp_ms);
        }
        let ghost old_cs = changes_view(self.changes@);
        let ghost f = |c: (Seq<char>, u64)| c.0 != change.path@;
        let mut kept: Vec<FileChangeEvent> = Vec::new();
        let mut i: usize = 0;
        while i < self.changes.len()
            invariant
                i <= self.changes@.len(),
                old_cs == changes_view(self.changes@),
                f == (|c: (Seq<char>, u64)| c.0 != change.path@),
                changes_view(kept@) == changes_view(self.changes@).subrange(0, i as int).filter(f),
            decreases self.changes@.len() - i,
        {
            let c = &self.changes[i];
            proof {
                let pre = old_cs.subrange(0, i as int);
                let post = old_cs.subrange(0, i + 1);
                assert(post.drop_last() =~= pre);
                assert(post.last() == change_view(*c));
                reveal(Seq::filter);
            }
            if !crate::text::str_eq(c.path.as_str(), change.path.as_str()) {
                let ghost k0 = changes_view(kept@);
                kept.push(FileChangeEvent { path: c.path.clone(), timestamp_ms: c.timestamp_ms });
                assert(changes_view(kept@) =~= k0.push(change_view(*c)));
            }
            i = i + 1;
        }
        assert(old_cs.subrange(0, old_cs.len() as int) =~= old_cs);
        let ghost k1 = changes_view(kept@);
        let ghost cv = change_view(change);
        kept.push(change);
        assert(changes_view(kept@) =~= k1.push(cv));
        self.changes = kept;
    }

    /// Releases the pending files, in order, once no change came for the
    /// debounce delay or the first change is older than the longest wait
    /// (times before a change count as no time passed); the debouncer is
    /// then empty.  Otherwise nothing changes.
    pub fn should_trigger(&mut self, now_ms: u64) -> (r: Option<Vec<String>>)
        ensures
            ({
                let cs = changes_view(old(self).changes@);
                if fires(*old(self), now_ms) {
                    &&& r is Some
                    &&& views(r->0@) == cs.map_values(|c: (Seq<char>, u64)| c.0)
                    &&& final(self).changes@.len() == 0
                    &&& final(self).first_change_time_ms is None
                } else {
                    &&& r is None
                    &&& changes_view(final(self).changes@) == cs
                    &&& final(self).first_change_time_ms == old(self).first_change_time_ms
                }
            }),
            final(self).debounce_delay_ms == old(self).debounce_delay_ms,
            final(self).max_wait_time_ms == old(self).max_wait_time_ms,
    {
        if self.changes.len() == 0 {
            return None;
        }
        let first = match self.first_change_time_ms {
            Some(t) => t,
            None => {
                return None;
            },
        };
        let ghost cs = changes_view(self.changes@);
        let mut last: u64 = 0;
        let mut paths: Vec<String> = Vec::new();
        let mut i: usize = 0;
        while i < self.changes.len()
            invariant
                i <= self.changes@.len(),
                cs == changes_view(self.changes@),
                last == latest(cs.subrange(0, i as int)),
                views(paths@) == cs.subrange(0, i as int).map_values(|c: (Seq<char>, u64)| c.0),
            decreases self.changes@.len() - i,
        {
            proof {
                let pre = cs.subrange(0, i as int);
                let post = cs.subrange(0, i + 1);
                assert(post.drop_last() =~= pre);
                assert(post.last() == cs[i as int]);
            }
            if self.changes[i].timestamp_ms > last {
                last = self.changes[i].timestamp_ms;
            }
            let ghost p0 = views(paths@);
            paths.push(self.changes[i].path.clone());
            proof {
                assert(cs[i as int].0 == self.changes@[i as int].path@);
                assert(views(paths@) =~= p0.push(cs[i as int].0));
                assert(cs.subrange(0, i + 1).map_values(|c: (Seq<char>, u64)| c.0) =~= cs.subrange(
                    0,
                    i as int,
                ).map_values(|c: (Seq<char>, u64)| c.0).push(cs[i as int].0));
            }
            i = i + 1;
        }
        assert(cs.subrange(0, cs.len() as int) =~= cs);
        let since_last: u64 = if now_ms >= last { now_ms - last } else { 0 };
        let since_first: u64 = if now_ms >= first { now_ms - first } else { 0 };
        if since_last >= self.debounce_delay_ms || since_first >= self.max_wait_time_ms {
            self.reset();
            Some(paths)
        } else {
            None
        }
    }

    /// Drops all pending changes.
    pub fn reset(&mut self)
        ensures
            final(self).changes@.len() == 0,
            final(self).first_change_time_ms is None,
            final(self).debounce_delay_ms == old(self).debounce_delay_ms,
            final(self).max_wait_time_ms == old(self).max_wait_time_ms,
    {
        self.changes = Vec::new();
        self.first_change_time_ms = None;
    }
}

/// The components of a `/`-separated relative path: the pieces that are
/// neither empty nor `.`.
pub open spec fn path_components(p: Seq<char>) -> Seq<Seq<char>> {
    split_on(p, '/').filter(|s: Seq<char>| s.len() > 0 && s != "."@)
}

/// `Path::extension` of a file name: what follows the last `.`, unless
/// that dot starts the name or there is none.
pub open spec fn extension_of(name: Seq<char>) -> Option<Seq<char>> {
    let k = last_index_of(name, '.');
    if k <= 0 || name == ".."@ {
        None
    } else {
        Some(name.subrange(k + 1, name.len() as int))
    }
}

/// A Python source file: extension `py`, or named `conftest.py`.
pub open spec fn is_python_name(name: Seq<char>) -> bool {
    extension_of(name) == Some("py"@) || name == "conftest.py"@
}

impl WatchConfig {
    /// Whether a change of the file at `relative_path` (its path below the
    /// watched directory, none when outside it) should trigger tests: a
    /// Python file, no component an ignored directory, no ignore pattern
    /// matching the path, and not ignored by `.gitignore`.
    pub open spec fn processes(&self, relative_path: Option<Seq<char>>, gitignored: bool) -> bool {
        match relative_path {
            None => false,
            Some(rel) => {
                let comps = path_components(rel);
                &&& comps.len() > 0
                &&& is_python_name(comps.last())
                &&& forall|i: int| 0 <= i < comps.len() ==> !views(self.ignore_dirs@).contains(#[trigger] comps[i])
                &&& forall|i: int|
                    0 <= i < self.ignore_patterns@.len() ==> !glob_spec(#[trigger] self.ignore_patterns@[i]@, rel)
                &&& !gitignored
            },
        }
    }

    /// Whether a changed file should trigger tests (see [`WatchConfig::processes`]).
    pub fn should_process_file(&self, relative_path: Option<&str>, gitignored: bool) -> (r: bool)
        ensures
            r == self.processes(
                match relative_path {
                    Some(p) => Some(p@),
                    None => None,
                },
                gitignored,
            ),
    {
        let rel = match relative_path {
            Some(p) => p,
            None => {
                return false;
            },
        };
        let pieces = crate::text::split_char(rel, '/');
        let ghost ps = views(pieces@);
        let ghost keep = |s: Seq<char>| s.len() > 0 && s != "."@;
        let mut comps: Vec<String> = Vec::new();
        let mut i: usize = 0;
        while i < pieces.len()
            invariant
                i <= pieces@.len(),
                ps == views(pieces@),
                keep == (|s: Seq<char>| s.len() > 0 && s != "."@),
                views(comps@) == ps.subrange(0, i as int).filter(keep),
            decreases pieces@.len() - i,
        {
            proof {
                let pre = ps.subrange(0, i as int);
                let post = ps.subrange(0, i + 1);
                assert(post.drop_last() =~= pre);
                assert(post.last() == pieces@[i as int]@);
                reveal(Seq::filter);
            }
            if pieces[i].as_str().unicode_len() > 0 && !crate::text::str_eq(pieces[i].as_str(), ".") {
                let ghost c0 = views(comps@);
                comps.push(pieces[i].clone());
                assert(views(comps@) =~= c0.push(pieces@[i as int]@));
            }
            i = i + 1;
        }
        assert(ps.subrange(0, ps.len() as int) =~= ps);
        let ghost cv = views(comps@);
        assert(cv == path_components(rel@));
        if comps.len() == 0 {
            return false;
        }
        let name = &comps[comps.len() - 1];
        if !is_python_file_name(name.as_str()) {
            return false;
        }
        let mut j: usize = 0;
        while j < comps.len()
            invariant
                j <= comps@.len(),
                cv == views(comps@),
                cv == path_components(rel@),
                relative_path == Some(rel),
                forall|k: int| 0 <= k < j ==> !views(self.ignore_dirs@).contains(#[trigger] cv[k]),
            decreases comps@.len() - j,
        {
            if crate::import_graph::contains_string(&self.ignore_dirs, &comps[j]) {
                assert(views(self.ignore_dirs@).contains(cv[j as int]));
                return false;
            }
            j = j + 1;
        }
        let mut k: usize = 0;
        while k < self.ignore_patterns.len()
            invariant
                k <= self.ignore_patterns@.len(),
                relative_path == Some(rel),
                forall|q: int| 0 <= q < k ==> !glob_spec(#[trigger] self.ignore_patterns@[q]@, rel@),
            decreases self.ignore_patterns@.len() - k,
        {
            if glob_match(self.ignore_patterns[k].as_str(), rel) {
                assert(glob_spec(self.ignore_patterns@[k as int]@, rel@));
                return false;
            }
            k = k + 1;
        }
        !gitignored
    }
}

/// Whether the file name is a Python source file (see [`is_python_name`]).
fn is_python_file_name(name: &str) -> (r: bool)
    ensures
        r == is_python_name(name@),
{
    if crate::text::str_eq(name, "conftest.py") {
        return true;
    }
    let cs = crate::text::chars_of(name);
    proof {
        crate::text::lemma_last_index_bounds(name@, '.');
    }
    match last_index(cs.as_slice(), '.') {
        Some(k) => {
            if k == 0 || crate::text::str_eq(name, "..") {
                return false;
            }
            let ext = crate::text::string_from_chars(&cs.as_slice()[k + 1..cs.len()]);
            assert(ext@ =~= name@.subrange(k + 1, name@.len() as int));
            crate::text::str_eq(ext.as_str(), "py")
        },
        None => false,
    }
}

/// What a watch-triggered run did; the duration is in milliseconds.
#[derive(Debug)]
pub struct TestRunResult {
    pub duration_ms: u64,
    pub tests_run: usize,
    pub failures: usize,
    pub exit_code: i32,
    pub changed_files: Vec<String>,
    pub selected_tests: Vec<String>,
    pub was_broadened: bool,
    pub broaden_reason: Option<String>,
}

/// How a watch-triggered run went.
#[derive(Debug)]
pub enum WatchRunOutcome {
    /// The tests could not be collected.
    CollectionFailed { error: String },
    /// Impact analysis failed; every collected test is selected.
    PlanningFailed { error: String, all_tests: Vec<String> },
    /// A selection was planned; when it is not empty the tests ran, with
    /// this exit code (none when they could not be started).
    Planned { selection: crate::planner::TestSelection, exit_code: Option<i32> },
}

/// The result of a watch-triggered run for its outcome.
pub open spec fn run_result_spec(r: TestRunResult, changed: Seq<Seq<char>>, duration_ms: u64, outcome: WatchRunOutcome) -> bool {
    &&& r.duration_ms == duration_ms
    &&& views(r.changed_files@) == changed
    &&& match outcome {
        WatchRunOutcome::CollectionFailed { error } => {
            &&& r.tests_run == 0 && r.failures == 0 && r.exit_code == 0
            &&& r.selected_tests@.len() == 0
            &&& !r.was_broadened
            &&& r.broaden_reason is Some && r.broaden_reason->0@ == "Test collection failed: "@ + error@
        },
        WatchRunOutcome::PlanningFailed { error, all_tests } => {
            &&& r.tests_run == all_tests@.len() && r.failures == 0 && r.exit_code == 0
            &&& views(r.selected_tests@) == views(all_tests@)
            &&& r.was_broadened
            &&& r.broaden_reason is Some && r.broaden_reason->0@ == "Impact analysis failed, running all tests: "@
                + error@
        },
        WatchRunOutcome::Planned { selection, exit_code } => if selection.selected_nodeids@.len() == 0 {
            &&& r.tests_run == 0 && r.failures == 0 && r.exit_code == 0
            &&& r.selected_tests@.len() == 0
            &&& !r.was_broadened
            &&& r.broaden_reason is None
        } else {
            let code: i32 = match exit_code {
                Some(c) => c,
                None => -1i32,
            };
            &&& r.tests_run == selection.selected_nodeids@.len()
            &&& r.exit_code == code
            &&& r.failures == if code == 0 { 0usize } else { 1usize }
            &&& views(r.selected_tests@) == views(selection.selected_nodeids@)
            &&& r.was_broadened == selection.should_broaden
            &&& crate::compatibility::opt_view(r.broaden_reason) == crate::compatibility::opt_view(
                selection.broaden_reason,
            )
        },
    }
}

/// Builds the result of a watch-triggered run (see [`run_result_spec`]).
pub fn watch_run_result(changed_files: Vec<String>, duration_ms: u64, outcome: WatchRunOutcome) -> (r: TestRunResult)
    ensures
        run_result_spec(r, views(changed_files@), duration_ms, outcome),
{
    match outcome {
        WatchRunOutcome::CollectionFailed { error } => {
            let mut m = "Test collection failed: ".to_owned();
            m.append(error.as_str());
            TestRunResult {
                duration_ms,
                tests_run: 0,
                failures: 0,
                exit_code: 0,
                changed_files,
                selected_tests: Vec::new(),
                was_broadened: false,
                broaden_reason: Some(m),
            }
        },
        WatchRunOutcome::PlanningFailed { error, all_tests } => {
            let mut m = "Impact analysis failed, running all tests: ".to_owned();
            m.append(error.as_str());
            TestRunResult {
                duration_ms,
                tests_run: all_tests.len(),
                failures: 0,
                exit_code: 0,
                changed_files,
                selected_tests: all_tests,
                was_broadened: true,
                broaden_reason: Some(m),
            }
        },
        WatchRunOutcome::Planned { selection, exit_code } => {
            if selection.selected_nodeids.len() == 0 {
                return TestRunResult {
                    duration_ms,
                    tests_run: 0,
                    failures: 0,
                    exit_code: 0,
                    changed_files,
                    selected_tests: Vec::new(),
                    was_broadened: false,
                    broaden_reason: None,
                };
            }
            let code: i32 = match exit_code {
                Some(c) => c,
                None => -1,
            };
            TestRunResult {
                duration_ms,
                tests_run: selection.selected_nodeids.len(),
                failures: if code == 0 {
                    0
                } else {
                    1
                },
                exit_code: code,
                changed_files,
                selected_tests: selection.selected_nodeids,
                was_broadened: selection.should_broaden,
                broaden_reason: selection.broaden_reason,
            }
        },
    }
}

/// `p` below the directory `dir`, as `Path::strip_prefix` gives it for
/// `/`-separated paths: empty for the directory itself, none outside it.
pub open spec fn below_dir(dir: Seq<char>, p: Seq<char>) -> Option<Seq<char>> {
    let d = if dir.len() > 0 && dir.last() == '/' { dir } else { dir.push('/') };
    if p == dir {
        Some(Seq::empty())
    } else if has_prefix(p, d) {
        Some(p.skip(d.len() as int))
    } else {
        None
    }
}

/// Backslashes turned into forward slashes.
pub open spec fn forward_slashes(p: Seq<char>) -> Seq<char> {
    p.map_values(|c: char| if c == '\\' { '/' } else { c })
}

/// The changed paths below the directory, in order, with forward slashes.
pub open spec fn relative_changes(dir: Seq<char>, ps: Seq<Seq<char>>) -> Seq<Seq<char>>
    decreases ps.len(),
{
    if ps.len() == 0 {
        Seq::empty()
    } else {
        let rest = relative_changes(dir, ps.drop_last());
        match below_dir(dir, ps.last()) {
            Some(r) => rest.push(forward_slashes(r)),
            None => rest,
        }
    }
}

/// The changed files as paths below the watched directory, with forward
/// slashes; files outside it are left out.
pub fn relative_change_paths(work_dir: &str, paths: &Vec<String>) -> (r: Vec<String>)
    ensures
        views(r@) == relative_changes(work_dir@, views(paths@)),
{
    let w = crate::text::chars_of(work_dir);
    let mut d: Vec<char> = w.clone();
    if !(w.len() > 0 && w[w.len() - 1] == '/') {
        d.push('/');
    }
    let dstr = crate::text::string_from_chars(d.as_slice());
    assert(dstr@ =~= (if work_dir@.len() > 0 && work_dir@.last() == '/' { work_dir@ } else { work_dir@.push('/') }));
    let ghost ps = views(paths@);
    let mut r: Vec<String> = Vec::new();
    let mut i: usize = 0;
    while i < paths.len()
        invariant
            i <= paths@.len(),
            ps == views(paths@),
            dstr@ == d@,
            dstr@ == (if work_dir@.len() > 0 && work_dir@.last() == '/' { work_dir@ } else { work_dir@.push('/') }),
            views(r@) == relative_changes(work_dir@, ps.subrange(0, i as int)),
        decreases paths@.len() - i,
    {
        proof {
            let pre = ps.subrange(0, i as int);
            let post = ps.subrange(0, i + 1);
            assert(post.drop_last() =~= pre);
            assert(post.last() == paths@[i as int]@);
        }
        let p = paths[i].as_str();
        let ghost r0 = views(r@);
        if crate::text::str_eq(p, work_dir) {
            r.push(String::new());
            assert(forward_slashes(Seq::<char>::empty()) =~= Seq::<char>::empty());
            assert(views(r@) =~= r0.push(forward_slashes(Seq::empty())));
        } else if crate::text::str_starts_with(p, dstr.as_str()) {
            let pc = crate::text::chars_of(p);
            let mut out: Vec<char> = Vec::new();
            let mut j: usize = d.len();
            while j < pc.len()
                invariant
                    d@.len() <= j <= pc@.len(),
                    pc@ == p@,
                    out@ == forward_slashes(p@.subrange(d@.len() as int, j as int)),
                decreases pc@.len() - j,
            {
                let c = pc[j];
                out.push(if c == '\\' { '/' } else { c });
                assert(out@ =~= forward_slashes(p@.subrange(d@.len() as int, j + 1)));
                j = j + 1;
            }
            let s = crate::text::string_from_chars(out.as_slice());
            assert(p@.subrange(d@.len() as int, pc@.len() as int) =~= p@.skip(d@.len() as int));
            r.push(s);
            assert(views(r@) =~= r0.push(s@));
        }
        i = i + 1;
    }
    assert(ps.subrange(0, ps.len() as int) =~= ps);
    r
}

/// The lines printed after a run: outcome, broadening, changed files when
/// verbose, and the waiting notice.
pub open spec fn summary_text(
    exit_code: i32,
    tests_run: nat,
    duration_ms: nat,
    was_broadened: bool,
    reason: Option<Seq<char>>,
    changed: Seq<Seq<char>>,
    verbose: bool,
) -> Seq<Seq<char>> {
    seq![
        (if exit_code == 0 { "✅"@ } else { "❌"@ }) + " "@ + crate::planner::decimal(tests_run)
            + " tests completed in "@ + crate::planner::decimal(duration_ms) + "ms"@,
    ] + (if was_broadened && reason is Some {
        seq!["⚠️  Selection broadened: "@ + reason->0]
    } else {
        Seq::empty()
    }) + (if verbose && changed.len() > 0 {
        seq!["📁 Changed files:"@] + changed.map_values(|f: Seq<char>| "   "@ + f)
    } else {
        Seq::empty()
    }) + seq!["👀 Watching for changes..."@]
}

/// The lines printed after a run (see [`summary_text`]).
pub fn run_summary_lines(result: &TestRunResult, verbose: bool) -> (r: Vec<String>)
    ensures
        views(r@) == summary_text(
            result.exit_code,
            result.tests_run as nat,
            result.duration_ms as nat,
            result.was_broadened,
            crate::compatibility::opt_view(result.broaden_reason),
            views(result.changed_files@),
            verbose,
        ),
{
    let mut r: Vec<String> = Vec::new();
    let mut m = (if result.exit_code == 0 { "✅" } else { "❌" }).to_owned();
    m.append(" ");
    let n = crate::planner::decimal_string(result.tests_run as u128);
    m.append(n.as_str());
    m.append(" tests completed in ");
    let d = crate::planner::decimal_string(result.duration_ms as u128);
    m.append(d.as_str());
    m.append("ms");
    assert(m@ =~= (if result.exit_code == 0 { "✅"@ } else { "❌"@ }) + " "@ + crate::planner::decimal(
        result.tests_run as nat,
    ) + " tests completed in "@ + crate::planner::decimal(result.duration_ms as nat) + "ms"@);
    r.push(m);
    let ghost r1 = views(r@);
    assert(r1 =~= seq![m@]);
    if result.was_broadened {
        match &result.broaden_reason {
            Some(reason) => {
                let mut m = "⚠️  Selection broadened: ".to_owned();
                m.append(reason.as_str());
                r.push(m);
                assert(views(r@) =~= r1.push(m@));
            },
            None => {},
        }
    }
    let ghost r2 = views(r@);
    if verbose && result.changed_files.len() > 0 {
        r.push("📁 Changed files:".to_owned());
        let ghost r3 = views(r@);
        assert(r3 =~= r2.push("📁 Changed files:"@));
        let mut i: usize = 0;
        while i < result.changed_files.len()
            invariant
                i <= result.changed_files@.len(),
                views(r@) == r3 + views(result.changed_files@).subrange(0, i as int).map_values(
                    |f: Seq<char>| "   "@ + f,
                ),
            decreases result.changed_files@.len() - i,
        {
            let mut m = "   ".to_owned();
            m.append(result.changed_files[i].as_str());
            let ghost r4 = views(r@);
            r.push(m);
            assert(views(r@) =~= r4.push(m@));
            assert(views(result.changed_files@).subrange(0, i + 1).map_values(|f: Seq<char>| "   "@ + f)
                =~= views(result.changed_files@).subrange(0, i as int).map_values(|f: Seq<char>| "   "@ + f).push(m@));
            i = i + 1;
        }
        assert(views(result.changed_files@).subrange(0, result.changed_files@.len() as int) =~= views(result.changed_files@));
    }
    let ghost r5 = views(r@);
    r.push("👀 Watching for changes...".to_owned());
    assert(views(r@) =~= r5.push("👀 Watching for changes..."@));
    assert(views(r@) =~= summary_text(
        result.exit_code,
        result.tests_run as nat,
        result.duration_ms as nat,
        result.was_broadened,
        crate::compatibility::opt_view(result.broaden_reason),
        views(result.changed_files@),
        verbose,
    ));
    r
}

/// The terminal display of watch mode.  Its raw-mode handling and output
/// live with the program; here are the texts it shows.
#[derive(Debug)]
pub struct WatchTui {}

impl WatchTui {
    pub fn new() -> (r: Result<Self, String>)
        ensures
            r is Ok,
    {
        Ok(WatchTui {})
    }

    /// Nothing to refresh between events.
    pub fn update(&mut self) -> (r: Result<(), String>)
        ensures
            r is Ok,
    {
        Ok(())
    }

    /// The greeting shown when watching starts.
    pub fn initial_status_lines(&self, work_dir: &str) -> (r: Vec<String>)
        ensures
            views(r@) == seq![
                "👀 veri watch mode"@,
                "📁 Monitoring: "@ + work_dir@,
                "⚡ Ready for changes (press Ctrl+C to stop)"@,
                Seq::<char>::empty(),
            ],
    {
        let mut r: Vec<String> = Vec::new();
        r.push("👀 veri watch mode".to_owned());
        let mut m = "📁 Monitoring: ".to_owned();
        m.append(work_dir);
        r.push(m);
        r.push("⚡ Ready for changes (press Ctrl+C to stop)".to_owned());
        r.push(String::new());
        assert(views(r@) =~= seq![
            "👀 veri watch mode"@,
            "📁 Monitoring: "@ + work_dir@,
            "⚡ Ready for changes (press Ctrl+C to stop)"@,
            Seq::<char>::empty(),
        ]);
        r
    }

    /// The progress text shown when a run starts (without a line break).
    pub fn run_starting_text(&self, changed_count: usize) -> (r: String)
        ensures
            r@ == "\r🔄 Running tests for "@ + crate::planner::decimal(changed_count as nat) + " changed file(s)... "@,
    {
        let mut m = "\r🔄 Running tests for ".to_owned();
        let n = crate::planner::decimal_string(changed_count as u128);
        m.append(n.as_str());
        m.append(" changed file(s)... ");
        m
    }

    /// The lines shown when a run completed.
    pub fn run_completed_lines(&self, result: &TestRunResult) -> (r: Vec<String>)
        ensures
            views(r@) == seq![
                "\r"@ + (if result.exit_code == 0 { "✅"@ } else { "❌"@ }) + " "@ + crate::planner::decimal(
                    result.tests_run as nat,
                ) + " tests in "@ + crate::planner::decimal(result.duration_ms as nat) + "ms"@,
            ] + (if result.was_broadened {
                seq!["⚠️  Selection broadened"@]
            } else {
                Seq::empty()
            }) + seq!["👀 Watching for changes..."@],
    {
        let mut r: Vec<String> = Vec::new();
        let mut m = "\r".to_owned();
        m.append(if result.exit_code == 0 { "✅" } else { "❌" });
        m.append(" ");
        let n = crate::planner::decimal_string(result.tests_run as u128);
        m.append(n.as_str());
        m.append(" tests in ");
        let d = crate::planner::decimal_string(result.duration_ms as u128);
        m.append(d.as_str());
        m.append("ms");
        r.push(m);
        if result.was_broadened {
            r.push("⚠️  Selection broadened".to_owned());
        }
        r.push("👀 Watching for changes...".to_owned());
        assert(views(r@) =~= seq![
            "\r"@ + (if result.exit_code == 0 { "✅"@ } else { "❌"@ }) + " "@ + crate::planner::decimal(
                result.tests_run as nat,
            ) + " tests in "@ + crate::planner::decimal(result.duration_ms as nat) + "ms"@,
        ] + (if result.was_broadened {
            seq!["⚠️  Selection broadened"@]
        } else {
            Seq::empty()
        }) + seq!["👀 Watching for changes..."@]);
        r
    }

    /// The lines shown when a run failed.
    pub fn error_lines(&self, error: &str) -> (r: Vec<String>)
        ensures
            views(r@) == seq!["\r❌ Error: "@ + error@, "👀 Watching for changes..."@],
    {
        let mut r: Vec<String> = Vec::new();
        let mut m = "\r❌ Error: ".to_owned();
        m.append(error);
        r.push(m);
        r.push("👀 Watching for changes...".to_owned());
        assert(views(r@) =~= seq!["\r❌ Error: "@ + error@, "👀 Watching for changes..."@]);
        r
    }
}

} // verus!