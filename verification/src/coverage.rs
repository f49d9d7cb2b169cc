//! Incremental coverage: configuration of the Python coverage tool, merging
//! of line coverage keyed by file digest, and the LCOV report.  Reading and
//! writing the files is left to the program.  Coverage percentages are in
//! hundredths of a percent.
use crate::order::views;
use crate::planner::decimal;
use crate::execution::signed_decimal;
use crate::paths::{file_name_spec, parent_spec};
use crate::planner::digit_char;
use crate::python_worker::joined;
use crate::text::{join, last_index_of};
use vstd::prelude::*;

verus! {

/// Report formats.
#[derive(Debug, Clone, Copy, PartialEq, Eq, Structural)]
pub enum CoverageFormat {
    Xml,
    Html,
    Json,
    Lcov,
}

/// When and with what coverage was collected.
#[derive(Debug)]
pub struct CoverageMetadata {
    pub timestamp: String,
    pub python_version: String,
    pub coverage_version: String,
    pub incremental: bool,
}

/// Coverage settings.
#[derive(Debug)]
pub struct CoverageConfig {
    pub enabled: bool,
    pub merge_full: bool,
    pub output_formats: Vec<CoverageFormat>,
    pub output_dir: String,
    pub source_dirs: Vec<String>,
    pub omit_patterns: Vec<String>,
}

/// The patterns left out of coverage by default.
pub open spec fn default_omit() -> Seq<Seq<char>> {
    seq!["*/tests/*"@, "*/test_*"@, "*/__pycache__/*"@, "*/venv/*"@, "*/.venv/*"@]
}

fn default_omit_patterns() -> (v: Vec<String>)
    ensures
        views(v@) == default_omit(),
{
    let mut v: Vec<String> = Vec::new();
    v.push("*/tests/*".to_owned());
    v.push("*/test_*".to_owned());
    v.push("*/__pycache__/*".to_owned());
    v.push("*/venv/*".to_owned());
    v.push("*/.venv/*".to_owned());
    assert(views(v@) =~= default_omit());
    v
}

impl CoverageConfig {
    /// Off, XML reports into `reports`, sources in `src`, tests, caches and
    /// virtual environments left out.
    pub fn default_config() -> (c: Self)
        ensures
            !c.enabled && !c.merge_full,
            c.output_formats@ == seq![CoverageFormat::Xml],
            c.output_dir@ == "reports"@,
            views(c.source_dirs@) == seq!["src"@],
            views(c.omit_patterns@) == default_omit(),
    {
        let mut formats: Vec<CoverageFormat> = Vec::new();
        formats.push(CoverageFormat::Xml);
        let mut src: Vec<String> = Vec::new();
        src.push("src".to_owned());
        assert(views(src@) =~= seq!["src"@]);
        assert(formats@ =~= seq![CoverageFormat::Xml]);
        CoverageConfig {
            enabled: false,
            merge_full: false,
            output_formats: formats,
            output_dir: "reports".to_owned(),
            source_dirs: src,
            omit_patterns: default_omit_patterns(),
        }
    }
}

impl Default for CoverageConfig {
    fn default() -> (c: Self)
        ensures
            !c.enabled && !c.merge_full,
            c.output_formats@ == seq![CoverageFormat::Xml],
            c.output_dir@ == "reports"@,
            views(c.source_dirs@) == seq!["src"@],
            views(c.omit_patterns@) == default_omit(),
    {
        Self::default_config()
    }
}

/// Coverage of one file.
#[derive(Debug)]
pub struct FileCoverage {
    pub digest: String,
    pub covered_lines: Vec<u32>,
    pub total_lines: u32,
    pub coverage_percent_hundredths: u128,
}

/// Coverage of a project: files, each path once, and metadata.
#[derive(Debug)]
pub struct CoverageMap {
    pub files: Vec<(String, FileCoverage)>,
    pub metadata: CoverageMetadata,
}

/// The `.coveragerc` the runner writes for the Python coverage tool.
pub open spec fn coveragerc(sources: Seq<Seq<char>>, omit: Seq<Seq<char>>) -> Seq<char> {
    "[run]\n"@ + "branch = True\n"@ + "parallel = True\n"@ + "data_file = .veri/cache/.coverage\n"@ + (
    if sources.len() > 0 {
        "source = "@ + join(sources, ", "@) + "\n"@
    } else {
        Seq::empty()
    }) + (if omit.len() > 0 {
        "omit = "@ + join(omit, ", "@) + "\n"@
    } else {
        Seq::empty()
    }) + "\n[report]\n"@ + "skip_covered = False\n"@ + "skip_empty = True\n"@
}

/// The lines sorted in increasing order.
pub open spec fn lines_sorted(s: Seq<u32>) -> bool {
    forall|i: int, j: int| 0 <= i < j < s.len() ==> s[i] <= s[j]
}

/// The delta's lines that the base lacks, each once, in order.
pub open spec fn new_lines(base: Seq<u32>, delta: Seq<u32>) -> Seq<u32>
    decreases delta.len(),
{
    if delta.len() == 0 {
        Seq::empty()
    } else {
        let rest = new_lines(base, delta.drop_last());
        let x = delta.last();
        if base.contains(x) || rest.contains(x) {
            rest
        } else {
            rest.push(x)
        }
    }
}

/// Covered lines as a percentage of the total, in hundredths, rounded down
/// (0 without lines).
pub open spec fn percent_hundredths(covered: nat, total: nat) -> nat {
    if total > 0 {
        covered * 10000 / total
    } else {
        0
    }
}

/// Sorts the lines in place.
fn sort_lines(v: &mut Vec<u32>)
    ensures
        lines_sorted(final(v)@),
        final(v)@.to_multiset() == old(v)@.to_multiset(),
{
    let mut out: Vec<u32> = Vec::new();
    let mut i: usize = 0;
    assert(out@ =~= v@.subrange(0, 0));
    while i < v.len()
        invariant
            i <= v@.len(),
            v@ == old(v)@,
            lines_sorted(out@),
            out@.to_multiset() == v@.subrange(0, i as int).to_multiset(),
        decreases v@.len() - i,
    {
        let x = v[i];
        let mut p: usize = 0;
        while p < out.len()
            invariant
                p <= out@.len(),
                forall|a: int| 0 <= a < p ==> out@[a] <= x,
            ensures
                p <= out@.len(),
                forall|a: int| 0 <= a < p ==> out@[a] <= x,
                p < out@.len() ==> x < out@[p as int],
            decreases out@.len() - p,
        {
            if x < out[p] {
                break;
            }
            p = p + 1;
        }
        let ghost o0 = out@;
        out.insert(p, x);
        proof {
            assert(out@ =~= o0.insert(p as int, x));
            vstd::seq_lib::to_multiset_insert(o0, p as int, x);
            assert(v@.subrange(0, i + 1) =~= v@.subrange(0, i as int).push(x));
            vstd::seq_lib::to_multiset_build(v@.subrange(0, i as int), x);
            assert forall|a: int, b: int| 0 <= a < b < out@.len() implies out@[a] <= out@[b] by {
                if b < p {
                } else if b == p {
                } else if a < p {
                    assert(out@[b] == o0[b - 1]);
                } else if a == p {
                    assert(out@[b] == o0[b - 1]);
                } else {
                    assert(out@[a] == o0[a - 1] && out@[b] == o0[b - 1]);
                }
            }
        }
        i = i + 1;
    }
    assert(v@.subrange(0, v@.len() as int) =~= v@);
    *v = out;
}

/// Whether the line is in the list.
fn has_line(v: &Vec<u32>, x: u32) -> (r: bool)
    ensures
        r == v@.contains(x),
{
    let mut i: usize = 0;
    while i < v.len()
        invariant
            i <= v@.len(),
            forall|k: int| 0 <= k < i ==> v@[k] != x,
        decreases v@.len() - i,
    {
        if v[i] == x {
            return true;
        }
        i = i + 1;
    }
    false
}

/// Coverage of a file measured twice with the same digest: the lines of
/// either, sorted; the larger total; the percentage recomputed; the newer
/// digest.
pub fn merge_file_coverage(base: &FileCoverage, delta: &FileCoverage) -> (r: FileCoverage)
    ensures
        r.digest@ == delta.digest@,
        lines_sorted(r.covered_lines@),
        r.covered_lines@.to_multiset() == (base.covered_lines@ + new_lines(
            base.covered_lines@,
            delta.covered_lines@,
        )).to_multiset(),
        r.total_lines == if base.total_lines > delta.total_lines { base.total_lines } else { delta.total_lines },
        r.coverage_percent_hundredths as nat == percent_hundredths(r.covered_lines@.len(), r.total_lines as nat),
{
    let mut lines: Vec<u32> = Vec::new();
    let mut i: usize = 0;
    while i < base.covered_lines.len()
        invariant
            i <= base.covered_lines@.len(),
            lines@ == base.covered_lines@.subrange(0, i as int),
        decreases base.covered_lines@.len() - i,
    {
        lines.push(base.covered_lines[i]);
        assert(lines@ =~= base.covered_lines@.subrange(0, i + 1));
        i = i + 1;
    }
    assert(base.covered_lines@.subrange(0, base.covered_lines@.len() as int) =~= base.covered_lines@);
    let ghost b = base.covered_lines@;
    let ghost d = delta.covered_lines@;
    let mut j: usize = 0;
    while j < delta.covered_lines.len()
        invariant
            j <= d.len(),
            b == base.covered_lines@,
            d == delta.covered_lines@,
            lines@ == b + new_lines(b, d.subrange(0, j as int)),
            new_lines(b, d.subrange(0, j as int)).len() <= j,
        decreases d.len() - j,
    {
        let x = delta.covered_lines[j];
        proof {
            let sub = d.subrange(0, j + 1);
            assert(sub.drop_last() =~= d.subrange(0, j as int));
            assert(sub.last() == x);
            let nl = new_lines(b, d.subrange(0, j as int));
            assert((b + nl).contains(x) <==> (b.contains(x) || nl.contains(x))) by {
                if (b + nl).contains(x) {
                    let k = choose|k: int| 0 <= k < (b + nl).len() && (b + nl)[k] == x;
                    if k >= b.len() {
                        assert(nl[k - b.len()] == x);
                    }
                }
                if b.contains(x) {
                    let k = choose|k: int| 0 <= k < b.len() && b[k] == x;
                    assert((b + nl)[k] == x);
                }
                if nl.contains(x) {
                    let k = choose|k: int| 0 <= k < nl.len() && nl[k] == x;
                    assert((b + nl)[k + b.len()] == x);
                }
            }
        }
        if !has_line(&lines, x) {
            lines.push(x);
            assert(lines@ =~= b + new_lines(b, d.subrange(0, j + 1)));
        }
        j = j + 1;
    }
    assert(d.subrange(0, d.len() as int) =~= d);
    let ghost before = lines@;
    sort_lines(&mut lines);
    proof {
        vstd::seq_lib::to_multiset_len(before);
        vstd::seq_lib::to_multiset_len(lines@);
    }
    let total = if base.total_lines > delta.total_lines { base.total_lines } else { delta.total_lines };
    let pct: u128 = if total > 0 {
        let n = lines.len() as u128;
        n * 10000 / (total as u128)
    } else {
        0
    };
    FileCoverage { digest: delta.digest.clone(), covered_lines: lines, total_lines: total, coverage_percent_hundredths: pct }
}

/// A copy of a file's coverage.
fn copy_file_coverage(f: &FileCoverage) -> (r: FileCoverage)
    ensures
        r.digest@ == f.digest@,
        r.covered_lines@ == f.covered_lines@,
        r.total_lines == f.total_lines,
        r.coverage_percent_hundredths == f.coverage_percent_hundredths,
{
    let mut lines: Vec<u32> = Vec::new();
    let mut i: usize = 0;
    while i < f.covered_lines.len()
        invariant
            i <= f.covered_lines@.len(),
            lines@ == f.covered_lines@.subrange(0, i as int),
        decreases f.covered_lines@.len() - i,
    {
        lines.push(f.covered_lines[i]);
        assert(lines@ =~= f.covered_lines@.subrange(0, i + 1));
        i = i + 1;
    }
    assert(f.covered_lines@.subrange(0, f.covered_lines@.len() as int) =~= f.covered_lines@);
    FileCoverage {
        digest: f.digest.clone(),
        covered_lines: lines,
        total_lines: f.total_lines,
        coverage_percent_hundredths: f.coverage_percent_hundredths,
    }
}

/// Index of the file `path` in the map, -1 when absent.
pub open spec fn file_index(fs: Seq<(String, FileCoverage)>, path: Seq<char>) -> int
    decreases fs.len(),
{
    if fs.len() == 0 {
        -1
    } else if fs.last().0@ == path {
        fs.len() - 1
    } else {
        file_index(fs.drop_last(), path)
    }
}

/// The LCOV record of one file.
pub open spec fn lcov_record(path: Seq<char>, f: FileCoverage) -> Seq<char> {
    "SF:"@ + path + "\n"@ + da_lines(f.covered_lines@) + "LF:"@ + decimal(f.total_lines as nat) + "\n"@ + "LH:"@
        + decimal(f.covered_lines@.len()) + "\n"@ + "end_of_record\n"@
}

/// One `DA:<line>,1` line per covered line.
pub open spec fn da_lines(ls: Seq<u32>) -> Seq<char>
    decreases ls.len(),
{
    if ls.len() == 0 {
        Seq::empty()
    } else {
        da_lines(ls.drop_last()) + "DA:"@ + decimal(ls.last() as nat) + ",1\n"@
    }
}

/// The LCOV report of the files, in order.
pub open spec fn lcov_text(fs: Seq<(String, FileCoverage)>) -> Seq<char>
    decreases fs.len(),
{
    if fs.len() == 0 {
        Seq::empty()
    } else {
        lcov_text(fs.drop_last()) + lcov_record(fs.last().0@, fs.last().1)
    }
}

/// The LCOV report of a coverage map (see [`lcov_text`]).
pub fn generate_lcov(map: &CoverageMap) -> (r: String)
    ensures
        r@ == lcov_text(map.files@),
{
    let mut r = String::new();
    let mut i: usize = 0;
    while i < map.files.len()
        invariant
            i <= map.files@.len(),
            r@ == lcov_text(map.files@.subrange(0, i as int)),
        decreases map.files@.len() - i,
    {
        let (path, f) = (&map.files[i].0, &map.files[i].1);
        let ghost r0 = r@;
        r.append("SF:");
        r.append(path.as_str());
        r.append("\n");
        let mut k: usize = 0;
        let ghost r1 = r@;
        while k < f.covered_lines.len()
            invariant
                k <= f.covered_lines@.len(),
                r@ == r1 + da_lines(f.covered_lines@.subrange(0, k as int)),
            decreases f.covered_lines@.len() - k,
        {
            r.append("DA:");
            let d = crate::planner::decimal_string(f.covered_lines[k] as u128);
            r.append(d.as_str());
            r.append(",1\n");
            proof {
                let sub = f.covered_lines@.subrange(0, k + 1);
                assert(sub.drop_last() =~= f.covered_lines@.subrange(0, k as int));
                assert(r@ =~= r1 + da_lines(sub));
            }
            k = k + 1;
        }
        assert(f.covered_lines@.subrange(0, f.covered_lines@.len() as int) =~= f.covered_lines@);
        r.append("LF:");
        let t = crate::planner::decimal_string(f.total_lines as u128);
        r.append(t.as_str());
        r.append("\n");
        r.append("LH:");
        let h = crate::planner::decimal_string(f.covered_lines.len() as u128);
        r.append(h.as_str());
        r.append("\n");
        r.append("end_of_record\n");
        proof {
            let sub = map.files@.subrange(0, i + 1);
            assert(sub.drop_last() =~= map.files@.subrange(0, i as int));
            assert(sub.last() == map.files@[i as int]);
            assert(r@ =~= r0 + lcov_record(path@, *f));
        }
        i = i + 1;
    }
    assert(map.files@.subrange(0, map.files@.len() as int) =~= map.files@);
    r
}

/// Each path occurs once.
pub open spec fn keys_unique(fs: Seq<(String, FileCoverage)>) -> bool {
    forall|a: int, b: int| 0 <= a < b < fs.len() ==> fs[a].0@ != fs[b].0@
}

/// Two entries with the same path, digest, lines and totals.
pub open spec fn same_file(x: (String, FileCoverage), y: (String, FileCoverage)) -> bool {
    &&& x.0@ == y.0@
    &&& x.1.digest@ == y.1.digest@
    &&& x.1.covered_lines@ == y.1.covered_lines@
    &&& x.1.total_lines == y.1.total_lines
    &&& x.1.coverage_percent_hundredths == y.1.coverage_percent_hundredths
}

/// `r` is the coverage of a file measured as `b`, then as `d` with the same
/// digest (see [`merge_file_coverage`]).
pub open spec fn merged_file(r: FileCoverage, b: FileCoverage, d: FileCoverage) -> bool {
    &&& r.digest@ == d.digest@
    &&& lines_sorted(r.covered_lines@)
    &&& r.covered_lines@.to_multiset() == (b.covered_lines@ + new_lines(b.covered_lines@, d.covered_lines@)).to_multiset()
    &&& r.total_lines == if b.total_lines > d.total_lines { b.total_lines } else { d.total_lines }
    &&& r.coverage_percent_hundredths as nat == percent_hundredths(r.covered_lines@.len(), r.total_lines as nat)
}

/// `r` is `files` after merging in one delta entry `d`: a file with the
/// same path and digest gets the merged coverage, one whose digest changed
/// gets the delta's, and a new path is added at the end.
pub open spec fn merge_step(files: Seq<(String, FileCoverage)>, d: (String, FileCoverage), r: Seq<(String, FileCoverage)>) -> bool {
    let k = file_index(files, d.0@);
    if k >= 0 {
        &&& r.len() == files.len()
        &&& forall|q: int| 0 <= q < files.len() && q != k ==> same_file(#[trigger] r[q], files[q])
        &&& r[k].0@ == d.0@
        &&& if files[k].1.digest@ == d.1.digest@ {
            merged_file(r[k].1, files[k].1, d.1)
        } else {
            same_file(r[k], d)
        }
    } else {
        &&& r.len() == files.len() + 1
        &&& forall|q: int| 0 <= q < files.len() ==> same_file(#[trigger] r[q], files[q])
        &&& same_file(r[files.len() as int], d)
    }
}

/// `r` is `base` with the delta entries merged in one after the other.
pub open spec fn merged_files(base: Seq<(String, FileCoverage)>, delta: Seq<(String, FileCoverage)>, r: Seq<(String, FileCoverage)>) -> bool
    decreases delta.len(),
{
    if delta.len() == 0 {
        r.len() == base.len() && forall|q: int| 0 <= q < base.len() ==> same_file(#[trigger] r[q], base[q])
    } else {
        keys_unique(r) && exists|mid: Seq<(String, FileCoverage)>|
            merged_files(base, delta.drop_last(), mid) && keys_unique(mid) && merge_step(mid, delta.last(), r)
    }
}

proof fn lemma_same_files_unique(a: Seq<(String, FileCoverage)>, b: Seq<(String, FileCoverage)>)
    requires
        a.len() == b.len(),
        forall|q: int| 0 <= q < a.len() ==> same_file(#[trigger] a[q], b[q]),
        keys_unique(b),
    ensures
        keys_unique(a),
{
    assert forall|x: int, y: int| 0 <= x < y < a.len() implies a[x].0@ != a[y].0@ by {
        assert(same_file(a[x], b[x]) && same_file(a[y], b[y]));
    }
}

proof fn lemma_file_index_found(fs: Seq<(String, FileCoverage)>, k: int)
    requires
        keys_unique(fs),
        0 <= k < fs.len(),
    ensures
        file_index(fs, fs[k].0@) == k,
    decreases fs.len(),
{
    if k < fs.len() - 1 {
        lemma_file_index_found(fs.drop_last(), k);
    }
}

proof fn lemma_file_index_absent(fs: Seq<(String, FileCoverage)>, p: Seq<char>)
    requires
        forall|q: int| 0 <= q < fs.len() ==> fs[q].0@ != p,
    ensures
        file_index(fs, p) == -1,
    decreases fs.len(),
{
    if fs.len() > 0 {
        lemma_file_index_absent(fs.drop_last(), p);
    }
}

proof fn lemma_merge_step(
    base: Seq<(String, FileCoverage)>,
    done: Seq<(String, FileCoverage)>,
    f0: Seq<(String, FileCoverage)>,
    d: (String, FileCoverage),
    f1: Seq<(String, FileCoverage)>,
)
    requires
        merged_files(base, done, f0),
        keys_unique(base),
        keys_unique(f0) || done.len() == 0,
        merge_step(f0, d, f1),
        keys_unique(f1),
    ensures
        merged_files(base, done.push(d), f1),
{
    assert(done.push(d).drop_last() =~= done);
    assert(done.push(d).last() == d);
    if done.len() == 0 {
        lemma_same_files_unique(f0, base);
    }
}

/// Index of the file `p` in the list.
fn find_file(fs: &Vec<(String, FileCoverage)>, p: &String) -> (r: Option<usize>)
    requires
        keys_unique(fs@),
    ensures
        match r {
            Some(k) => k < fs@.len() && fs@[k as int].0@ == p@ && file_index(fs@, p@) == k,
            None => file_index(fs@, p@) == -1 && forall|q: int| 0 <= q < fs@.len() ==> fs@[q].0@ != p@,
        },
{
    let mut i: usize = 0;
    while i < fs.len()
        invariant
            i <= fs@.len(),
            keys_unique(fs@),
            forall|q: int| 0 <= q < i ==> fs@[q].0@ != p@,
        decreases fs@.len() - i,
    {
        if crate::text::str_eq(fs[i].0.as_str(), p.as_str()) {
            proof {
                lemma_file_index_found(fs@, i as int);
            }
            return Some(i);
        }
        i = i + 1;
    }
    proof {
        lemma_file_index_absent(fs@, p@);
    }
    None
}

/// Collects coverage of test runs.
#[derive(Debug)]
pub struct CoverageCollector {
    pub config: CoverageConfig,
    pub cache_dir: String,
    pub work_dir: String,
}

impl CoverageCollector {
    pub fn new(config: CoverageConfig, cache_dir: String, work_dir: String) -> (c: Self)
        ensures
            c.config == config,
            c.cache_dir == cache_dir,
            c.work_dir == work_dir,
    {
        CoverageCollector { config, cache_dir, work_dir }
    }

    /// What to write to `.coveragerc` in the working directory before the
    /// selected tests run; nothing when coverage is off.
    pub fn initialize_coverage(&self, selected_tests: &Vec<String>) -> (r: Option<String>)
        ensures
            !self.config.enabled ==> r is None,
            self.config.enabled ==> r is Some && r->0@ == coveragerc(
                views(self.config.source_dirs@),
                views(self.config.omit_patterns@),
            ),
    {
        let _ = selected_tests;
        if !self.config.enabled {
            return None;
        }
        Some(self.coveragerc_text())
    }

    /// The `.coveragerc` text (see [`coveragerc`]).
    pub fn coveragerc_text(&self) -> (r: String)
        ensures
            r@ == coveragerc(views(self.config.source_dirs@), views(self.config.omit_patterns@)),
    {
        let mut c = "[run]\n".to_owned();
        c.append("branch = True\n");
        c.append("parallel = True\n");
        c.append("data_file = .veri/cache/.coverage\n");
        if self.config.source_dirs.len() > 0 {
            c.append("source = ");
            let j = crate::text::join_strings(&self.config.source_dirs, ", ");
            c.append(j.as_str());
            c.append("\n");
        }
        if self.config.omit_patterns.len() > 0 {
            c.append("omit = ");
            let j = crate::text::join_strings(&self.config.omit_patterns, ", ");
            c.append(j.as_str());
            c.append("\n");
        }
        c.append("\n[report]\n");
        c.append("skip_covered = False\n");
        c.append("skip_empty = True\n");
        assert(c@ =~= coveragerc(views(self.config.source_dirs@), views(self.config.omit_patterns@)));
        c
    }

    /// Metadata stamped with the current time (see
    /// [`CoverageCollector::metadata_at`]).
    pub fn create_metadata(&self, incremental: bool) -> (m: CoverageMetadata)
        ensures
            m.python_version@ == "3.x"@,
            m.coverage_version@ == "7.x"@,
            m.incremental == incremental,
    {
        self.metadata_at(incremental, crate::import_graph::now_rfc3339())
    }

    /// Metadata stamped `timestamp`, with placeholders for the versions the
    /// worker fills in.
    pub fn metadata_at(&self, incremental: bool, timestamp: String) -> (m: CoverageMetadata)
        ensures
            m.timestamp == timestamp,
            m.python_version@ == "3.x"@,
            m.coverage_version@ == "7.x"@,
            m.incremental == incremental,
    {
        CoverageMetadata {
            timestamp,
            python_version: "3.x".to_owned(),
            coverage_version: "7.x".to_owned(),
            incremental,
        }
    }

    /// The base map with the delta merged in (see [`merged_files`]); the
    /// metadata is replaced.
    pub fn merge_coverage_maps(&self, base: &CoverageMap, delta: &CoverageMap, metadata: CoverageMetadata) -> (r: CoverageMap)
        requires
            keys_unique(base.files@),
        ensures
            r.metadata == metadata,
            merged_files(base.files@, delta.files@, r.files@),
    {
        let _ = &self.config;
        let mut files: Vec<(String, FileCoverage)> = Vec::new();
        let mut i: usize = 0;
        while i < base.files.len()
            invariant
                i <= base.files@.len(),
                files@.len() == i,
                forall|q: int| 0 <= q < i ==> same_file(#[trigger] files@[q], base.files@[q]),
            decreases base.files@.len() - i,
        {
            files.push((base.files[i].0.clone(), copy_file_coverage(&base.files[i].1)));
            i = i + 1;
        }
        proof {
            assert forall|q: int| 0 <= q < files@.len() implies same_file(#[trigger] files@[q], base.files@[q]) by {}
            lemma_same_files_unique(files@, base.files@);
            assert(merged_files(base.files@, delta.files@.subrange(0, 0), files@)) by {
                assert(delta.files@.subrange(0, 0) =~= Seq::<(String, FileCoverage)>::empty());
            }
        }
        let mut j: usize = 0;
        while j < delta.files.len()
            invariant
                j <= delta.files@.len(),
                keys_unique(base.files@),
                merged_files(base.files@, delta.files@.subrange(0, j as int), files@),
            decreases delta.files@.len() - j,
        {
            let d = &delta.files[j];
            let ghost f0 = files@;
            let pos = find_file(&files, &d.0);
            match pos {
                Some(k) => {
                    if crate::text::str_eq(files[k].1.digest.as_str(), d.1.digest.as_str()) {
                        let m = merge_file_coverage(&files[k].1, &d.1);
                        let key = files[k].0.clone();
                        files.set(k, (key, m));
                    } else {
                        let key = files[k].0.clone();
                        files.set(k, (key, copy_file_coverage(&d.1)));
                    }
                },
                None => {
                    files.push((d.0.clone(), copy_file_coverage(&d.1)));
                },
            }
            proof {
                let sub = delta.files@.subrange(0, j + 1);
                assert(sub.drop_last() =~= delta.files@.subrange(0, j as int));
                assert(sub.last() == delta.files@[j as int]);
                lemma_merge_step(base.files@, delta.files@.subrange(0, j as int), f0, delta.files@[j as int], files@);
            }
            j = j + 1;
        }
        assert(delta.files@.subrange(0, delta.files@.len() as int) =~= delta.files@);
        CoverageMap { files, metadata }
    }
}

/// Coverage for a command-line run.
#[derive(Debug)]
pub struct CoverageService {
    pub collector: Option<CoverageCollector>,
}

impl CoverageService {
    /// A collector when `--cov` or `--cov-merge-full` was given: XML and
    /// JSON reports into `<work_dir>/reports`, sources in `<work_dir>/src`,
    /// the usual patterns left out.
    pub fn new(cov: bool, cov_merge_full: bool, work_dir: &str, cache_dir: &str) -> (s: Self)
        ensures
            !(cov || cov_merge_full) ==> s.collector is None,
            (cov || cov_merge_full) ==> s.collector is Some && {
                let c = s.collector->0;
                &&& c.config.enabled
                &&& c.config.merge_full == cov_merge_full
                &&& c.config.output_formats@ == seq![CoverageFormat::Xml, CoverageFormat::Json]
                &&& c.config.output_dir@ == crate::python_worker::joined(work_dir@, "reports"@)
                &&& views(c.config.source_dirs@) == seq![crate::python_worker::joined(work_dir@, "src"@)]
                &&& views(c.config.omit_patterns@) == default_omit()
                &&& c.cache_dir@ == cache_dir@
                &&& c.work_dir@ == work_dir@
            },
    {
        if cov || cov_merge_full {
            let mut formats: Vec<CoverageFormat> = Vec::new();
            formats.push(CoverageFormat::Xml);
            formats.push(CoverageFormat::Json);
            assert(formats@ =~= seq![CoverageFormat::Xml, CoverageFormat::Json]);
            let mut src: Vec<String> = Vec::new();
            src.push(crate::python_worker::join_path(work_dir, "src"));
            assert(views(src@) =~= seq![crate::python_worker::joined(work_dir@, "src"@)]);
            let config = CoverageConfig {
                enabled: true,
                merge_full: cov_merge_full,
                output_formats: formats,
                output_dir: crate::python_worker::join_path(work_dir, "reports"),
                source_dirs: src,
                omit_patterns: default_omit_patterns(),
            };
            CoverageService {
                collector: Some(CoverageCollector::new(config, cache_dir.to_owned(), work_dir.to_owned())),
            }
        } else {
            CoverageService { collector: None }
        }
    }

    /// What to write to `.coveragerc` before the tests run, when coverage
    /// is collected.
    pub fn initialize(&self, nodeids: &Vec<String>) -> (r: Option<String>)
        ensures
            match self.collector {
                Some(c) => c.config.enabled ==> r is Some && r->0@ == coveragerc(
                    views(c.config.source_dirs@),
                    views(c.config.omit_patterns@),
                ),
                None => r is None,
            },
    {
        match &self.collector {
            Some(c) => c.initialize_coverage(nodeids),
            None => None,
        }
    }
}


proof fn lemma_new_lines_contains(base: Seq<u32>, delta: Seq<u32>, x: u32)
    ensures
        new_lines(base, delta).contains(x) <==> (!base.contains(x) && delta.contains(x)),
    decreases delta.len(),
{
    if delta.len() > 0 {
        let rest = new_lines(base, delta.drop_last());
        lemma_new_lines_contains(base, delta.drop_last(), x);
        let y = delta.last();
        if delta.contains(x) && !delta.drop_last().contains(x) {
            let i = choose|i: int| 0 <= i < delta.len() && delta[i] == x;
            if i < delta.len() - 1 {
                assert(delta.drop_last()[i] == x);
            }
        }
        if delta.drop_last().contains(x) {
            let i = choose|i: int| 0 <= i < delta.drop_last().len() && delta.drop_last()[i] == x;
            assert(delta[i] == x);
        }
        if !(base.contains(y) || rest.contains(y)) {
            let r2 = rest.push(y);
            if r2.contains(x) {
                let i = choose|i: int| 0 <= i < r2.len() && r2[i] == x;
                if i < rest.len() {
                    assert(rest[i] == x);
                }
            }
            if rest.contains(x) {
                let i = choose|i: int| 0 <= i < rest.len() && rest[i] == x;
                assert(r2[i] == x);
            }
            assert(r2[rest.len() as int] == y);
        }
        assert(delta[delta.len() - 1] == y);
    }
}

/// Merging coverage loses no line and invents none: a line is covered
/// after merging a delta into a base exactly when either covered it.
pub proof fn lemma_merge_covers_union(base: Seq<u32>, delta: Seq<u32>, line: u32)
    ensures
        (base + new_lines(base, delta)).contains(line) <==> (base.contains(line) || delta.contains(line)),
{
    lemma_new_lines_contains(base, delta, line);
    let m = base + new_lines(base, delta);
    if m.contains(line) {
        let i = choose|i: int| 0 <= i < m.len() && m[i] == line;
        if i < base.len() {
            assert(base[i] == line);
        } else {
            assert(new_lines(base, delta)[i - base.len()] == line);
        }
    }
    if base.contains(line) {
        let i = choose|i: int| 0 <= i < base.len() && base[i] == line;
        assert(m[i] == line);
    } else if delta.contains(line) {
        let n = new_lines(base, delta);
        let i = choose|i: int| 0 <= i < n.len() && n[i] == line;
        assert(m[base.len() + i] == line);
    }
}


/// The package of a covered file in the XML report: its parent directory,
/// or `.` when it has none.
pub open spec fn package_of(path: Seq<char>) -> Seq<char> {
    match parent_spec(path) {
        Some(p) => p,
        None => "."@,
    }
}

/// `Path::file_stem` of a file name: the name before its last `.`, unless
/// that `.` is the first character or there is none.
pub open spec fn stem_of(name: Seq<char>) -> Seq<char> {
    let k = last_index_of(name, '.');
    if k <= 0 {
        name
    } else {
        name.take(k)
    }
}

/// The class of a covered file in the XML report: its file stem, or
/// `unknown`.
pub open spec fn class_of(path: Seq<char>) -> Seq<char> {
    match file_name_spec(path) {
        Some(n) => stem_of(n),
        None => "unknown"@,
    }
}

/// The packages of the files, each once, in order of first appearance.
pub open spec fn package_names(fs: Seq<(String, FileCoverage)>) -> Seq<Seq<char>>
    decreases fs.len(),
{
    if fs.len() == 0 {
        Seq::empty()
    } else {
        let ps = package_names(fs.drop_last());
        let p = package_of(fs.last().0@);
        if ps.contains(p) {
            ps
        } else {
            ps.push(p)
        }
    }
}

/// The files of package `pkg`, in order.
pub open spec fn files_in(fs: Seq<(String, FileCoverage)>, pkg: Seq<char>) -> Seq<(String, FileCoverage)>
    decreases fs.len(),
{
    if fs.len() == 0 {
        Seq::empty()
    } else {
        files_in(fs.drop_last(), pkg) + if package_of(fs.last().0@) == pkg {
            seq![fs.last()]
        } else {
            Seq::empty()
        }
    }
}

/// Four decimal digits, with leading zeros.
pub open spec fn four_digits(n: nat) -> Seq<char> {
    seq![digit_char((n / 1000) % 10), digit_char((n / 100) % 10), digit_char((n / 10) % 10), digit_char(n % 10)]
}

/// A coverage given in hundredths of a percent as a rate with four
/// decimals (`0.8550` for 85.50 %).
pub open spec fn rate_text(h: nat) -> Seq<char> {
    decimal(h / 10000) + "."@ + four_digits(h % 10000)
}

/// One `<line>` element per covered line.
pub open spec fn line_elements(ls: Seq<u32>) -> Seq<char>
    decreases ls.len(),
{
    if ls.len() == 0 {
        Seq::empty()
    } else {
        line_elements(ls.drop_last()) + "            <line number=\""@ + decimal(ls.last() as nat) + "\" hits=\"1\"/>\n"@
    }
}

/// The `<class>` element of a covered file.
pub open spec fn class_element(path: Seq<char>, f: FileCoverage) -> Seq<char> {
    "        <class name=\""@ + class_of(path) + "\" filename=\""@ + path + "\" line-rate=\""@ + rate_text(
        f.coverage_percent_hundredths as nat,
    ) + "\">\n"@ + "          <lines>\n"@ + line_elements(f.covered_lines@) + "          </lines>\n"@ + "        </class>\n"@
}

/// The `<class>` elements of the files, in order.
pub open spec fn class_elements(fs: Seq<(String, FileCoverage)>) -> Seq<char>
    decreases fs.len(),
{
    if fs.len() == 0 {
        Seq::empty()
    } else {
        class_elements(fs.drop_last()) + class_element(fs.last().0@, fs.last().1)
    }
}

/// The `<package>` element of package `name`.
pub open spec fn package_element(name: Seq<char>, fs: Seq<(String, FileCoverage)>) -> Seq<char> {
    "    <package name=\""@ + name + "\">\n"@ + "      <classes>\n"@ + class_elements(files_in(fs, name))
        + "      </classes>\n"@ + "    </package>\n"@
}

/// The `<package>` elements of the packages `names`, in order.
pub open spec fn package_elements(names: Seq<Seq<char>>, fs: Seq<(String, FileCoverage)>) -> Seq<char>
    decreases names.len(),
{
    if names.len() == 0 {
        Seq::empty()
    } else {
        package_elements(names.drop_last(), fs) + package_element(names.last(), fs)
    }
}

/// The `<source>` elements of the source directories.
pub open spec fn source_elements(dirs: Seq<Seq<char>>) -> Seq<char>
    decreases dirs.len(),
{
    if dirs.len() == 0 {
        Seq::empty()
    } else {
        source_elements(dirs.drop_last()) + "    <source>"@ + dirs.last() + "</source>\n"@
    }
}

/// The Cobertura XML report of the files, stamped `timestamp` (seconds
/// since the Unix epoch): the sources, then the files grouped by package.
pub open spec fn cobertura_text(fs: Seq<(String, FileCoverage)>, dirs: Seq<Seq<char>>, timestamp: int) -> Seq<char> {
    "<?xml version=\"1.0\" ?>\n"@ + "<coverage version=\"1.0\" timestamp=\""@ + signed_decimal(timestamp) + "\">\n"@
        + "  <sources>\n"@ + source_elements(dirs) + "  </sources>\n"@ + "  <packages>\n"@ + package_elements(
        package_names(fs),
        fs,
    ) + "  </packages>\n"@ + "</coverage>\n"@
}

/// The package of a file (see [`package_of`]).
pub fn package_name(path: &str) -> (r: String)
    ensures
        r@ == package_of(path@),
{
    match crate::paths::parent(path) {
        Some(p) => p,
        None => ".".to_owned(),
    }
}

/// The class of a file (see [`class_of`]).
pub fn class_name(path: &str) -> (r: String)
    ensures
        r@ == class_of(path@),
{
    match crate::paths::file_name(path) {
        Some(n) => {
            let cs = crate::text::chars_of(n.as_str());
            let mut k: usize = cs.len();
            assert(cs@.take(k as int) =~= cs@);
            while k > 0 && cs[k - 1] != '.'
                invariant
                    k <= cs@.len(),
                    cs@ == n@,
                    last_index_of(cs@, '.') == last_index_of(cs@.take(k as int), '.'),
                decreases k,
            {
                assert(cs@.take(k as int).drop_last() =~= cs@.take(k - 1));
                k = k - 1;
            }
            proof {
                if k > 0 {
                    assert(cs@.take(k as int).last() == '.');
                    assert(last_index_of(cs@.take(k as int), '.') == k - 1);
                } else {
                    assert(cs@.take(0) =~= Seq::<char>::empty());
                }
            }
            if k <= 1 {
                n
            } else {
                let stem = crate::text::string_from_chars(&cs.as_slice()[0..k - 1]);
                assert(stem@ =~= n@.take(k - 1));
                stem
            }
        },
        None => "unknown".to_owned(),
    }
}

fn push_four_digits(s: &mut String, n: u128)
    requires
        n < 10000,
    ensures
        final(s)@ == old(s)@ + four_digits(n as nat),
{
    crate::text::push_char(s, crate::planner::digit((n / 1000) % 10));
    crate::text::push_char(s, crate::planner::digit((n / 100) % 10));
    crate::text::push_char(s, crate::planner::digit((n / 10) % 10));
    crate::text::push_char(s, crate::planner::digit(n % 10));
    assert(final(s)@ =~= old(s)@ + four_digits(n as nat));
}

fn push_class_element(s: &mut String, path: &String, f: &FileCoverage)
    ensures
        final(s)@ == old(s)@ + class_element(path@, *f),
{
    let ghost s0 = s@;
    s.append("        <class name=\"");
    s.append(class_name(path.as_str()).as_str());
    s.append("\" filename=\"");
    s.append(path.as_str());
    s.append("\" line-rate=\"");
    let h = f.coverage_percent_hundredths;
    s.append(crate::planner::decimal_string(h / 10000).as_str());
    s.append(".");
    push_four_digits(s, h % 10000);
    s.append("\">\n");
    s.append("          <lines>\n");
    let ghost s1 = s@;
    let mut k: usize = 0;
    while k < f.covered_lines.len()
        invariant
            k <= f.covered_lines@.len(),
            s@ == s1 + line_elements(f.covered_lines@.subrange(0, k as int)),
        decreases f.covered_lines@.len() - k,
    {
        s.append("            <line number=\"");
        s.append(crate::planner::decimal_string(f.covered_lines[k] as u128).as_str());
        s.append("\" hits=\"1\"/>\n");
        proof {
            let sub = f.covered_lines@.subrange(0, k + 1);
            assert(sub.drop_last() =~= f.covered_lines@.subrange(0, k as int));
        }
        k = k + 1;
    }
    assert(f.covered_lines@.subrange(0, f.covered_lines@.len() as int) =~= f.covered_lines@);
    s.append("          </lines>\n");
    s.append("        </class>\n");
    assert(s@ =~= s0 + class_element(path@, *f));
}

/// The packages of the files (see [`package_names`]).
fn distinct_packages(fs: &Vec<(String, FileCoverage)>) -> (r: Vec<String>)
    ensures
        views(r@) == package_names(fs@),
{
    let mut r: Vec<String> = Vec::new();
    let mut i: usize = 0;
    while i < fs.len()
        invariant
            i <= fs@.len(),
            views(r@) == package_names(fs@.subrange(0, i as int)),
        decreases fs@.len() - i,
    {
        let p = package_name(fs[i].0.as_str());
        let sub = Ghost(fs@.subrange(0, i + 1));
        assert(sub@.drop_last() =~= fs@.subrange(0, i as int));
        if !crate::import_graph::contains_string(&r, &p) {
            let ghost r0 = views(r@);
            r.push(p);
            assert(views(r@) =~= r0.push(p@));
        }
        i = i + 1;
    }
    assert(fs@.subrange(0, fs@.len() as int) =~= fs@);
    r
}

impl CoverageCollector {
    /// The Cobertura XML report of a coverage map for CI tools, stamped
    /// `timestamp` (see [`cobertura_text`]).
    pub fn xml_report_text(&self, map: &CoverageMap, timestamp: i64) -> (r: String)
        ensures
            r@ == cobertura_text(map.files@, views(self.config.source_dirs@), timestamp as int),
    {
        let fs = &map.files;
        let mut s = "<?xml version=\"1.0\" ?>\n".to_owned();
        s.append("<coverage version=\"1.0\" timestamp=\"");
        s.append(crate::execution::signed_string_i64(timestamp).as_str());
        s.append("\">\n");
        s.append("  <sources>\n");
        let dirs = &self.config.source_dirs;
        let ghost s0 = s@;
        let mut i: usize = 0;
        while i < dirs.len()
            invariant
                i <= dirs@.len(),
                s@ == s0 + source_elements(views(dirs@).subrange(0, i as int)),
            decreases dirs@.len() - i,
        {
            s.append("    <source>");
            s.append(dirs[i].as_str());
            s.append("</source>\n");
            assert(views(dirs@).subrange(0, i + 1).drop_last() =~= views(dirs@).subrange(0, i as int));
            i = i + 1;
        }
        assert(views(dirs@).subrange(0, dirs@.len() as int) =~= views(dirs@));
        s.append("  </sources>\n");
        s.append("  <packages>\n");
        let names = distinct_packages(fs);
        let ghost s1 = s@;
        let mut k: usize = 0;
        while k < names.len()
            invariant
                k <= names@.len(),
                views(names@) == package_names(fs@),
                s@ == s1 + package_elements(views(names@).subrange(0, k as int), fs@),
            decreases names@.len() - k,
        {
            let ghost s2 = s@;
            s.append("    <package name=\"");
            s.append(names[k].as_str());
            s.append("\">\n");
            s.append("      <classes>\n");
            let ghost s3 = s@;
            let mut j: usize = 0;
            while j < fs.len()
                invariant
                    j <= fs@.len(),
                    k < names@.len(),
                    s@ == s3 + class_elements(files_in(fs@.subrange(0, j as int), names@[k as int]@)),
                decreases fs@.len() - j,
            {
                let p = package_name(fs[j].0.as_str());
                proof {
                    let sub = fs@.subrange(0, j + 1);
                    assert(sub.drop_last() =~= fs@.subrange(0, j as int));
                    assert(sub.last() == fs@[j as int]);
                }
                if crate::text::str_eq(p.as_str(), names[k].as_str()) {
                    push_class_element(&mut s, &fs[j].0, &fs[j].1);
                    proof {
                        let a = files_in(fs@.subrange(0, j as int), names@[k as int]@);
                        assert(files_in(fs@.subrange(0, j + 1), names@[k as int]@) =~= a.push(fs@[j as int]));
                        assert(a.push(fs@[j as int]).drop_last() =~= a);
                    }
                } else {
                    proof {
                        let a = files_in(fs@.subrange(0, j as int), names@[k as int]@);
                        assert(files_in(fs@.subrange(0, j + 1), names@[k as int]@) =~= a);
                    }
                }
                j = j + 1;
            }
            assert(fs@.subrange(0, fs@.len() as int) =~= fs@);
            s.append("      </classes>\n");
            s.append("    </package>\n");
            proof {
                let nv = views(names@);
                assert(nv.subrange(0, k + 1).drop_last() =~= nv.subrange(0, k as int));
                assert(nv.subrange(0, k + 1).last() == names@[k as int]@);
                assert(s@ =~= s2 + package_element(names@[k as int]@, fs@));
            }
            k = k + 1;
        }
        assert(views(names@).subrange(0, names@.len() as int) =~= views(names@));
        s.append("  </packages>\n");
        s.append("</coverage>\n");
        assert(s@ =~= cobertura_text(map.files@, views(self.config.source_dirs@), timestamp as int));
        s
    }

    /// The Cobertura XML report stamped with the current time (see
    /// [`CoverageCollector::xml_report_text`]).
    pub fn generate_xml_report(&self, map: &CoverageMap) -> (r: String)
        ensures
            exists|t: i64| r@ == cobertura_text(map.files@, views(self.config.source_dirs@), t as int),
    {
        let t = utc_timestamp();
        self.xml_report_text(map, t)
    }
}

/// A report file to write.
#[derive(Debug)]
pub enum ReportOutput {
    /// Write this text to the file.
    Text { path: String, contents: String },
    /// Write the coverage map as JSON to the file.
    Json { path: String },
}

/// The page written for the HTML format.
pub const HTML_PLACEHOLDER: &'static str = "<html><body><h1>Coverage Report</h1><p>HTML report generation not yet implemented</p></body></html>";

/// The report file of one format for the map, stamped `timestamp`.
pub open spec fn report_output_ok(
    o: ReportOutput,
    format: CoverageFormat,
    dir: Seq<char>,
    fs: Seq<(String, FileCoverage)>,
    dirs: Seq<Seq<char>>,
    timestamp: int,
) -> bool {
    match format {
        CoverageFormat::Xml => o matches ReportOutput::Text { path, contents } && path@ == joined(dir, "coverage.xml"@)
            && contents@ == cobertura_text(fs, dirs, timestamp),
        CoverageFormat::Html => o matches ReportOutput::Text { path, contents } && path@ == joined(
            joined(dir, "htmlcov"@),
            "index.html"@,
        ) && contents@ == HTML_PLACEHOLDER@,
        CoverageFormat::Json => o matches ReportOutput::Json { path } && path@ == joined(dir, "coverage.json"@),
        CoverageFormat::Lcov => o matches ReportOutput::Text { path, contents } && path@ == joined(dir, "coverage.info"@)
            && contents@ == lcov_text(fs),
    }
}

impl CoverageCollector {
    /// The reports of a full coverage run, one per configured format in
    /// order, in the output directory: Cobertura XML stamped `timestamp`,
    /// the HTML page, the JSON map and LCOV.  None unless the run merges
    /// full coverage.
    pub fn full_report_outputs(&self, map: &CoverageMap, timestamp: i64) -> (r: Vec<ReportOutput>)
        ensures
            !self.config.merge_full ==> r@.len() == 0,
            self.config.merge_full ==> r@.len() == self.config.output_formats@.len(),
            self.config.merge_full ==> forall|i: int|
                0 <= i < r@.len() ==> report_output_ok(
                    #[trigger] r@[i],
                    self.config.output_formats@[i],
                    self.config.output_dir@,
                    map.files@,
                    views(self.config.source_dirs@),
                    timestamp as int,
                ),
    {
        let mut r: Vec<ReportOutput> = Vec::new();
        if !self.config.merge_full {
            return r;
        }
        let formats = &self.config.output_formats;
        let dir = self.config.output_dir.as_str();
        let mut i: usize = 0;
        while i < formats.len()
            invariant
                i <= formats@.len(),
                formats == &self.config.output_formats,
                dir@ == self.config.output_dir@,
                r@.len() == i,
                forall|k: int|
                    0 <= k < i ==> report_output_ok(
                        #[trigger] r@[k],
                        formats@[k],
                        dir@,
                        map.files@,
                        views(self.config.source_dirs@),
                        timestamp as int,
                    ),
            decreases formats@.len() - i,
        {
            let o = match formats[i] {
                CoverageFormat::Xml => ReportOutput::Text {
                    path: crate::python_worker::join_path(dir, "coverage.xml"),
                    contents: self.xml_report_text(map, timestamp),
                },
                CoverageFormat::Html => {
                    let d = crate::python_worker::join_path(dir, "htmlcov");
                    ReportOutput::Text {
                        path: crate::python_worker::join_path(d.as_str(), "index.html"),
                        contents: HTML_PLACEHOLDER.to_owned(),
                    }
                },
                CoverageFormat::Json => ReportOutput::Json { path: crate::python_worker::join_path(dir, "coverage.json") },
                CoverageFormat::Lcov => ReportOutput::Text {
                    path: crate::python_worker::join_path(dir, "coverage.info"),
                    contents: generate_lcov(map),
                },
            };
            r.push(o);
            i = i + 1;
        }
        r
    }
}

/// Seconds since the Unix epoch, now.
///
/// Wraps `chrono::DateTime::<Utc>::from_timestamp(..).timestamp()` on the
/// system clock's time since the epoch (a clock set before 1970 reads as the
/// epoch, where `Utc::now` would panic); nothing is claimed of the value,
/// which depends on the clock.
#[verifier::external_body]
fn utc_timestamp() -> (t: i64) {
    let d = std::time::SystemTime::now().duration_since(std::time::UNIX_EPOCH).unwrap_or_default();
    chrono::DateTime::<chrono::Utc>::from_timestamp(d.as_secs() as i64, d.subsec_nanos()).unwrap_or_default().timestamp()
}

} // verus!
