//! The `--explain` report of a run: cache key, configuration, import graph
//! status, how tests will be selected, and the rules behind it.  Probing the
//! environment, loading the graphs, asking version control and planning are
//! left to the program, which hands in what it found.
use vstd::prelude::*;
use crate::cache::{sha256_hex, CacheKey};
use crate::cli::{Cli, Engine};
use crate::order::views;
use crate::planner::decimal;
use crate::text::join;

verus! {

/// Sizes of the cached import graphs.
#[derive(Debug)]
pub struct GraphCounts {
    pub modules: usize,
    pub edges: usize,
    pub dynamic_imports: usize,
    pub unresolved_imports: usize,
}

/// What version control said changed.
#[derive(Debug)]
pub enum ChangedFiles {
    /// Version control could not be asked.
    Unavailable,
    Listed(Vec<String>),
}

/// What impact analysis could say about the changed files.
#[derive(Debug)]
pub enum ImpactSummary {
    /// No cached graphs yet.
    NoGraphs,
    /// Graphs exist but the tests could not be planned.
    NotComputed,
    Planned { selected: usize, total: usize, should_broaden: bool, broaden_reason: Option<String> },
}

/// A character as `{:?}` writes it inside a string, for ASCII characters;
/// other characters are kept as they are.
pub open spec fn debug_char(c: char) -> Seq<char> {
    if c == '"' {
        seq!['\\', '"']
    } else if c == '\\' {
        seq!['\\', '\\']
    } else if c == '\n' {
        seq!['\\', 'n']
    } else if c == '\r' {
        seq!['\\', 'r']
    } else if c == '\t' {
        seq!['\\', 't']
    } else if c == '\0' {
        seq!['\\', '0']
    } else if (c as u32) < 0x20 || (c as u32) == 0x7f {
        seq!['\\', 'u', '{'] + hex_text(c as u32 as nat) + seq!['}']
    } else {
        seq![c]
    }
}

/// A lowercase hexadecimal digit.
pub open spec fn hex_digit(d: nat) -> char {
    if d < 10 {
        crate::planner::digit_char(d)
    } else if d == 10 {
        'a'
    } else if d == 11 {
        'b'
    } else if d == 12 {
        'c'
    } else if d == 13 {
        'd'
    } else if d == 14 {
        'e'
    } else {
        'f'
    }
}

/// A number below 256 in lowercase hexadecimal, without leading zeros.
pub open spec fn hex_text(v: nat) -> Seq<char> {
    if v < 16 {
        seq![hex_digit(v)]
    } else {
        seq![hex_digit(v / 16), hex_digit(v % 16)]
    }
}

fn hex_char(d: u32) -> (c: char)
    requires
        d < 16,
    ensures
        c == hex_digit(d as nat),
{
    if d < 10 {
        crate::planner::digit(d as u128)
    } else if d == 10 {
        'a'
    } else if d == 11 {
        'b'
    } else if d == 12 {
        'c'
    } else if d == 13 {
        'd'
    } else if d == 14 {
        'e'
    } else {
        'f'
    }
}

/// The characters of a string as `{:?}` writes them (see [`debug_char`]).
pub open spec fn debug_chars(s: Seq<char>) -> Seq<char>
    decreases s.len(),
{
    if s.len() == 0 {
        Seq::empty()
    } else {
        debug_chars(s.drop_last()) + debug_char(s.last())
    }
}

/// A list of paths as `{:?}` writes it: `["a", "b"]`, with quotes,
/// backslashes and ASCII control characters escaped; characters beyond
/// ASCII are written as they are.
pub open spec fn debug_list(items: Seq<Seq<char>>) -> Seq<char> {
    "["@ + join(items.map_values(|s: Seq<char>| "\""@ + debug_chars(s) + "\""@), ", "@) + "]"@
}

fn debug_quoted(s: &str) -> (r: String)
    ensures
        r@ == "\""@ + debug_chars(s@) + "\""@,
{
    let cs = crate::text::chars_of(s);
    let mut r = "\"".to_owned();
    let ghost r0 = r@;
    let mut i: usize = 0;
    assert(s@.take(0) =~= Seq::<char>::empty());
    while i < cs.len()
        invariant
            i <= cs@.len(),
            cs@ == s@,
            r@ == r0 + debug_chars(s@.take(i as int)),
        decreases cs@.len() - i,
    {
        let c = cs[i];
        if c == '"' {
            r.append("\\\"");
        } else if c == '\\' {
            r.append("\\\\");
        } else if c == '\n' {
            r.append("\\n");
        } else if c == '\r' {
            r.append("\\r");
        } else if c == '\t' {
            r.append("\\t");
        } else if c == '\0' {
            r.append("\\0");
        } else if (c as u32) < 0x20 || (c as u32) == 0x7f {
            let v = c as u32;
            crate::text::push_char(&mut r, '\\');
            crate::text::push_char(&mut r, 'u');
            crate::text::push_char(&mut r, '{');
            if v >= 16 {
                crate::text::push_char(&mut r, hex_char(v / 16));
            }
            crate::text::push_char(&mut r, hex_char(v % 16));
            crate::text::push_char(&mut r, '}');
        } else {
            crate::text::push_char(&mut r, c);
        }
        proof {
            reveal_strlit("\\\"");
            reveal_strlit("\\\\");
            reveal_strlit("\\n");
            reveal_strlit("\\r");
            reveal_strlit("\\t");
            reveal_strlit("\\0");
        }
        assert(s@.take(i + 1).drop_last() =~= s@.take(i as int));
        assert(r@ =~= r0 + debug_chars(s@.take(i + 1)));
        i = i + 1;
    }
    assert(s@.take(cs@.len() as int) =~= s@);
    r.append("\"");
    r
}

pub(crate) fn debug_list_string(items: &Vec<String>) -> (r: String)
    ensures
        r@ == debug_list(views(items@)),
{
    let mut parts: Vec<String> = Vec::new();
    let ghost f = |s: Seq<char>| "\""@ + debug_chars(s) + "\""@;
    let mut i: usize = 0;
    while i < items.len()
        invariant
            i <= items@.len(),
            f == (|s: Seq<char>| "\""@ + debug_chars(s) + "\""@),
            views(parts@) == views(items@).take(i as int).map_values(f),
        decreases items@.len() - i,
    {
        let q = debug_quoted(items[i].as_str());
        let ghost p0 = views(parts@);
        let ghost qv = q@;
        parts.push(q);
        assert(views(parts@) =~= p0.push(qv));
        assert(views(items@).take(i + 1).map_values(f) =~= views(items@).take(i as int).map_values(f).push(
            f(views(items@)[i as int]),
        ));
        i = i + 1;
    }
    assert(views(items@).take(items@.len() as int) =~= views(items@));
    let mut r = "[".to_owned();
    let j = crate::text::join_strings(&parts, ", ");
    r.append(j.as_str());
    r.append("]");
    r
}

/// The import graph part of the report.
pub open spec fn graph_lines(graphs: Option<GraphCounts>) -> Seq<Seq<char>> {
    match graphs {
        Some(g) => seq![
            "  Status: Cached graphs available"@,
            "  Modules: "@ + decimal(g.modules as nat),
            "  Import edges: "@ + decimal(g.edges as nat),
            "  Dynamic imports: "@ + decimal(g.dynamic_imports as nat),
            "  Unresolved imports: "@ + decimal(g.unresolved_imports as nat),
        ] + if g.dynamic_imports > 0 {
            seq!["  ⚠️  Dynamic imports detected - may trigger broadening for safety"@]
        } else {
            Seq::empty()
        },
        None => seq!["  Status: No cached graphs - will build on first run"@],
    }
}

/// What impact analysis adds below the changed files.
pub open spec fn impact_lines(impact: ImpactSummary) -> Seq<Seq<char>> {
    match impact {
        ImpactSummary::NoGraphs => seq!["  Impacted tests: (will compute from import graph on first run)"@],
        ImpactSummary::NotComputed => Seq::empty(),
        ImpactSummary::Planned { selected, total, should_broaden, broaden_reason } => seq![
            "  Impact Analysis:"@,
            "    Selected tests: "@ + decimal(selected as nat) + " of "@ + decimal(total as nat),
        ] + if should_broaden {
            seq![
                "    ⚠️  Broadened: "@ + match broaden_reason {
                    Some(r) => r@,
                    None => "Unknown"@,
                },
            ]
        } else {
            Seq::empty()
        },
    }
}

/// How tests will be selected.
pub open spec fn selection_lines(cli: Cli, changed: ChangedFiles, impact: ImpactSummary) -> Seq<Seq<char>> {
    if cli.all {
        seq!["Selection: Running ALL tests (--all specified)"@]
    } else if cli.last_failed {
        seq!["Selection: Running last failed tests"@]
    } else if cli.keyword is Some || cli.marker is Some || cli.paths@.len() > 0 {
        (match cli.keyword {
            Some(k) => seq!["Selection: Keyword filter: '"@ + k@ + "'"@],
            None => Seq::empty(),
        }) + (match cli.marker {
            Some(m) => seq!["Selection: Marker filter: '"@ + m@ + "'"@],
            None => Seq::empty(),
        }) + (if cli.paths@.len() > 0 {
            seq!["Selection: Path filter: "@ + debug_list(views(cli.paths@))]
        } else {
            Seq::empty()
        })
    } else {
        seq!["Selection: Impact-aware (based on changed files)"@] + match changed {
            ChangedFiles::Unavailable => seq!["  Changed files: (git not available - will check filesystem)"@],
            ChangedFiles::Listed(files) => if files@.len() == 0 {
                seq!["  Changed files: None detected"@, "  Impacted tests: None (no tests will run)"@]
            } else {
                seq!["  Changed files:"@] + views(files@).map_values(|f: Seq<char>| "    - "@ + f) + impact_lines(
                    impact,
                )
            },
        }
    }
}

/// The closing part: the invalidation rules, what to expect of the run,
/// common issues and where to read more.
pub open spec fn closing_lines(all: bool) -> Seq<Seq<char>> {
    seq![
        ""@,
        "Invalidation Rules:"@,
        "  1. Test file changed → run its tests"@,
        "  2. Source file changed → run tests that import it (via reverse deps)"@,
        "  3. conftest.py changed → run tests in that directory scope"@,
        "  4. Dynamic import detected → broaden selection for safety"@,
        "  5. Selection > 60% of total → run all tests"@,
        ""@,
        "Performance Insights:"@,
    ] + (if all {
        seq!["  • Full test run - no impact analysis overhead"@]
    } else {
        seq![
            "  • Impact analysis will save time on subsequent runs"@,
            "  • First run builds cache (may be slower)"@,
            "  • Watch mode provides sub-second feedback"@,
        ]
    }) + seq![
        ""@,
        "Common Issues & Solutions:"@,
        "  • No tests found: Check test file naming (test_*.py or *_test.py)"@,
        "  • Tests not selected: Use -v to see selection reasoning"@,
        "  • Import errors: Run with --engine pytest to bypass analysis"@,
        "  • Slow performance: Check for syntax errors preventing caching"@,
        ""@,
        "Documentation:"@,
        "  • Full guide: https://docs.veri.dev/"@,
        "  • Troubleshooting: https://docs.veri.dev/troubleshooting"@,
        "  • Configuration: https://docs.veri.dev/config"@,
    ]
}

/// The whole `--explain` report.
pub open spec fn explanation_spec(
    cli: Cli,
    workers: Option<Seq<char>>,
    cache_dir: Seq<char>,
    log_level: Seq<char>,
    key: CacheKey,
    graphs: Option<GraphCounts>,
    changed: ChangedFiles,
    impact: ImpactSummary,
) -> Seq<Seq<char>> {
    seq!["=== veri Execution Plan ==="@, ""@] + key.explanation_spec().push(
        "  computed_hash: "@ + sha256_hex(vstd::utf8::encode_utf8(key.hash_text())),
    ) + seq![
        ""@,
        "Configuration:"@,
        "  Engine: "@ + match cli.engine {
            Engine::Veri => "veri"@,
            Engine::Pytest => "pytest"@,
        },
        "  Workers: "@ + match workers {
            Some(w) => w,
            None => "auto"@,
        },
        "  Cache dir: "@ + cache_dir,
        "  Log level: "@ + log_level,
        ""@,
        "Import Graph Status:"@,
    ] + graph_lines(graphs) + seq![""@] + selection_lines(cli, changed, impact) + closing_lines(cli.all)
}

fn push_str(out: &mut Vec<String>, s: &str)
    ensures
        views(final(out)@) == views(old(out)@).push(s@),
{
    let ghost o = views(out@);
    out.push(s.to_owned());
    assert(views(out@) =~= o.push(s@));
}

fn push_string(out: &mut Vec<String>, s: String)
    ensures
        views(final(out)@) == views(old(out)@).push(s@),
{
    let ghost o = views(out@);
    let ghost v = s@;
    out.push(s);
    assert(views(out@) =~= o.push(v));
}

fn labelled_count(label: &str, n: usize) -> (r: String)
    ensures
        r@ == label@ + decimal(n as nat),
{
    let mut r = label.to_owned();
    let d = crate::planner::decimal_string(n as u128);
    r.append(d.as_str());
    r
}

fn push_graph_lines(out: &mut Vec<String>, graphs: Option<&GraphCounts>)
    ensures
        views(final(out)@) == views(old(out)@) + graph_lines(
            match graphs {
                Some(g) => Some(*g),
                None => None,
            },
        ),
{
    let ghost o = views(out@);
    match graphs {
        Some(g) => {
            push_str(out, "  Status: Cached graphs available");
            push_string(out, labelled_count("  Modules: ", g.modules));
            push_string(out, labelled_count("  Import edges: ", g.edges));
            push_string(out, labelled_count("  Dynamic imports: ", g.dynamic_imports));
            push_string(out, labelled_count("  Unresolved imports: ", g.unresolved_imports));
            if g.dynamic_imports > 0 {
                push_str(out, "  ⚠️  Dynamic imports detected - may trigger broadening for safety");
            }
        },
        None => {
            push_str(out, "  Status: No cached graphs - will build on first run");
        },
    }
    assert(views(out@) =~= o + graph_lines(
        match graphs {
            Some(g) => Some(*g),
            None => None,
        },
    ));
}

fn push_impact_lines(out: &mut Vec<String>, impact: &ImpactSummary)
    ensures
        views(final(out)@) == views(old(out)@) + impact_lines(*impact),
{
    let ghost o = views(out@);
    match impact {
        ImpactSummary::NoGraphs => {
            push_str(out, "  Impacted tests: (will compute from import graph on first run)");
        },
        ImpactSummary::NotComputed => {},
        ImpactSummary::Planned { selected, total, should_broaden, broaden_reason } => {
            push_str(out, "  Impact Analysis:");
            let mut l = labelled_count("    Selected tests: ", *selected);
            l.append(" of ");
            let d = crate::planner::decimal_string(*total as u128);
            l.append(d.as_str());
            push_string(out, l);
            if *should_broaden {
                let mut b = "    ⚠️  Broadened: ".to_owned();
                match broaden_reason {
                    Some(r) => b.append(r.as_str()),
                    None => b.append("Unknown"),
                }
                push_string(out, b);
            }
        },
    }
    assert(views(out@) =~= o + impact_lines(*impact));
}

fn push_changed_lines(out: &mut Vec<String>, changed: &ChangedFiles, impact: &ImpactSummary)
    ensures
        views(final(out)@) == views(old(out)@) + match *changed {
            ChangedFiles::Unavailable => seq!["  Changed files: (git not available - will check filesystem)"@],
            ChangedFiles::Listed(files) => if files@.len() == 0 {
                seq!["  Changed files: None detected"@, "  Impacted tests: None (no tests will run)"@]
            } else {
                seq!["  Changed files:"@] + views(files@).map_values(|f: Seq<char>| "    - "@ + f) + impact_lines(
                    *impact,
                )
            },
        },
{
    let ghost o = views(out@);
    match changed {
        ChangedFiles::Unavailable => {
            push_str(out, "  Changed files: (git not available - will check filesystem)");
        },
        ChangedFiles::Listed(files) => {
            if files.len() == 0 {
                push_str(out, "  Changed files: None detected");
                push_str(out, "  Impacted tests: None (no tests will run)");
                assert(views(out@) =~= o + seq!["  Changed files: None detected"@, "  Impacted tests: None (no tests will run)"@]);
            } else {
                push_str(out, "  Changed files:");
                let ghost b = views(out@);
                let ghost fv = views(files@);
                let mut i: usize = 0;
                while i < files.len()
                    invariant
                        i <= files@.len(),
                        fv == views(files@),
                        views(out@) == b + fv.take(i as int).map_values(|f: Seq<char>| "    - "@ + f),
                    decreases files@.len() - i,
                {
                    let mut l = "    - ".to_owned();
                    l.append(files[i].as_str());
                    push_string(out, l);
                    assert(fv.take(i + 1).map_values(|f: Seq<char>| "    - "@ + f) =~= fv.take(i as int).map_values(
                        |f: Seq<char>| "    - "@ + f,
                    ).push("    - "@ + fv[i as int]));
                    i = i + 1;
                }
                assert(fv.take(files@.len() as int) =~= fv);
                let ghost b2 = views(out@);
                push_impact_lines(out, impact);
                assert(views(out@) =~= o + (seq!["  Changed files:"@] + fv.map_values(|f: Seq<char>| "    - "@ + f)
                    + impact_lines(*impact)));
            }
        },
    }
}

fn push_selection_lines(out: &mut Vec<String>, cli: &Cli, changed: &ChangedFiles, impact: &ImpactSummary)
    ensures
        views(final(out)@) == views(old(out)@) + selection_lines(*cli, *changed, *impact),
{
    let ghost o = views(out@);
    if cli.all {
        push_str(out, "Selection: Running ALL tests (--all specified)");
    } else if cli.last_failed {
        push_str(out, "Selection: Running last failed tests");
    } else if cli.keyword.is_some() || cli.marker.is_some() || cli.paths.len() > 0 {
        if let Some(k) = &cli.keyword {
            let mut l = "Selection: Keyword filter: '".to_owned();
            l.append(k.as_str());
            l.append("'");
            push_string(out, l);
        }
        let ghost o1 = views(out@);
        if let Some(m) = &cli.marker {
            let mut l = "Selection: Marker filter: '".to_owned();
            l.append(m.as_str());
            l.append("'");
            push_string(out, l);
        }
        let ghost o2 = views(out@);
        if cli.paths.len() > 0 {
            let mut l = "Selection: Path filter: ".to_owned();
            let d = debug_list_string(&cli.paths);
            l.append(d.as_str());
            push_string(out, l);
        }
        assert(views(out@) =~= o + selection_lines(*cli, *changed, *impact));
    } else {
        push_str(out, "Selection: Impact-aware (based on changed files)");
        push_changed_lines(out, changed, impact);
        assert(views(out@) =~= o + selection_lines(*cli, *changed, *impact));
    }
}

fn push_closing_lines(out: &mut Vec<String>, all: bool)
    ensures
        views(final(out)@) == views(old(out)@) + closing_lines(all),
{
    let ghost o = views(out@);
    push_str(out, "");
    push_str(out, "Invalidation Rules:");
    push_str(out, "  1. Test file changed → run its tests");
    push_str(out, "  2. Source file changed → run tests that import it (via reverse deps)");
    push_str(out, "  3. conftest.py changed → run tests in that directory scope");
    push_str(out, "  4. Dynamic import detected → broaden selection for safety");
    push_str(out, "  5. Selection > 60% of total → run all tests");
    push_str(out, "");
    push_str(out, "Performance Insights:");
    if all {
        push_str(out, "  • Full test run - no impact analysis overhead");
    } else {
        push_str(out, "  • Impact analysis will save time on subsequent runs");
        push_str(out, "  • First run builds cache (may be slower)");
        push_str(out, "  • Watch mode provides sub-second feedback");
    }
    push_str(out, "");
    push_str(out, "Common Issues & Solutions:");
    push_str(out, "  • No tests found: Check test file naming (test_*.py or *_test.py)");
    push_str(out, "  • Tests not selected: Use -v to see selection reasoning");
    push_str(out, "  • Import errors: Run with --engine pytest to bypass analysis");
    push_str(out, "  • Slow performance: Check for syntax errors preventing caching");
    push_str(out, "");
    push_str(out, "Documentation:");
    push_str(out, "  • Full guide: https://docs.veri.dev/");
    push_str(out, "  • Troubleshooting: https://docs.veri.dev/troubleshooting");
    push_str(out, "  • Configuration: https://docs.veri.dev/config");
    assert(views(out@) =~= o + closing_lines(all));
}

/// The `--explain` report (see [`explanation_spec`]); `workers` is the
/// configured worker count, `cache_dir` and `log_level` the configured
/// ones.
pub fn explanation_lines(
    cli: &Cli,
    workers: Option<&str>,
    cache_dir: &str,
    log_level: &str,
    cache_key: &CacheKey,
    graphs: Option<&GraphCounts>,
    changed: &ChangedFiles,
    impact: &ImpactSummary,
) -> (r: Vec<String>)
    ensures
        views(r@) == explanation_spec(
            *cli,
            match workers {
                Some(w) => Some(w@),
                None => None,
            },
            cache_dir@,
            log_level@,
            *cache_key,
            match graphs {
                Some(g) => Some(*g),
                None => None,
            },
            *changed,
            *impact,
        ),
{
    let mut out: Vec<String> = Vec::new();
    push_str(&mut out, "=== veri Execution Plan ===");
    push_str(&mut out, "");
    let ghost o1 = views(out@);
    let key_lines = cache_key.explanation_lines();
    let mut i: usize = 0;
    while i < key_lines.len()
        invariant
            i <= key_lines@.len(),
            views(out@) == o1 + views(key_lines@).take(i as int),
        decreases key_lines@.len() - i,
    {
        let ghost p = views(out@);
        let l = key_lines[i].clone();
        push_string(&mut out, l);
        assert(views(key_lines@).take(i + 1) =~= views(key_lines@).take(i as int).push(views(key_lines@)[i as int]));
        i = i + 1;
    }
    assert(views(key_lines@).take(key_lines@.len() as int) =~= views(key_lines@));
    let ghost o2 = views(out@);
    push_str(&mut out, "");
    push_str(&mut out, "Configuration:");
    let mut e = "  Engine: ".to_owned();
    e.append(cli.engine.as_str());
    push_string(&mut out, e);
    let mut w = "  Workers: ".to_owned();
    match workers {
        Some(v) => w.append(v),
        None => w.append("auto"),
    }
    push_string(&mut out, w);
    let mut c = "  Cache dir: ".to_owned();
    c.append(cache_dir);
    push_string(&mut out, c);
    let mut l = "  Log level: ".to_owned();
    l.append(log_level);
    push_string(&mut out, l);
    push_str(&mut out, "");
    push_str(&mut out, "Import Graph Status:");
    let ghost o3 = views(out@);
    push_graph_lines(&mut out, graphs);
    push_str(&mut out, "");
    let ghost o4 = views(out@);
    push_selection_lines(&mut out, cli, changed, impact);
    let ghost o5 = views(out@);
    push_closing_lines(&mut out, cli.all);
    assert(views(out@) =~= explanation_spec(
        *cli,
        match workers {
            Some(w) => Some(w@),
            None => None,
        },
        cache_dir@,
        log_level@,
        *cache_key,
        match graphs {
            Some(g) => Some(*g),
            None => None,
        },
        *changed,
        *impact,
    ));
    out
}

} // verus!
