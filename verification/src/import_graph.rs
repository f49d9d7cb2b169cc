//! Reverse dependencies of the import graph: who imports a module, directly,
//! transitively, from a test module, or through a dynamic import.
use crate::order::{seq_lt, strictly_sorted, views};
use crate::schemas::{
    DynamicImport, ImportEdge, ImportsGraph, ModuleMap, ModuleReverseDeps, ReverseDepsGraph,
    UncertainDependent,
};
use crate::text::{has_prefix, has_substr, has_suffix, occurs_at};
use vstd::prelude::*;

verus! {

/// A module name looks like a test module.
pub open spec fn is_test_module_spec(m: Seq<char>) -> bool {
    ||| has_prefix(m, "test_"@)
    ||| has_suffix(m, "_test"@)
    ||| has_substr(m, ".test_"@)
    ||| has_substr(m, ".tests."@)
    ||| has_prefix(m, "tests."@)
}

/// Whether a module name looks like a test module.
pub fn is_test_module(module_name: &str) -> (b: bool)
    ensures
        b == is_test_module_spec(module_name@),
{
    crate::text::str_starts_with(module_name, "test_") || crate::text::str_ends_with(
        module_name,
        "_test",
    ) || crate::text::str_contains(module_name, ".test_") || crate::text::str_contains(
        module_name,
        ".tests.",
    ) || crate::text::str_starts_with(module_name, "tests.")
}

/// Appends `x` unless it is already present.
pub open spec fn push_new(s: Seq<Seq<char>>, x: Seq<char>) -> Seq<Seq<char>> {
    if s.contains(x) {
        s
    } else {
        s.push(x)
    }
}

/// The import edges as (importer, imported) pairs.
pub open spec fn edge_pairs(edges: Seq<ImportEdge>) -> Seq<(Seq<char>, Seq<char>)> {
    edges.map_values(|e: ImportEdge| (e.from_module@, e.to_module@))
}

/// The distinct importers of `m`, in order of first appearance.
pub open spec fn direct_spec(edges: Seq<(Seq<char>, Seq<char>)>, m: Seq<char>) -> Seq<Seq<char>>
    decreases edges.len(),
{
    if edges.len() == 0 {
        Seq::empty()
    } else {
        let prev = direct_spec(edges.drop_last(), m);
        let e = edges.last();
        if e.1 == m {
            push_new(prev, e.0)
        } else {
            prev
        }
    }
}

/// The distinct importers of `m` that are test modules, in order of first appearance.
pub open spec fn test_deps_spec(edges: Seq<(Seq<char>, Seq<char>)>, m: Seq<char>) -> Seq<
    Seq<char>,
>
    decreases edges.len(),
{
    if edges.len() == 0 {
        Seq::empty()
    } else {
        let prev = test_deps_spec(edges.drop_last(), m);
        let e = edges.last();
        if e.1 == m && is_test_module_spec(e.0) {
            push_new(prev, e.0)
        } else {
            prev
        }
    }
}

/// The distinct module names of a module map, in order of first appearance.
pub open spec fn module_names_spec(mods: Seq<(String, crate::schemas::ModuleInfo)>) -> Seq<
    Seq<char>,
>
    decreases mods.len(),
{
    if mods.len() == 0 {
        Seq::empty()
    } else {
        push_new(module_names_spec(mods.drop_last()), mods.last().1.module_name@)
    }
}

/// The modules that depend on `x` in one step: its importers when `x` is a
/// known module, nothing otherwise.
pub open spec fn succ(keys: Set<Seq<char>>, edges: Seq<(Seq<char>, Seq<char>)>, x: Seq<char>) -> Seq<
    Seq<char>,
> {
    if keys.contains(x) {
        direct_spec(edges, x)
    } else {
        Seq::empty()
    }
}

/// Modules that depend on `src` through a chain of at most `n + 1` imports.
pub open spec fn reach_within(
    keys: Set<Seq<char>>,
    edges: Seq<(Seq<char>, Seq<char>)>,
    src: Seq<char>,
    n: nat,
) -> Set<Seq<char>>
    decreases n,
{
    if n == 0 {
        succ(keys, edges, src).to_set()
    } else {
        let r = reach_within(keys, edges, src, (n - 1) as nat);
        r.union(
            Set::new(|y: Seq<char>| exists|x: Seq<char>| r.contains(x) && succ(keys, edges, x).contains(y)),
        )
    }
}

/// `y` depends on `src` through a chain of one or more imports.
pub open spec fn reachable(
    keys: Set<Seq<char>>,
    edges: Seq<(Seq<char>, Seq<char>)>,
    src: Seq<char>,
    y: Seq<char>,
) -> bool {
    exists|n: nat| #[trigger] reach_within(keys, edges, src, n).contains(y)
}

/// The dynamic imports whose static argument names `m`, as uncertain dependents.
pub open spec fn uncertain_spec(dyns: Seq<DynamicImport>, m: Seq<char>) -> Seq<(Seq<char>, Seq<char>, u32)>
    decreases dyns.len(),
{
    if dyns.len() == 0 {
        Seq::empty()
    } else {
        let prev = uncertain_spec(dyns.drop_last(), m);
        let d = dyns.last();
        if d.argument is Some && d.argument->0@ == m {
            prev.push((d.from_module@, "Dynamic import: "@ + d.reason@, 80u32))
        } else {
            prev
        }
    }
}

/// The view of a list of uncertain dependents.
pub open spec fn uncertain_view(u: Seq<UncertainDependent>) -> Seq<(Seq<char>, Seq<char>, u32)> {
    u.map_values(|d: UncertainDependent| (d.module@, d.reason@, d.confidence_percent))
}

/// The reverse dependencies of `m` are exactly what the import graph determines.
pub open spec fn revdeps_entry_ok(
    keys: Set<Seq<char>>,
    graph: &ImportsGraph,
    m: Seq<char>,
    deps: &ModuleReverseDeps,
) -> bool {
    let edges = edge_pairs(graph.edges@);
    &&& views(deps.direct_dependents@) == direct_spec(edges, m)
    &&& views(deps.test_dependents@) == test_deps_spec(edges, m)
    &&& strictly_sorted(views(deps.transitive_dependents@))
    &&& views(deps.transitive_dependents@).to_set() == Set::new(
        |y: Seq<char>| reachable(keys, edges, m, y),
    )
    &&& uncertain_view(deps.uncertain_dependents@) == uncertain_spec(graph.dynamic_imports@, m)
}

/// The keys of a reverse-dependency list.
pub open spec fn revdeps_keys(r: Seq<(String, ModuleReverseDeps)>) -> Seq<Seq<char>> {
    r.map_values(|e: (String, ModuleReverseDeps)| e.0@)
}

/// The distinct module names of a module map.
pub fn module_names(module_map: &ModuleMap) -> (r: Vec<String>)
    ensures
        views(r@) == module_names_spec(module_map.modules@),
{
    let mut r: Vec<String> = Vec::new();
    let mut i: usize = 0;
    while i < module_map.modules.len()
        invariant
            i <= module_map.modules@.len(),
            views(r@) == module_names_spec(module_map.modules@.subrange(0, i as int)),
        decreases module_map.modules@.len() - i,
    {
        let name = &module_map.modules[i].1.module_name;
        let present = contains_string(&r, name);
        proof {
            let pre = module_map.modules@.subrange(0, i as int);
            let post = module_map.modules@.subrange(0, i + 1);
            assert(post.drop_last() =~= pre);
        }
        if !present {
            r.push(name.clone());
            assert(views(r@) =~= module_names_spec(module_map.modules@.subrange(0, i as int)).push(
                name@,
            ));
        }
        i = i + 1;
    }
    assert(module_map.modules@.subrange(0, module_map.modules@.len() as int)
        =~= module_map.modules@);
    r
}

/// Whether the list holds a string equal to `s`.
pub fn contains_string(v: &Vec<String>, s: &String) -> (b: bool)
    ensures
        b == views(v@).contains(s@),
{
    let mut i: usize = 0;
    while i < v.len()
        invariant
            i <= v@.len(),
            forall|k: int| 0 <= k < i ==> v@[k]@ != s@,
        decreases v@.len() - i,
    {
        if v[i] == *s {
            assert(views(v@)[i as int] == s@);
            return true;
        }
        i = i + 1;
    }
    assert forall|k: int| 0 <= k < views(v@).len() implies views(v@)[k] != s@ by {
        assert(views(v@)[k] == v@[k]@);
    }
    false
}

/// The distinct importers of `m` (all of them, or only test modules).
fn dependents_of(edges: &Vec<ImportEdge>, m: &String, tests_only: bool) -> (r: Vec<String>)
    ensures
        !tests_only ==> views(r@) == direct_spec(edge_pairs(edges@), m@),
        tests_only ==> views(r@) == test_deps_spec(edge_pairs(edges@), m@),
{
    let mut r: Vec<String> = Vec::new();
    let mut i: usize = 0;
    while i < edges.len()
        invariant
            i <= edges@.len(),
            !tests_only ==> views(r@) == direct_spec(edge_pairs(edges@.subrange(0, i as int)), m@),
            tests_only ==> views(r@) == test_deps_spec(
                edge_pairs(edges@.subrange(0, i as int)),
                m@,
            ),
        decreases edges@.len() - i,
    {
        let e = &edges[i];
        proof {
            let pre = edge_pairs(edges@.subrange(0, i as int));
            let post = edge_pairs(edges@.subrange(0, i + 1));
            assert(post.drop_last() =~= pre);
            assert(post.last() == (e.from_module@, e.to_module@));
        }
        if e.to_module == *m && (!tests_only || is_test_module(e.from_module.as_str())) {
            if !contains_string(&r, &e.from_module) {
                r.push(e.from_module.clone());
                assert(views(r@) =~= views(r@.drop_last()).push(e.from_module@));
            }
        }
        i = i + 1;
    }
    assert(edges@.subrange(0, edges@.len() as int) =~= edges@);
    r
}

/// The index of the entry whose key is `key`, if any.
fn find_key(table: &Vec<(String, Vec<String>)>, key: &String) -> (r: Option<usize>)
    ensures
        r is Some ==> r->0 < table@.len() && table@[r->0 as int].0@ == key@,
        r is None ==> forall|k: int| 0 <= k < table@.len() ==> table@[k].0@ != key@,
{
    let mut i: usize = 0;
    while i < table.len()
        invariant
            i <= table@.len(),
            forall|k: int| 0 <= k < i ==> table@[k].0@ != key@,
        decreases table@.len() - i,
    {
        if table[i].0 == *key {
            return Some(i);
        }
        i = i + 1;
    }
    None
}

/// Every member of `reach_within(n)` is in `s` when `s` holds the successors of
/// the source and of each of its members.
proof fn lemma_closed_contains_reach(
    keys: Set<Seq<char>>,
    edges: Seq<(Seq<char>, Seq<char>)>,
    src: Seq<char>,
    s: Set<Seq<char>>,
    n: nat,
)
    requires
        forall|y: Seq<char>| succ(keys, edges, src).contains(y) ==> s.contains(y),
        forall|x: Seq<char>, y: Seq<char>|
            s.contains(x) && #[trigger] succ(keys, edges, x).contains(y) ==> s.contains(y),
    ensures
        reach_within(keys, edges, src, n).subset_of(s),
    decreases n,
{
    if n > 0 {
        lemma_closed_contains_reach(keys, edges, src, s, (n - 1) as nat);
    }
}

/// The importers of a module are among the importing modules of the edges.
proof fn lemma_direct_in_froms(edges: Seq<(Seq<char>, Seq<char>)>, m: Seq<char>, y: Seq<char>)
    requires
        direct_spec(edges, m).contains(y),
    ensures
        edges.map_values(|e: (Seq<char>, Seq<char>)| e.0).contains(y),
    decreases edges.len(),
{
    let froms = edges.map_values(|e: (Seq<char>, Seq<char>)| e.0);
    let prev = direct_spec(edges.drop_last(), m);
    let pf = edges.drop_last().map_values(|e: (Seq<char>, Seq<char>)| e.0);
    if prev.contains(y) {
        lemma_direct_in_froms(edges.drop_last(), m, y);
        let k = choose|k: int| 0 <= k < pf.len() && pf[k] == y;
        assert(froms[k] == y);
    } else {
        assert(froms[edges.len() - 1] == y);
    }
}

/// A duplicate-free list drawn from `froms` is no longer than `froms`.
proof fn lemma_distinct_bounded(s: Seq<Seq<char>>, froms: Seq<Seq<char>>)
    requires
        s.no_duplicates(),
        forall|a: int| 0 <= a < s.len() ==> froms.contains(#[trigger] s[a]),
    ensures
        s.len() <= froms.len(),
{
    s.unique_seq_to_set();
    froms.lemma_cardinality_of_set();
    assert(s.to_set().subset_of(froms.to_set())) by {
        assert forall|x: Seq<char>| s.to_set().contains(x) implies froms.to_set().contains(x) by {
            let a = choose|a: int| 0 <= a < s.len() && s[a] == x;
        }
    }
    vstd::set_lib::lemma_len_subset(s.to_set(), froms.to_set());
}

/// The successors of a reachable module are reachable.
proof fn lemma_reach_step(
    keys: Set<Seq<char>>,
    edges: Seq<(Seq<char>, Seq<char>)>,
    src: Seq<char>,
    x: Seq<char>,
    y: Seq<char>,
)
    requires
        reachable(keys, edges, src, x),
        succ(keys, edges, x).contains(y),
    ensures
        reachable(keys, edges, src, y),
{
    let n = choose|n: nat| #[trigger] reach_within(keys, edges, src, n).contains(x);
    let r = reach_within(keys, edges, src, n);
    assert(reach_within(keys, edges, src, n + 1).contains(y));
}

/// The modules that depend on `m` through one or more imports, sorted.
fn transitive_of(
    table: &Vec<(String, Vec<String>)>,
    m: &String,
    Ghost(keys): Ghost<Set<Seq<char>>>,
    Ghost(edges): Ghost<Seq<(Seq<char>, Seq<char>)>>,
) -> (r: Vec<String>)
    requires
        forall|k: int|
            0 <= k < table@.len() ==> keys.contains(#[trigger] table@[k].0@) && views(table@[k].1@)
                == direct_spec(edges, table@[k].0@),
        forall|x: Seq<char>| keys.contains(x) ==> exists|k: int| 0 <= k < table@.len() && #[trigger] table@[k].0@ == x,
    ensures
        strictly_sorted(views(r@)),
        views(r@).to_set() == Set::new(|y: Seq<char>| reachable(keys, edges, m@, y)),
{
    let mut order: Vec<String> = Vec::new();
    let first = find_key(table, m);
    proof {
        if first is None {
            assert(!keys.contains(m@));
        } else {
            assert(succ(keys, edges, m@) == views(table@[first->0 as int].1@));
        }
    }
    if let Some(idx) = first {
        let ds = &table[idx].1;
        let mut j: usize = 0;
        while j < ds.len()
            invariant
                j <= ds@.len(),
                succ(keys, edges, m@) == views(ds@),
                forall|a: int| 0 <= a < order@.len() ==> reachable(keys, edges, m@, #[trigger] order@[a]@),
                forall|a: int, b: int| 0 <= a < b < order@.len() ==> order@[a]@ != order@[b]@,
                forall|a: int| 0 <= a < j ==> views(order@).contains(#[trigger] ds@[a]@),
                forall|a: int| 0 <= a < order@.len() ==> edges.map_values(|e: (Seq<char>, Seq<char>)| e.0).contains(#[trigger] order@[a]@),
            decreases ds@.len() - j,
        {
            proof {
                assert(views(ds@)[j as int] == ds@[j as int]@);
                assert(reach_within(keys, edges, m@, 0).contains(ds@[j as int]@));
                assert(views(ds@).contains(ds@[j as int]@));
                lemma_direct_in_froms(edges, m@, ds@[j as int]@);
            }
            if !contains_string(&order, &ds[j]) {
                let ghost old_order = order@;
                order.push(ds[j].clone());
                proof {
                    assert forall|a: int| 0 <= a < j + 1 implies views(order@).contains(#[trigger] ds@[a]@) by {
                        if a < j {
                            let w = choose|w: int| 0 <= w < views(old_order).len() && views(old_order)[w] == ds@[a]@;
                            assert(views(order@)[w] == ds@[a]@);
                        } else {
                            assert(views(order@)[order@.len() - 1] == ds@[a]@);
                        }
                    }
                    assert forall|a: int, b: int| 0 <= a < b < order@.len() implies order@[a]@ != order@[b]@ by {
                        if b == order@.len() - 1 {
                            assert(views(old_order)[a] == order@[a]@);
                        }
                    }
                }
            }
            j = j + 1;
        }
    }
    let mut head: usize = 0;
    proof {
        assert forall|a: int, b: int| 0 <= a < views(order@).len() && 0 <= b < views(order@).len() && a != b implies views(order@)[a] != views(order@)[b] by {
            if a < b { } else { }
        }
        lemma_distinct_bounded(views(order@), edges.map_values(|e: (Seq<char>, Seq<char>)| e.0));
    }
    while head < order.len()
        invariant
            head <= order@.len(),
            order@.len() <= edges.len(),
            forall|a: int| 0 <= a < order@.len() ==> edges.map_values(|e: (Seq<char>, Seq<char>)| e.0).contains(#[trigger] order@[a]@),
            forall|a: int| 0 <= a < order@.len() ==> reachable(keys, edges, m@, #[trigger] order@[a]@),
            forall|a: int, b: int| 0 <= a < b < order@.len() ==> order@[a]@ != order@[b]@,
            forall|y: Seq<char>| #[trigger] succ(keys, edges, m@).contains(y) ==> views(order@).contains(y),
            forall|a: int, y: Seq<char>|
                0 <= a < head && #[trigger] succ(keys, edges, order@[a]@).contains(y) ==> views(order@).contains(y),
            forall|k: int|
                0 <= k < table@.len() ==> keys.contains(#[trigger] table@[k].0@) && views(table@[k].1@)
                    == direct_spec(edges, table@[k].0@),
            forall|x: Seq<char>| keys.contains(x) ==> exists|k: int| 0 <= k < table@.len() && #[trigger] table@[k].0@ == x,
        decreases edges.len() - head,
    {
        let cur = order[head].clone();
        let found = find_key(table, &cur);
        proof {
            if found is None {
                assert(!keys.contains(cur@));
                assert(succ(keys, edges, cur@) =~= Seq::<Seq<char>>::empty());
            } else {
                assert(succ(keys, edges, cur@) == views(table@[found->0 as int].1@));
            }
        }
        if let Some(idx) = found {
            let ds = &table[idx].1;
            let mut j: usize = 0;
            let ghost before = order@;
            while j < ds.len()
                invariant
                    j <= ds@.len(),
                    head < order@.len(),
                    order@[head as int]@ == cur@,
                    reachable(keys, edges, m@, cur@),
                    succ(keys, edges, cur@) == views(ds@),
                    order@.len() >= before.len(),
                    forall|a: int| 0 <= a < before.len() ==> order@[a] == before[a],
                    forall|a: int| 0 <= a < order@.len() ==> reachable(keys, edges, m@, #[trigger] order@[a]@),
                    forall|a: int, b: int| 0 <= a < b < order@.len() ==> order@[a]@ != order@[b]@,
                    forall|a: int| 0 <= a < j ==> views(order@).contains(#[trigger] ds@[a]@),
                    forall|a: int| 0 <= a < order@.len() ==> edges.map_values(|e: (Seq<char>, Seq<char>)| e.0).contains(#[trigger] order@[a]@),
                    keys.contains(cur@),
                decreases ds@.len() - j,
            {
                proof {
                    assert(views(ds@)[j as int] == ds@[j as int]@);
                    lemma_reach_step(keys, edges, m@, cur@, ds@[j as int]@);
                    assert(views(ds@).contains(ds@[j as int]@));
                    lemma_direct_in_froms(edges, cur@, ds@[j as int]@);
                }
                if !contains_string(&order, &ds[j]) {
                    let ghost old_order = order@;
                    order.push(ds[j].clone());
                    proof {
                        assert forall|a: int| 0 <= a < j + 1 implies views(order@).contains(#[trigger] ds@[a]@) by {
                            if a < j {
                                let w = choose|w: int| 0 <= w < views(old_order).len() && views(old_order)[w] == ds@[a]@;
                                assert(views(order@)[w] == ds@[a]@);
                            } else {
                                assert(views(order@)[order@.len() - 1] == ds@[a]@);
                            }
                        }
                        assert forall|a: int, b: int| 0 <= a < b < order@.len() implies order@[a]@ != order@[b]@ by {
                            if b == order@.len() - 1 {
                                assert(views(old_order)[a] == order@[a]@);
                            }
                        }
                    }
                }
                j = j + 1;
            }
            proof {
                assert forall|a: int, b: int| 0 <= a < views(order@).len() && 0 <= b < views(order@).len() && a != b implies views(order@)[a] != views(order@)[b] by {
                    if a < b { } else { }
                }
                lemma_distinct_bounded(views(order@), edges.map_values(|e: (Seq<char>, Seq<char>)| e.0));
                assert forall|y: Seq<char>| #[trigger] succ(keys, edges, m@).contains(y) implies views(order@).contains(y) by {
                    assert(views(before).contains(y));
                    let w = choose|w: int| 0 <= w < views(before).len() && views(before)[w] == y;
                    assert(views(order@)[w] == y);
                }
                assert forall|a: int, y: Seq<char>|
                    0 <= a < head + 1 && #[trigger] succ(keys, edges, order@[a]@).contains(y) implies views(order@).contains(y) by {
                    if a < head {
                        assert(order@[a] == before[a]);
                        assert(views(before).contains(y));
                        let w = choose|w: int| 0 <= w < views(before).len() && views(before)[w] == y;
                        assert(views(order@)[w] == y);
                    } else {
                        let w = choose|w: int| 0 <= w < views(ds@).len() && views(ds@)[w] == y;
                        assert(ds@[w]@ == y);
                    }
                }
            }
        }
        head = head + 1;
    }
    proof {
        let s = views(order@).to_set();
        assert forall|y: Seq<char>| succ(keys, edges, m@).contains(y) implies s.contains(y) by {
            assert(views(order@).contains(y));
        }
        assert forall|x: Seq<char>, y: Seq<char>| s.contains(x) && #[trigger] succ(keys, edges, x).contains(y) implies s.contains(y) by {
            let a = choose|a: int| 0 <= a < views(order@).len() && views(order@)[a] == x;
            assert(order@[a]@ == x);
            assert(views(order@).contains(y));
        }
        assert forall|y: Seq<char>| reachable(keys, edges, m@, y) implies s.contains(y) by {
            let n = choose|n: nat| #[trigger] reach_within(keys, edges, m@, n).contains(y);
            lemma_closed_contains_reach(keys, edges, m@, s, n);
        }
        assert forall|y: Seq<char>| s.contains(y) implies reachable(keys, edges, m@, y) by {
            let a = choose|a: int| 0 <= a < views(order@).len() && views(order@)[a] == y;
            assert(order@[a]@ == y);
        }
        assert(s =~= Set::new(|y: Seq<char>| reachable(keys, edges, m@, y)));
    }
    crate::order::sorted_distinct(&order)
}

/// The uncertain dependents of `m`: the dynamic imports that name it.
fn uncertain_of(dyns: &Vec<DynamicImport>, m: &String) -> (r: Vec<UncertainDependent>)
    ensures
        uncertain_view(r@) == uncertain_spec(dyns@, m@),
{
    let mut r: Vec<UncertainDependent> = Vec::new();
    let mut i: usize = 0;
    while i < dyns.len()
        invariant
            i <= dyns@.len(),
            uncertain_view(r@) == uncertain_spec(dyns@.subrange(0, i as int), m@),
        decreases dyns@.len() - i,
    {
        let d = &dyns[i];
        proof {
            assert(dyns@.subrange(0, i + 1).drop_last() =~= dyns@.subrange(0, i as int));
        }
        match &d.argument {
            Some(arg) => {
                if *arg == *m {
                    let mut reason = String::new();
                    reason.append("Dynamic import: ");
                    reason.append(d.reason.as_str());
                    r.push(
                        UncertainDependent {
                            module: d.from_module.clone(),
                            reason,
                            confidence_percent: 80,
                        },
                    );
                    assert(uncertain_view(r@) =~= uncertain_spec(
                        dyns@.subrange(0, i as int),
                        m@,
                    ).push((d.from_module@, "Dynamic import: "@ + d.reason@, 80u32)));
                }
            },
            None => {},
        }
        i = i + 1;
    }
    assert(dyns@.subrange(0, dyns@.len() as int) =~= dyns@);
    r
}

/// Builds the reverse-dependency graph of a project from its module map and
/// import graph, stamped with `generated_at`.
pub fn reverse_deps_at(
    module_map: &ModuleMap,
    imports_graph: &ImportsGraph,
    generated_at: String,
) -> (r: ReverseDepsGraph)
    ensures
        r.version@ == "0.1.0"@,
        r.generated_at == generated_at,
        revdeps_keys(r.reverse_deps@) == module_names_spec(module_map.modules@),
        forall|i: int|
            0 <= i < r.reverse_deps@.len() ==> revdeps_entry_ok(
                module_names_spec(module_map.modules@).to_set(),
                imports_graph,
                #[trigger] r.reverse_deps@[i].0@,
                &r.reverse_deps@[i].1,
            ),
{
    let names = module_names(module_map);
    let ghost keys = views(names@).to_set();
    let ghost edges = edge_pairs(imports_graph.edges@);
    let mut table: Vec<(String, Vec<String>)> = Vec::new();
    let mut i: usize = 0;
    while i < names.len()
        invariant
            i <= names@.len(),
            keys == views(names@).to_set(),
            edges == edge_pairs(imports_graph.edges@),
            table@.len() == i,
            forall|k: int| 0 <= k < i ==> #[trigger] table@[k].0@ == names@[k]@ && views(table@[k].1@)
                == direct_spec(edges, names@[k]@),
        decreases names@.len() - i,
    {
        let d = dependents_of(&imports_graph.edges, &names[i], false);
        let ghost old_table = table@;
        table.push((names[i].clone(), d));
        assert(table@[i as int].0@ == names@[i as int]@);
        assert(forall|k: int| 0 <= k < i ==> table@[k] == old_table[k]);
        i = i + 1;
    }
    proof {
        assert forall|k: int| 0 <= k < table@.len() implies keys.contains(#[trigger] table@[k].0@) && views(table@[k].1@)
            == direct_spec(edges, table@[k].0@) by {
            assert(views(names@)[k] == names@[k]@);
        }
        assert forall|x: Seq<char>| keys.contains(x) implies exists|k: int| 0 <= k < table@.len() && #[trigger] table@[k].0@ == x by {
            let k = choose|k: int| 0 <= k < views(names@).len() && views(names@)[k] == x;
            assert(table@[k].0@ == x);
        }
    }
    let mut out: Vec<(String, ModuleReverseDeps)> = Vec::new();
    let mut i: usize = 0;
    while i < names.len()
        invariant
            i <= names@.len(),
            keys == views(names@).to_set(),
            edges == edge_pairs(imports_graph.edges@),
            views(names@) == module_names_spec(module_map.modules@),
            out@.len() == i,
            forall|k: int| 0 <= k < i ==> #[trigger] out@[k].0@ == names@[k]@,
            forall|k: int| 0 <= k < i ==> revdeps_entry_ok(keys, imports_graph, #[trigger] out@[k].0@, &out@[k].1),
            forall|k: int|
                0 <= k < table@.len() ==> keys.contains(#[trigger] table@[k].0@) && views(table@[k].1@)
                    == direct_spec(edges, table@[k].0@),
            forall|x: Seq<char>| keys.contains(x) ==> exists|k: int| 0 <= k < table@.len() && #[trigger] table@[k].0@ == x,
        decreases names@.len() - i,
    {
        let m = &names[i];
        let direct = dependents_of(&imports_graph.edges, m, false);
        let tests = dependents_of(&imports_graph.edges, m, true);
        let transitive = transitive_of(&table, m, Ghost(keys), Ghost(edges));
        let uncertain = uncertain_of(&imports_graph.dynamic_imports, m);
        out.push(
            (
                m.clone(),
                ModuleReverseDeps {
                    direct_dependents: direct,
                    transitive_dependents: transitive,
                    test_dependents: tests,
                    uncertain_dependents: uncertain,
                },
            ),
        );
        i = i + 1;
    }
    proof {
        assert(revdeps_keys(out@) =~= views(names@)) by {
            assert forall|k: int| 0 <= k < out@.len() implies revdeps_keys(out@)[k] == views(names@)[k] by {
                assert(out@[k].0@ == names@[k]@);
            }
        }
    }
    ReverseDepsGraph { version: "0.1.0".to_string(), generated_at, reverse_deps: out }
}


/// The current time as RFC 3339 text (`+00:00` offset).
///
/// Wraps `chrono::DateTime::<Utc>::from_timestamp(..).to_rfc3339()` on the
/// system clock's time since the epoch (a clock set before 1970 reads as the
/// epoch, where `Utc::now` would panic); nothing is claimed of the value,
/// which depends on the clock.
#[verifier::external_body]
pub(crate) fn now_rfc3339() -> (s: String) {
    let d = std::time::SystemTime::now().duration_since(std::time::UNIX_EPOCH).unwrap_or_default();
    chrono::DateTime::<chrono::Utc>::from_timestamp(d.as_secs() as i64, d.subsec_nanos()).unwrap_or_default().to_rfc3339()
}

/// Builds the reverse-dependency graph (see [`reverse_deps_at`]), stamped
/// with the current time.
pub fn build_reverse_deps(module_map: &ModuleMap, imports_graph: &ImportsGraph) -> (r: ReverseDepsGraph)
    ensures
        r.version@ == "0.1.0"@,
        revdeps_keys(r.reverse_deps@) == module_names_spec(module_map.modules@),
        forall|i: int|
            0 <= i < r.reverse_deps@.len() ==> revdeps_entry_ok(
                module_names_spec(module_map.modules@).to_set(),
                imports_graph,
                #[trigger] r.reverse_deps@[i].0@,
                &r.reverse_deps@[i].1,
            ),
{
    reverse_deps_at(module_map, imports_graph, now_rfc3339())
}

/// A Python source file, by name.
pub fn is_python_file_name(file_name: &str) -> (r: bool)
    ensures
        r == crate::text::has_suffix(file_name@, ".py"@),
{
    crate::text::str_ends_with(file_name, ".py")
}

/// Whether module discovery enters a directory: not hidden, not a bytecode
/// cache.
pub fn should_walk_dir(dir_name: &str) -> (r: bool)
    ensures
        r == !(crate::text::has_prefix(dir_name@, "."@) || crate::text::has_prefix(dir_name@, "__pycache__"@)),
{
    !(crate::text::str_starts_with(dir_name, ".") || crate::text::str_starts_with(dir_name, "__pycache__"))
}

/// `name` inside the package `prefix` (`prefix.name`, or `name` at the top).
pub open spec fn qualified(prefix: Seq<char>, name: Seq<char>) -> Seq<char> {
    if prefix.len() == 0 {
        name
    } else {
        prefix + "."@ + name
    }
}

/// The dotted name of a subpackage.
pub fn subpackage_name(prefix: &str, dir_name: &str) -> (r: String)
    ensures
        r@ == qualified(prefix@, dir_name@),
{
    let p = crate::text::chars_of(prefix);
    if p.len() == 0 {
        dir_name.to_owned()
    } else {
        let mut r = prefix.to_owned();
        r.append(".");
        r.append(dir_name);
        r
    }
}

/// The module a Python file in package `prefix` defines: the package itself
/// for `__init__.py`, else the file's name without `.py` inside it.
pub open spec fn module_name_spec(prefix: Seq<char>, file_name: Seq<char>) -> Seq<char> {
    if file_name == "__init__.py"@ {
        prefix
    } else {
        qualified(prefix, file_name.take(file_name.len() - 3))
    }
}

/// The module a Python file defines (see [`module_name_spec`]).
pub fn module_name_for(prefix: &str, file_name: &str) -> (r: String)
    requires
        crate::text::has_suffix(file_name@, ".py"@),
    ensures
        r@ == module_name_spec(prefix@, file_name@),
{
    if crate::text::str_eq(file_name, "__init__.py") {
        return prefix.to_owned();
    }
    let cs = crate::text::chars_of(file_name);
    proof {
        reveal_strlit(".py");
    }
    let base = crate::text::string_from_chars(&cs.as_slice()[0..cs.len() - 3]);
    assert(base@ =~= file_name@.take(file_name@.len() - 3));
    subpackage_name(prefix, base.as_str())
}

/// The module map entry for a Python file, if it defines a module (a top
/// level `__init__.py` defines none).
pub fn module_info_for(prefix: &str, file_name: &str, relative_path: &str, digest: String) -> (r: Option<
    crate::schemas::ModuleInfo,
>)
    requires
        crate::text::has_suffix(file_name@, ".py"@),
    ensures
        module_name_spec(prefix@, file_name@).len() == 0 <==> r is None,
        r matches Some(m) ==> {
            &&& m.module_name@ == module_name_spec(prefix@, file_name@)
            &&& m.is_package == (file_name@ == "__init__.py"@)
            &&& !m.is_namespace
            &&& (prefix@.len() == 0 <==> m.parent_package is None)
            &&& (m.parent_package matches Some(p) ==> p@ == prefix@)
            &&& m.relative_path@ == relative_path@
            &&& m.digest == digest
        },
{
    let name = module_name_for(prefix, file_name);
    let nc = crate::text::chars_of(name.as_str());
    if nc.len() == 0 {
        return None;
    }
    let pc = crate::text::chars_of(prefix);
    Some(
        crate::schemas::ModuleInfo {
            module_name: name,
            is_package: crate::text::str_eq(file_name, "__init__.py"),
            is_namespace: false,
            parent_package: if pc.len() == 0 {
                None
            } else {
                Some(prefix.to_owned())
            },
            relative_path: relative_path.to_owned(),
            digest,
        },
    )
}

/// The package entry for a directory: a namespace package when it has no
/// `__init__.py`.
pub fn package_info_for(prefix: &str, relative_dir: &str, has_init: bool, subpackages: Vec<String>) -> (r:
    crate::schemas::PackageInfo)
    ensures
        r.name@ == prefix@,
        r.path@ == relative_dir@,
        r.is_namespace == !has_init,
        r.subpackages == subpackages,
{
    crate::schemas::PackageInfo {
        name: prefix.to_owned(),
        path: relative_dir.to_owned(),
        is_namespace: !has_init,
        subpackages,
    }
}


/// A module whose name ends in `_test` (as `pkg.parser_test`) is a test
/// module, as are those named `test_…` or `tests.…` and those with a
/// `.test_…` part or inside a `.tests.` package.
pub proof fn lemma_test_module_names(m: Seq<char>)
    requires
        has_suffix(m, "_test"@) || has_prefix(m, "test_"@) || has_prefix(m, "tests."@) || has_substr(m, ".test_"@)
            || has_substr(m, ".tests."@),
    ensures
        is_test_module_spec(m),
{
}

/// A module whose name does not mention `test` is never a test module.
pub proof fn lemma_non_test_module(m: Seq<char>)
    requires
        !has_substr(m, "test"@),
    ensures
        !is_test_module_spec(m),
{
    reveal_strlit("test");
    reveal_strlit("test_");
    reveal_strlit("_test");
    reveal_strlit(".test_");
    reveal_strlit(".tests.");
    reveal_strlit("tests.");
    let t = "test"@;
    if has_prefix(m, "test_"@) || has_prefix(m, "tests."@) {
        assert(m.subrange(0, 4) =~= t);
        assert(occurs_at(m, t, 0));
    }
    if has_suffix(m, "_test"@) {
        let suf = m.subrange(m.len() - 5, m.len() as int);
        assert(suf == "_test"@);
        assert(m.subrange(m.len() - 4, m.len() as int) =~= suf.subrange(1, 5));
        assert(m.subrange(m.len() - 4, m.len() as int) =~= t);
        assert(occurs_at(m, t, m.len() - 4));
    }
    if has_substr(m, ".test_"@) {
        let i = choose|i: int| occurs_at(m, ".test_"@, i);
        assert(m.subrange(i + 1, i + 5) =~= m.subrange(i, i + 6).subrange(1, 5));
        assert(m.subrange(i + 1, i + 5) =~= t);
        assert(occurs_at(m, t, i + 1));
    }
    if has_substr(m, ".tests."@) {
        let i = choose|i: int| occurs_at(m, ".tests."@, i);
        assert(m.subrange(i + 1, i + 5) =~= m.subrange(i, i + 7).subrange(1, 5));
        assert(m.subrange(i + 1, i + 5) =~= t);
        assert(occurs_at(m, t, i + 1));
    }
}

proof fn lemma_test_deps_has(edges: Seq<(Seq<char>, Seq<char>)>, m: Seq<char>, k: int)
    requires
        0 <= k < edges.len(),
        edges[k].1 == m,
        is_test_module_spec(edges[k].0),
    ensures
        test_deps_spec(edges, m).contains(edges[k].0),
    decreases edges.len(),
{
    let prev = test_deps_spec(edges.drop_last(), m);
    if k < edges.len() - 1 {
        assert(edges.drop_last()[k] == edges[k]);
        lemma_test_deps_has(edges.drop_last(), m, k);
        let j = choose|j: int| 0 <= j < prev.len() && prev[j] == edges[k].0;
        if !prev.contains(edges.last().0) && edges.last().1 == m && is_test_module_spec(edges.last().0) {
            assert(prev.push(edges.last().0)[j] == edges[k].0);
        }
    } else {
        if !prev.contains(edges[k].0) {
            assert(prev.push(edges[k].0)[prev.len() as int] == edges[k].0);
        }
    }
}

/// Every test module that imports a module is among its test dependents in
/// the reverse-dependency graph; in particular one whose name ends in
/// `_test`, so its tests are selected when that module changes.
pub proof fn lemma_test_importer_is_test_dependent(
    keys: Set<Seq<char>>,
    graph: ImportsGraph,
    m: Seq<char>,
    deps: ModuleReverseDeps,
    k: int,
)
    requires
        revdeps_entry_ok(keys, &graph, m, &deps),
        0 <= k < graph.edges@.len(),
        graph.edges@[k].to_module@ == m,
        is_test_module_spec(graph.edges@[k].from_module@) || has_suffix(graph.edges@[k].from_module@, "_test"@),
    ensures
        views(deps.test_dependents@).contains(graph.edges@[k].from_module@),
{
    let edges = edge_pairs(graph.edges@);
    assert(edges[k] == (graph.edges@[k].from_module@, graph.edges@[k].to_module@));
    lemma_test_deps_has(edges, m, k);
}

} // verus!
