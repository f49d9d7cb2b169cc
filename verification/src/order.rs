//! Lexicographic order on character sequences (the order of `String`'s `Ord`,
//! which compares code points one by one) and sorting of string lists.
use vstd::prelude::*;

verus! {

/// `a` sorts strictly before `b` in `String`'s order.
pub open spec fn seq_lt(a: Seq<char>, b: Seq<char>) -> bool
    decreases a.len(),
{
    if a.len() == 0 {
        b.len() > 0
    } else if b.len() == 0 {
        false
    } else if a[0] != b[0] {
        (a[0] as int) < (b[0] as int)
    } else {
        seq_lt(a.drop_first(), b.drop_first())
    }
}

/// The views of a list of strings.
pub open spec fn views(v: Seq<String>) -> Seq<Seq<char>> {
    v.map_values(|s: String| s@)
}

/// The list is strictly increasing, hence free of duplicates.
pub open spec fn strictly_sorted(s: Seq<Seq<char>>) -> bool {
    forall|i: int, j: int| 0 <= i < j < s.len() ==> seq_lt(s[i], s[j])
}

pub proof fn lemma_lt_irreflexive(a: Seq<char>)
    ensures
        !seq_lt(a, a),
    decreases a.len(),
{
    if a.len() > 0 {
        lemma_lt_irreflexive(a.drop_first());
    }
}

pub proof fn lemma_lt_asymmetric(a: Seq<char>, b: Seq<char>)
    requires
        seq_lt(a, b),
    ensures
        !seq_lt(b, a),
    decreases a.len(),
{
    if a.len() > 0 && b.len() > 0 && a[0] == b[0] {
        lemma_lt_asymmetric(a.drop_first(), b.drop_first());
    }
}

pub proof fn lemma_lt_transitive(a: Seq<char>, b: Seq<char>, c: Seq<char>)
    requires
        seq_lt(a, b),
        seq_lt(b, c),
    ensures
        seq_lt(a, c),
    decreases a.len(),
{
    if a.len() > 0 && b.len() > 0 && c.len() > 0 && a[0] == b[0] && b[0] == c[0] {
        lemma_lt_transitive(a.drop_first(), b.drop_first(), c.drop_first());
    }
}

pub proof fn lemma_lt_total(a: Seq<char>, b: Seq<char>)
    ensures
        seq_lt(a, b) || seq_lt(b, a) || a == b,
    decreases a.len(),
{
    if a.len() > 0 && b.len() > 0 {
        if a[0] == b[0] {
            lemma_lt_total(a.drop_first(), b.drop_first());
            if a.drop_first() == b.drop_first() {
                assert(a =~= seq![a[0]] + a.drop_first());
                assert(b =~= seq![b[0]] + b.drop_first());
            }
        } else {
            assert((a[0] as int) != (b[0] as int));
        }
    } else if a.len() == 0 && b.len() == 0 {
        assert(a =~= b);
    }
}

/// Whether `a` sorts strictly before `b`.
pub fn str_lt(a: &str, b: &str) -> (r: bool)
    ensures
        r == seq_lt(a@, b@),
{
    let av = crate::text::chars_of(a);
    let bv = crate::text::chars_of(b);
    let mut i: usize = 0;
    assert(av@.skip(0) =~= av@);
    assert(bv@.skip(0) =~= bv@);
    while i < av.len() && i < bv.len() && av[i] == bv[i]
        invariant
            i <= av@.len(),
            i <= bv@.len(),
            seq_lt(av@, bv@) == seq_lt(av@.skip(i as int), bv@.skip(i as int)),
        decreases av@.len() - i,
    {
        proof {
            let sa = av@.skip(i as int);
            let sb = bv@.skip(i as int);
            assert(sa.drop_first() =~= av@.skip(i + 1));
            assert(sb.drop_first() =~= bv@.skip(i + 1));
        }
        i = i + 1;
    }
    let sa = Ghost(av@.skip(i as int));
    let sb = Ghost(bv@.skip(i as int));
    if i == av.len() {
        assert(sa@.len() == 0);
        i < bv.len()
    } else if i == bv.len() {
        assert(sb@.len() == 0);
        false
    } else {
        assert(sa@[0] == av@[i as int]);
        assert(sb@[0] == bv@[i as int]);
        av[i] < bv[i]
    }
}

/// Whether the sorted list `v` (by views) contains `x`; also the insertion point.
fn sorted_position(v: &Vec<String>, x: &String) -> (r: (usize, bool))
    requires
        strictly_sorted(views(v@)),
    ensures
        r.0 <= v@.len(),
        forall|i: int| 0 <= i < r.0 ==> seq_lt(#[trigger] views(v@)[i], x@),
        r.1 ==> r.0 < v@.len() && views(v@)[r.0 as int] == x@,
        !r.1 ==> forall|i: int| r.0 <= i < v@.len() ==> seq_lt(x@, #[trigger] views(v@)[i]),
{
    let mut i: usize = 0;
    while i < v.len()
        invariant
            i <= v@.len(),
            strictly_sorted(views(v@)),
            forall|k: int| 0 <= k < i ==> seq_lt(#[trigger] views(v@)[k], x@),
        decreases v@.len() - i,
    {
        if str_lt(v[i].as_str(), x.as_str()) {
            i = i + 1;
        } else {
            if str_lt(x.as_str(), v[i].as_str()) {
                assert forall|k: int| i <= k < v@.len() implies seq_lt(x@, #[trigger] views(v@)[k]) by {
                    if k > i {
                        lemma_lt_transitive(x@, views(v@)[i as int], views(v@)[k]);
                    }
                }
                return (i, false);
            } else {
                proof { lemma_lt_total(v@[i as int]@, x@); }
                return (i, true);
            }
        }
    }
    (i, false)
}

/// Sorts a list of strings and removes duplicates (`sort` then `dedup`).
pub fn sorted_distinct(v: &Vec<String>) -> (r: Vec<String>)
    ensures
        strictly_sorted(views(r@)),
        views(r@).to_set() == views(v@).to_set(),
{
    let mut r: Vec<String> = Vec::new();
    let mut i: usize = 0;
    while i < v.len()
        invariant
            i <= v@.len(),
            strictly_sorted(views(r@)),
            views(r@).to_set() == views(v@.subrange(0, i as int)).to_set(),
        decreases v@.len() - i,
    {
        let x = v[i].clone();
        let (pos, found) = sorted_position(&r, &x);
        let ghost old_r = r@;
        if !found {
            r.insert(pos, x.clone());
            proof {
                let vo = views(old_r);
                let vr = views(r@);
                assert(vr =~= vo.insert(pos as int, x@));
                assert forall|a: int, b: int| 0 <= a < b < vr.len() implies seq_lt(
                    #[trigger] vr[a],
                    #[trigger] vr[b],
                ) by {
                    if b < pos {
                        assert(vr[a] == vo[a] && vr[b] == vo[b]);
                    } else if a < pos && b == pos {
                        assert(vr[a] == vo[a]);
                    } else if a < pos {
                        assert(vr[a] == vo[a]);
                        assert(vr[b] == vo[b - 1]);
                    } else if a == pos {
                        assert(vr[b] == vo[b - 1]);
                    } else {
                        assert(vr[a] == vo[a - 1]);
                        assert(vr[b] == vo[b - 1]);
                    }
                }
            }
        }
        proof {
            let pre = v@.subrange(0, i as int);
            let post = v@.subrange(0, i + 1);
            let vo = views(old_r);
            let vr = views(r@);
            assert(views(post) =~= views(pre).push(x@));
            if !found {
                assert(vr =~= vo.insert(pos as int, x@));
            } else {
                assert(vr == vo);
                assert(vo[pos as int] == x@);
            }
            assert forall|e: Seq<char>| vr.to_set().contains(e) <==> views(post).to_set().contains(e) by {
                if vr.to_set().contains(e) {
                    let k = choose|k: int| 0 <= k < vr.len() && vr[k] == e;
                    if !found {
                        if k == pos {
                            assert(views(post)[i as int] == e);
                        } else if k < pos {
                            assert(vo[k] == e);
                            assert(vo.to_set().contains(e));
                            assert(views(pre).to_set().contains(e));
                            let j = choose|j: int| 0 <= j < views(pre).len() && views(pre)[j] == e;
                            assert(views(post)[j] == e);
                        } else {
                            assert(vo[k - 1] == e);
                            assert(vo.to_set().contains(e));
                            assert(views(pre).to_set().contains(e));
                            let j = choose|j: int| 0 <= j < views(pre).len() && views(pre)[j] == e;
                            assert(views(post)[j] == e);
                        }
                    } else {
                        assert(vo[k] == e);
                        assert(vo.to_set().contains(e));
                        assert(views(pre).to_set().contains(e));
                        let j = choose|j: int| 0 <= j < views(pre).len() && views(pre)[j] == e;
                        assert(views(post)[j] == e);
                    }
                }
                if views(post).to_set().contains(e) {
                    let k = choose|k: int| 0 <= k < views(post).len() && views(post)[k] == e;
                    if k < i {
                        assert(views(pre)[k] == e);
                        assert(views(pre).to_set().contains(e));
                        assert(vo.to_set().contains(e));
                        let j = choose|j: int| 0 <= j < vo.len() && vo[j] == e;
                        if !found {
                            if j < pos {
                                assert(vr[j] == e);
                            } else {
                                assert(vr[j + 1] == e);
                            }
                        } else {
                            assert(vr[j] == e);
                        }
                    } else {
                        assert(vr[pos as int] == e);
                    }
                }
            }
            assert(vr.to_set() =~= views(post).to_set());
        }
        i = i + 1;
    }
    assert(v@.subrange(0, v@.len() as int) =~= v@);
    r
}

} // verus!
