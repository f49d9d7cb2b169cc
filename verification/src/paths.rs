//! File names and parent directories of `/`-separated paths, with the meaning
//! `std::path::Path::file_name` and `Path::parent` give them on Unix.
use vstd::prelude::*;

verus! {

/// Drops trailing separators and trailing `.` components.
pub open spec fn strip_tail(p: Seq<char>) -> Seq<char>
    decreases p.len(),
{
    if p.len() > 0 && p.last() == '/' {
        strip_tail(p.drop_last())
    } else if p.len() >= 2 && p.last() == '.' && p[p.len() - 2] == '/' {
        strip_tail(p.drop_last())
    } else {
        p
    }
}

/// Index of the last `/`, or -1.
pub open spec fn last_slash(p: Seq<char>) -> int
    decreases p.len(),
{
    if p.len() == 0 {
        -1
    } else if p.last() == '/' {
        p.len() - 1
    } else {
        last_slash(p.drop_last())
    }
}

/// `Path::file_name`: the last normal component.
pub open spec fn file_name_spec(p: Seq<char>) -> Option<Seq<char>> {
    let t = strip_tail(p);
    let seg = t.subrange(last_slash(t) + 1, t.len() as int);
    if seg.len() == 0 || seg == "."@ || seg == ".."@ {
        None
    } else {
        Some(seg)
    }
}

/// `Path::parent`: the path without its last component.
pub open spec fn parent_spec(p: Seq<char>) -> Option<Seq<char>> {
    let t = strip_tail(p);
    if t.len() == 0 {
        None
    } else {
        let rest = t.subrange(0, last_slash(t) + 1);
        let r = strip_tail(rest);
        if r.len() == 0 && rest.len() > 0 && rest[0] == '/' {
            Some("/"@)
        } else {
            Some(r)
        }
    }
}

fn strip_tail_len(v: &Vec<char>, n: usize) -> (r: usize)
    requires
        n <= v@.len(),
    ensures
        r <= n,
        v@.subrange(0, r as int) == strip_tail(v@.subrange(0, n as int)),
{
    let mut k: usize = n;
    while k > 0 && (v[k - 1] == '/' || (k >= 2 && v[k - 1] == '.' && v[k - 2] == '/'))
        invariant
            k <= n,
            n <= v@.len(),
            strip_tail(v@.subrange(0, n as int)) == strip_tail(v@.subrange(0, k as int)),
        decreases k,
    {
        assert(v@.subrange(0, k as int).drop_last() =~= v@.subrange(0, k - 1));
        k = k - 1;
    }
    let ghost s = v@.subrange(0, k as int);
    assert(!(s.len() > 0 && s.last() == '/'));
    k
}

fn last_slash_exec(v: &Vec<char>, n: usize) -> (r: Option<usize>)
    requires
        n <= v@.len(),
    ensures
        r is None ==> last_slash(v@.subrange(0, n as int)) == -1,
        r is Some ==> r->0 < n && last_slash(v@.subrange(0, n as int)) == r->0 as int,
{
    let mut k: usize = n;
    while k > 0 && v[k - 1] != '/'
        invariant
            k <= n,
            n <= v@.len(),
            last_slash(v@.subrange(0, n as int)) == last_slash(v@.subrange(0, k as int)),
        decreases k,
    {
        assert(v@.subrange(0, k as int).drop_last() =~= v@.subrange(0, k - 1));
        k = k - 1;
    }
    if k == 0 {
        assert(v@.subrange(0, 0) =~= Seq::<char>::empty());
        None
    } else {
        Some(k - 1)
    }
}

/// `Path::file_name` of a `/`-separated path.
pub fn file_name(path: &str) -> (r: Option<String>)
    ensures
        r is None ==> file_name_spec(path@) is None,
        r is Some ==> file_name_spec(path@) == Some(r->0@),
{
    let v = crate::text::chars_of(path);
    assert(v@.subrange(0, v@.len() as int) =~= v@);
    let t = strip_tail_len(&v, v.len());
    let ls = last_slash_exec(&v, t);
    let start: usize = match ls {
        Some(i) => i + 1,
        None => 0,
    };
    let seg = crate::text::string_from_chars(&v.as_slice()[start..t]);
    proof {
        let ts = v@.subrange(0, t as int);
        assert(seg@ =~= ts.subrange(last_slash(ts) + 1, ts.len() as int));
    }
    if start >= t || crate::text::str_eq(seg.as_str(), ".") || crate::text::str_eq(
        seg.as_str(),
        "..",
    ) {
        None
    } else {
        Some(seg)
    }
}

/// `Path::parent` of a `/`-separated path.
pub fn parent(path: &str) -> (r: Option<String>)
    ensures
        r is None ==> parent_spec(path@) is None,
        r is Some ==> parent_spec(path@) == Some(r->0@),
{
    let v = crate::text::chars_of(path);
    assert(v@.subrange(0, v@.len() as int) =~= v@);
    let t = strip_tail_len(&v, v.len());
    if t == 0 {
        return None;
    }
    let ls = last_slash_exec(&v, t);
    let rest_len: usize = match ls {
        Some(i) => i + 1,
        None => 0,
    };
    proof {
        let ts = v@.subrange(0, t as int);
        assert(ts.subrange(0, last_slash(ts) + 1) =~= v@.subrange(0, rest_len as int));
    }
    let r = strip_tail_len(&v, rest_len);
    if r == 0 && rest_len > 0 && v[0] == '/' {
        Some("/".to_string())
    } else {
        let s = crate::text::string_from_chars(&v.as_slice()[0..r]);
        assert(s@ =~= v@.subrange(0, r as int));
        Some(s)
    }
}


proof fn lemma_last_slash_append(p: Seq<char>, n: Seq<char>)
    requires
        forall|i: int| 0 <= i < n.len() ==> n[i] != '/',
    ensures
        last_slash(p + n) == last_slash(p),
    decreases n.len(),
{
    if n.len() > 0 {
        assert((p + n).drop_last() =~= p + n.drop_last());
        lemma_last_slash_append(p, n.drop_last());
    } else {
        assert(p + n =~= p);
    }
}

/// The file name of `dir/name`, and of `name` alone, is `name` itself when
/// it holds no separator (`..` has none, and `.` is left out here).
pub proof fn lemma_file_name_of_join(d: Seq<char>, n: Seq<char>)
    requires
        n.len() > 0,
        forall|i: int| 0 <= i < n.len() ==> n[i] != '/',
        n != "."@,
    ensures
        file_name_spec(d + "/"@ + n) == (if n == ".."@ {
            None
        } else {
            Some(n)
        }),
        file_name_spec(n) == (if n == ".."@ {
            None
        } else {
            Some(n)
        }),
{
    reveal_strlit("/");
    reveal_strlit(".");
    reveal_strlit("..");
    let ds = d + "/"@;
    let p = ds + n;
    assert(ds.len() == d.len() + 1);
    assert(p.last() == n.last());
    if n.len() >= 2 {
        assert(p[p.len() - 2] == n[n.len() - 2]);
    } else {
        assert(n =~= seq![n[0]]);
        if n[0] == '.' {
            assert(n =~= "."@);
        }
    }
    assert(strip_tail(p) == p);
    assert(strip_tail(n) == n);
    lemma_last_slash_append(ds, n);
    assert(ds.last() == '/');
    assert(last_slash(ds) == d.len());
    assert(p.subrange(d.len() as int + 1, p.len() as int) =~= n);
    lemma_last_slash_append(Seq::<char>::empty(), n);
    assert(Seq::<char>::empty() + n =~= n);
    assert(n.subrange(0, n.len() as int) =~= n);
}

} // verus!
