//! Character-sequence helpers shared by the rest of the library.
//!
//! Strings are specified through their views, `Seq<char>`.  The spec functions
//! here give the meaning of the std string predicates the library relies on
//! (`contains`, `starts_with`, `ends_with`, splitting on a character set), and
//! the executable functions compute them with proofs.
use vstd::prelude::*;

verus! {

/// A lowercase hexadecimal digit.
pub open spec fn is_lower_hex(c: char) -> bool {
    ('0' <= c <= '9') || ('a' <= c <= 'f')
}

/// Every character is a lowercase hexadecimal digit.
pub open spec fn all_lower_hex(s: Seq<char>) -> bool {
    forall|i: int| 0 <= i < s.len() ==> is_lower_hex(#[trigger] s[i])
}

/// `needle` occurs in `hay` starting at index `i`.
pub open spec fn occurs_at(hay: Seq<char>, needle: Seq<char>, i: int) -> bool {
    &&& 0 <= i
    &&& i + needle.len() <= hay.len()
    &&& hay.subrange(i, i + needle.len()) == needle
}

/// `str::contains` on character sequences (the empty needle occurs everywhere).
pub open spec fn has_substr(hay: Seq<char>, needle: Seq<char>) -> bool {
    exists|i: int| occurs_at(hay, needle, i)
}

/// `str::starts_with`.
pub open spec fn has_prefix(s: Seq<char>, p: Seq<char>) -> bool {
    p.len() <= s.len() && s.subrange(0, p.len() as int) == p
}

/// `str::ends_with`.
pub open spec fn has_suffix(s: Seq<char>, p: Seq<char>) -> bool {
    p.len() <= s.len() && s.subrange(s.len() - p.len(), s.len() as int) == p
}

/// `c` occurs in `s`.
pub open spec fn has_char(s: Seq<char>, c: char) -> bool {
    exists|i: int| 0 <= i < s.len() && s[i] == c
}

/// Copies the characters of a string slice into a vector.
pub fn chars_of(s: &str) -> (v: Vec<char>)
    ensures
        v@ == s@,
{
    let n = s.unicode_len();
    let mut v: Vec<char> = Vec::new();
    let mut i: usize = 0;
    while i < n
        invariant
            n == s@.len(),
            i <= n,
            v@ == s@.subrange(0, i as int),
        decreases n - i,
    {
        let c = s.get_char(i);
        v.push(c);
        i = i + 1;
        assert(v@ =~= s@.subrange(0, i as int));
    }
    assert(v@ =~= s@);
    v
}

/// Appends one character to a string.
///
/// Wraps `String::push`, which appends the character at the end of the string.
#[verifier::external_body]
pub(crate) fn push_char(s: &mut String, c: char)
    ensures
        final(s)@ == old(s)@.push(c),
{
    s.push(c);
}

/// Builds a string from a sequence of characters.
pub fn string_from_chars(v: &[char]) -> (s: String)
    ensures
        s@ == v@,
{
    let mut s = String::new();
    let mut i: usize = 0;
    while i < v.len()
        invariant
            i <= v@.len(),
            s@ == v@.subrange(0, i as int),
        decreases v@.len() - i,
    {
        push_char(&mut s, v[i]);
        i = i + 1;
        assert(s@ =~= v@.subrange(0, i as int));
    }
    assert(s@ =~= v@);
    s
}

/// Whether `needle` occurs at index `i` of `hay`.
pub fn matches_at(hay: &[char], needle: &[char], i: usize) -> (b: bool)
    ensures
        b == occurs_at(hay@, needle@, i as int),
{
    if i > hay.len() || needle.len() > hay.len() - i {
        return false;
    }
    let mut j: usize = 0;
    while j < needle.len()
        invariant
            i + needle@.len() <= hay@.len(),
            j <= needle@.len(),
            forall|k: int| 0 <= k < j ==> hay@[i + k] == needle@[k],
        decreases needle@.len() - j,
    {
        assert(i + j < hay.len());
        if hay[i + j] != needle[j] {
            assert(hay@.subrange(i as int, i + needle@.len())[j as int] != needle@[j as int]);
            return false;
        }
        j = j + 1;
    }
    assert(hay@.subrange(i as int, i + needle@.len()) =~= needle@);
    true
}

/// `str::contains` on character slices.
pub fn contains_chars(hay: &[char], needle: &[char]) -> (b: bool)
    ensures
        b == has_substr(hay@, needle@),
{
    if needle.len() > hay.len() {
        assert(!has_substr(hay@, needle@));
        return false;
    }
    let last = hay.len() - needle.len();
    let mut i: usize = 0;
    loop
        invariant
            last == hay@.len() - needle@.len(),
            i <= last,
            forall|k: int| 0 <= k < i ==> !occurs_at(hay@, needle@, k),
        ensures
            forall|k: int| 0 <= k <= last ==> !occurs_at(hay@, needle@, k),
        decreases last - i,
    {
        if matches_at(hay, needle, i) {
            return true;
        }
        if i == last {
            break;
        }
        i = i + 1;
    }
    assert forall|k: int| !occurs_at(hay@, needle@, k) by {
        if 0 <= k && k + needle@.len() <= hay@.len() {
            assert(k <= last);
        }
    }
    false
}

/// `str::starts_with` on character slices.
pub fn starts_with_chars(s: &[char], p: &[char]) -> (b: bool)
    ensures
        b == has_prefix(s@, p@),
{
    matches_at(s, p, 0)
}

/// `str::ends_with` on character slices.
pub fn ends_with_chars(s: &[char], p: &[char]) -> (b: bool)
    ensures
        b == has_suffix(s@, p@),
{
    if p.len() > s.len() {
        return false;
    }
    matches_at(s, p, s.len() - p.len())
}

/// `str::contains` on string slices.
pub fn str_contains(hay: &str, needle: &str) -> (b: bool)
    ensures
        b == has_substr(hay@, needle@),
{
    let h = chars_of(hay);
    let n = chars_of(needle);
    contains_chars(h.as_slice(), n.as_slice())
}

/// `str::starts_with` on string slices.
pub fn str_starts_with(s: &str, p: &str) -> (b: bool)
    ensures
        b == has_prefix(s@, p@),
{
    let sv = chars_of(s);
    let pv = chars_of(p);
    starts_with_chars(sv.as_slice(), pv.as_slice())
}

/// `str::ends_with` on string slices.
pub fn str_ends_with(s: &str, p: &str) -> (b: bool)
    ensures
        b == has_suffix(s@, p@),
{
    let sv = chars_of(s);
    let pv = chars_of(p);
    ends_with_chars(sv.as_slice(), pv.as_slice())
}

/// Equality of string slices by their characters.
pub fn str_eq(a: &str, b: &str) -> (r: bool)
    ensures
        r == (a@ == b@),
{
    let av = chars_of(a);
    let bv = chars_of(b);
    if av.len() != bv.len() {
        return false;
    }
    let r = starts_with_chars(av.as_slice(), bv.as_slice());
    assert(av@.subrange(0, bv@.len() as int) =~= av@);
    r
}

/// Whether the character occurs in the slice.
pub fn contains_char(s: &[char], c: char) -> (b: bool)
    ensures
        b == has_char(s@, c),
{
    let mut i: usize = 0;
    while i < s.len()
        invariant
            i <= s@.len(),
            forall|k: int| 0 <= k < i ==> s@[k] != c,
        decreases s@.len() - i,
    {
        if s[i] == c {
            return true;
        }
        i = i + 1;
    }
    false
}

/// Index of the first character of `s` that is in `seps`, or the length of `s`.
pub open spec fn first_sep(s: Seq<char>, seps: Seq<char>) -> int
    decreases s.len(),
{
    if s.len() == 0 {
        0
    } else if has_char(seps, s[0]) {
        0
    } else {
        1 + first_sep(s.drop_first(), seps)
    }
}

/// The part of `s` before its first character in `seps`, as
/// `s.split(seps).next()` gives it.
pub open spec fn prefix_before(s: Seq<char>, seps: Seq<char>) -> Seq<char> {
    s.take(first_sep(s, seps))
}

proof fn lemma_first_sep(s: Seq<char>, seps: Seq<char>, i: int)
    requires
        0 <= i <= s.len(),
        forall|j: int| 0 <= j < i ==> !has_char(seps, #[trigger] s[j]),
        i == s.len() || has_char(seps, s[i]),
    ensures
        first_sep(s, seps) == i,
    decreases i,
{
    if i > 0 {
        assert forall|j: int| 0 <= j < i - 1 implies !has_char(seps, #[trigger] s.drop_first()[j]) by {
            assert(s.drop_first()[j] == s[j + 1]);
        }
        lemma_first_sep(s.drop_first(), seps, i - 1);
    }
}

/// The part of `s` before its first character in `seps`.
pub fn prefix_until(s: &str, seps: &[char]) -> (r: String)
    ensures
        r@ == prefix_before(s@, seps@),
{
    let cs = chars_of(s);
    let mut i: usize = 0;
    while i < cs.len()
        invariant
            i <= cs@.len(),
            cs@ == s@,
            forall|j: int| 0 <= j < i ==> !has_char(seps@, #[trigger] cs@[j]),
        ensures
            i == cs@.len() || has_char(seps@, cs@[i as int]),
            i <= cs@.len(),
            forall|j: int| 0 <= j < i ==> !has_char(seps@, #[trigger] cs@[j]),
        decreases cs@.len() - i,
    {
        if contains_char(seps, cs[i]) {
            break;
        }
        i = i + 1;
    }
    proof {
        lemma_first_sep(s@, seps@, i as int);
    }
    let r = string_from_chars(&cs.as_slice()[0..i]);
    assert(r@ =~= prefix_before(s@, seps@));
    r
}

/// Index of the last occurrence of `c` in `s`, or -1.
pub open spec fn last_index_of(s: Seq<char>, c: char) -> int
    decreases s.len(),
{
    if s.len() == 0 {
        -1
    } else if s.last() == c {
        s.len() - 1
    } else {
        last_index_of(s.drop_last(), c)
    }
}

/// Index of the first occurrence of `c` in `s`, or -1.
pub open spec fn first_index_of(s: Seq<char>, c: char) -> int
    decreases s.len(),
{
    if s.len() == 0 {
        -1
    } else if s[0] == c {
        0
    } else {
        let k = first_index_of(s.drop_first(), c);
        if k < 0 {
            -1
        } else {
            k + 1
        }
    }
}

/// The pieces of `s` between occurrences of `c`, as `str::split(c)` gives them.
pub open spec fn split_on(s: Seq<char>, c: char) -> Seq<Seq<char>>
    decreases s.len(),
{
    let k = last_index_of(s, c);
    if k < 0 {
        seq![s]
    } else {
        proof {
            lemma_last_index_bounds(s, c);
        }
        split_on(s.take(k), c).push(s.skip(k + 1))
    }
}

/// The last index of `c` lies within the sequence, holds `c`, and no later
/// character is `c`.
pub proof fn lemma_last_index_bounds(s: Seq<char>, c: char)
    ensures
        -1 <= last_index_of(s, c) < s.len(),
        last_index_of(s, c) >= 0 ==> s[last_index_of(s, c)] == c,
        forall|j: int| last_index_of(s, c) < j < s.len() ==> s[j] != c,
    decreases s.len(),
{
    if s.len() > 0 && s.last() != c {
        lemma_last_index_bounds(s.drop_last(), c);
        assert forall|j: int| last_index_of(s, c) < j < s.len() implies s[j] != c by {
            if j < s.len() - 1 {
                assert(s.drop_last()[j] == s[j]);
            }
        }
    }
}

proof fn lemma_split_push(p: Seq<char>, x: char, c: char)
    ensures
        split_on(p.push(x), c) == if x == c {
            split_on(p, c).push(Seq::empty())
        } else {
            let sp = split_on(p, c);
            sp.update(sp.len() - 1, sp.last().push(x))
        },
        split_on(p, c).len() >= 1,
    decreases p.len(),
{
    let q = p.push(x);
    assert(q.drop_last() =~= p);
    lemma_last_index_bounds(p, c);
    if x == c {
        assert(q.take(p.len() as int) =~= p);
        assert(q.skip(p.len() as int + 1) =~= Seq::<char>::empty());
    } else {
        let k = last_index_of(p, c);
        if k < 0 {
        } else {
            assert(q.take(k) =~= p.take(k));
            assert(q.skip(k + 1) =~= p.skip(k + 1).push(x));
            lemma_split_push(p.take(k), p[k], c);
        }
    }
    if p.len() > 0 {
        lemma_split_push(p.drop_last(), p.last(), c);
    }
}

/// The pieces of `s` between occurrences of `c`.
pub fn split_char(s: &str, c: char) -> (r: Vec<String>)
    ensures
        crate::order::views(r@) == split_on(s@, c),
{
    let cs = chars_of(s);
    let mut done: Vec<String> = Vec::new();
    let mut cur: Vec<char> = Vec::new();
    let mut i: usize = 0;
    proof {
        assert(s@.take(0) =~= Seq::<char>::empty());
        assert(crate::order::views(done@).push(cur@) =~= seq![Seq::<char>::empty()]);
    }
    while i < cs.len()
        invariant
            i <= cs@.len(),
            cs@ == s@,
            crate::order::views(done@).push(cur@) == split_on(s@.take(i as int), c),
        decreases cs@.len() - i,
    {
        let ghost before = s@.take(i as int);
        proof {
            assert(s@.take(i + 1) =~= before.push(cs@[i as int]));
            lemma_split_push(before, cs@[i as int], c);
        }
        if cs[i] == c {
            let piece = string_from_chars(cur.as_slice());
            done.push(piece);
            cur = Vec::new();
            assert(crate::order::views(done@).push(cur@) =~= split_on(before, c).push(Seq::empty()));
        } else {
            let ghost d0 = crate::order::views(done@);
            cur.push(cs[i]);
            assert(crate::order::views(done@).push(cur@) =~= d0.push(cur@));
        }
        i = i + 1;
    }
    assert(s@.take(cs@.len() as int) =~= s@);
    let piece = string_from_chars(cur.as_slice());
    let ghost d0 = crate::order::views(done@);
    done.push(piece);
    assert(crate::order::views(done@) =~= d0.push(cur@));
    done
}

/// The items separated by `sep`, as `[..].join(sep)` gives them.
pub open spec fn join(items: Seq<Seq<char>>, sep: Seq<char>) -> Seq<char>
    decreases items.len(),
{
    if items.len() == 0 {
        Seq::empty()
    } else if items.len() == 1 {
        items[0]
    } else {
        join(items.drop_last(), sep) + sep + items.last()
    }
}

/// Joins the strings with `sep` between them.
pub fn join_strings(items: &Vec<String>, sep: &str) -> (r: String)
    ensures
        r@ == join(crate::order::views(items@), sep@),
{
    let ghost vs = crate::order::views(items@);
    let mut r = String::new();
    let mut i: usize = 0;
    while i < items.len()
        invariant
            i <= items@.len(),
            vs == crate::order::views(items@),
            r@ == join(vs.subrange(0, i as int), sep@),
        decreases items@.len() - i,
    {
        if i > 0 {
            r.append(sep);
        }
        r.append(items[i].as_str());
        proof {
            let pre = vs.subrange(0, i as int);
            let post = vs.subrange(0, i + 1);
            assert(post.drop_last() =~= pre);
            assert(post.last() == items@[i as int]@);
            if i == 0 {
                assert(r@ =~= post[0]);
            }
        }
        i = i + 1;
    }
    assert(vs.subrange(0, items@.len() as int) =~= vs);
    r
}

} // verus!
