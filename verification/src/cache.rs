//! Cache keys: the environment facts that decide whether cached collection
//! and analysis results can be reused, and their SHA-256 digest.  Probing the
//! Python environment and reading files are left to the program, which hands
//! in what it found.
use vstd::prelude::*;
use crate::order::{seq_lt, views};
use crate::text::join;
use sha2::Digest;

verus! {

/// The SHA-256 digest of `data`, as 64 lowercase hexadecimal digits.
pub uninterp spec fn sha256_hex(data: Seq<u8>) -> Seq<char>;

/// SHA-256 of `data`, written in lowercase hexadecimal.
///
/// Wraps `format!("{:x}", sha2::Sha256::digest(data))`.  The result is
/// named by [`sha256_hex`]; the digest is 32 bytes and `LowerHex` on it
/// writes two lowercase hex digits per byte, hence 64 characters.
#[verifier::external_body]
fn sha256_hex_string(data: &[u8]) -> (r: String)
    ensures
        r@ == sha256_hex(data@),
        r@.len() == 64,
        crate::text::all_lower_hex(r@),
{
    format!("{:x}", sha2::Sha256::digest(data))
}

/// The digest of some bytes (a file's content).
pub fn content_digest(data: &[u8]) -> (r: String)
    ensures
        r@ == sha256_hex(data@),
        r@.len() == 64,
        crate::text::all_lower_hex(r@),
{
    sha256_hex_string(data)
}

/// The digest of the configuration, from its JSON text.
pub fn compute_config_digest(config_json: &str) -> (r: String)
    ensures
        r@ == sha256_hex(vstd::utf8::encode_utf8(config_json@)),
        r@.len() == 64,
        crate::text::all_lower_hex(r@),
{
    sha256_hex_string(config_json.as_bytes())
}

/// The platform identifier, `os-arch`.
pub fn platform_string(os: &str, arch: &str) -> (r: String)
    ensures
        r@ == os@ + "-"@ + arch@,
{
    let mut r = os.to_owned();
    r.append("-");
    r.append(arch);
    r
}

/// Everything a cached result depends on.  The conftest digests map paths
/// to digests.
#[derive(Debug)]
pub struct CacheKey {
    pub python_version: String,
    pub platform: String,
    pub veri_version: String,
    pub uv_lock_digest: Option<String>,
    pub site_packages_digest: Option<String>,
    pub pytest_version: String,
    pub plugins: Vec<String>,
    pub conftest_digests: Vec<(String, String)>,
    pub veri_config_digest: String,
}

/// `x` (an index into `keys`) inserted after every index whose key it does
/// not sort before.
pub open spec fn insert_by_key(s: Seq<int>, x: int, keys: Seq<Seq<char>>) -> Seq<int>
    decreases s.len(),
{
    if s.len() == 0 {
        seq![x]
    } else if seq_lt(keys[x], keys[s[0]]) {
        seq![x] + s
    } else {
        seq![s[0]] + insert_by_key(s.drop_first(), x, keys)
    }
}

/// The indices of `keys[..n]` in stable sorted order of their keys.
pub open spec fn key_order(keys: Seq<Seq<char>>, n: nat) -> Seq<int>
    decreases n,
{
    if n == 0 {
        Seq::empty()
    } else {
        insert_by_key(key_order(keys, (n - 1) as nat), n - 1, keys)
    }
}

/// The paths of the conftest digests.
pub open spec fn pair_keys(pairs: Seq<(String, String)>) -> Seq<Seq<char>> {
    pairs.map_values(|p: (String, String)| p.0@)
}

/// `label:value` when there is a value.
pub open spec fn optional_part(label: Seq<char>, v: Option<String>) -> Seq<char> {
    match v {
        Some(d) => label + d@,
        None => Seq::empty(),
    }
}

/// Each plugin followed by a comma.
pub open spec fn plugins_part(ps: Seq<Seq<char>>) -> Seq<char>
    decreases ps.len(),
{
    if ps.len() == 0 {
        Seq::empty()
    } else {
        plugins_part(ps.drop_last()) + ps.last() + ","@
    }
}

/// `path:digest,` for the pairs at the given indices, in that order.
pub open spec fn pairs_part(pairs: Seq<(String, String)>, order: Seq<int>) -> Seq<char>
    decreases order.len(),
{
    if order.len() == 0 {
        Seq::empty()
    } else {
        pairs_part(pairs, order.drop_last()) + pairs[order.last()].0@ + ":"@ + pairs[order.last()].1@ + ","@
    }
}

impl CacheKey {
    /// The text that is hashed: each component labelled and separated by
    /// `|`, the plugins in order, the conftest digests sorted by path.
    pub open spec fn hash_text(&self) -> Seq<char> {
        head_text(*self) + optional_part("uv_lock_digest:"@, self.uv_lock_digest) + "|"@
            + optional_part("site_packages_digest:"@, self.site_packages_digest) + "|"@ + "pytest_version:"@
            + self.pytest_version@ + "|"@ + "plugins:"@ + plugins_part(views(self.plugins@)) + "|"@
            + "conftest_digests:"@ + pairs_part(
            self.conftest_digests@,
            key_order(pair_keys(self.conftest_digests@), self.conftest_digests@.len()),
        ) + "|"@ + "veri_config_digest:"@ + self.veri_config_digest@
    }
}

proof fn lemma_insert_by_key_at(s: Seq<int>, x: int, keys: Seq<Seq<char>>, k: int)
    requires
        0 <= k <= s.len(),
        forall|j: int| 0 <= j < k ==> !seq_lt(keys[x], keys[#[trigger] s[j]]),
        k < s.len() ==> seq_lt(keys[x], keys[s[k]]),
    ensures
        insert_by_key(s, x, keys) == s.insert(k, x),
    decreases k,
{
    if s.len() == 0 {
        assert(s.insert(k, x) =~= seq![x]);
    } else if k == 0 {
        assert(s.insert(0, x) =~= seq![x] + s);
    } else {
        let r = s.drop_first();
        assert forall|j: int| 0 <= j < k - 1 implies !seq_lt(keys[x], keys[#[trigger] r[j]]) by {
            assert(r[j] == s[j + 1]);
        }
        lemma_insert_by_key_at(r, x, keys, k - 1);
        assert(s.insert(k, x) =~= seq![s[0]] + r.insert(k - 1, x));
    }
}

proof fn lemma_insert_by_key_range(s: Seq<int>, x: int, keys: Seq<Seq<char>>, n: int)
    requires
        0 <= x < n,
        forall|j: int| 0 <= j < s.len() ==> 0 <= #[trigger] s[j] < n,
    ensures
        insert_by_key(s, x, keys).len() == s.len() + 1,
        forall|j: int| 0 <= j < s.len() + 1 ==> 0 <= #[trigger] insert_by_key(s, x, keys)[j] < n,
    decreases s.len(),
{
    if s.len() > 0 && !seq_lt(keys[x], keys[s[0]]) {
        lemma_insert_by_key_range(s.drop_first(), x, keys, n);
        assert forall|j: int| 0 <= j < s.len() + 1 implies 0 <= #[trigger] insert_by_key(s, x, keys)[j] < n by {
            if j > 0 {
                assert(insert_by_key(s, x, keys)[j] == insert_by_key(s.drop_first(), x, keys)[j - 1]);
            }
        }
    }
}

proof fn lemma_key_order_range(keys: Seq<Seq<char>>, n: nat)
    ensures
        key_order(keys, n).len() == n,
        forall|j: int| 0 <= j < n ==> 0 <= #[trigger] key_order(keys, n)[j] < n,
    decreases n,
{
    if n > 0 {
        lemma_key_order_range(keys, (n - 1) as nat);
        lemma_insert_by_key_range(key_order(keys, (n - 1) as nat), n - 1, keys, n as int);
    }
}

/// The indices of the pairs sorted by path, stably.
fn sorted_pair_order(pairs: &Vec<(String, String)>) -> (r: Vec<usize>)
    ensures
        r@.len() == pairs@.len(),
        forall|j: int| 0 <= j < r@.len() ==> #[trigger] r@[j] < pairs@.len(),
        r@.map_values(|i: usize| i as int) == key_order(pair_keys(pairs@), pairs@.len()),
{
    let ghost keys = pair_keys(pairs@);
    let mut order: Vec<usize> = Vec::new();
    let mut i: usize = 0;
    while i < pairs.len()
        invariant
            i <= pairs@.len(),
            keys == pair_keys(pairs@),
            order@.map_values(|m: usize| m as int) == key_order(keys, i as nat),
            order@.len() == i,
            forall|j: int| 0 <= j < order@.len() ==> #[trigger] order@[j] < i,
        decreases pairs@.len() - i,
    {
        let ghost s = order@.map_values(|m: usize| m as int);
        let mut k: usize = 0;
        let mut found = false;
        while k < order.len() && !found
            invariant
                k <= order@.len(),
                i < pairs@.len(),
                keys == pair_keys(pairs@),
                s == order@.map_values(|m: usize| m as int),
                forall|j: int| 0 <= j < order@.len() ==> #[trigger] order@[j] < i,
                found ==> k < order@.len() && seq_lt(keys[i as int], keys[s[k as int]]),
                forall|j: int| 0 <= j < k ==> !seq_lt(keys[i as int], keys[#[trigger] s[j]]),
            decreases order@.len() - k + (if found { 0int } else { 1int }),
        {
            let other = order[k];
            if crate::order::str_lt(pairs[i].0.as_str(), pairs[other].0.as_str()) {
                found = true;
            } else {
                k = k + 1;
            }
        }
        proof {
            lemma_insert_by_key_at(s, i as int, keys, k as int);
        }
        let ghost o = order@;
        order.insert(k, i);
        proof {
            assert(order@ == o.insert(k as int, i));
            assert(order@.map_values(|m: usize| m as int) =~= s.insert(k as int, i as int));
            assert forall|j: int| 0 <= j < order@.len() implies #[trigger] order@[j] < i + 1 by {
                if j < k {
                    assert(order@[j] == o[j]);
                } else if j > k {
                    assert(order@[j] == o[j - 1]);
                }
            }
        }
        i = i + 1;
    }
    order
}

/// `python_version:..|platform:..|veri_version:..|`
pub open spec fn head_text(k: CacheKey) -> Seq<char> {
    "python_version:"@ + k.python_version@ + "|"@ + "platform:"@ + k.platform@ + "|"@ + "veri_version:"@
        + k.veri_version@ + "|"@
}

fn push_head(t: &mut String, k: &CacheKey)
    ensures
        final(t)@ == old(t)@ + head_text(*k),
{
    let ghost t0 = t@;
    t.append("python_version:");
    t.append(k.python_version.as_str());
    t.append("|platform:");
    t.append(k.platform.as_str());
    t.append("|veri_version:");
    t.append(k.veri_version.as_str());
    t.append("|");
    proof {
        reveal_strlit("|platform:");
        reveal_strlit("|");
        reveal_strlit("platform:");
        reveal_strlit("|veri_version:");
        reveal_strlit("veri_version:");
    }
    assert(t@ =~= t0 + head_text(*k));
}

fn push_optional(t: &mut String, label: &str, v: &Option<String>)
    ensures
        final(t)@ == old(t)@ + optional_part(label@, *v) + "|"@,
{
    let ghost t0 = t@;
    if let Some(d) = v {
        t.append(label);
        t.append(d.as_str());
    }
    t.append("|");
    assert(t@ =~= t0 + optional_part(label@, *v) + "|"@);
}

fn push_plugins(t: &mut String, plugins: &Vec<String>)
    ensures
        final(t)@ == old(t)@ + plugins_part(views(plugins@)),
{
    let ghost t2 = t@;
    let mut i: usize = 0;
    while i < plugins.len()
        invariant
            i <= plugins@.len(),
            t@ == t2 + plugins_part(views(plugins@).take(i as int)),
        decreases plugins@.len() - i,
    {
        t.append(plugins[i].as_str());
        t.append(",");
        assert(views(plugins@).take(i + 1).drop_last() =~= views(plugins@).take(i as int));
        assert(t@ =~= t2 + plugins_part(views(plugins@).take(i + 1)));
        i = i + 1;
    }
    assert(views(plugins@).take(plugins@.len() as int) =~= views(plugins@));
}

fn push_pairs(t: &mut String, pairs: &Vec<(String, String)>)
    ensures
        final(t)@ == old(t)@ + pairs_part(pairs@, key_order(pair_keys(pairs@), pairs@.len())),
{
    let ghost t3 = t@;
    let order = sorted_pair_order(pairs);
    let ghost ord = order@.map_values(|m: usize| m as int);
    let mut j: usize = 0;
    while j < order.len()
        invariant
            j <= order@.len(),
            ord == order@.map_values(|m: usize| m as int),
            forall|m: int| 0 <= m < order@.len() ==> #[trigger] order@[m] < pairs@.len(),
            t@ == t3 + pairs_part(pairs@, ord.take(j as int)),
        decreases order@.len() - j,
    {
        let p = order[j];
        t.append(pairs[p].0.as_str());
        t.append(":");
        t.append(pairs[p].1.as_str());
        t.append(",");
        assert(ord.take(j + 1).drop_last() =~= ord.take(j as int));
        assert(ord.take(j + 1).last() == p as int);
        assert(t@ =~= t3 + pairs_part(pairs@, ord.take(j + 1)));
        j = j + 1;
    }
    assert(ord.take(order@.len() as int) =~= ord);
}

impl CacheKey {
    /// The text that is hashed (see [`CacheKey::hash_text`]).
    pub fn hash_input(&self) -> (r: String)
        ensures
            r@ == self.hash_text(),
    {
        let mut t = String::new();
        push_head(&mut t, self);
        push_optional(&mut t, "uv_lock_digest:", &self.uv_lock_digest);
        push_optional(&mut t, "site_packages_digest:", &self.site_packages_digest);
        t.append("pytest_version:");
        t.append(self.pytest_version.as_str());
        t.append("|plugins:");
        push_plugins(&mut t, &self.plugins);
        t.append("|conftest_digests:");
        push_pairs(&mut t, &self.conftest_digests);
        t.append("|veri_config_digest:");
        t.append(self.veri_config_digest.as_str());
        proof {
            reveal_strlit("|plugins:");
            reveal_strlit("|");
            reveal_strlit("plugins:");
            reveal_strlit("|conftest_digests:");
            reveal_strlit("conftest_digests:");
            reveal_strlit("|veri_config_digest:");
            reveal_strlit("veri_config_digest:");
        }
        assert(t@ =~= self.hash_text());
        t
    }

    /// The cache key's digest: SHA-256 of [`CacheKey::hash_text`] in UTF-8,
    /// in lowercase hexadecimal.
    pub fn compute_hash(&self) -> (r: String)
        ensures
            r@ == sha256_hex(vstd::utf8::encode_utf8(self.hash_text())),
            r@.len() == 64,
            crate::text::all_lower_hex(r@),
    {
        let t = self.hash_input();
        sha256_hex_string(t.as_str().as_bytes())
    }
}


/// The directories that conftest discovery does not enter: hidden ones and
/// the usual dependency, cache and build directories.
pub open spec fn skipped_dir(name: Seq<char>) -> bool {
    (name.len() > 0 && name[0] == '.') || name == "node_modules"@ || name == "__pycache__"@ || name == "target"@
        || name == "venv"@ || name == "dist"@ || name == "build"@
}

/// Whether conftest discovery enters a directory of this name.
pub fn should_descend_into(dir_name: &str) -> (r: bool)
    ensures
        r == !skipped_dir(dir_name@),
{
    let cs = crate::text::chars_of(dir_name);
    if cs.len() > 0 && cs[0] == '.' {
        return false;
    }
    !(crate::text::str_eq(dir_name, "node_modules") || crate::text::str_eq(dir_name, "__pycache__")
        || crate::text::str_eq(dir_name, "target") || crate::text::str_eq(dir_name, "venv")
        || crate::text::str_eq(dir_name, "dist") || crate::text::str_eq(dir_name, "build"))
}

/// Whether a file is a conftest file.
pub fn is_conftest_file_name(file_name: &str) -> (r: bool)
    ensures
        r == (file_name@ == "conftest.py"@),
{
    crate::text::str_eq(file_name, "conftest.py")
}

/// `  label: value`, or the placeholder when there is no value.
pub open spec fn optional_line(label: Seq<char>, v: Option<String>, missing: Seq<char>) -> Seq<char> {
    "  "@ + label + ": "@ + match v {
        Some(d) => d@,
        None => missing,
    }
}

/// The conftest lines of the explanation, sorted by path.
pub open spec fn conftest_lines(pairs: Seq<(String, String)>, order: Seq<int>) -> Seq<Seq<char>>
    decreases order.len(),
{
    if order.len() == 0 {
        Seq::empty()
    } else {
        conftest_lines(pairs, order.drop_last()).push(
            "    \""@ + pairs[order.last()].0@ + "\": \""@ + pairs[order.last()].1@ + "\""@,
        )
    }
}

impl CacheKey {
    /// The lines `--explain` prints for the cache key, up to (not
    /// including) the computed hash.
    pub open spec fn explanation_spec(&self) -> Seq<Seq<char>> {
        let plugins = if self.plugins@.len() == 0 {
            "  plugins: []"@
        } else {
            "  plugins: ["@ + join(views(self.plugins@), ", "@) + "]"@
        };
        let conftest = if self.conftest_digests@.len() == 0 {
            seq!["  conftest_digests: {}"@]
        } else {
            seq!["  conftest_digests: {"@] + conftest_lines(
                self.conftest_digests@,
                key_order(pair_keys(self.conftest_digests@), self.conftest_digests@.len()),
            ) + seq!["  }"@]
        };
        seq![
            "Cache key components:"@,
            "  python_version: "@ + self.python_version@,
            "  platform: "@ + self.platform@,
            "  veri_version: "@ + self.veri_version@,
            optional_line("uv_lock_digest"@, self.uv_lock_digest, "(not found)"@),
            optional_line("site_packages_digest"@, self.site_packages_digest, "(not computed)"@),
            "  pytest_version: "@ + self.pytest_version@,
            plugins,
        ] + conftest + seq!["  veri_config_digest: "@ + self.veri_config_digest@]
    }

    /// The lines `--explain` prints for the cache key: its components and,
    /// last, `  computed_hash: ` with [`CacheKey::compute_hash`].
    pub fn explanation_lines(&self) -> (r: Vec<String>)
        ensures
            views(r@) == self.explanation_spec().push(
                "  computed_hash: "@ + sha256_hex(vstd::utf8::encode_utf8(self.hash_text())),
            ),
    {
        let mut r: Vec<String> = Vec::new();
        let l0 = "Cache key components:".to_owned();
        let l1 = labelled("  python_version: ", &self.python_version);
        let l2 = labelled("  platform: ", &self.platform);
        let l3 = labelled("  veri_version: ", &self.veri_version);
        let l4 = optional_labelled("uv_lock_digest", &self.uv_lock_digest, "(not found)");
        let l5 = optional_labelled("site_packages_digest", &self.site_packages_digest, "(not computed)");
        let l6 = labelled("  pytest_version: ", &self.pytest_version);
        let l7 = if self.plugins.len() == 0 {
            "  plugins: []".to_owned()
        } else {
            let mut p = "  plugins: [".to_owned();
            let j = crate::text::join_strings(&self.plugins, ", ");
            p.append(j.as_str());
            p.append("]");
            p
        };
        let ghost head = seq![l0@, l1@, l2@, l3@, l4@, l5@, l6@, l7@];
        r.push(l0);
        r.push(l1);
        r.push(l2);
        r.push(l3);
        r.push(l4);
        r.push(l5);
        r.push(l6);
        r.push(l7);
        assert(views(r@) =~= head);
        let ghost r9 = views(r@);
        if self.conftest_digests.len() == 0 {
            r.push("  conftest_digests: {}".to_owned());
            assert(views(r@) =~= r9.push("  conftest_digests: {}"@));
        } else {
            let open_line = "  conftest_digests: {".to_owned();
            r.push(open_line);
            assert(views(r@) =~= r9.push("  conftest_digests: {"@));
            push_conftest_lines(&mut r, &self.conftest_digests);
            let ghost r10 = views(r@);
            r.push("  }".to_owned());
            assert(views(r@) =~= r10.push("  }"@));
        }
        let ghost r11 = views(r@);
        let last = labelled("  veri_config_digest: ", &self.veri_config_digest);
        r.push(last);
        assert(views(r@) =~= r11.push(last@));
        let ghost before = views(r@);
        let h = self.compute_hash();
        r.push(labelled("  computed_hash: ", &h));
        assert(views(r@) =~= before.push("  computed_hash: "@ + h@));
        assert(before =~= self.explanation_spec());
        r
    }
}

fn labelled(label: &str, v: &String) -> (r: String)
    ensures
        r@ == label@ + v@,
{
    let mut r = label.to_owned();
    r.append(v.as_str());
    r
}

fn optional_labelled(label: &str, v: &Option<String>, missing: &str) -> (r: String)
    ensures
        r@ == optional_line(label@, *v, missing@),
{
    let mut r = "  ".to_owned();
    r.append(label);
    r.append(": ");
    match v {
        Some(d) => r.append(d.as_str()),
        None => r.append(missing),
    }
    r
}

fn push_conftest_lines(r: &mut Vec<String>, pairs: &Vec<(String, String)>)
    ensures
        views(final(r)@) == views(old(r)@) + conftest_lines(pairs@, key_order(pair_keys(pairs@), pairs@.len())),
{
    let ghost r0 = views(r@);
    let order = sorted_pair_order(pairs);
    let ghost ord = order@.map_values(|m: usize| m as int);
    let mut j: usize = 0;
    while j < order.len()
        invariant
            j <= order@.len(),
            ord == order@.map_values(|m: usize| m as int),
            forall|m: int| 0 <= m < order@.len() ==> #[trigger] order@[m] < pairs@.len(),
            views(r@) == r0 + conftest_lines(pairs@, ord.take(j as int)),
        decreases order@.len() - j,
    {
        let p = order[j];
        let mut line = "    \"".to_owned();
        line.append(pairs[p].0.as_str());
        line.append("\": \"");
        line.append(pairs[p].1.as_str());
        line.append("\"");
        let ghost v0 = views(r@);
        r.push(line);
        assert(views(r@) =~= v0.push(line@));
        assert(ord.take(j + 1).drop_last() =~= ord.take(j as int));
        assert(ord.take(j + 1).last() == p as int);
        j = j + 1;
    }
    assert(ord.take(order@.len() as int) =~= ord);
}

} // verus!
