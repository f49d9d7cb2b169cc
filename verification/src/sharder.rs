//! Splitting a test suite into shards for CI: round-robin, longest-first bin
//! packing, and timing-based packing that spreads known failures.  Durations
//! are in milliseconds; a test without history is estimated at one second.
use vstd::prelude::*;
use crate::order::views;
use crate::planner::{decimal, percent_text, tenths_text};
use crate::text::join;
use vstd::multiset::Multiset;
use crate::schemas::{Shard, ShardTest, ShardingStrategy, ShardsManifest, TestNode};

verus! {

/// A test to place: its index in the test list, its estimated duration and
/// its priority (0 for tests that last failed, 1 otherwise).
pub type Item = (usize, u64, u32);

/// `a` goes before `b` once sorted: higher priority (lower number) first,
/// then longer first.
pub open spec fn precedes(a: Item, b: Item) -> bool {
    a.2 < b.2 || (a.2 == b.2 && a.1 > b.1)
}

/// `x` inserted into `s` after every item it does not go before.
pub open spec fn insert_item(s: Seq<Item>, x: Item) -> Seq<Item>
    decreases s.len(),
{
    if s.len() == 0 {
        seq![x]
    } else if precedes(x, s[0]) {
        seq![x] + s
    } else {
        seq![s[0]] + insert_item(s.drop_first(), x)
    }
}

/// The items in stable sorted order: as sorted by [`precedes`], items that
/// compare equal keep their order.
pub open spec fn stable_sorted(items: Seq<Item>) -> Seq<Item>
    decreases items.len(),
{
    if items.len() == 0 {
        Seq::empty()
    } else {
        insert_item(stable_sorted(items.drop_last()), items.last())
    }
}

/// Where the next test goes.
#[derive(Debug, Clone, Copy, PartialEq, Eq, Structural)]
pub enum Placement {
    /// The `i`-th test goes to shard `i mod n`.
    RoundRobin,
    /// Each test goes to the shard with the least estimated time so far
    /// (the first such shard).
    LeastLoaded,
    /// Tests that last failed are spread round-robin, the others go to the
    /// least loaded shard.
    FailedSpread,
}

/// The state of the shards while placing: the items each holds and their
/// total duration.
pub type ShardState = (Seq<Item>, int);

pub open spec fn durations(st: Seq<ShardState>) -> Seq<int> {
    st.map_values(|p: ShardState| p.1)
}

/// The index of the first smallest duration.
pub open spec fn least_loaded(ds: Seq<int>) -> int
    decreases ds.len(),
{
    if ds.len() <= 1 {
        0
    } else {
        let m = least_loaded(ds.drop_last());
        if ds.last() < ds[m] {
            ds.len() - 1
        } else {
            m
        }
    }
}

/// The shard that the `i`-th test `x` goes to.
pub open spec fn target(st: Seq<ShardState>, i: int, x: Item, n: nat, mode: Placement) -> int {
    match mode {
        Placement::RoundRobin => i % (n as int),
        Placement::LeastLoaded => least_loaded(durations(st)),
        Placement::FailedSpread => if x.2 == 0 {
            i % (n as int)
        } else {
            least_loaded(durations(st))
        },
    }
}

/// `n` empty shards.
pub open spec fn empty_shards(n: nat) -> Seq<ShardState> {
    Seq::new(n, |k: int| (Seq::<Item>::empty(), 0int))
}

/// The shards after placing `items` in order.
pub open spec fn placed(items: Seq<Item>, n: nat, mode: Placement) -> Seq<ShardState>
    decreases items.len(),
{
    if items.len() == 0 {
        empty_shards(n)
    } else {
        let st = placed(items.drop_last(), n, mode);
        let i = items.len() - 1;
        let x = items.last();
        let t = target(st, i, x, n, mode);
        st.update(t, (st[t].0.push(x), st[t].1 + x.1))
    }
}

/// The total duration of the items.
pub open spec fn total_ms(items: Seq<Item>) -> nat
    decreases items.len(),
{
    if items.len() == 0 {
        0
    } else {
        total_ms(items.drop_last()) + (items.last().1 as nat)
    }
}

/// The test placed as `x` in a shard, written out from the test list.
pub open spec fn shard_test_is(t: ShardTest, x: Item, tests: Seq<TestNode>) -> bool {
    &&& 0 <= x.0 < tests.len()
    &&& t.nodeid@ == tests[x.0 as int].nodeid@
    &&& t.estimated_duration_ms == x.1
    &&& t.priority == x.2
    &&& views(t.markers@) == views(tests[x.0 as int].markers@)
}

/// Shard `k` holds what the state says.
pub open spec fn shard_is(s: Shard, k: int, p: ShardState, tests: Seq<TestNode>) -> bool {
    &&& s.shard_id == k
    &&& s.estimated_duration_ms == p.1
    &&& s.test_count == p.0.len()
    &&& s.tests@.len() == p.0.len()
    &&& forall|j: int| 0 <= j < p.0.len() ==> shard_test_is(#[trigger] s.tests@[j], p.0[j], tests)
}

/// The shards are those of the state, in order of their ids.
pub open spec fn shards_are(shards: Seq<Shard>, st: Seq<ShardState>, tests: Seq<TestNode>) -> bool {
    &&& shards.len() == st.len()
    &&& forall|k: int| 0 <= k < st.len() ==> shard_is(#[trigger] shards[k], k, st[k], tests)
}

proof fn lemma_insert_at(s: Seq<Item>, x: Item, k: int)
    requires
        0 <= k <= s.len(),
        forall|j: int| 0 <= j < k ==> !precedes(x, #[trigger] s[j]),
        k < s.len() ==> precedes(x, s[k]),
    ensures
        insert_item(s, x) == s.insert(k, x),
    decreases k,
{
    if s.len() == 0 {
        assert(s.insert(k, x) =~= seq![x]);
    } else if k == 0 {
        assert(s.insert(0, x) =~= seq![x] + s);
    } else {
        assert(!precedes(x, s[0]));
        let r = s.drop_first();
        assert forall|j: int| 0 <= j < k - 1 implies !precedes(x, #[trigger] r[j]) by {
            assert(r[j] == s[j + 1]);
        }
        lemma_insert_at(r, x, k - 1);
        assert(s.insert(k, x) =~= seq![s[0]] + r.insert(k - 1, x));
    }
}

proof fn lemma_least_loaded_range(ds: Seq<int>)
    requires
        ds.len() >= 1,
    ensures
        0 <= least_loaded(ds) < ds.len(),
    decreases ds.len(),
{
    if ds.len() > 1 {
        lemma_least_loaded_range(ds.drop_last());
    }
}

proof fn lemma_total_prefix(items: Seq<Item>, i: int)
    requires
        0 <= i <= items.len(),
    ensures
        total_ms(items.take(i)) <= total_ms(items),
    decreases items.len() - i,
{
    if i < items.len() {
        lemma_total_prefix(items, i + 1);
        assert(items.take(i + 1).drop_last() =~= items.take(i));
    }
    assert(items.take(items.len() as int) =~= items);
}

/// Placing keeps `n` shards, each within the total duration and holding
/// only items placed.
proof fn lemma_placed_bounds(items: Seq<Item>, n: nat, mode: Placement)
    requires
        n >= 1,
    ensures
        placed(items, n, mode).len() == n,
        forall|k: int| 0 <= k < n ==> 0 <= #[trigger] placed(items, n, mode)[k].1 <= total_ms(items),
        forall|k: int| 0 <= k < n ==> #[trigger] placed(items, n, mode)[k].0.len() <= items.len(),
    decreases items.len(),
{
    if items.len() > 0 {
        let st = placed(items.drop_last(), n, mode);
        lemma_placed_bounds(items.drop_last(), n, mode);
        lemma_target_range(st, items.len() - 1, items.last(), n, mode);
    }
}

proof fn lemma_target_range(st: Seq<ShardState>, i: int, x: Item, n: nat, mode: Placement)
    requires
        n >= 1,
        st.len() == n,
        i >= 0,
    ensures
        0 <= target(st, i, x, n, mode) < n,
{
    lemma_least_loaded_range(durations(st));
}

/// The index of the shard with the least estimated time (the first one
/// when several tie).
fn least_loaded_shard(shards: &Vec<Shard>, Ghost(st): Ghost<Seq<ShardState>>) -> (r: usize)
    requires
        shards@.len() >= 1,
        shards@.len() == st.len(),
        forall|k: int| 0 <= k < st.len() ==> (#[trigger] shards@[k]).estimated_duration_ms == st[k].1,
    ensures
        r as int == least_loaded(durations(st)),
        r < shards@.len(),
{
    let ghost ds = durations(st);
    let mut best: usize = 0;
    let mut j: usize = 1;
    assert(ds.take(1) =~= seq![ds[0]]);
    while j < shards.len()
        invariant
            1 <= j <= shards@.len(),
            shards@.len() == st.len(),
            ds == durations(st),
            forall|k: int| 0 <= k < st.len() ==> (#[trigger] shards@[k]).estimated_duration_ms == st[k].1,
            best as int == least_loaded(ds.take(j as int)),
            best < j,
        decreases shards@.len() - j,
    {
        let ghost t = ds.take(j + 1);
        assert(t.drop_last() =~= ds.take(j as int));
        proof {
            lemma_least_loaded_range(ds.take(j as int));
        }
        assert(t[best as int] == ds[best as int]);
        if shards[j].estimated_duration_ms < shards[best].estimated_duration_ms {
            best = j;
        }
        j = j + 1;
    }
    assert(ds.take(shards@.len() as int) =~= ds);
    best
}

/// The markers of a test, copied.
fn copy_markers(t: &TestNode) -> (r: Vec<String>)
    ensures
        views(r@) == views(t.markers@),
{
    crate::planner::clone_strings(&t.markers)
}

/// Places the items in order onto `n` shards.
fn place_items(tests: &Vec<TestNode>, items: &Vec<Item>, n: u32, mode: Placement) -> (r: Vec<Shard>)
    requires
        n >= 1,
        items@.len() <= u32::MAX,
        total_ms(items@) <= u64::MAX,
        forall|i: int| 0 <= i < items@.len() ==> (#[trigger] items@[i]).0 < tests@.len(),
    ensures
        shards_are(r@, placed(items@, n as nat, mode), tests@),
{
    let mut shards: Vec<Shard> = Vec::new();
    let mut k: u32 = 0;
    while k < n
        invariant
            k <= n,
            shards_are(shards@, empty_shards(n as nat).take(k as int), tests@),
        decreases n - k,
    {
        shards.push(Shard { shard_id: k, estimated_duration_ms: 0, test_count: 0, tests: Vec::new() });
        assert(empty_shards(n as nat).take(k + 1) =~= empty_shards(n as nat).take(k as int).push(
            (Seq::<Item>::empty(), 0int),
        ));
        k = k + 1;
    }
    assert(empty_shards(n as nat).take(n as int) =~= empty_shards(n as nat));
    assert(items@.take(0) =~= Seq::<Item>::empty());
    let mut i: usize = 0;
    while i < items.len()
        invariant
            n >= 1,
            i <= items@.len(),
            items@.len() <= u32::MAX,
            total_ms(items@) <= u64::MAX,
            forall|m: int| 0 <= m < items@.len() ==> (#[trigger] items@[m]).0 < tests@.len(),
            shards_are(shards@, placed(items@.take(i as int), n as nat, mode), tests@),
        decreases items@.len() - i,
    {
        let ghost pre = items@.take(i as int);
        let ghost st = placed(pre, n as nat, mode);
        let x = items[i];
        proof {
            lemma_placed_bounds(pre, n as nat, mode);
            lemma_total_prefix(items@, i + 1);
            assert(items@.take(i + 1).drop_last() =~= pre);
            assert(items@.take(i + 1).last() == x);
        }
        let t: usize = match mode {
            Placement::RoundRobin => i % (n as usize),
            Placement::LeastLoaded => least_loaded_shard(&shards, Ghost(st)),
            Placement::FailedSpread => if x.2 == 0 {
                i % (n as usize)
            } else {
                least_loaded_shard(&shards, Ghost(st))
            },
        };
        proof {
            lemma_target_range(st, i as int, x, n as nat, mode);
            assert(t as int == target(st, i as int, x, n as nat, mode));
        }
        let markers = copy_markers(&tests[x.0]);
        let st_t = ShardTest {
            nodeid: tests[x.0].nodeid.clone(),
            estimated_duration_ms: x.1,
            priority: x.2,
            markers,
        };
        let ghost old_shards = shards@;
        let mut s = shards.remove(t);
        s.estimated_duration_ms = s.estimated_duration_ms + x.1;
        s.test_count = s.test_count + 1;
        s.tests.push(st_t);
        shards.insert(t, s);
        proof {
            let st2 = placed(items@.take(i + 1), n as nat, mode);
            assert(st2 == st.update(t as int, (st[t as int].0.push(x), st[t as int].1 + x.1)));
            assert forall|k: int| 0 <= k < st2.len() implies shard_is(#[trigger] shards@[k], k, st2[k], tests@) by {
                if k == t as int {
                    assert forall|j: int| 0 <= j < st2[k].0.len() implies shard_test_is(
                        #[trigger] shards@[k].tests@[j],
                        st2[k].0[j],
                        tests@,
                    ) by {
                        if j < st[k].0.len() {
                            assert(shard_test_is(old_shards[k].tests@[j], st[k].0[j], tests@));
                        }
                    }
                } else {
                    assert(shards@[k] == old_shards[k]);
                }
            }
        }
        i = i + 1;
    }
    assert(items@.take(items@.len() as int) =~= items@);
    shards
}


proof fn lemma_total_concat(a: Seq<Item>, b: Seq<Item>)
    ensures
        total_ms(a + b) == total_ms(a) + total_ms(b),
    decreases b.len(),
{
    if b.len() == 0 {
        assert(a + b =~= a);
    } else {
        lemma_total_concat(a, b.drop_last());
        assert((a + b).drop_last() =~= a + b.drop_last());
    }
}

/// Sorting keeps the items: their number, their total, and that each
/// names a test of the list.
proof fn lemma_sorted_keeps(items: Seq<Item>, len: nat)
    requires
        forall|i: int| 0 <= i < items.len() ==> (#[trigger] items[i]).0 < len,
    ensures
        stable_sorted(items).len() == items.len(),
        total_ms(stable_sorted(items)) == total_ms(items),
        forall|i: int| 0 <= i < items.len() ==> (#[trigger] stable_sorted(items)[i]).0 < len,
    decreases items.len(),
{
    if items.len() > 0 {
        lemma_sorted_keeps(items.drop_last(), len);
        lemma_insert_keeps(stable_sorted(items.drop_last()), items.last(), len);
    }
}

proof fn lemma_total_single(x: Item)
    ensures
        total_ms(seq![x]) == x.1,
{
    assert(seq![x].drop_last() =~= Seq::<Item>::empty());
    assert(total_ms(Seq::<Item>::empty()) == 0);
    assert(seq![x].last() == x);
}

proof fn lemma_insert_keeps(s: Seq<Item>, x: Item, len: nat)
    requires
        x.0 < len,
        forall|i: int| 0 <= i < s.len() ==> (#[trigger] s[i]).0 < len,
    ensures
        insert_item(s, x).len() == s.len() + 1,
        total_ms(insert_item(s, x)) == total_ms(s) + x.1,
        forall|i: int| 0 <= i < s.len() + 1 ==> (#[trigger] insert_item(s, x)[i]).0 < len,
    decreases s.len(),
{
    lemma_total_single(x);
    if s.len() == 0 {
    } else if precedes(x, s[0]) {
        lemma_total_concat(seq![x], s);
    } else {
        let r = s.drop_first();
        lemma_insert_keeps(r, x, len);
        lemma_total_concat(seq![s[0]], insert_item(r, x));
        lemma_total_concat(seq![s[0]], r);
        assert(seq![s[0]] + r =~= s);
        lemma_total_single(s[0]);
        assert forall|i: int| 0 <= i < s.len() + 1 implies (#[trigger] insert_item(s, x)[i]).0 < len by {
            if i > 0 {
                assert(insert_item(s, x)[i] == insert_item(r, x)[i - 1]);
            }
        }
    }
}

/// The items in stable sorted order.
fn sort_items(items: &Vec<Item>) -> (r: Vec<Item>)
    ensures
        r@ == stable_sorted(items@),
{
    let mut sorted: Vec<Item> = Vec::new();
    let mut i: usize = 0;
    assert(items@.take(0) =~= Seq::<Item>::empty());
    while i < items.len()
        invariant
            i <= items@.len(),
            sorted@ == stable_sorted(items@.take(i as int)),
        decreases items@.len() - i,
    {
        let x = items[i];
        let mut k: usize = 0;
        let mut found = false;
        while k < sorted.len() && !found
            invariant
                k <= sorted@.len(),
                found ==> k < sorted@.len() && precedes(x, sorted@[k as int]),
                forall|j: int| 0 <= j < k ==> !precedes(x, #[trigger] sorted@[j]),
            decreases sorted@.len() - k + (if found { 0int } else { 1int }),
        {
            let y = sorted[k];
            if x.2 < y.2 || (x.2 == y.2 && x.1 > y.1) {
                found = true;
            } else {
                k = k + 1;
            }
        }
        proof {
            lemma_insert_at(sorted@, x, k as int);
            assert(items@.take(i + 1).drop_last() =~= items@.take(i as int));
        }
        sorted.insert(k, x);
        i = i + 1;
    }
    assert(items@.take(items@.len() as int) =~= items@);
    sorted
}

/// The history's estimate for a test: the last entry for it, as a map
/// filled in order keeps it.
pub open spec fn timing_of(timings: Seq<(String, u64)>, id: Seq<char>) -> Option<u64>
    decreases timings.len(),
{
    if timings.len() == 0 {
        None
    } else if timings.last().0@ == id {
        Some(timings.last().1)
    } else {
        timing_of(timings.drop_last(), id)
    }
}

/// The estimate for a test: its history, else one second.
pub open spec fn duration_of(timings: Seq<(String, u64)>, id: Seq<char>) -> u64 {
    match timing_of(timings, id) {
        Some(d) => d,
        None => 1000,
    }
}

/// The test carries the `failed` marker.
pub open spec fn has_failed_marker(t: TestNode) -> bool {
    exists|j: int| 0 <= j < t.markers@.len() && #[trigger] t.markers@[j]@ == "failed"@
}

/// The items for the tests picked by `sel` under a strategy: one second
/// each for round-robin, the history's estimate otherwise, with failed
/// tests first for timing-based sharding.
pub open spec fn items_for(
    tests: Seq<TestNode>,
    sel: Seq<usize>,
    timings: Seq<(String, u64)>,
    strategy: ShardingStrategy,
) -> Seq<Item> {
    Seq::new(
        sel.len(),
        |i: int|
            match strategy {
                ShardingStrategy::RoundRobin => (sel[i], 1000u64, 1u32),
                ShardingStrategy::BinPack => (sel[i], duration_of(timings, tests[sel[i] as int].nodeid@), 1u32),
                ShardingStrategy::TimingBased => (
                    sel[i],
                    duration_of(timings, tests[sel[i] as int].nodeid@),
                    if has_failed_marker(tests[sel[i] as int]) {
                        0u32
                    } else {
                        1u32
                    },
                ),
            },
    )
}

/// The shards a strategy gives: round-robin in the given order; bin
/// packing longest first onto the least loaded shard; timing-based with
/// failed tests first, spread round-robin when long poles go first.
pub open spec fn shards_spec(
    tests: Seq<TestNode>,
    sel: Seq<usize>,
    timings: Seq<(String, u64)>,
    n: nat,
    strategy: ShardingStrategy,
    long_pole_first: bool,
) -> Seq<ShardState> {
    let items = items_for(tests, sel, timings, strategy);
    match strategy {
        ShardingStrategy::RoundRobin => placed(items, n, Placement::RoundRobin),
        ShardingStrategy::BinPack => placed(stable_sorted(items), n, Placement::LeastLoaded),
        ShardingStrategy::TimingBased => placed(
            stable_sorted(items),
            n,
            if long_pole_first {
                Placement::FailedSpread
            } else {
                Placement::LeastLoaded
            },
        ),
    }
}

/// All indices of a list of `n` tests.
pub open spec fn all_indices(n: nat) -> Seq<usize> {
    Seq::new(n, |i: int| i as usize)
}

fn lookup_duration(timings: &Vec<(String, u64)>, id: &str) -> (d: u64)
    ensures
        d == duration_of(timings@, id@),
{
    let mut found: Option<u64> = None;
    let mut i: usize = 0;
    assert(timings@.take(0) =~= Seq::<(String, u64)>::empty());
    while i < timings.len()
        invariant
            i <= timings@.len(),
            found == timing_of(timings@.take(i as int), id@),
        decreases timings@.len() - i,
    {
        assert(timings@.take(i + 1).drop_last() =~= timings@.take(i as int));
        if crate::text::str_eq(timings[i].0.as_str(), id) {
            found = Some(timings[i].1);
        }
        i = i + 1;
    }
    assert(timings@.take(timings@.len() as int) =~= timings@);
    match found {
        Some(d) => d,
        None => 1000,
    }
}

fn failed_marker(t: &TestNode) -> (b: bool)
    ensures
        b == has_failed_marker(*t),
{
    let mut j: usize = 0;
    while j < t.markers.len()
        invariant
            j <= t.markers@.len(),
            forall|m: int| 0 <= m < j ==> #[trigger] t.markers@[m]@ != "failed"@,
        decreases t.markers@.len() - j,
    {
        if crate::text::str_eq(t.markers[j].as_str(), "failed") {
            return true;
        }
        j = j + 1;
    }
    false
}

fn build_items(
    tests: &Vec<TestNode>,
    sel: &Vec<usize>,
    timings: &Vec<(String, u64)>,
    strategy: ShardingStrategy,
) -> (r: Vec<Item>)
    requires
        forall|i: int| 0 <= i < sel@.len() ==> (#[trigger] sel@[i]) < tests@.len(),
    ensures
        r@ == items_for(tests@, sel@, timings@, strategy),
{
    let ghost want = items_for(tests@, sel@, timings@, strategy);
    let mut r: Vec<Item> = Vec::new();
    let mut i: usize = 0;
    while i < sel.len()
        invariant
            i <= sel@.len(),
            want == items_for(tests@, sel@, timings@, strategy),
            forall|m: int| 0 <= m < sel@.len() ==> (#[trigger] sel@[m]) < tests@.len(),
            r@ == want.take(i as int),
        decreases sel@.len() - i,
    {
        let k = sel[i];
        let x: Item = match strategy {
            ShardingStrategy::RoundRobin => (k, 1000, 1),
            ShardingStrategy::BinPack => (k, lookup_duration(timings, tests[k].nodeid.as_str()), 1),
            ShardingStrategy::TimingBased => {
                let d = lookup_duration(timings, tests[k].nodeid.as_str());
                let p: u32 = if failed_marker(&tests[k]) {
                    0
                } else {
                    1
                };
                (k, d, p)
            },
        };
        r.push(x);
        assert(r@ =~= want.take(i + 1));
        i = i + 1;
    }
    assert(want.take(sel@.len() as int) =~= want);
    r
}

/// Shards the tests picked by `sel` with a strategy.
fn shard_with(
    tests: &Vec<TestNode>,
    sel: &Vec<usize>,
    timings: &Vec<(String, u64)>,
    n: u32,
    strategy: ShardingStrategy,
    long_pole_first: bool,
) -> (r: Vec<Shard>)
    requires
        n >= 1,
        sel@.len() <= u32::MAX,
        forall|i: int| 0 <= i < sel@.len() ==> (#[trigger] sel@[i]) < tests@.len(),
        total_ms(items_for(tests@, sel@, timings@, strategy)) <= u64::MAX,
    ensures
        shards_are(r@, shards_spec(tests@, sel@, timings@, n as nat, strategy, long_pole_first), tests@),
{
    let items = build_items(tests, sel, timings, strategy);
    assert forall|i: int| 0 <= i < items@.len() implies (#[trigger] items@[i]).0 < tests@.len() by {
        assert(items@[i].0 == sel@[i]);
    }
    match strategy {
        ShardingStrategy::RoundRobin => place_items(tests, &items, n, Placement::RoundRobin),
        _ => {
            let sorted = sort_items(&items);
            proof {
                lemma_sorted_keeps(items@, tests@.len());
            }
            let mode = if strategy == ShardingStrategy::BinPack || !long_pole_first {
                Placement::LeastLoaded
            } else {
                Placement::FailedSpread
            };
            place_items(tests, &sorted, n, mode)
        },
    }
}

proof fn lemma_round_robin_total(tests: Seq<TestNode>, sel: Seq<usize>, timings: Seq<(String, u64)>)
    ensures
        total_ms(items_for(tests, sel, timings, ShardingStrategy::RoundRobin)) == 1000 * sel.len(),
    decreases sel.len(),
{
    if sel.len() > 0 {
        lemma_round_robin_total(tests, sel.drop_last(), timings);
        assert(items_for(tests, sel, timings, ShardingStrategy::RoundRobin).drop_last() =~= items_for(
            tests,
            sel.drop_last(),
            timings,
            ShardingStrategy::RoundRobin,
        ));
    } else {
        assert(items_for(tests, sel, timings, ShardingStrategy::RoundRobin) =~= Seq::<Item>::empty());
    }
}

fn every_index(n: usize) -> (r: Vec<usize>)
    ensures
        r@ == all_indices(n as nat),
{
    let mut r: Vec<usize> = Vec::new();
    let mut i: usize = 0;
    while i < n
        invariant
            i <= n,
            r@ == all_indices(n as nat).take(i as int),
        decreases n - i,
    {
        r.push(i);
        assert(r@ =~= all_indices(n as nat).take(i + 1));
        i = i + 1;
    }
    assert(all_indices(n as nat).take(n as int) =~= all_indices(n as nat));
    r
}


/// The error for a shard id beyond the manifest.
pub open spec fn out_of_range_text(id: nat, total: nat) -> Seq<char> {
    "Shard ID "@ + decimal(id) + " is out of range (total shards: "@ + decimal(total) + ")"@
}

/// The shard ids in manifest order.
pub open spec fn shard_ids(shards: Seq<Shard>) -> Seq<u32> {
    shards.map_values(|s: Shard| s.shard_id)
}

/// `x` inserted before the first larger id.
pub open spec fn insert_id(s: Seq<u32>, x: u32) -> Seq<u32>
    decreases s.len(),
{
    if s.len() == 0 {
        seq![x]
    } else if x < s[0] {
        seq![x] + s
    } else {
        seq![s[0]] + insert_id(s.drop_first(), x)
    }
}

/// The ids in ascending order.
pub open spec fn sort_ids(ids: Seq<u32>) -> Seq<u32>
    decreases ids.len(),
{
    if ids.len() == 0 {
        Seq::empty()
    } else {
        insert_id(sort_ids(ids.drop_last()), ids.last())
    }
}

/// `0, 1, .., total - 1`.
pub open spec fn expected_ids(total: nat) -> Seq<u32> {
    Seq::new(total, |k: int| k as u32)
}

/// A list of ids as `{:?}` writes it: `[0, 1, 2]`.
pub open spec fn list_text(ids: Seq<u32>) -> Seq<char> {
    "["@ + join(ids.map_values(|x: u32| decimal(x as nat)), ", "@) + "]"@
}

proof fn lemma_insert_id_at(s: Seq<u32>, x: u32, k: int)
    requires
        0 <= k <= s.len(),
        forall|j: int| 0 <= j < k ==> !(x < #[trigger] s[j]),
        k < s.len() ==> x < s[k],
    ensures
        insert_id(s, x) == s.insert(k, x),
    decreases k,
{
    if s.len() == 0 {
        assert(s.insert(k, x) =~= seq![x]);
    } else if k == 0 {
        assert(s.insert(0, x) =~= seq![x] + s);
    } else {
        let r = s.drop_first();
        assert forall|j: int| 0 <= j < k - 1 implies !(x < #[trigger] r[j]) by {
            assert(r[j] == s[j + 1]);
        }
        lemma_insert_id_at(r, x, k - 1);
        assert(s.insert(k, x) =~= seq![s[0]] + r.insert(k - 1, x));
    }
}

fn collect_ids(shards: &Vec<Shard>) -> (r: Vec<u32>)
    ensures
        r@ == shard_ids(shards@),
{
    let mut r: Vec<u32> = Vec::new();
    let mut i: usize = 0;
    while i < shards.len()
        invariant
            i <= shards@.len(),
            r@ == shard_ids(shards@).take(i as int),
        decreases shards@.len() - i,
    {
        r.push(shards[i].shard_id);
        assert(r@ =~= shard_ids(shards@).take(i + 1));
        i = i + 1;
    }
    assert(shard_ids(shards@).take(shards@.len() as int) =~= shard_ids(shards@));
    r
}

fn sort_u32(ids: &Vec<u32>) -> (r: Vec<u32>)
    ensures
        r@ == sort_ids(ids@),
{
    let mut sorted: Vec<u32> = Vec::new();
    let mut i: usize = 0;
    assert(ids@.take(0) =~= Seq::<u32>::empty());
    while i < ids.len()
        invariant
            i <= ids@.len(),
            sorted@ == sort_ids(ids@.take(i as int)),
        decreases ids@.len() - i,
    {
        let x = ids[i];
        let mut k: usize = 0;
        let mut found = false;
        while k < sorted.len() && !found
            invariant
                k <= sorted@.len(),
                found ==> k < sorted@.len() && x < sorted@[k as int],
                forall|j: int| 0 <= j < k ==> !(x < #[trigger] sorted@[j]),
            decreases sorted@.len() - k + (if found { 0int } else { 1int }),
        {
            if x < sorted[k] {
                found = true;
            } else {
                k = k + 1;
            }
        }
        proof {
            lemma_insert_id_at(sorted@, x, k as int);
            assert(ids@.take(i + 1).drop_last() =~= ids@.take(i as int));
        }
        sorted.insert(k, x);
        i = i + 1;
    }
    assert(ids@.take(ids@.len() as int) =~= ids@);
    sorted
}

fn count_up(total: u32) -> (r: Vec<u32>)
    ensures
        r@ == expected_ids(total as nat),
{
    let mut r: Vec<u32> = Vec::new();
    let mut k: u32 = 0;
    while k < total
        invariant
            k <= total,
            r@ == expected_ids(total as nat).take(k as int),
        decreases total - k,
    {
        r.push(k);
        assert(r@ =~= expected_ids(total as nat).take(k + 1));
        k = k + 1;
    }
    assert(expected_ids(total as nat).take(total as int) =~= expected_ids(total as nat));
    r
}

fn same_ids(a: &Vec<u32>, b: &Vec<u32>) -> (r: bool)
    ensures
        r == (a@ == b@),
{
    if a.len() != b.len() {
        return false;
    }
    let mut i: usize = 0;
    while i < a.len()
        invariant
            i <= a@.len(),
            a@.len() == b@.len(),
            forall|j: int| 0 <= j < i ==> a@[j] == b@[j],
        decreases a@.len() - i,
    {
        if a[i] != b[i] {
            return false;
        }
        i = i + 1;
    }
    assert(a@ =~= b@);
    true
}

fn list_string(ids: &Vec<u32>) -> (r: String)
    ensures
        r@ == list_text(ids@),
{
    let mut parts: Vec<String> = Vec::new();
    let mut i: usize = 0;
    while i < ids.len()
        invariant
            i <= ids@.len(),
            views(parts@) == ids@.take(i as int).map_values(|x: u32| decimal(x as nat)),
        decreases ids@.len() - i,
    {
        let ghost p0 = views(parts@);
        let d = crate::planner::decimal_string(ids[i] as u128);
        parts.push(d);
        assert(views(parts@) =~= p0.push(d@));
        assert(ids@.take(i + 1).map_values(|x: u32| decimal(x as nat)) =~= ids@.take(i as int).map_values(
            |x: u32| decimal(x as nat),
        ).push(decimal(ids@[i as int] as nat)));
        i = i + 1;
    }
    assert(ids@.take(ids@.len() as int) =~= ids@);
    let mut r = "[".to_owned();
    let j = crate::text::join_strings(&parts, ", ");
    r.append(j.as_str());
    r.append("]");
    r
}

/// Balance figures of a manifest; durations in milliseconds, ratios in
/// thousandths (rounded down).
#[derive(Debug)]
pub struct ShardingStats {
    pub total_shards: u32,
    pub total_tests: u32,
    pub total_estimated_duration_ms: u64,
    pub min_shard_duration_ms: u64,
    pub max_shard_duration_ms: u64,
    pub avg_shard_duration_ms: u64,
    pub balance_ratio_permille: u64,
    pub efficiency_permille: u128,
    pub strategy: ShardingStrategy,
}

/// The number of tests over all shards.
pub open spec fn count_sum(shards: Seq<Shard>) -> nat
    decreases shards.len(),
{
    if shards.len() == 0 {
        0
    } else {
        count_sum(shards.drop_last()) + (shards.last().test_count as nat)
    }
}

/// The estimated time over all shards.
pub open spec fn duration_sum(shards: Seq<Shard>) -> nat
    decreases shards.len(),
{
    if shards.len() == 0 {
        0
    } else {
        duration_sum(shards.drop_last()) + (shards.last().estimated_duration_ms as nat)
    }
}

/// The shortest shard's estimate (0 without shards).
pub open spec fn min_duration(shards: Seq<Shard>) -> u64
    decreases shards.len(),
{
    if shards.len() == 0 {
        0
    } else if shards.len() == 1 {
        shards[0].estimated_duration_ms
    } else {
        let m = min_duration(shards.drop_last());
        if shards.last().estimated_duration_ms < m {
            shards.last().estimated_duration_ms
        } else {
            m
        }
    }
}

/// The longest shard's estimate (0 without shards).
pub open spec fn max_duration(shards: Seq<Shard>) -> u64
    decreases shards.len(),
{
    if shards.len() == 0 {
        0
    } else if shards.len() == 1 {
        shards[0].estimated_duration_ms
    } else {
        let m = max_duration(shards.drop_last());
        if shards.last().estimated_duration_ms > m {
            shards.last().estimated_duration_ms
        } else {
            m
        }
    }
}

proof fn lemma_count_prefix(shards: Seq<Shard>, i: int)
    requires
        0 <= i <= shards.len(),
    ensures
        count_sum(shards.take(i)) <= count_sum(shards),
    decreases shards.len() - i,
{
    if i < shards.len() {
        lemma_count_prefix(shards, i + 1);
        assert(shards.take(i + 1).drop_last() =~= shards.take(i));
    }
    assert(shards.take(shards.len() as int) =~= shards);
}

proof fn lemma_min_le_max(shards: Seq<Shard>)
    ensures
        min_duration(shards) <= max_duration(shards),
    decreases shards.len(),
{
    if shards.len() > 1 {
        lemma_min_le_max(shards.drop_last());
    }
}

proof fn lemma_avg_fits(sum: nat, n: nat)
    requires
        n >= 1,
        sum <= n * (u64::MAX as nat),
    ensures
        sum / n <= u64::MAX,
{
    assert(sum / n <= u64::MAX) by (nonlinear_arith)
        requires
            n >= 1,
            sum <= n * (u64::MAX as nat),
    ;
}

proof fn lemma_efficiency_fits(sum: nat, n: nat, est: nat)
    requires
        n <= u32::MAX,
        est >= 1,
        sum <= n * (u64::MAX as nat),
    ensures
        sum * 1000 <= u128::MAX,
{
    assert(sum * 1000 <= u128::MAX) by (nonlinear_arith)
        requires
            n <= u32::MAX,
            sum <= n * (u64::MAX as nat),
    ;
}

/// How `{:?}` writes a strategy.
pub open spec fn strategy_text(s: ShardingStrategy) -> Seq<char> {
    match s {
        ShardingStrategy::RoundRobin => "RoundRobin"@,
        ShardingStrategy::BinPack => "BinPack"@,
        ShardingStrategy::TimingBased => "TimingBased"@,
    }
}

fn strategy_name(s: ShardingStrategy) -> (r: &'static str)
    ensures
        r@ == strategy_text(s),
{
    match s {
        ShardingStrategy::RoundRobin => "RoundRobin",
        ShardingStrategy::BinPack => "BinPack",
        ShardingStrategy::TimingBased => "TimingBased",
    }
}

/// Milliseconds as seconds with one decimal, rounded half to even.
pub open spec fn seconds_text(ms: nat) -> Seq<char> {
    percent_text(ms, 100_000)
}

pub(crate) fn seconds_string(ms: u64) -> (r: String)
    ensures
        r@ == seconds_text(ms as nat),
{
    crate::planner::percent_string(ms, 100_000)
}

/// Thousandths as a percentage with one decimal.
pub open spec fn permille_text(p: nat) -> Seq<char> {
    tenths_text(p)
}

pub open spec fn explain_head(st: ShardingStats) -> Seq<char> {
    "=== Sharding Analysis ===\n"@ + "Strategy: "@ + strategy_text(st.strategy) + "\n"@ + "Total shards: "@
        + decimal(st.total_shards as nat) + "\n"@ + "Total tests: "@ + decimal(st.total_tests as nat) + "\n"@
        + "Estimated duration: "@ + seconds_text(st.total_estimated_duration_ms as nat) + "s\n"@ + "\n"@
}

pub open spec fn balance_block(st: ShardingStats) -> Seq<char> {
    "Balance Analysis:\n"@ + "  Min shard: "@ + seconds_text(st.min_shard_duration_ms as nat) + "s\n"@
        + "  Max shard: "@ + seconds_text(st.max_shard_duration_ms as nat) + "s\n"@ + "  Avg shard: "@
        + seconds_text(st.avg_shard_duration_ms as nat) + "s\n"@ + "  Balance: "@ + permille_text(
        st.balance_ratio_permille as nat,
    ) + "%\n"@ + "  Efficiency: "@ + permille_text(st.efficiency_permille as nat) + "%\n"@ + "\n"@
}

/// One line per shard.
pub open spec fn shard_lines(shards: Seq<Shard>) -> Seq<char>
    decreases shards.len(),
{
    if shards.len() == 0 {
        Seq::empty()
    } else {
        shard_lines(shards.drop_last()) + shard_line(shards.last())
    }
}

pub open spec fn shard_line(s: Shard) -> Seq<char> {
    "  Shard "@ + decimal(s.shard_id as nat) + ": "@ + decimal(s.test_count as nat) + " tests, "@ + seconds_text(
        s.estimated_duration_ms as nat,
    ) + "s\n"@
}

/// The explanation of a split: strategy and totals, balance, and one line
/// per shard.
pub open spec fn explain_text(shards: Seq<Shard>, st: ShardingStats) -> Seq<char> {
    explain_head(st) + balance_block(st) + "Per-Shard Breakdown:\n"@ + shard_lines(shards)
}

fn push_balance(out: &mut String, st: &ShardingStats)
    ensures
        final(out)@ == old(out)@ + balance_block(*st),
{
    let ghost o = out@;
    out.append("Balance Analysis:\n  Min shard: ");
    let a = seconds_string(st.min_shard_duration_ms);
    out.append(a.as_str());
    out.append("s\n  Max shard: ");
    let b = seconds_string(st.max_shard_duration_ms);
    out.append(b.as_str());
    out.append("s\n  Avg shard: ");
    let c = seconds_string(st.avg_shard_duration_ms);
    out.append(c.as_str());
    out.append("s\n  Balance: ");
    let d = crate::planner::tenths_string(st.balance_ratio_permille as u128);
    out.append(d.as_str());
    out.append("%\n  Efficiency: ");
    let e = crate::planner::tenths_string(st.efficiency_permille as u128);
    out.append(e.as_str());
    out.append("%\n\n");
    proof {
        reveal_strlit("Balance Analysis:\n  Min shard: ");
        reveal_strlit("Balance Analysis:\n");
        reveal_strlit("  Min shard: ");
        reveal_strlit("s\n  Max shard: ");
        reveal_strlit("s\n");
        reveal_strlit("  Max shard: ");
        reveal_strlit("s\n  Avg shard: ");
        reveal_strlit("  Avg shard: ");
        reveal_strlit("s\n  Balance: ");
        reveal_strlit("  Balance: ");
        reveal_strlit("%\n  Efficiency: ");
        reveal_strlit("%\n");
        reveal_strlit("  Efficiency: ");
        reveal_strlit("%\n\n");
        reveal_strlit("\n");
    }
    assert(out@ =~= o + balance_block(*st));
}

fn push_shard_line(out: &mut String, s: &Shard)
    ensures
        final(out)@ == old(out)@ + shard_line(*s),
{
    let ghost o = out@;
    out.append("  Shard ");
    let a = crate::planner::decimal_string(s.shard_id as u128);
    out.append(a.as_str());
    out.append(": ");
    let b = crate::planner::decimal_string(s.test_count as u128);
    out.append(b.as_str());
    out.append(" tests, ");
    let c = seconds_string(s.estimated_duration_ms);
    out.append(c.as_str());
    out.append("s\n");
    assert(out@ =~= o + shard_line(*s));
}


/// All items held by the shards.
pub open spec fn union_of(st: Seq<ShardState>) -> Multiset<Item>
    decreases st.len(),
{
    if st.len() == 0 {
        Multiset::empty()
    } else {
        union_of(st.drop_last()).add(st.last().0.to_multiset())
    }
}

/// The estimated time of all shards together.
pub open spec fn time_of(st: Seq<ShardState>) -> int
    decreases st.len(),
{
    if st.len() == 0 {
        0
    } else {
        time_of(st.drop_last()) + st.last().1
    }
}

proof fn lemma_empty_shards(n: nat)
    ensures
        union_of(empty_shards(n)) =~= Multiset::empty(),
        time_of(empty_shards(n)) == 0,
    decreases n,
{
    if n > 0 {
        lemma_empty_shards((n - 1) as nat);
        assert(empty_shards(n).drop_last() =~= empty_shards((n - 1) as nat));
        let e = empty_shards(n).last().0;
        vstd::seq_lib::to_multiset_len(e);
        vstd::multiset::lemma_multiset_empty_len(e.to_multiset());
    }
}

proof fn lemma_add_to_shard(st: Seq<ShardState>, t: int, x: Item)
    requires
        0 <= t < st.len(),
    ensures
        union_of(st.update(t, (st[t].0.push(x), st[t].1 + x.1))) =~= union_of(st).insert(x),
        time_of(st.update(t, (st[t].0.push(x), st[t].1 + x.1))) == time_of(st) + x.1,
    decreases st.len(),
{
    let u = st.update(t, (st[t].0.push(x), st[t].1 + x.1));
    vstd::seq_lib::to_multiset_build(st[t].0, x);
    if t == st.len() - 1 {
        assert(u.drop_last() =~= st.drop_last());
    } else {
        lemma_add_to_shard(st.drop_last(), t, x);
        assert(u.drop_last() =~= st.drop_last().update(t, (st[t].0.push(x), st[t].1 + x.1)));
    }
}

/// Every item lands in exactly one shard: the shards together hold the
/// items, each as often as it was given, and their estimates add up to the
/// total.
pub proof fn lemma_placed_partition(items: Seq<Item>, n: nat, mode: Placement)
    requires
        n >= 1,
    ensures
        union_of(placed(items, n, mode)) =~= items.to_multiset(),
        time_of(placed(items, n, mode)) == total_ms(items),
    decreases items.len(),
{
    if items.len() == 0 {
        lemma_empty_shards(n);
        vstd::seq_lib::to_multiset_len(items);
        vstd::multiset::lemma_multiset_empty_len(items.to_multiset());
    } else {
        let st = placed(items.drop_last(), n, mode);
        lemma_placed_partition(items.drop_last(), n, mode);
        lemma_placed_bounds(items.drop_last(), n, mode);
        lemma_target_range(st, items.len() - 1, items.last(), n, mode);
        let t = target(st, items.len() - 1, items.last(), n, mode);
        lemma_add_to_shard(st, t, items.last());
        vstd::seq_lib::to_multiset_build(items.drop_last(), items.last());
        assert(items.drop_last().push(items.last()) =~= items);
    }
}

/// The shard ids of placed shards are `0 .. n` in order, so sorting them
/// gives `0 .. n`.
proof fn lemma_sorted_expected(k: nat)
    requires
        k <= u32::MAX,
    ensures
        sort_ids(expected_ids(k)) == expected_ids(k),
    decreases k,
{
    if k > 0 {
        lemma_sorted_expected((k - 1) as nat);
        assert(expected_ids(k).drop_last() =~= expected_ids((k - 1) as nat));
        lemma_insert_last(expected_ids((k - 1) as nat), (k - 1) as u32);
        assert(expected_ids((k - 1) as nat).push((k - 1) as u32) =~= expected_ids(k));
    }
}

proof fn lemma_insert_last(s: Seq<u32>, x: u32)
    requires
        forall|j: int| 0 <= j < s.len() ==> #[trigger] s[j] <= x,
    ensures
        insert_id(s, x) == s.push(x),
    decreases s.len(),
{
    if s.len() > 0 {
        lemma_insert_last(s.drop_first(), x);
        assert(seq![s[0]] + s.drop_first().push(x) =~= s.push(x));
    } else {
        assert(seq![x] =~= s.push(x));
    }
}

/// A split into at least one shard that kept some tests passes
/// validation: its format is the supported one and its shard ids, sorted,
/// are `0 .. n`.
pub proof fn lemma_split_manifest_validates(
    m: ShardsManifest,
    tests: Seq<TestNode>,
    sel: Option<Seq<Seq<char>>>,
    timings: Seq<(String, u64)>,
    n: nat,
    strategy: ShardingStrategy,
    long_pole_first: bool,
)
    requires
        n >= 1,
        picked(tests, sel).len() > 0,
        manifest_is(m, tests, sel, timings, n, strategy, long_pole_first),
    ensures
        m.format_version@ == "veri-shards@1"@,
        sort_ids(shard_ids(m.shards@)) == expected_ids(m.total_shards as nat),
{
    let p = picked(tests, sel);
    let st = shards_spec(tests, p, timings, n, strategy, long_pole_first);
    assert(st.len() == n) by {
        let items = items_for(tests, p, timings, strategy);
        lemma_placed_bounds(items, n, Placement::RoundRobin);
        lemma_placed_bounds(stable_sorted(items), n, Placement::LeastLoaded);
        lemma_placed_bounds(stable_sorted(items), n, Placement::FailedSpread);
    }
    assert(shard_ids(m.shards@) =~= expected_ids(n)) by {
        assert forall|k: int| 0 <= k < n implies shard_ids(m.shards@)[k] == expected_ids(n)[k] by {
            assert(shard_is(m.shards@[k], k, st[k], tests));
        }
    }
    lemma_sorted_expected(n);
}

/// Sharder settings; durations in milliseconds, the balance target in
/// thousandths.
#[derive(Debug)]
pub struct SharderConfig {
    pub strategy: ShardingStrategy,
    pub min_shard_duration_ms: u64,
    pub max_shard_duration_ms: u64,
    pub load_balance_threshold_permille: u32,
    pub enable_long_pole_first: bool,
}

impl SharderConfig {
    /// Timing-based, shards of one second to five minutes, a 90% balance
    /// target, failed tests first.
    pub fn default_config() -> (c: Self)
        ensures
            c.strategy == ShardingStrategy::TimingBased,
            c.min_shard_duration_ms == 1000,
            c.max_shard_duration_ms == 300_000,
            c.load_balance_threshold_permille == 900,
            c.enable_long_pole_first,
    {
        SharderConfig {
            strategy: ShardingStrategy::TimingBased,
            min_shard_duration_ms: 1000,
            max_shard_duration_ms: 300_000,
            load_balance_threshold_permille: 900,
            enable_long_pole_first: true,
        }
    }
}

impl Default for SharderConfig {
    fn default() -> (c: Self)
        ensures
            c.strategy == ShardingStrategy::TimingBased,
            c.min_shard_duration_ms == 1000,
            c.max_shard_duration_ms == 300_000,
            c.load_balance_threshold_permille == 900,
            c.enable_long_pole_first,
    {
        Self::default_config()
    }
}

/// Splits tests into shards.  Collecting the tests and reading the timing
/// history are left to the program, which hands them in.
#[derive(Debug)]
pub struct TestSharder {
    pub config: SharderConfig,
    pub work_dir: String,
    pub cache_dir: String,
}

/// The selection keeps the test: there is no selection, or it names it.
pub open spec fn keeps(sel: Option<Seq<Seq<char>>>, id: Seq<char>) -> bool {
    match sel {
        None => true,
        Some(s) => s.contains(id),
    }
}

/// The indices of the tests the selection keeps, in order.
pub open spec fn picked(tests: Seq<TestNode>, sel: Option<Seq<Seq<char>>>) -> Seq<usize>
    decreases tests.len(),
{
    if tests.len() == 0 {
        Seq::empty()
    } else {
        let p = picked(tests.drop_last(), sel);
        if keeps(sel, tests.last().nodeid@) {
            p.push((tests.len() - 1) as usize)
        } else {
            p
        }
    }
}

pub open spec fn selection_view(selection: Option<&Vec<String>>) -> Option<Seq<Seq<char>>> {
    match selection {
        None => None,
        Some(v) => Some(views(v@)),
    }
}

proof fn lemma_picked_bounds(tests: Seq<TestNode>, sel: Option<Seq<Seq<char>>>)
    ensures
        picked(tests, sel).len() <= tests.len(),
        forall|i: int| 0 <= i < picked(tests, sel).len() ==> (#[trigger] picked(tests, sel)[i]) < tests.len(),
    decreases tests.len(),
{
    if tests.len() > 0 {
        lemma_picked_bounds(tests.drop_last(), sel);
    }
}

fn names(v: &Vec<String>, id: &str) -> (r: bool)
    ensures
        r == views(v@).contains(id@),
{
    let mut j: usize = 0;
    while j < v.len()
        invariant
            j <= v@.len(),
            forall|m: int| 0 <= m < j ==> (#[trigger] v@[m])@ != id@,
        decreases v@.len() - j,
    {
        if crate::text::str_eq(v[j].as_str(), id) {
            assert(views(v@)[j as int] == id@);
            return true;
        }
        j = j + 1;
    }
    assert forall|m: int| 0 <= m < views(v@).len() implies views(v@)[m] != id@ by {
        assert(views(v@)[m] == v@[m]@);
    }
    false
}

fn pick_tests(tests: &Vec<TestNode>, selection: Option<&Vec<String>>) -> (r: Vec<usize>)
    ensures
        r@ == picked(tests@, selection_view(selection)),
{
    let mut r: Vec<usize> = Vec::new();
    let mut i: usize = 0;
    assert(tests@.take(0) =~= Seq::<TestNode>::empty());
    while i < tests.len()
        invariant
            i <= tests@.len(),
            r@ == picked(tests@.take(i as int), selection_view(selection)),
        decreases tests@.len() - i,
    {
        let ghost t = tests@.take(i + 1);
        assert(t.drop_last() =~= tests@.take(i as int));
        assert(t.last() == tests@[i as int]);
        let keep = match selection {
            None => true,
            Some(v) => names(v, tests[i].nodeid.as_str()),
        };
        if keep {
            r.push(i);
        }
        i = i + 1;
    }
    assert(tests@.take(tests@.len() as int) =~= tests@);
    r
}

fn total_of(items: &Vec<Item>) -> (t: u64)
    requires
        total_ms(items@) <= u64::MAX,
    ensures
        t == total_ms(items@),
{
    let mut t: u64 = 0;
    let mut i: usize = 0;
    assert(items@.take(0) =~= Seq::<Item>::empty());
    while i < items.len()
        invariant
            i <= items@.len(),
            total_ms(items@) <= u64::MAX,
            t == total_ms(items@.take(i as int)),
        decreases items@.len() - i,
    {
        proof {
            lemma_total_prefix(items@, i + 1);
            assert(items@.take(i + 1).drop_last() =~= items@.take(i as int));
        }
        t = t + items[i].1;
        i = i + 1;
    }
    assert(items@.take(items@.len() as int) =~= items@);
    t
}

/// A manifest holds the shards a strategy gives for the tests the selection
/// keeps, with their total estimate.
pub open spec fn manifest_is(
    m: ShardsManifest,
    tests: Seq<TestNode>,
    sel: Option<Seq<Seq<char>>>,
    timings: Seq<(String, u64)>,
    n: nat,
    strategy: ShardingStrategy,
    long_pole_first: bool,
) -> bool {
    let p = picked(tests, sel);
    &&& m.version@ == "0.1.0"@
    &&& m.format_version@ == "veri-shards@1"@
    &&& m.total_shards == n
    &&& m.strategy == strategy
    &&& if p.len() == 0 {
        m.shards@.len() == 0 && m.estimated_duration_ms == 0
    } else {
        &&& shards_are(m.shards@, shards_spec(tests, p, timings, n, strategy, long_pole_first), tests)
        &&& m.estimated_duration_ms == total_ms(items_for(tests, p, timings, strategy))
    }
}

impl TestSharder {
    /// A sharder with the default settings.
    pub fn new(work_dir: &str, cache_dir: &str) -> (s: Self)
        ensures
            s.config.strategy == ShardingStrategy::TimingBased,
            s.config.enable_long_pole_first,
            s.config.min_shard_duration_ms == 1000,
            s.config.max_shard_duration_ms == 300_000,
            s.config.load_balance_threshold_permille == 900,
            s.work_dir@ == work_dir@,
            s.cache_dir@ == cache_dir@,
    {
        TestSharder { config: SharderConfig::default_config(), work_dir: work_dir.to_owned(), cache_dir: cache_dir.to_owned() }
    }

    /// A sharder with the given settings.
    pub fn with_config(work_dir: &str, cache_dir: &str, config: SharderConfig) -> (s: Self)
        ensures
            s.config == config,
            s.work_dir@ == work_dir@,
            s.cache_dir@ == cache_dir@,
    {
        TestSharder { config, work_dir: work_dir.to_owned(), cache_dir: cache_dir.to_owned() }
    }

    /// Round-robin: the `i`-th test goes to shard `i mod n`, estimated at
    /// one second.
    pub fn round_robin_sharding(&self, tests: &Vec<TestNode>, num_shards: u32) -> (r: Result<Vec<Shard>, String>)
        requires
            num_shards >= 1,
            tests@.len() <= u32::MAX,
        ensures
            r is Ok,
            shards_are(
                r->Ok_0@,
                placed(
                    items_for(tests@, all_indices(tests@.len()), Seq::empty(), ShardingStrategy::RoundRobin),
                    num_shards as nat,
                    Placement::RoundRobin,
                ),
                tests@,
            ),
    {
        let sel = every_index(tests.len());
        let none: Vec<(String, u64)> = Vec::new();
        proof {
            lemma_round_robin_total(tests@, sel@, none@);
            assert(none@ =~= Seq::<(String, u64)>::empty());
        }
        Ok(shard_with(tests, &sel, &none, num_shards, ShardingStrategy::RoundRobin, false))
    }

    /// Bin packing: longest first (ties in list order), each onto the shard
    /// with the least estimated time so far.
    pub fn bin_pack_sharding(
        &self,
        tests: &Vec<TestNode>,
        num_shards: u32,
        timings: &Vec<(String, u64)>,
    ) -> (r: Result<Vec<Shard>, String>)
        requires
            num_shards >= 1,
            tests@.len() <= u32::MAX,
            total_ms(items_for(tests@, all_indices(tests@.len()), timings@, ShardingStrategy::BinPack)) <= u64::MAX,
        ensures
            r is Ok,
            shards_are(
                r->Ok_0@,
                shards_spec(tests@, all_indices(tests@.len()), timings@, num_shards as nat, ShardingStrategy::BinPack, false),
                tests@,
            ),
    {
        let sel = every_index(tests.len());
        Ok(shard_with(tests, &sel, timings, num_shards, ShardingStrategy::BinPack, false))
    }

    /// Timing-based: tests marked `failed` first, then longest first; the
    /// failed ones spread round-robin when long poles go first, the rest onto
    /// the least loaded shard.
    pub fn timing_based_sharding(
        &self,
        tests: &Vec<TestNode>,
        num_shards: u32,
        timings: &Vec<(String, u64)>,
    ) -> (r: Result<Vec<Shard>, String>)
        requires
            num_shards >= 1,
            tests@.len() <= u32::MAX,
            total_ms(items_for(tests@, all_indices(tests@.len()), timings@, ShardingStrategy::TimingBased))
                <= u64::MAX,
        ensures
            r is Ok,
            shards_are(
                r->Ok_0@,
                shards_spec(
                    tests@,
                    all_indices(tests@.len()),
                    timings@,
                    num_shards as nat,
                    ShardingStrategy::TimingBased,
                    self.config.enable_long_pole_first,
                ),
                tests@,
            ),
    {
        let sel = every_index(tests.len());
        Ok(shard_with(tests, &sel, timings, num_shards, ShardingStrategy::TimingBased, self.config.enable_long_pole_first))
    }

    /// Splits the collected tests (those `selection` names, or all) into
    /// `num_shards` shards with the configured strategy and the timing
    /// history `timings` (milliseconds per test id).
    pub fn split_tests(
        &self,
        num_shards: u32,
        tests: &Vec<TestNode>,
        selection: Option<&Vec<String>>,
        timings: &Vec<(String, u64)>,
    ) -> (r: Result<ShardsManifest, String>)
        requires
            tests@.len() <= u32::MAX,
            total_ms(
                items_for(tests@, picked(tests@, selection_view(selection)), timings@, self.config.strategy),
            ) <= u64::MAX,
        ensures
            num_shards == 0 <==> r is Err,
            r is Err ==> r->Err_0@ == "Number of shards must be > 0"@,
            r is Ok ==> manifest_is(
                r->Ok_0,
                tests@,
                selection_view(selection),
                timings@,
                num_shards as nat,
                self.config.strategy,
                self.config.enable_long_pole_first,
            ),
    {
        if num_shards == 0 {
            return Err("Number of shards must be > 0".to_owned());
        }
        let sel = pick_tests(tests, selection);
        proof {
            lemma_picked_bounds(tests@, selection_view(selection));
        }
        let mut manifest = ShardsManifest::new(num_shards, self.config.strategy);
        if sel.len() == 0 {
            return Ok(manifest);
        }
        let shards = shard_with(
            tests,
            &sel,
            timings,
            num_shards,
            self.config.strategy,
            self.config.enable_long_pole_first,
        );
        let items = build_items(tests, &sel, timings, self.config.strategy);
        manifest.estimated_duration_ms = total_of(&items);
        manifest.shards = shards;
        Ok(manifest)
    }


    /// The shard with the given id (the first one, should several carry it),
    /// or `None` when the manifest has none; an error when the id is not
    /// below the number of shards.
    pub fn get_shard<'a>(&self, manifest: &'a ShardsManifest, shard_id: u32) -> (r: Result<Option<&'a Shard>, String>)
        ensures
            shard_id >= manifest.total_shards <==> r is Err,
            r is Err ==> r->Err_0@ == out_of_range_text(shard_id as nat, manifest.total_shards as nat),
            r == Ok::<Option<&'a Shard>, String>(None) <==> (shard_id < manifest.total_shards && forall|k: int|
                0 <= k < manifest.shards@.len() ==> (#[trigger] manifest.shards@[k]).shard_id != shard_id),
            r matches Ok(Some(sh)) ==> exists|k: int|
                0 <= k < manifest.shards@.len() && *sh == manifest.shards@[k] && sh.shard_id == shard_id && forall|j: int|
                    0 <= j < k ==> (#[trigger] manifest.shards@[j]).shard_id != shard_id,
    {
        if shard_id >= manifest.total_shards {
            let mut m = "Shard ID ".to_owned();
            let a = crate::planner::decimal_string(shard_id as u128);
            m.append(a.as_str());
            m.append(" is out of range (total shards: ");
            let b = crate::planner::decimal_string(manifest.total_shards as u128);
            m.append(b.as_str());
            m.append(")");
            return Err(m);
        }
        let mut k: usize = 0;
        while k < manifest.shards.len()
            invariant
                k <= manifest.shards@.len(),
                shard_id < manifest.total_shards,
                forall|j: int| 0 <= j < k ==> (#[trigger] manifest.shards@[j]).shard_id != shard_id,
            decreases manifest.shards@.len() - k,
        {
            if manifest.shards[k].shard_id == shard_id {
                return Ok(Some(&manifest.shards[k]));
            }
            k = k + 1;
        }
        Ok(None)
    }

    /// The test ids of a shard, in order.
    pub fn extract_nodeids(&self, shard: &Shard) -> (r: Vec<String>)
        ensures
            views(r@) == shard.tests@.map_values(|t: ShardTest| t.nodeid@),
    {
        let mut r: Vec<String> = Vec::new();
        let mut i: usize = 0;
        while i < shard.tests.len()
            invariant
                i <= shard.tests@.len(),
                views(r@) == shard.tests@.take(i as int).map_values(|t: ShardTest| t.nodeid@),
            decreases shard.tests@.len() - i,
        {
            let ghost r0 = views(r@);
            let id = shard.tests[i].nodeid.clone();
            r.push(id);
            assert(views(r@) =~= r0.push(id@));
            assert(shard.tests@.take(i + 1).map_values(|t: ShardTest| t.nodeid@) =~= shard.tests@.take(
                i as int,
            ).map_values(|t: ShardTest| t.nodeid@).push(shard.tests@[i as int].nodeid@));
            i = i + 1;
        }
        assert(shard.tests@.take(shard.tests@.len() as int) =~= shard.tests@);
        r
    }

    /// Checks that the manifest is of the supported format and that its
    /// shard ids, sorted, are exactly `0 .. total_shards`.
    pub fn validate_manifest(&self, manifest: &ShardsManifest) -> (r: Result<(), String>)
        ensures
            r is Ok <==> (manifest.format_version@ == "veri-shards@1"@ && sort_ids(shard_ids(manifest.shards@))
                == expected_ids(manifest.total_shards as nat)),
            manifest.format_version@ != "veri-shards@1"@ ==> r is Err && r->Err_0@ == "Unsupported manifest format: "@
                + manifest.format_version@ + " (expected: veri-shards@1)"@,
            manifest.format_version@ == "veri-shards@1"@ && r is Err ==> r->Err_0@
                == "Manifest has missing or duplicate shard IDs. Expected: "@ + list_text(
                expected_ids(manifest.total_shards as nat),
            ) + ", Found: "@ + list_text(sort_ids(shard_ids(manifest.shards@))),
    {
        if !crate::text::str_eq(manifest.format_version.as_str(), "veri-shards@1") {
            let mut m = "Unsupported manifest format: ".to_owned();
            m.append(manifest.format_version.as_str());
            m.append(" (expected: veri-shards@1)");
            return Err(m);
        }
        let ids = collect_ids(&manifest.shards);
        let sorted = sort_u32(&ids);
        let expected = count_up(manifest.total_shards);
        if !same_ids(&sorted, &expected) {
            let mut m = "Manifest has missing or duplicate shard IDs. Expected: ".to_owned();
            let a = list_string(&expected);
            m.append(a.as_str());
            m.append(", Found: ");
            let b = list_string(&sorted);
            m.append(b.as_str());
            return Err(m);
        }
        Ok(())
    }

    /// Balance figures of a manifest.
    pub fn generate_stats_summary(&self, manifest: &ShardsManifest) -> (st: ShardingStats)
        requires
            manifest.shards@.len() <= u32::MAX,
            count_sum(manifest.shards@) <= u32::MAX,
        ensures
            st.total_shards == manifest.total_shards,
            st.total_tests == count_sum(manifest.shards@),
            st.total_estimated_duration_ms == manifest.estimated_duration_ms,
            st.min_shard_duration_ms == min_duration(manifest.shards@),
            st.max_shard_duration_ms == max_duration(manifest.shards@),
            st.avg_shard_duration_ms == (if manifest.shards@.len() == 0 {
                0
            } else {
                duration_sum(manifest.shards@) / manifest.shards@.len()
            }),
            st.balance_ratio_permille == (if max_duration(manifest.shards@) > 0 {
                min_duration(manifest.shards@) * 1000 / (max_duration(manifest.shards@) as int)
            } else {
                1000
            }),
            st.efficiency_permille == (if manifest.estimated_duration_ms > 0 {
                duration_sum(manifest.shards@) * 1000 / (manifest.estimated_duration_ms as nat)
            } else {
                1000
            }),
            st.strategy == manifest.strategy,
    {
        let shards = &manifest.shards;
        let mut tests: u32 = 0;
        let mut sum: u128 = 0;
        let mut lo: u64 = 0;
        let mut hi: u64 = 0;
        let mut i: usize = 0;
        assert(shards@.take(0) =~= Seq::<Shard>::empty());
        while i < shards.len()
            invariant
                i <= shards@.len(),
                shards@.len() <= u32::MAX,
                count_sum(shards@) <= u32::MAX,
                tests == count_sum(shards@.take(i as int)),
                sum == duration_sum(shards@.take(i as int)),
                sum <= i * (u64::MAX as nat),
                lo == min_duration(shards@.take(i as int)),
                hi == max_duration(shards@.take(i as int)),
            decreases shards@.len() - i,
        {
            let ghost t = shards@.take(i + 1);
            assert(t.drop_last() =~= shards@.take(i as int));
            proof {
                lemma_count_prefix(shards@, i + 1);
            }
            let s = &shards[i];
            tests = tests + s.test_count;
            sum = sum + s.estimated_duration_ms as u128;
            assert(sum <= (i + 1) * (u64::MAX as nat)) by (nonlinear_arith)
                requires
                    sum <= i * (u64::MAX as nat) + (u64::MAX as nat),
            ;
            if i == 0 {
                lo = s.estimated_duration_ms;
                hi = s.estimated_duration_ms;
            } else {
                if s.estimated_duration_ms < lo {
                    lo = s.estimated_duration_ms;
                }
                if s.estimated_duration_ms > hi {
                    hi = s.estimated_duration_ms;
                }
            }
            i = i + 1;
        }
        assert(shards@.take(shards@.len() as int) =~= shards@);
        let n = shards.len();
        let avg: u64 = if n == 0 {
            0
        } else {
            proof {
                lemma_avg_fits(sum as nat, n as nat);
            }
            (sum / (n as u128)) as u64
        };
        assert(lo <= hi) by {
            lemma_min_le_max(shards@);
        }
        let balance: u64 = if hi > 0 {
            let b: u128 = (lo as u128) * 1000 / (hi as u128);
            assert(b <= 1000) by (nonlinear_arith)
                requires
                    b == (lo as int) * 1000 / (hi as int),
                    lo <= hi,
                    hi > 0,
            ;
            b as u64
        } else {
            1000
        };
        let eff: u128 = if manifest.estimated_duration_ms > 0 {
            proof {
                lemma_efficiency_fits(sum as nat, n as nat, manifest.estimated_duration_ms as nat);
            }
            sum * 1000 / (manifest.estimated_duration_ms as u128)
        } else {
            1000
        };
        ShardingStats {
            total_shards: manifest.total_shards,
            total_tests: tests,
            total_estimated_duration_ms: manifest.estimated_duration_ms,
            min_shard_duration_ms: lo,
            max_shard_duration_ms: hi,
            avg_shard_duration_ms: avg,
            balance_ratio_permille: balance,
            efficiency_permille: eff,
            strategy: manifest.strategy,
        }
    }

    /// The explanation of a split, as `--explain` prints it.
    pub fn format_explain(&self, manifest: &ShardsManifest, stats: &ShardingStats) -> (r: String)
        ensures
            r@ == explain_text(manifest.shards@, *stats),
    {
        let mut out = "=== Sharding Analysis ===\nStrategy: ".to_owned();
        out.append(strategy_name(stats.strategy));
        out.append("\nTotal shards: ");
        let a = crate::planner::decimal_string(stats.total_shards as u128);
        out.append(a.as_str());
        out.append("\nTotal tests: ");
        let b = crate::planner::decimal_string(stats.total_tests as u128);
        out.append(b.as_str());
        out.append("\nEstimated duration: ");
        let c = seconds_string(stats.total_estimated_duration_ms);
        out.append(c.as_str());
        out.append("s\n\n");
        let ghost head = out@;
        proof {
            reveal_strlit("=== Sharding Analysis ===\nStrategy: ");
            reveal_strlit("=== Sharding Analysis ===\n");
            reveal_strlit("Strategy: ");
            reveal_strlit("\nTotal shards: ");
            reveal_strlit("\n");
            reveal_strlit("Total shards: ");
            reveal_strlit("\nTotal tests: ");
            reveal_strlit("Total tests: ");
            reveal_strlit("\nEstimated duration: ");
            reveal_strlit("Estimated duration: ");
            reveal_strlit("s\n\n");
            reveal_strlit("s\n");
        }
        assert(head =~= explain_head(*stats));
        push_balance(&mut out, stats);
        out.append("Per-Shard Breakdown:\n");
        let ghost mid = out@;
        let mut i: usize = 0;
        assert(manifest.shards@.take(0) =~= Seq::<Shard>::empty());
        while i < manifest.shards.len()
            invariant
                i <= manifest.shards@.len(),
                out@ == mid + shard_lines(manifest.shards@.take(i as int)),
            decreases manifest.shards@.len() - i,
        {
            let ghost o = out@;
            push_shard_line(&mut out, &manifest.shards[i]);
            assert(manifest.shards@.take(i + 1).drop_last() =~= manifest.shards@.take(i as int));
            assert(out@ =~= mid + shard_lines(manifest.shards@.take(i + 1)));
            i = i + 1;
        }
        assert(manifest.shards@.take(manifest.shards@.len() as int) =~= manifest.shards@);
        assert(out@ =~= explain_text(manifest.shards@, *stats));
        out
    }
}

} // verus!
