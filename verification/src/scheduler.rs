//! Ordering tests and distributing them across workers.
//!
//! Durations are whole milliseconds and stability scores thousandths
//! (1000 = stable).  Priority scores are kept in thousandths as integers.
use crate::order::{seq_lt, views};
use crate::schemas::{TestNode, TestsIndex, TimingEntry};
use crate::text::{has_char, has_substr};
use crate::planner::{decimal, tenths_text};
use vstd::prelude::*;

pub use crate::schemas::TestOutcome;

verus! {

/// Timing knowledge about one test.
#[derive(Debug)]
pub struct TestTiming {
    pub nodeid: String,
    pub duration_ms: u64,
    pub last_outcome: TestOutcome,
    pub stability_permille: u32,
}

/// Tests assigned to one worker.
#[derive(Debug)]
pub struct TestBatch {
    pub worker_id: usize,
    pub nodeids: Vec<String>,
    pub estimated_duration_ms: u64,
    pub contains_last_failed: bool,
}

/// How to order tests.
#[derive(Debug, Clone, Copy, PartialEq, Eq, Structural)]
pub enum SchedulingStrategy {
    /// Quick tests first.
    Fastest,
    /// Likely failures first.
    FailFirst,
    /// A balance of both.
    Balanced,
}

/// Scheduler settings.
#[derive(Debug)]
pub struct SchedulerConfig {
    pub strategy: SchedulingStrategy,
    pub worker_count: usize,
    pub enable_long_pole_detection: bool,
    pub long_pole_threshold_ms: u64,
    pub enable_fail_first: bool,
    pub max_batch_duration_ms: u64,
}

/// Number of CPUs available to the process.
///
/// Wraps `num_cpus::get`, documented to return at least 1.
#[verifier::external_body]
pub(crate) fn cpu_count() -> (n: usize)
    ensures
        n >= 1,
{
    num_cpus::get()
}

impl SchedulerConfig {
    /// Balanced strategy, one worker per CPU, 5 s long-pole and 30 s batch limits.
    pub fn default_config() -> (c: Self)
        ensures
            c.strategy == SchedulingStrategy::Balanced,
            c.worker_count >= 1,
            c.enable_long_pole_detection,
            c.long_pole_threshold_ms == 5000,
            c.enable_fail_first,
            c.max_batch_duration_ms == 30000,
    {
        SchedulerConfig {
            strategy: SchedulingStrategy::Balanced,
            worker_count: cpu_count(),
            enable_long_pole_detection: true,
            long_pole_threshold_ms: 5000,
            enable_fail_first: true,
            max_batch_duration_ms: 30000,
        }
    }
}

impl Default for SchedulerConfig {
    fn default() -> (c: Self)
        ensures
            c.strategy == SchedulingStrategy::Balanced,
            c.worker_count >= 1,
            c.long_pole_threshold_ms == 5000,
            c.max_batch_duration_ms == 30000,
    {
        Self::default_config()
    }
}

/// Estimated duration of a test without history: 100 ms, ten times that for
/// integration/e2e tests, five times for slow/performance ones; half again for
/// parametrized ids; a fifth more for async markers and three tenths more for
/// tests using more than three fixtures.
pub open spec fn estimate_spec(nodeid: Seq<char>, info: Option<TestNode>) -> nat {
    let d0: nat = if has_substr(nodeid, "integration"@) || has_substr(nodeid, "e2e"@) {
        1000
    } else if has_substr(nodeid, "slow"@) || has_substr(nodeid, "performance"@) {
        500
    } else {
        100
    };
    let d1: nat = if has_char(nodeid, '[') && has_char(nodeid, ']') {
        d0 * 3 / 2
    } else {
        d0
    };
    match info {
        Some(t) => {
            let d2: nat = if exists|i: int|
                0 <= i < t.markers@.len() && has_substr(#[trigger] t.markers@[i]@, "async"@) {
                d1 * 12 / 10
            } else {
                d1
            };
            if t.fixtures@.len() > 3 {
                d2 * 13 / 10
            } else {
                d2
            }
        },
        None => d1,
    }
}

/// Priority score in thousandths for a test of the given duration.
pub open spec fn priority_spec(
    strategy: SchedulingStrategy,
    duration_ms: nat,
    is_last_failed: bool,
    stability_permille: nat,
) -> int {
    let lf: int = if is_last_failed {
        1
    } else {
        0
    };
    match strategy {
        SchedulingStrategy::FailFirst => 1_000_000 * lf + (1000 - stability_permille) * 500
            - duration_ms,
        SchedulingStrategy::Fastest => 1_000_000 - 10 * duration_ms + 100_000 * lf,
        SchedulingStrategy::Balanced => 500_000 * lf + (1000 - stability_permille) * 250 + 500_000
            - 5 * duration_ms,
    }
}

/// A test ready for packing.
pub ghost struct ItemView {
    pub nodeid: Seq<char>,
    pub duration: nat,
    pub last_failed: bool,
    pub score: int,
}

/// Order of scheduled tests: higher score first, then by node id.
pub open spec fn item_before(a: ItemView, b: ItemView) -> bool {
    a.score > b.score || (a.score == b.score && seq_lt(a.nodeid, b.nodeid))
}

/// `a` may come before `b`.
pub open spec fn item_le(a: ItemView, b: ItemView) -> bool {
    !item_before(b, a)
}

/// The items are in scheduling order.
pub open spec fn items_sorted(s: Seq<ItemView>) -> bool {
    forall|i: int, j: int| 0 <= i < j < s.len() ==> item_le(s[i], s[j])
}

/// Load of one worker while packing.
pub ghost struct WorkerLoad {
    pub ids: Seq<Seq<char>>,
    pub load: nat,
    pub last_failed: bool,
}

/// Index of the least-loaded worker among the first `n` that can take `d` more
/// within `max`, the first such on ties; -1 when none can.
pub open spec fn min_fit(ws: Seq<WorkerLoad>, d: nat, max: nat, n: int) -> int
    decreases n,
{
    if n <= 0 {
        -1
    } else {
        let p = min_fit(ws, d, max, n - 1);
        let w = ws[n - 1];
        if w.load + d <= max && (p < 0 || w.load < ws[p].load) {
            n - 1
        } else {
            p
        }
    }
}

/// Index of the least-loaded worker among the first `n`, the first on ties.
pub open spec fn min_any(ws: Seq<WorkerLoad>, n: int) -> int
    decreases n,
{
    if n <= 1 {
        0
    } else {
        let p = min_any(ws, n - 1);
        if ws[n - 1].load < ws[p].load {
            n - 1
        } else {
            p
        }
    }
}

/// The worker that takes a test of duration `d`.
pub open spec fn best_worker(ws: Seq<WorkerLoad>, d: nat, max: nat) -> int {
    let f = min_fit(ws, d, max, ws.len() as int);
    if f >= 0 {
        f
    } else {
        min_any(ws, ws.len() as int)
    }
}

/// Workers after packing `items` into `wc` workers with batch limit `max`.
pub open spec fn pack(items: Seq<ItemView>, wc: nat, max: nat) -> Seq<WorkerLoad>
    decreases items.len(),
{
    if items.len() == 0 {
        Seq::new(wc, |i: int| WorkerLoad { ids: Seq::empty(), load: 0, last_failed: false })
    } else {
        let ws = pack(items.drop_last(), wc, max);
        let it = items.last();
        let k = best_worker(ws, it.duration, max);
        ws.update(
            k,
            WorkerLoad {
                ids: ws[k].ids.push(it.nodeid),
                load: ws[k].load + it.duration,
                last_failed: ws[k].last_failed || it.last_failed,
            },
        )
    }
}

/// A batch as worker id and load.
pub ghost struct BatchView {
    pub worker_id: nat,
    pub ids: Seq<Seq<char>>,
    pub load: nat,
    pub last_failed: bool,
}

pub open spec fn batch_view(b: TestBatch) -> BatchView {
    BatchView {
        worker_id: b.worker_id as nat,
        ids: views(b.nodeids@),
        load: b.estimated_duration_ms as nat,
        last_failed: b.contains_last_failed,
    }
}

/// Order of batches: those with last-failed tests first, then lighter ones,
/// then by worker id.
pub open spec fn batch_before(a: BatchView, b: BatchView) -> bool {
    (a.last_failed && !b.last_failed) || (a.last_failed == b.last_failed && (a.load < b.load || (
    a.load == b.load && a.worker_id < b.worker_id)))
}

/// The batches `packed` determines: one per non-empty worker, in batch order.
pub open spec fn batches_ok(packed: Seq<WorkerLoad>, out: Seq<TestBatch>) -> bool {
    &&& forall|i: int, j: int|
        0 <= i < j < out.len() ==> batch_before(batch_view(out[i]), batch_view(out[j]))
    &&& forall|i: int|
        0 <= i < out.len() ==> {
            let b = batch_view(#[trigger] out[i]);
            &&& b.worker_id < packed.len()
            &&& b.ids.len() > 0
            &&& b.ids == packed[b.worker_id as int].ids
            &&& b.load == packed[b.worker_id as int].load
            &&& b.last_failed == packed[b.worker_id as int].last_failed
        }
    &&& forall|w: int|
        0 <= w < packed.len() && packed[w].ids.len() > 0 ==> exists|i: int|
            0 <= i < out.len() && #[trigger] out[i].worker_id == w
}

/// The first timing recorded for `n`.
pub open spec fn first_timing(ts: Seq<TestTiming>, n: Seq<char>) -> Option<TestTiming>
    decreases ts.len(),
{
    if ts.len() == 0 {
        None
    } else if ts[0].nodeid@ == n {
        Some(ts[0])
    } else {
        first_timing(ts.drop_first(), n)
    }
}

/// The first test of the index with node id `n`.
pub open spec fn first_test(tests: Seq<TestNode>, n: Seq<char>) -> Option<TestNode>
    decreases tests.len(),
{
    if tests.len() == 0 {
        None
    } else if tests[0].nodeid@ == n {
        Some(tests[0])
    } else {
        first_test(tests.drop_first(), n)
    }
}

/// The last timing entry for `n`.
pub open spec fn last_entry(es: Seq<TimingEntry>, n: Seq<char>) -> Option<TimingEntry>
    decreases es.len(),
{
    if es.len() == 0 {
        None
    } else if es.last().nodeid@ == n {
        Some(es.last())
    } else {
        last_entry(es.drop_last(), n)
    }
}

/// The outcome named by a timing entry (`passed` when unknown).
pub open spec fn outcome_of(s: Seq<char>) -> TestOutcome {
    if s == "failed"@ {
        TestOutcome::Failed
    } else if s == "skipped"@ {
        TestOutcome::Skipped
    } else if s == "error"@ {
        TestOutcome::Error
    } else {
        TestOutcome::Passed
    }
}

/// Among the first `i` timing entries, one for `n` failed or errored.
pub open spec fn failed_among(es: Seq<TimingEntry>, i: int, n: Seq<char>) -> bool {
    exists|k: int|
        0 <= k < i && #[trigger] es[k].nodeid@ == n && (es[k].outcome@ == "failed"@ || es[k].outcome@
            == "error"@)
}

/// Internal record of a test being scheduled.
#[derive(Debug)]
struct ScheduledTest {
    nodeid: String,
    estimated_duration_ms: u64,
    is_last_failed: bool,
    priority_score: i128,
}

spec fn scheduled_view(t: ScheduledTest) -> ItemView {
    ItemView {
        nodeid: t.nodeid@,
        duration: t.estimated_duration_ms as nat,
        last_failed: t.is_last_failed,
        score: t.priority_score as int,
    }
}

spec fn scheduled_views(s: Seq<ScheduledTest>) -> Seq<ItemView> {
    s.map_values(|t: ScheduledTest| scheduled_view(t))
}

/// Sum of the durations of the items.
pub open spec fn total_duration(s: Seq<ItemView>) -> nat
    decreases s.len(),
{
    if s.len() == 0 {
        0
    } else {
        total_duration(s.drop_last()) + s.last().duration
    }
}

proof fn lemma_item_le_trans(a: ItemView, b: ItemView, c: ItemView)
    requires
        item_le(a, b),
        item_le(b, c),
    ensures
        item_le(a, c),
{
    if item_before(c, a) {
        if c.score == a.score && b.score == a.score {
            crate::order::lemma_lt_total(b.nodeid, a.nodeid);
            if seq_lt(b.nodeid, a.nodeid) {
            } else if b.nodeid == a.nodeid {
            } else {
                crate::order::lemma_lt_total(c.nodeid, b.nodeid);
                if seq_lt(c.nodeid, b.nodeid) {
                } else if c.nodeid == b.nodeid {
                } else {
                    crate::order::lemma_lt_transitive(a.nodeid, b.nodeid, c.nodeid);
                    crate::order::lemma_lt_asymmetric(a.nodeid, c.nodeid);
                }
            }
        }
    }
}

proof fn lemma_item_total(a: ItemView, b: ItemView)
    ensures
        item_le(a, b) || item_le(b, a),
{
    if item_before(a, b) && item_before(b, a) {
        crate::order::lemma_lt_asymmetric(a.nodeid, b.nodeid);
    }
}

proof fn lemma_total_insert(s: Seq<ItemView>, p: int, x: ItemView)
    requires
        0 <= p <= s.len(),
    ensures
        total_duration(s.insert(p, x)) == total_duration(s) + x.duration,
    decreases s.len(),
{
    if p == s.len() {
        assert(s.insert(p, x).drop_last() =~= s);
    } else {
        assert(s.insert(p, x).drop_last() =~= s.drop_last().insert(p, x));
        lemma_total_insert(s.drop_last(), p, x);
    }
}

proof fn lemma_total_mono(s: Seq<ItemView>, j: int)
    requires
        0 <= j <= s.len(),
    ensures
        total_duration(s.subrange(0, j)) <= total_duration(s),
    decreases s.len(),
{
    if j == s.len() {
        assert(s.subrange(0, j) =~= s);
    } else {
        assert(s.drop_last().subrange(0, j) =~= s.subrange(0, j));
        lemma_total_mono(s.drop_last(), j);
    }
}

proof fn lemma_first_timing_other(old_ts: Seq<TestTiming>, new_ts: Seq<TestTiming>, n: Seq<char>, key: Seq<char>)
    requires
        new_ts.len() == old_ts.len() || new_ts.len() == old_ts.len() + 1,
        forall|i: int| 0 <= i < old_ts.len() ==> new_ts[i].nodeid@ == old_ts[i].nodeid@ && (old_ts[i].nodeid@ != key ==> new_ts[i] == old_ts[i]),
        new_ts.len() == old_ts.len() + 1 ==> new_ts.last().nodeid@ == key,
        n != key,
    ensures
        first_timing(new_ts, n) == first_timing(old_ts, n),
    decreases old_ts.len(),
{
    if old_ts.len() == 0 {
        if new_ts.len() == 1 {
            assert(new_ts.drop_first() =~= Seq::<TestTiming>::empty());
        }
    } else {
        if old_ts[0].nodeid@ != n {
            lemma_first_timing_other(old_ts.drop_first(), new_ts.drop_first(), n, key);
        }
    }
}

proof fn lemma_first_timing_at(ts: Seq<TestTiming>, k: int, key: Seq<char>)
    requires
        0 <= k < ts.len(),
        ts[k].nodeid@ == key,
        forall|i: int| 0 <= i < k ==> ts[i].nodeid@ != key,
    ensures
        first_timing(ts, key) == Some(ts[k]),
    decreases k,
{
    if k > 0 {
        lemma_first_timing_at(ts.drop_first(), k - 1, key);
    }
}

/// Scheduler with timing history.
#[derive(Debug)]
pub struct TestScheduler {
    pub config: SchedulerConfig,
    pub timings: Vec<TestTiming>,
    pub last_failed: Vec<String>,
}

/// Statistics about a schedule; the load balance is the lightest over the
/// heaviest worker in thousandths (1000 when all are idle).
#[derive(Debug)]
pub struct SchedulingStats {
    pub total_tests: usize,
    pub total_workers: usize,
    pub total_estimated_duration_ms: u64,
    pub max_worker_duration_ms: u64,
    pub min_worker_duration_ms: u64,
    pub load_balance_permille: u64,
    pub batches_with_failed_tests: usize,
}

impl TestScheduler {
    /// A scheduler without history.
    pub fn new(config: SchedulerConfig) -> (s: Self)
        ensures
            s.config == config,
            s.timings@.len() == 0,
            s.last_failed@.len() == 0,
    {
        TestScheduler { config, timings: Vec::new(), last_failed: Vec::new() }
    }

    /// Replaces the timing history with `entries` (the last entry of a test
    /// wins) and adds the tests that last failed or errored to the last-failed set.
    pub fn load_timings(&mut self, entries: &Vec<TimingEntry>) -> (r: Result<(), String>)
        ensures
            r is Ok,
            final(self).config == old(self).config,
            forall|n: Seq<char>|
                #![trigger first_timing(final(self).timings@, n)]
                match last_entry(entries@, n) {
                    Some(e) => first_timing(final(self).timings@, n) is Some && {
                        let t = first_timing(final(self).timings@, n)->0;
                        &&& t.duration_ms == e.duration_ms
                        &&& t.last_outcome == outcome_of(e.outcome@)
                        &&& t.stability_permille == match e.stability_permille {
                            Some(p) => p,
                            None => 1000u32,
                        }
                    },
                    None => first_timing(final(self).timings@, n) is None,
                },
            forall|n: Seq<char>|
                #[trigger] views(final(self).last_failed@).contains(n) <==> (views(
                    old(self).last_failed@,
                ).contains(n) || failed_among(entries@, entries@.len() as int, n)),
    {
        self.timings = Vec::new();
        let ghost lf0 = views(self.last_failed@);
        let mut i: usize = 0;
        while i < entries.len()
            invariant
                i <= entries@.len(),
                self.config == old(self).config,
                forall|a: int, b: int| 0 <= a < b < self.timings@.len() ==> self.timings@[a].nodeid@ != self.timings@[b].nodeid@,
                forall|n: Seq<char>|
                    #![trigger first_timing(self.timings@, n)]
                    match last_entry(entries@.subrange(0, i as int), n) {
                        Some(e) => first_timing(self.timings@, n) is Some && {
                            let t = first_timing(self.timings@, n)->0;
                            &&& t.duration_ms == e.duration_ms
                            &&& t.last_outcome == outcome_of(e.outcome@)
                            &&& t.stability_permille == match e.stability_permille {
                                Some(p) => p,
                                None => 1000u32,
                            }
                        },
                        None => first_timing(self.timings@, n) is None,
                    },
                forall|n: Seq<char>|
                    #[trigger] views(self.last_failed@).contains(n) <==> (lf0.contains(n)
                        || failed_among(entries@, i as int, n)),
                lf0 == views(old(self).last_failed@),
            decreases entries@.len() - i,
        {
            let e = &entries[i];
            let outcome = parse_outcome(e.outcome.as_str());
            let stab: u32 = match e.stability_permille {
                Some(p) => p,
                None => 1000,
            };
            let t = TestTiming {
                nodeid: e.nodeid.clone(),
                duration_ms: e.duration_ms,
                last_outcome: outcome,
                stability_permille: stab,
            };
            let ghost old_ts = self.timings@;
            let pos = find_timing(&self.timings, &e.nodeid);
            match pos {
                Some(k) => {
                    self.timings.set(k, t);
                },
                None => {
                    self.timings.push(t);
                },
            }
            proof {
                reveal_strlit("failed");
                reveal_strlit("skipped");
                reveal_strlit("error");
                let sub = entries@.subrange(0, i + 1);
                assert(sub.drop_last() =~= entries@.subrange(0, i as int));
                assert(sub.last() == *e);
                match pos {
                    Some(k) => {
                        lemma_first_timing_at(self.timings@, k as int, e.nodeid@);
                    },
                    None => {
                        lemma_first_timing_at(self.timings@, old_ts.len() as int, e.nodeid@);
                    },
                }
                assert forall|n: Seq<char>|
                    #![trigger first_timing(self.timings@, n)]
                    match last_entry(sub, n) {
                        Some(e) => first_timing(self.timings@, n) is Some && {
                            let t = first_timing(self.timings@, n)->0;
                            &&& t.duration_ms == e.duration_ms
                            &&& t.last_outcome == outcome_of(e.outcome@)
                            &&& t.stability_permille == match e.stability_permille {
                                Some(p) => p,
                                None => 1000u32,
                            }
                        },
                        None => first_timing(self.timings@, n) is None,
                    } by {
                    if n != e.nodeid@ {
                        lemma_first_timing_other(old_ts, self.timings@, n, e.nodeid@);
                        assert(last_entry(sub, n) == last_entry(entries@.subrange(0, i as int), n));
                        assert(first_timing(old_ts, n) == first_timing(self.timings@, n));
                    } else {
                        assert(last_entry(sub, n) == Some(*e));
                    }
                }
            }
            let ghost lf_before = views(self.last_failed@);
            let ghost fail = e.outcome@ == "failed"@ || e.outcome@ == "error"@;
            assert((outcome == TestOutcome::Failed || outcome == TestOutcome::Error) == fail) by {
                reveal_strlit("skipped");
                reveal_strlit("error");
                assert("skipped"@.len() != "error"@.len());
                assert(outcome == outcome_of(e.outcome@));
            }
            let ghost mut pushed = false;
            if outcome == TestOutcome::Failed || outcome == TestOutcome::Error {
                if !crate::import_graph::contains_string(&self.last_failed, &e.nodeid) {
                    self.last_failed.push(e.nodeid.clone());
                    proof {
                        pushed = true;
                    }
                    assert(views(self.last_failed@) =~= lf_before.push(e.nodeid@));
                } else {
                    assert(lf_before.contains(e.nodeid@));
                }
            }
            proof {
                assert(entries@[i as int] == *e);
                assert forall|n: Seq<char>|
                    #[trigger] views(self.last_failed@).contains(n) <==> (lf0.contains(n)
                        || failed_among(entries@, i + 1, n)) by {
                    let nv = views(self.last_failed@);
                    assert(lf_before.contains(n) == (lf0.contains(n) || failed_among(entries@, i as int, n)));
                    if pushed {
                        assert(nv == lf_before.push(e.nodeid@));
                        if lf_before.contains(n) {
                            let j = choose|j: int| 0 <= j < lf_before.len() && lf_before[j] == n;
                            assert(nv[j] == n);
                        }
                        if nv.contains(n) {
                            let j = choose|j: int| 0 <= j < nv.len() && nv[j] == n;
                            if j < lf_before.len() {
                                assert(lf_before[j] == n);
                            }
                        }
                        if n == e.nodeid@ {
                            assert(nv[lf_before.len() as int] == n);
                        }
                    } else {
                        assert(nv == lf_before);
                    }
                    if failed_among(entries@, i + 1, n) {
                        let k = choose|k: int|
                            0 <= k < i + 1 && #[trigger] entries@[k].nodeid@ == n && (entries@[k].outcome@
                            == "failed"@ || entries@[k].outcome@ == "error"@);
                        if k < i {
                            assert(failed_among(entries@, i as int, n));
                        }
                    }
                    if failed_among(entries@, i as int, n) {
                        let k = choose|k: int|
                            0 <= k < i && #[trigger] entries@[k].nodeid@ == n && (entries@[k].outcome@
                            == "failed"@ || entries@[k].outcome@ == "error"@);
                        assert(failed_among(entries@, i + 1, n));
                    }
                    if fail && n == e.nodeid@ {
                        assert(entries@[i as int].nodeid@ == n);
                        assert(failed_among(entries@, i + 1, n));
                    }
                }
            }
            i = i + 1;
        }
        assert(entries@.subrange(0, entries@.len() as int) =~= entries@);
        Ok(())
    }

    /// The scheduling item of node id `n`.
    pub open spec fn item_of(&self, n: Seq<char>, tests: Seq<TestNode>) -> ItemView {
        let t = first_timing(self.timings@, n);
        let d: nat = match t {
            Some(t) => t.duration_ms as nat,
            None => estimate_spec(n, first_test(tests, n)),
        };
        let lf = views(self.last_failed@).contains(n);
        let stab: nat = match t {
            Some(t) => t.stability_permille as nat,
            None => 1000,
        };
        ItemView {
            nodeid: n,
            duration: d,
            last_failed: lf,
            score: priority_spec(self.config.strategy, d, lf, stab),
        }
    }

    /// The scheduling items of a list of node ids.
    pub open spec fn items_of(&self, ns: Seq<Seq<char>>, tests: Seq<TestNode>) -> Seq<ItemView> {
        ns.map_values(|n: Seq<char>| self.item_of(n, tests))
    }

    /// Orders the tests by the strategy and packs them into worker batches:
    /// each test goes to the least-loaded worker that stays within the batch
    /// limit (or the least-loaded one when none does); empty workers are
    /// dropped and batches holding last-failed tests come first, then lighter ones.
    pub fn schedule_tests(&self, nodeids: &Vec<String>, tests_index: &TestsIndex) -> (r: Result<
        Vec<TestBatch>,
        String,
    >)
        requires
            nodeids@.len() == 0 || self.config.worker_count >= 1,
            total_duration(self.items_of(views(nodeids@), tests_index.tests@)) <= u64::MAX,
        ensures
            r is Ok,
            nodeids@.len() == 0 ==> r->Ok_0@.len() == 0,
            nodeids@.len() > 0 ==> exists|s: Seq<ItemView>|
                items_sorted(s) && s.to_multiset() == self.items_of(
                    views(nodeids@),
                    tests_index.tests@,
                ).to_multiset() && batches_ok(
                    pack(
                        s,
                        self.config.worker_count as nat,
                        self.config.max_batch_duration_ms as nat,
                    ),
                    r->Ok_0@,
                ),
    {
        if nodeids.len() == 0 {
            return Ok(Vec::new());
        }
        let ghost items = self.items_of(views(nodeids@), tests_index.tests@);
        let mut sorted: Vec<ScheduledTest> = Vec::new();
        let mut i: usize = 0;
        proof {
            assert(scheduled_views(sorted@) =~= Seq::<ItemView>::empty());
            assert(items.subrange(0, 0) =~= Seq::<ItemView>::empty());
        }
        while i < nodeids.len()
            invariant
                i <= nodeids@.len(),
                items == self.items_of(views(nodeids@), tests_index.tests@),
                items_sorted(scheduled_views(sorted@)),
                scheduled_views(sorted@).to_multiset() == items.subrange(0, i as int).to_multiset(),
                total_duration(scheduled_views(sorted@)) == total_duration(items.subrange(0, i as int)),
            decreases nodeids@.len() - i,
        {
            let n = &nodeids[i];
            let timing = find_timing(&self.timings, n);
            let info = find_test(&tests_index.tests, n);
            let d: u64 = match timing {
                Some(k) => self.timings[k].duration_ms,
                None => match info {
                    Some(j) => estimate_test_duration(n.as_str(), Some(&tests_index.tests[j])),
                    None => estimate_test_duration(n.as_str(), None),
                },
            };
            let lf = crate::import_graph::contains_string(&self.last_failed, n);
            let stab: u32 = match timing {
                Some(k) => self.timings[k].stability_permille,
                None => 1000,
            };
            let score = self.calculate_priority_score(d, lf, stab);
            let item = ScheduledTest {
                nodeid: n.clone(),
                estimated_duration_ms: d,
                is_last_failed: lf,
                priority_score: score,
            };
            proof {
                assert(views(nodeids@)[i as int] == n@);
                assert(scheduled_view(item) == items[i as int]);
                assert(items.subrange(0, i + 1).drop_last() =~= items.subrange(0, i as int));
            }
            insert_sorted(&mut sorted, item);
            proof {
                assert(items.subrange(0, i + 1) =~= items.subrange(0, i as int).push(items[i as int]));
                vstd::seq_lib::to_multiset_build(items.subrange(0, i as int), items[i as int]);
            }
            i = i + 1;
        }
        assert(items.subrange(0, nodeids@.len() as int) =~= items);
        let batches = self.bin_pack_tests(sorted);
        Ok(batches)
    }

    /// Priority score in thousandths (see [`priority_spec`]).
    pub fn calculate_priority_score(&self, duration_ms: u64, is_last_failed: bool, stability_permille: u32) -> (s: i128)
        ensures
            s as int == priority_spec(
                self.config.strategy,
                duration_ms as nat,
                is_last_failed,
                stability_permille as nat,
            ),
    {
        let lf: i128 = if is_last_failed {
            1
        } else {
            0
        };
        let d = duration_ms as i128;
        let st = stability_permille as i128;
        match self.config.strategy {
            SchedulingStrategy::FailFirst => 1_000_000 * lf + (1000 - st) * 500 - d,
            SchedulingStrategy::Fastest => 1_000_000 - 10 * d + 100_000 * lf,
            SchedulingStrategy::Balanced => 500_000 * lf + (1000 - st) * 250 + 500_000 - 5 * d,
        }
    }

    fn bin_pack_tests(&self, items: Vec<ScheduledTest>) -> (r: Vec<TestBatch>)
        requires
            items@.len() == 0 || self.config.worker_count >= 1,
            total_duration(scheduled_views(items@)) <= u64::MAX,
        ensures
            batches_ok(
                pack(
                    scheduled_views(items@),
                    self.config.worker_count as nat,
                    self.config.max_batch_duration_ms as nat,
                ),
                r@,
            ),
    {
        let wc = self.config.worker_count;
        let max = self.config.max_batch_duration_ms;
        let ghost its = scheduled_views(items@);
        let mut ids: Vec<Vec<String>> = Vec::new();
        let mut loads: Vec<u64> = Vec::new();
        let mut lfs: Vec<bool> = Vec::new();
        let mut w: usize = 0;
        while w < wc
            invariant
                w <= wc,
                ids@.len() == w && loads@.len() == w && lfs@.len() == w,
                forall|k: int| 0 <= k < w ==> (#[trigger] ids@[k])@.len() == 0,
                forall|k: int| 0 <= k < w ==> #[trigger] loads@[k] == 0,
                forall|k: int| 0 <= k < w ==> !(#[trigger] lfs@[k]),
            decreases wc - w,
        {
            let e: Vec<String> = Vec::new();
            assert(e@.len() == 0);
            ids.push(e);
            loads.push(0);
            lfs.push(false);
            w = w + 1;
        }
        let ghost init = pack(its.subrange(0, 0), wc as nat, max as nat);
        proof {
            assert(its.subrange(0, 0) =~= Seq::<ItemView>::empty());
            assert(init.len() == wc);
            assert forall|k: int| 0 <= k < wc implies views(ids@[k]@) == init[k].ids by {
                assert(views(ids@[k]@) =~= Seq::<Seq<char>>::empty());
            }
        }
        let mut i: usize = 0;
        while i < items.len()
            invariant
                i <= items@.len(),
                its == scheduled_views(items@),
                items@.len() == 0 || wc >= 1,
                total_duration(its) <= u64::MAX,
                wc == self.config.worker_count,
                max == self.config.max_batch_duration_ms,
                ids@.len() == wc && loads@.len() == wc && lfs@.len() == wc,
                pack(its.subrange(0, i as int), wc as nat, max as nat).len() == wc,
                forall|k: int|
                    0 <= k < wc ==> {
                        let p = #[trigger] pack(its.subrange(0, i as int), wc as nat, max as nat)[k];
                        &&& views(ids@[k]@) == p.ids
                        &&& loads@[k] as nat == p.load
                        &&& lfs@[k] == p.last_failed
                        &&& p.load <= total_duration(its.subrange(0, i as int))
                    },
            decreases items@.len() - i,
        {
            let it = &items[i];
            let ghost ws = pack(its.subrange(0, i as int), wc as nat, max as nat);
            let k = best_worker_exec(&loads, it.estimated_duration_ms, max, Ghost(ws));
            proof {
                assert(its.subrange(0, i + 1).drop_last() =~= its.subrange(0, i as int));
                assert(its.subrange(0, i + 1).last() == its[i as int]);
                lemma_total_mono(its, i + 1);
                assert(ws[k as int].load <= total_duration(its.subrange(0, i as int)));
                assert(its[i as int].duration == it.estimated_duration_ms);
            }
            let ghost ids_before = ids@;
            let mut cur = ids.remove(k);
            cur.push(it.nodeid.clone());
            ids.insert(k, cur);
            let nl = loads[k] + it.estimated_duration_ms;
            loads.set(k, nl);
            let nf = lfs[k] || it.is_last_failed;
            lfs.set(k, nf);
            proof {
                let pre = its.subrange(0, i as int);
                let post = its.subrange(0, i + 1);
                assert(post.drop_last() =~= pre);
                assert(post.last() == its[i as int]);
                let np = pack(post, wc as nat, max as nat);
                assert forall|q: int| 0 <= q < wc implies {
                    let p = #[trigger] pack(its.subrange(0, i + 1), wc as nat, max as nat)[q];
                    &&& views(ids@[q]@) == p.ids
                    &&& loads@[q] as nat == p.load
                    &&& lfs@[q] == p.last_failed
                    &&& p.load <= total_duration(its.subrange(0, i + 1))
                } by {
                    if q == k {
                        assert(views(ids@[q]@) =~= ws[q].ids.push(it.nodeid@));
                    } else {
                        assert(ids@[q] == ids_before[q]);
                    }
                }
            }
            i = i + 1;
        }
        assert(its.subrange(0, items@.len() as int) =~= its);
        let ghost packed = pack(its, wc as nat, max as nat);
        let mut out: Vec<TestBatch> = Vec::new();
        let mut w: usize = wc;
        while w > 0
            invariant
                w <= wc,
                ids@.len() == w && loads@.len() == wc && lfs@.len() == wc,
                packed.len() == wc,
                forall|k: int|
                    0 <= k < w ==> views(#[trigger] ids@[k]@) == packed[k].ids,
                forall|k: int|
                    0 <= k < wc ==> loads@[k] as nat == #[trigger] packed[k].load && lfs@[k]
                        == packed[k].last_failed,
                forall|a: int, b: int|
                    0 <= a < b < out@.len() ==> batch_before(batch_view(out@[a]), batch_view(out@[b])),
                forall|a: int|
                    0 <= a < out@.len() ==> {
                        let b = batch_view(#[trigger] out@[a]);
                        &&& w <= b.worker_id < packed.len()
                        &&& b.ids.len() > 0
                        &&& b.ids == packed[b.worker_id as int].ids
                        &&& b.load == packed[b.worker_id as int].load
                        &&& b.last_failed == packed[b.worker_id as int].last_failed
                    },
                forall|q: int|
                    w <= q < packed.len() && packed[q].ids.len() > 0 ==> exists|a: int|
                        0 <= a < out@.len() && #[trigger] out@[a].worker_id == q,
            decreases w,
        {
            let v = ids.pop().unwrap();
            w = w - 1;
            assert(views(v@) == packed[w as int].ids);
            if v.len() > 0 {
                let b = TestBatch {
                    worker_id: w,
                    nodeids: v,
                    estimated_duration_ms: loads[w],
                    contains_last_failed: lfs[w],
                };
                let ghost bv = batch_view(b);
                let mut p: usize = 0;
                while p < out.len()
                    invariant
                        p <= out@.len(),
                        bv == batch_view(b),
                        b.worker_id == w,
                        forall|a: int| 0 <= a < out@.len() ==> (#[trigger] out@[a]).worker_id > w,
                        forall|a: int| 0 <= a < p ==> batch_before(batch_view(out@[a]), bv),
                    ensures
                        p < out@.len() ==> batch_before(bv, batch_view(out@[p as int])),
                    decreases out@.len() - p,
                {
                    if before_exec(&b, &out[p]) {
                        break;
                    }
                    p = p + 1;
                }
                let ghost old_out = out@;
                out.insert(p, b);
                proof {
                    assert(out@ == old_out.insert(p as int, b));
                    assert forall|a: int| 0 <= a < out@.len() implies {
                        let c = batch_view(#[trigger] out@[a]);
                        &&& w <= c.worker_id < packed.len()
                        &&& c.ids.len() > 0
                        &&& c.ids == packed[c.worker_id as int].ids
                        &&& c.load == packed[c.worker_id as int].load
                        &&& c.last_failed == packed[c.worker_id as int].last_failed
                    } by {
                        if a < p {
                            assert(out@[a] == old_out[a]);
                        } else if a > p {
                            assert(out@[a] == old_out[a - 1]);
                        } else {
                            assert(out@[a] == b);
                            assert(bv.ids == packed[w as int].ids);
                            assert(bv.load == packed[w as int].load);
                            assert(bv.last_failed == packed[w as int].last_failed);
                        }
                    }
                    assert forall|a: int, c: int| 0 <= a < c < out@.len() implies batch_before(
                        batch_view(out@[a]),
                        batch_view(out@[c]),
                    ) by {
                        if c < p {
                        } else if a < p && c == p {
                        } else if a < p {
                            assert(out@[c] == old_out[c - 1]);
                        } else if a == p {
                            assert(out@[c] == old_out[c - 1]);
                            if c - 1 > p {
                                assert(batch_before(batch_view(old_out[p as int]), batch_view(old_out[c - 1])));
                            }
                        } else {
                            assert(out@[a] == old_out[a - 1]);
                            assert(out@[c] == old_out[c - 1]);
                        }
                    }
                    assert forall|q: int|
                        w <= q < packed.len() && packed[q].ids.len() > 0 implies exists|a: int|
                            0 <= a < out@.len() && #[trigger] out@[a].worker_id == q by {
                        if q == w {
                            assert(out@[p as int].worker_id == q);
                        } else {
                            let a = choose|a: int| 0 <= a < old_out.len() && #[trigger] old_out[a].worker_id == q;
                            if a < p {
                                assert(out@[a].worker_id == q);
                            } else {
                                assert(out@[a + 1].worker_id == q);
                            }
                        }
                    }
                }
            } else {
                proof {
                    assert(views(v@).len() == 0);
                }
            }
        }
        out
    }
}

/// Number of tests in the batches.
pub open spec fn tests_in(bs: Seq<TestBatch>) -> nat
    decreases bs.len(),
{
    if bs.len() == 0 {
        0
    } else {
        tests_in(bs.drop_last()) + bs.last().nodeids@.len()
    }
}

/// Sum of the estimated durations of the batches.
pub open spec fn duration_of(bs: Seq<TestBatch>) -> nat
    decreases bs.len(),
{
    if bs.len() == 0 {
        0
    } else {
        duration_of(bs.drop_last()) + bs.last().estimated_duration_ms as nat
    }
}

/// Longest estimated batch duration, 0 without batches.
pub open spec fn max_duration(bs: Seq<TestBatch>) -> nat
    decreases bs.len(),
{
    if bs.len() == 0 {
        0
    } else {
        let m = max_duration(bs.drop_last());
        let d = bs.last().estimated_duration_ms as nat;
        if d > m {
            d
        } else {
            m
        }
    }
}

/// Shortest estimated batch duration, 0 without batches.
pub open spec fn min_duration(bs: Seq<TestBatch>) -> nat
    decreases bs.len(),
{
    if bs.len() == 0 {
        0
    } else if bs.len() == 1 {
        bs[0].estimated_duration_ms as nat
    } else {
        let m = min_duration(bs.drop_last());
        let d = bs.last().estimated_duration_ms as nat;
        if d < m {
            d
        } else {
            m
        }
    }
}

/// Number of batches holding a last-failed test.
pub open spec fn failed_batches(bs: Seq<TestBatch>) -> nat
    decreases bs.len(),
{
    if bs.len() == 0 {
        0
    } else {
        failed_batches(bs.drop_last()) + if bs.last().contains_last_failed {
            1nat
        } else {
            0nat
        }
    }
}

proof fn lemma_max_duration_bound(bs: Seq<TestBatch>)
    ensures
        max_duration(bs) <= duration_of(bs),
        min_duration(bs) <= max_duration(bs),
        failed_batches(bs) <= bs.len(),
    decreases bs.len(),
{
    if bs.len() > 0 {
        lemma_max_duration_bound(bs.drop_last());
        if bs.len() > 1 {
            assert(bs.drop_last()[0] == bs[0]);
        }
    }
}

impl TestScheduler {
    /// Totals over the batches; the load balance is the shortest over the
    /// longest batch in thousandths, rounded down (1000 when the longest is 0).
    pub fn get_scheduling_stats(&self, batches: &Vec<TestBatch>) -> (st: SchedulingStats)
        requires
            tests_in(batches@) <= usize::MAX,
            duration_of(batches@) <= u64::MAX,
        ensures
            st.total_tests == tests_in(batches@),
            st.total_workers == batches@.len(),
            st.total_estimated_duration_ms == duration_of(batches@),
            st.max_worker_duration_ms == max_duration(batches@),
            st.min_worker_duration_ms == min_duration(batches@),
            st.load_balance_permille == if max_duration(batches@) > 0 {
                min_duration(batches@) * 1000 / max_duration(batches@)
            } else {
                1000
            },
            st.batches_with_failed_tests == failed_batches(batches@),
    {
        let mut total_tests: usize = 0;
        let mut total: u64 = 0;
        let mut max: u64 = 0;
        let mut min: u64 = 0;
        let mut failed: usize = 0;
        let mut i: usize = 0;
        while i < batches.len()
            invariant
                i <= batches@.len(),
                tests_in(batches@) <= usize::MAX,
                duration_of(batches@) <= u64::MAX,
                total_tests == tests_in(batches@.subrange(0, i as int)),
                total == duration_of(batches@.subrange(0, i as int)),
                max == max_duration(batches@.subrange(0, i as int)),
                min == min_duration(batches@.subrange(0, i as int)),
                failed == failed_batches(batches@.subrange(0, i as int)),
                failed <= i,
            decreases batches@.len() - i,
        {
            let b = &batches[i];
            proof {
                let pre = batches@.subrange(0, i as int);
                let post = batches@.subrange(0, i + 1);
                assert(post.drop_last() =~= pre);
                lemma_prefix_sums(batches@, i + 1);
                if i > 0 {
                    assert(post[0] == pre[0]);
                }
            }
            total_tests = total_tests + b.nodeids.len();
            total = total + b.estimated_duration_ms;
            if b.estimated_duration_ms > max {
                max = b.estimated_duration_ms;
            }
            if i == 0 || b.estimated_duration_ms < min {
                min = b.estimated_duration_ms;
            }
            if b.contains_last_failed {
                failed = failed + 1;
            }
            i = i + 1;
        }
        assert(batches@.subrange(0, batches@.len() as int) =~= batches@);
        proof {
            lemma_max_duration_bound(batches@);
        }
        let balance: u64 = if max > 0 {
            let q: u128 = (min as u128) * 1000 / (max as u128);
            assert(q <= 1000) by (nonlinear_arith)
                requires
                    min <= max,
                    max > 0,
                    q == (min as int) * 1000 / (max as int),
            ;
            q as u64
        } else {
            1000
        };
        SchedulingStats {
            total_tests,
            total_workers: batches.len(),
            total_estimated_duration_ms: total,
            max_worker_duration_ms: max,
            min_worker_duration_ms: min,
            load_balance_permille: balance,
            batches_with_failed_tests: failed,
        }
    }
}

proof fn lemma_prefix_sums(bs: Seq<TestBatch>, j: int)
    requires
        0 <= j <= bs.len(),
    ensures
        tests_in(bs.subrange(0, j)) <= tests_in(bs),
        duration_of(bs.subrange(0, j)) <= duration_of(bs),
    decreases bs.len(),
{
    if j == bs.len() {
        assert(bs.subrange(0, j) =~= bs);
    } else {
        assert(bs.drop_last().subrange(0, j) =~= bs.subrange(0, j));
        lemma_prefix_sums(bs.drop_last(), j);
    }
}

/// Whether batch `a` goes before batch `b`.
fn before_exec(a: &TestBatch, b: &TestBatch) -> (r: bool)
    ensures
        r == batch_before(batch_view(*a), batch_view(*b)),
{
    (a.contains_last_failed && !b.contains_last_failed) || (a.contains_last_failed
        == b.contains_last_failed && (a.estimated_duration_ms < b.estimated_duration_ms || (
    a.estimated_duration_ms == b.estimated_duration_ms && a.worker_id < b.worker_id)))
}

/// The worker a test of duration `d` goes to (see [`best_worker`]).
fn best_worker_exec(loads: &Vec<u64>, d: u64, max: u64, Ghost(ws): Ghost<Seq<WorkerLoad>>) -> (k: usize)
    requires
        loads@.len() >= 1,
        ws.len() == loads@.len(),
        forall|q: int| 0 <= q < ws.len() ==> loads@[q] as nat == #[trigger] ws[q].load,
    ensures
        k < loads@.len(),
        k as int == best_worker(ws, d as nat, max as nat),
{
    let mut best: Option<usize> = None;
    let mut q: usize = 0;
    while q < loads.len()
        invariant
            q <= loads@.len(),
            ws.len() == loads@.len(),
            forall|z: int| 0 <= z < ws.len() ==> loads@[z] as nat == #[trigger] ws[z].load,
            best is None <==> min_fit(ws, d as nat, max as nat, q as int) < 0,
            best is Some ==> best->0 as int == min_fit(ws, d as nat, max as nat, q as int) && best->0 < q,
        decreases loads@.len() - q,
    {
        let fits = (loads[q] as u128) + (d as u128) <= max as u128;
        match best {
            Some(b) => {
                if fits && loads[q] < loads[b] {
                    best = Some(q);
                }
            },
            None => {
                if fits {
                    best = Some(q);
                }
            },
        }
        q = q + 1;
    }
    match best {
        Some(b) => b,
        None => {
            let mut m: usize = 0;
            let mut q: usize = 1;
            while q < loads.len()
                invariant
                    1 <= q <= loads@.len(),
                    ws.len() == loads@.len(),
                    forall|z: int| 0 <= z < ws.len() ==> loads@[z] as nat == #[trigger] ws[z].load,
                    m as int == min_any(ws, q as int),
                    m < q,
                decreases loads@.len() - q,
            {
                if loads[q] < loads[m] {
                    m = q;
                }
                q = q + 1;
            }
            m
        },
    }
}

/// Whether a test is already timed; its index.
fn find_timing(ts: &Vec<TestTiming>, n: &String) -> (r: Option<usize>)
    ensures
        r is None ==> first_timing(ts@, n@) is None,
        r is Some ==> r->0 < ts@.len() && first_timing(ts@, n@) == Some(ts@[r->0 as int]) && ts@[r->0 as int].nodeid@ == n@,
        r is Some ==> forall|k: int| 0 <= k < r->0 ==> ts@[k].nodeid@ != n@,
        r is None ==> forall|k: int| 0 <= k < ts@.len() ==> ts@[k].nodeid@ != n@,
{
    let mut i: usize = 0;
    assert(ts@.skip(0) =~= ts@);
    while i < ts.len()
        invariant
            i <= ts@.len(),
            first_timing(ts@, n@) == first_timing(ts@.skip(i as int), n@),
            forall|k: int| 0 <= k < i ==> ts@[k].nodeid@ != n@,
        decreases ts@.len() - i,
    {
        proof {
            assert(ts@.skip(i as int)[0] == ts@[i as int]);
            assert(ts@.skip(i as int).drop_first() =~= ts@.skip(i + 1));
        }
        if ts[i].nodeid == *n {
            return Some(i);
        }
        i = i + 1;
    }
    assert(ts@.skip(i as int) =~= Seq::<TestTiming>::empty());
    None
}

/// The index of the first test with node id `n`.
fn find_test(tests: &Vec<TestNode>, n: &String) -> (r: Option<usize>)
    ensures
        r is None ==> first_test(tests@, n@) is None,
        r is Some ==> r->0 < tests@.len() && first_test(tests@, n@) == Some(tests@[r->0 as int]),
{
    let mut i: usize = 0;
    assert(tests@.skip(0) =~= tests@);
    while i < tests.len()
        invariant
            i <= tests@.len(),
            first_test(tests@, n@) == first_test(tests@.skip(i as int), n@),
        decreases tests@.len() - i,
    {
        proof {
            assert(tests@.skip(i as int)[0] == tests@[i as int]);
            assert(tests@.skip(i as int).drop_first() =~= tests@.skip(i + 1));
        }
        if tests[i].nodeid == *n {
            return Some(i);
        }
        i = i + 1;
    }
    assert(tests@.skip(i as int) =~= Seq::<TestNode>::empty());
    None
}

/// The outcome named by a timing entry.
fn parse_outcome(s: &str) -> (o: TestOutcome)
    ensures
        o == outcome_of(s@),
{
    if crate::text::str_eq(s, "failed") {
        TestOutcome::Failed
    } else if crate::text::str_eq(s, "skipped") {
        TestOutcome::Skipped
    } else if crate::text::str_eq(s, "error") {
        TestOutcome::Error
    } else {
        TestOutcome::Passed
    }
}

/// Estimated duration of a test without history (see [`estimate_spec`]).
pub fn estimate_test_duration(nodeid: &str, test_info: Option<&TestNode>) -> (d: u64)
    ensures
        d as nat == estimate_spec(
            nodeid@,
            match test_info {
                Some(t) => Some(*t),
                None => None,
            },
        ),
{
    let v = crate::text::chars_of(nodeid);
    let mut d: u64 = if crate::text::str_contains(nodeid, "integration") || crate::text::str_contains(
        nodeid,
        "e2e",
    ) {
        1000
    } else if crate::text::str_contains(nodeid, "slow") || crate::text::str_contains(
        nodeid,
        "performance",
    ) {
        500
    } else {
        100
    };
    if crate::text::contains_char(v.as_slice(), '[') && crate::text::contains_char(v.as_slice(), ']') {
        d = d * 3 / 2;
    }
    match test_info {
        Some(t) => {
            let mut has_async = false;
            let mut i: usize = 0;
            while i < t.markers.len()
                invariant
                    i <= t.markers@.len(),
                    has_async <==> exists|k: int| 0 <= k < i && has_substr(#[trigger] t.markers@[k]@, "async"@),
                decreases t.markers@.len() - i,
            {
                if crate::text::str_contains(t.markers[i].as_str(), "async") {
                    has_async = true;
                }
                i = i + 1;
            }
            if has_async {
                d = d * 12 / 10;
            }
            if t.fixtures.len() > 3 {
                d = d * 13 / 10;
            }
        },
        None => {},
    }
    d
}

/// Inserts `item` after the items that may precede it.
fn insert_sorted(v: &mut Vec<ScheduledTest>, item: ScheduledTest)
    requires
        items_sorted(scheduled_views(old(v)@)),
    ensures
        items_sorted(scheduled_views(final(v)@)),
        scheduled_views(final(v)@).to_multiset() == scheduled_views(old(v)@).to_multiset().insert(
            scheduled_view(item),
        ),
        total_duration(scheduled_views(final(v)@)) == total_duration(scheduled_views(old(v)@))
            + item.estimated_duration_ms,
{
    let ghost iv = scheduled_view(item);
    let mut p: usize = 0;
    while p < v.len()
        invariant
            p <= v@.len(),
            iv == scheduled_view(item),
            forall|a: int| 0 <= a < p ==> item_le(scheduled_view(v@[a]), iv),
        ensures
            p < v@.len() ==> item_before(iv, scheduled_view(v@[p as int])),
        decreases v@.len() - p,
    {
        if item_before_exec(&item, &v[p]) {
            break;
        }
        p = p + 1;
    }
    let ghost old_v = scheduled_views(v@);
    v.insert(p, item);
    proof {
        let nv = scheduled_views(v@);
        assert(nv =~= old_v.insert(p as int, iv));
        vstd::seq_lib::to_multiset_insert(old_v, p as int, iv);
        lemma_total_insert(old_v, p as int, iv);
        if p < old_v.len() {
            lemma_item_total(iv, old_v[p as int]);
        }
        assert forall|a: int, c: int| 0 <= a < c < nv.len() implies item_le(nv[a], nv[c]) by {
            if c < p {
            } else if a < p && c == p {
            } else if a < p {
                assert(nv[c] == old_v[c - 1]);
            } else if a == p {
                assert(nv[c] == old_v[c - 1]);
                if c - 1 > p {
                    lemma_item_le_trans(iv, old_v[p as int], old_v[c - 1]);
                }
            } else {
                assert(nv[a] == old_v[a - 1]);
                assert(nv[c] == old_v[c - 1]);
            }
        }
    }
}

/// Whether `a` goes strictly before `b`.
fn item_before_exec(a: &ScheduledTest, b: &ScheduledTest) -> (r: bool)
    ensures
        r == item_before(scheduled_view(*a), scheduled_view(*b)),
{
    a.priority_score > b.priority_score || (a.priority_score == b.priority_score
        && crate::order::str_lt(a.nodeid.as_str(), b.nodeid.as_str()))
}


/// How `{:?}` writes a scheduling strategy.
pub open spec fn scheduling_strategy_text(s: SchedulingStrategy) -> Seq<char> {
    match s {
        SchedulingStrategy::Fastest => "Fastest"@,
        SchedulingStrategy::FailFirst => "FailFirst"@,
        SchedulingStrategy::Balanced => "Balanced"@,
    }
}

/// The lines for one worker's batch: its size and estimate (with a flame
/// when it holds a last-failed test), then up to three of its tests, or two
/// and how many more.
pub open spec fn batch_lines(b: TestBatch) -> Seq<Seq<char>> {
    let ids = views(b.nodeids@);
    seq![
        "  Worker "@ + decimal(b.worker_id as nat) + ": "@ + decimal(ids.len()) + " tests, "@
            + crate::sharder::seconds_text(b.estimated_duration_ms as nat) + "s estimated"@ + if b.contains_last_failed {
            " 🔥"@
        } else {
            Seq::empty()
        },
    ] + if ids.len() <= 3 {
        ids.map_values(|id: Seq<char>| "    - "@ + id)
    } else {
        ids.take(2).map_values(|id: Seq<char>| "    - "@ + id) + seq![
            "    ... and "@ + decimal((ids.len() - 2) as nat) + " more"@,
        ]
    }
}

pub open spec fn all_batch_lines(bs: Seq<TestBatch>) -> Seq<Seq<char>>
    decreases bs.len(),
{
    if bs.len() == 0 {
        Seq::empty()
    } else {
        all_batch_lines(bs.drop_last()) + batch_lines(bs.last())
    }
}

/// The lines of a schedule's explanation.
pub open spec fn schedule_explain_lines(
    strategy: SchedulingStrategy,
    bs: Seq<TestBatch>,
    st: SchedulingStats,
) -> Seq<Seq<char>> {
    seq![
        "Test Scheduling Plan:"@,
        "  Strategy: "@ + scheduling_strategy_text(strategy),
        "  Workers: "@ + decimal(st.total_workers as nat),
        "  Total tests: "@ + decimal(st.total_tests as nat),
        "  Estimated duration: "@ + crate::sharder::seconds_text(st.total_estimated_duration_ms as nat) + "s"@,
        "  Load balance ratio: "@ + tenths_text(st.load_balance_permille as nat) + "%"@,
    ] + (if st.batches_with_failed_tests > 0 {
        seq![
            "  ⚠️  "@ + decimal(st.batches_with_failed_tests as nat)
                + " workers have last-failed tests (prioritized)"@,
        ]
    } else {
        Seq::empty()
    }) + seq![""@, "Worker Distribution:"@] + all_batch_lines(bs)
}

fn push_batch_lines(out: &mut Vec<String>, b: &TestBatch)
    ensures
        views(final(out)@) == views(old(out)@) + batch_lines(*b),
{
    let ghost o = views(out@);
    let mut l = "  Worker ".to_owned();
    let a = crate::planner::decimal_string(b.worker_id as u128);
    l.append(a.as_str());
    l.append(": ");
    let c = crate::planner::decimal_string(b.nodeids.len() as u128);
    l.append(c.as_str());
    l.append(" tests, ");
    let d = crate::sharder::seconds_string(b.estimated_duration_ms);
    l.append(d.as_str());
    l.append("s estimated");
    if b.contains_last_failed {
        l.append(" 🔥");
    }
    let ghost lv = l@;
    out.push(l);
    let ghost o1 = views(out@);
    assert(o1 =~= o.push(lv));
    let ghost ids = views(b.nodeids@);
    let n = b.nodeids.len();
    let shown: usize = if n <= 3 {
        n
    } else {
        2
    };
    let mut j: usize = 0;
    while j < shown
        invariant
            j <= shown,
            shown <= n,
            n == b.nodeids@.len(),
            ids == views(b.nodeids@),
            views(out@) == o1 + ids.take(j as int).map_values(|id: Seq<char>| "    - "@ + id),
        decreases shown - j,
    {
        let mut t = "    - ".to_owned();
        t.append(b.nodeids[j].as_str());
        let ghost tv = t@;
        let ghost p = views(out@);
        out.push(t);
        assert(views(out@) =~= p.push(tv));
        assert(ids.take(j + 1).map_values(|id: Seq<char>| "    - "@ + id) =~= ids.take(j as int).map_values(
            |id: Seq<char>| "    - "@ + id,
        ).push("    - "@ + ids[j as int]));
        j = j + 1;
    }
    if n > 3 {
        let mut m = "    ... and ".to_owned();
        let k = crate::planner::decimal_string((n - 2) as u128);
        m.append(k.as_str());
        m.append(" more");
        let ghost mv = m@;
        let ghost p = views(out@);
        out.push(m);
        assert(views(out@) =~= p.push(mv));
    } else {
        assert(ids.take(n as int) =~= ids);
    }
    assert(views(out@) =~= o + batch_lines(*b));
}

impl TestScheduler {
    /// The explanation of a schedule, its lines joined by newlines (see
    /// [`schedule_explain_lines`]).
    pub fn format_explain(&self, batches: &Vec<TestBatch>, stats: &SchedulingStats) -> (r: String)
        ensures
            r@ == crate::text::join(schedule_explain_lines(self.config.strategy, batches@, *stats), "\n"@),
    {
        let mut out: Vec<String> = Vec::new();
        out.push("Test Scheduling Plan:".to_owned());
        let mut a = "  Strategy: ".to_owned();
        a.append(match self.config.strategy {
            SchedulingStrategy::Fastest => "Fastest",
            SchedulingStrategy::FailFirst => "FailFirst",
            SchedulingStrategy::Balanced => "Balanced",
        });
        let ghost av = a@;
        out.push(a);
        let mut b = "  Workers: ".to_owned();
        let bw = crate::planner::decimal_string(stats.total_workers as u128);
        b.append(bw.as_str());
        let ghost bv = b@;
        out.push(b);
        let mut c = "  Total tests: ".to_owned();
        let ct = crate::planner::decimal_string(stats.total_tests as u128);
        c.append(ct.as_str());
        let ghost cv = c@;
        out.push(c);
        let mut d = "  Estimated duration: ".to_owned();
        let ds = crate::sharder::seconds_string(stats.total_estimated_duration_ms);
        d.append(ds.as_str());
        d.append("s");
        let ghost dv = d@;
        out.push(d);
        let mut e = "  Load balance ratio: ".to_owned();
        let es = crate::planner::tenths_string(stats.load_balance_permille as u128);
        e.append(es.as_str());
        e.append("%");
        let ghost ev = e@;
        out.push(e);
        let ghost head = views(out@);
        assert(head =~= seq!["Test Scheduling Plan:"@, av, bv, cv, dv, ev]);
        if stats.batches_with_failed_tests > 0 {
            let mut f = "  ⚠️  ".to_owned();
            let fs = crate::planner::decimal_string(stats.batches_with_failed_tests as u128);
            f.append(fs.as_str());
            f.append(" workers have last-failed tests (prioritized)");
            let ghost fv = f@;
            out.push(f);
            assert(views(out@) =~= head.push(fv));
        }
        let ghost h2 = views(out@);
        out.push("".to_owned());
        out.push("Worker Distribution:".to_owned());
        let ghost base = views(out@);
        assert(base =~= h2 + seq![""@, "Worker Distribution:"@]);
        let mut i: usize = 0;
        assert(batches@.take(0) =~= Seq::<TestBatch>::empty());
        while i < batches.len()
            invariant
                i <= batches@.len(),
                views(out@) == base + all_batch_lines(batches@.take(i as int)),
            decreases batches@.len() - i,
        {
            push_batch_lines(&mut out, &batches[i]);
            assert(batches@.take(i + 1).drop_last() =~= batches@.take(i as int));
            assert(views(out@) =~= base + all_batch_lines(batches@.take(i + 1)));
            i = i + 1;
        }
        assert(batches@.take(batches@.len() as int) =~= batches@);
        assert(views(out@) =~= schedule_explain_lines(self.config.strategy, batches@, *stats));
        crate::text::join_strings(&out, "\n")
    }
}


/// All test ids held by the workers.
pub open spec fn ids_held(ws: Seq<WorkerLoad>) -> vstd::multiset::Multiset<Seq<char>>
    decreases ws.len(),
{
    if ws.len() == 0 {
        vstd::multiset::Multiset::empty()
    } else {
        ids_held(ws.drop_last()).add(ws.last().ids.to_multiset())
    }
}

/// The load of all workers together.
pub open spec fn load_held(ws: Seq<WorkerLoad>) -> nat
    decreases ws.len(),
{
    if ws.len() == 0 {
        0
    } else {
        load_held(ws.drop_last()) + ws.last().load
    }
}

/// The total duration of the items.
pub open spec fn duration_total(items: Seq<ItemView>) -> nat
    decreases items.len(),
{
    if items.len() == 0 {
        0
    } else {
        duration_total(items.drop_last()) + items.last().duration
    }
}

proof fn lemma_min_fit_range(ws: Seq<WorkerLoad>, d: nat, max: nat, n: int)
    requires
        0 <= n <= ws.len(),
    ensures
        -1 <= min_fit(ws, d, max, n) < n,
    decreases n,
{
    if n > 0 {
        lemma_min_fit_range(ws, d, max, n - 1);
    }
}

proof fn lemma_min_any_range(ws: Seq<WorkerLoad>, n: int)
    requires
        1 <= n <= ws.len(),
    ensures
        0 <= min_any(ws, n) < n,
    decreases n,
{
    if n > 1 {
        lemma_min_any_range(ws, n - 1);
    }
}

proof fn lemma_pack_len(items: Seq<ItemView>, wc: nat, max: nat)
    requires
        wc >= 1,
    ensures
        pack(items, wc, max).len() == wc,
    decreases items.len(),
{
    if items.len() > 0 {
        let ws = pack(items.drop_last(), wc, max);
        lemma_pack_len(items.drop_last(), wc, max);
        lemma_min_fit_range(ws, items.last().duration, max, ws.len() as int);
        lemma_min_any_range(ws, ws.len() as int);
    }
}

proof fn lemma_empty_workers(wc: nat)
    ensures
        ids_held(Seq::new(wc, |i: int| WorkerLoad { ids: Seq::empty(), load: 0, last_failed: false }))
            =~= vstd::multiset::Multiset::empty(),
        load_held(Seq::new(wc, |i: int| WorkerLoad { ids: Seq::empty(), load: 0, last_failed: false })) == 0,
    decreases wc,
{
    let ws = Seq::new(wc, |i: int| WorkerLoad { ids: Seq::empty(), load: 0, last_failed: false });
    if wc > 0 {
        lemma_empty_workers((wc - 1) as nat);
        assert(ws.drop_last() =~= Seq::new(
            (wc - 1) as nat,
            |i: int| WorkerLoad { ids: Seq::empty(), load: 0, last_failed: false },
        ));
        let e = ws.last().ids;
        vstd::seq_lib::to_multiset_len(e);
        vstd::multiset::lemma_multiset_empty_len(e.to_multiset());
    }
}

proof fn lemma_add_to_worker(ws: Seq<WorkerLoad>, k: int, w: WorkerLoad, id: Seq<char>, d: nat)
    requires
        0 <= k < ws.len(),
        w.ids == ws[k].ids.push(id),
        w.load == ws[k].load + d,
    ensures
        ids_held(ws.update(k, w)) =~= ids_held(ws).insert(id),
        load_held(ws.update(k, w)) == load_held(ws) + d,
    decreases ws.len(),
{
    let u = ws.update(k, w);
    vstd::seq_lib::to_multiset_build(ws[k].ids, id);
    if k == ws.len() - 1 {
        assert(u.drop_last() =~= ws.drop_last());
    } else {
        lemma_add_to_worker(ws.drop_last(), k, w, id, d);
        assert(u.drop_last() =~= ws.drop_last().update(k, w));
    }
}

/// Packing loses and duplicates no test: with at least one worker, the
/// workers together hold every scheduled test id exactly as often as it
/// was given, and their loads add up to the total duration.
pub proof fn lemma_pack_partition(items: Seq<ItemView>, wc: nat, max: nat)
    requires
        wc >= 1,
    ensures
        ids_held(pack(items, wc, max)) =~= items.map_values(|it: ItemView| it.nodeid).to_multiset(),
        load_held(pack(items, wc, max)) == duration_total(items),
    decreases items.len(),
{
    let f = |it: ItemView| it.nodeid;
    if items.len() == 0 {
        lemma_empty_workers(wc);
        let e = items.map_values(f);
        vstd::seq_lib::to_multiset_len(e);
        vstd::multiset::lemma_multiset_empty_len(e.to_multiset());
    } else {
        let ws = pack(items.drop_last(), wc, max);
        lemma_pack_partition(items.drop_last(), wc, max);
        lemma_pack_len(items.drop_last(), wc, max);
        let it = items.last();
        lemma_min_fit_range(ws, it.duration, max, ws.len() as int);
        lemma_min_any_range(ws, ws.len() as int);
        let k = best_worker(ws, it.duration, max);
        let w = WorkerLoad {
            ids: ws[k].ids.push(it.nodeid),
            load: ws[k].load + it.duration,
            last_failed: ws[k].last_failed || it.last_failed,
        };
        lemma_add_to_worker(ws, k, w, it.nodeid, it.duration);
        vstd::seq_lib::to_multiset_build(items.drop_last().map_values(f), it.nodeid);
        assert(items.drop_last().map_values(f).push(it.nodeid) =~= items.map_values(f));
    }
}


/// A test that failed last time outranks the same test had it passed: by
/// 1000 points under fail-first, 500 under balanced and 100 under fastest
/// (scores in thousandths of a point).
pub proof fn lemma_last_failed_bonus(strategy: SchedulingStrategy, duration_ms: nat, stability_permille: nat)
    ensures
        priority_spec(strategy, duration_ms, true, stability_permille) == priority_spec(
            strategy,
            duration_ms,
            false,
            stability_permille,
        ) + match strategy {
            SchedulingStrategy::FailFirst => 1_000_000int,
            SchedulingStrategy::Balanced => 500_000int,
            SchedulingStrategy::Fastest => 100_000int,
        },
        priority_spec(strategy, duration_ms, true, stability_permille) > priority_spec(
            strategy,
            duration_ms,
            false,
            stability_permille,
        ),
{
}

/// Of two tests alike but for their duration, the shorter one scores
/// higher, under every strategy.
pub proof fn lemma_shorter_scores_higher(
    strategy: SchedulingStrategy,
    d1: nat,
    d2: nat,
    last_failed: bool,
    stability_permille: nat,
)
    requires
        d1 < d2,
    ensures
        priority_spec(strategy, d1, last_failed, stability_permille) > priority_spec(
            strategy,
            d2,
            last_failed,
            stability_permille,
        ),
{
}

/// Of two tests alike but for their stability, the less stable one scores
/// higher under fail-first and balanced, and the same under fastest.
pub proof fn lemma_less_stable_scores_higher(
    strategy: SchedulingStrategy,
    duration_ms: nat,
    last_failed: bool,
    s1: nat,
    s2: nat,
)
    requires
        s1 < s2,
    ensures
        strategy != SchedulingStrategy::Fastest ==> priority_spec(strategy, duration_ms, last_failed, s1)
            > priority_spec(strategy, duration_ms, last_failed, s2),
        strategy == SchedulingStrategy::Fastest ==> priority_spec(strategy, duration_ms, last_failed, s1)
            == priority_spec(strategy, duration_ms, last_failed, s2),
{
}

} // verus!
