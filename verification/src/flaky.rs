//! Flaky test detection: retry bookkeeping, per-test run history and the
//! flaky score.  Scores and thresholds are in thousandths; times are Unix
//! seconds and durations milliseconds.  Running the test, sleeping between
//! attempts and reading or writing the database file are left to the
//! program.
use vstd::prelude::*;
use crate::order::views;
use crate::planner::{decimal, digit_char, tenths_text};
use crate::text::{has_substr, prefix_before};

verus! {

/// Settings for flaky test handling.
#[derive(Debug)]
pub struct FlakyConfig {
    /// Retries after a failure.
    pub retry_count: u32,
    /// Wait between attempts, in milliseconds.
    pub retry_delay_ms: u64,
    /// Whether failed tests are retried.
    pub auto_retry: bool,
    /// Score (in thousandths) from which a test counts as flaky.
    pub flaky_threshold_permille: u32,
    /// Runs needed before a test can count as flaky.
    pub min_runs_for_flaky: u32,
    /// Whether flaky tests fail the run.
    pub fail_on_flaky: bool,
    /// Where the history is kept.
    pub flaky_db_path: String,
}

impl FlakyConfig {
    /// One retry after a second, retries on, threshold 0.2, five runs
    /// before judging, flaky tests do not fail the run.
    pub fn default_config() -> (c: Self)
        ensures
            c.retry_count == 1,
            c.retry_delay_ms == 1000,
            c.auto_retry,
            c.flaky_threshold_permille == 200,
            c.min_runs_for_flaky == 5,
            !c.fail_on_flaky,
            c.flaky_db_path@ == ".veri/cache/flaky_tests.json"@,
    {
        FlakyConfig {
            retry_count: 1,
            retry_delay_ms: 1000,
            auto_retry: true,
            flaky_threshold_permille: 200,
            min_runs_for_flaky: 5,
            fail_on_flaky: false,
            flaky_db_path: ".veri/cache/flaky_tests.json".to_owned(),
        }
    }
}

impl Default for FlakyConfig {
    fn default() -> (c: Self)
        ensures
            c.retry_count == 1,
            c.retry_delay_ms == 1000,
            c.auto_retry,
            c.flaky_threshold_permille == 200,
            c.min_runs_for_flaky == 5,
            !c.fail_on_flaky,
            c.flaky_db_path@ == ".veri/cache/flaky_tests.json"@,
    {
        Self::default_config()
    }
}

/// One run of a test.
#[derive(Debug)]
pub struct TestRun {
    pub timestamp_secs: u64,
    pub passed: bool,
    pub duration_ms: u64,
    pub failure_reason: Option<String>,
    pub environment: Option<String>,
}

fn copy_opt(o: &Option<String>) -> (r: Option<String>)
    ensures
        r == *o,
{
    match o {
        Some(s) => Some(s.clone()),
        None => None,
    }
}

impl TestRun {
    /// A copy of the run.
    pub fn copy(&self) -> (r: Self)
        ensures
            r == *self,
    {
        TestRun {
            timestamp_secs: self.timestamp_secs,
            passed: self.passed,
            duration_ms: self.duration_ms,
            failure_reason: copy_opt(&self.failure_reason),
            environment: copy_opt(&self.environment),
        }
    }
}

/// The history of one test.  Recent runs come newest first.
#[derive(Debug)]
pub struct TestHistory {
    pub nodeid: String,
    pub recent_runs: Vec<TestRun>,
    pub total_runs: u32,
    pub total_failures: u32,
    pub flaky_score_permille: u64,
    pub is_flaky: bool,
    pub last_flaky_time: Option<u64>,
    pub consecutive_passes: u32,
}

/// The history as a value.
pub ghost struct HistoryView {
    pub nodeid: Seq<char>,
    pub recent_runs: Seq<TestRun>,
    pub total_runs: u32,
    pub total_failures: u32,
    pub flaky_score_permille: u64,
    pub is_flaky: bool,
    pub last_flaky_time: Option<u64>,
    pub consecutive_passes: u32,
}

pub open spec fn history_view(h: TestHistory) -> HistoryView {
    HistoryView {
        nodeid: h.nodeid@,
        recent_runs: h.recent_runs@,
        total_runs: h.total_runs,
        total_failures: h.total_failures,
        flaky_score_permille: h.flaky_score_permille,
        is_flaky: h.is_flaky,
        last_flaky_time: h.last_flaky_time,
        consecutive_passes: h.consecutive_passes,
    }
}

pub open spec fn histories_view(hs: Seq<TestHistory>) -> Seq<HistoryView> {
    hs.map_values(|h: TestHistory| history_view(h))
}

fn copy_runs(runs: &Vec<TestRun>) -> (r: Vec<TestRun>)
    ensures
        r@ == runs@,
{
    let mut r: Vec<TestRun> = Vec::new();
    let mut i: usize = 0;
    while i < runs.len()
        invariant
            i <= runs@.len(),
            r@ == runs@.take(i as int),
        decreases runs@.len() - i,
    {
        r.push(runs[i].copy());
        assert(r@ =~= runs@.take(i + 1));
        i = i + 1;
    }
    assert(runs@.take(runs@.len() as int) =~= runs@);
    r
}

impl TestHistory {
    /// A copy of the history.
    pub fn copy(&self) -> (r: Self)
        ensures
            history_view(r) == history_view(*self),
    {
        TestHistory {
            nodeid: self.nodeid.clone(),
            recent_runs: copy_runs(&self.recent_runs),
            total_runs: self.total_runs,
            total_failures: self.total_failures,
            flaky_score_permille: self.flaky_score_permille,
            is_flaky: self.is_flaky,
            last_flaky_time: self.last_flaky_time,
            consecutive_passes: self.consecutive_passes,
        }
    }
}

/// The stored histories, one per test.
#[derive(Debug)]
pub struct FlakyDatabase {
    pub test_history: Vec<TestHistory>,
    pub last_updated: u64,
    pub version: String,
}

/// No two histories are for the same test.
pub open spec fn ids_unique(hs: Seq<TestHistory>) -> bool {
    forall|i: int, j: int| 0 <= i < j < hs.len() ==> (#[trigger] hs[i]).nodeid@ != (#[trigger] hs[j]).nodeid@
}

/// The index of the history for `id`, if any.
pub open spec fn find_history(hs: Seq<TestHistory>, id: Seq<char>) -> Option<int> {
    if exists|i: int| 0 <= i < hs.len() && (#[trigger] hs[i]).nodeid@ == id {
        Some(choose|i: int| 0 <= i < hs.len() && (#[trigger] hs[i]).nodeid@ == id)
    } else {
        None
    }
}

/// The number of failed runs.
pub open spec fn fail_count(runs: Seq<TestRun>) -> nat
    decreases runs.len(),
{
    if runs.len() == 0 {
        0
    } else {
        fail_count(runs.drop_last()) + if runs.last().passed {
            0nat
        } else {
            1nat
        }
    }
}

/// Passes in a row at the end, starting from `prev`.
pub open spec fn passes_after(prev: nat, runs: Seq<TestRun>) -> nat
    decreases runs.len(),
{
    if runs.len() == 0 {
        prev
    } else if runs.last().passed {
        passes_after(prev, runs.drop_last()) + 1
    } else {
        0
    }
}

/// The runs newest first.
pub open spec fn newest_first(runs: Seq<TestRun>) -> Seq<TestRun>
    decreases runs.len(),
{
    if runs.len() == 0 {
        Seq::empty()
    } else {
        seq![runs.last()] + newest_first(runs.drop_last())
    }
}

/// The flaky score in thousandths, rounded down: 0.7 of the failure rate
/// over all runs plus 0.3 of the failure rate over the (at most 20) most
/// recent runs; 0 without runs.
pub open spec fn score_spec(total: nat, failures: nat, recent: Seq<TestRun>) -> nat {
    if total == 0 {
        0
    } else {
        let rc: nat = if recent.len() < 20 {
            recent.len()
        } else {
            20
        };
        let rf = fail_count(recent.take(rc as int));
        if rc == 0 {
            700 * failures / total
        } else {
            (700 * failures * rc + 300 * rf * total) / (total * rc)
        }
    }
}

/// The history of `id` after recording `runs` at time `now`, given the
/// history before (if any): the runs go in front of the recent runs (newest
/// first, at most 100 kept), the counters grow, and the score and flakiness
/// are judged afresh; a test judged flaky is stamped with `now`.
pub open spec fn recorded(
    config: FlakyConfig,
    prev: Option<HistoryView>,
    id: Seq<char>,
    runs: Seq<TestRun>,
    now: u64,
) -> HistoryView {
    let prev_recent = match prev {
        Some(h) => h.recent_runs,
        None => Seq::empty(),
    };
    let prev_total: nat = match prev {
        Some(h) => h.total_runs as nat,
        None => 0,
    };
    let prev_failures: nat = match prev {
        Some(h) => h.total_failures as nat,
        None => 0,
    };
    let prev_passes: nat = match prev {
        Some(h) => h.consecutive_passes as nat,
        None => 0,
    };
    let all = newest_first(runs) + prev_recent;
    let recent = if all.len() > 100 {
        all.take(100)
    } else {
        all
    };
    let total = prev_total + runs.len();
    let failures = prev_failures + fail_count(runs);
    let judged = total >= config.min_runs_for_flaky;
    let score: nat = if judged {
        score_spec(total, failures, recent)
    } else {
        0
    };
    let flaky = judged && total > 0 && score >= config.flaky_threshold_permille;
    HistoryView {
        nodeid: id,
        recent_runs: recent,
        total_runs: total as u32,
        total_failures: failures as u32,
        flaky_score_permille: score as u64,
        is_flaky: flaky,
        last_flaky_time: if flaky {
            Some(now)
        } else {
            None
        },
        consecutive_passes: passes_after(prev_passes, runs) as u32,
    }
}

proof fn lemma_fail_count_le(runs: Seq<TestRun>)
    ensures
        fail_count(runs) <= runs.len(),
    decreases runs.len(),
{
    if runs.len() > 0 {
        lemma_fail_count_le(runs.drop_last());
    }
}

proof fn lemma_passes_le(prev: nat, runs: Seq<TestRun>)
    ensures
        passes_after(prev, runs) <= prev + runs.len(),
    decreases runs.len(),
{
    if runs.len() > 0 {
        lemma_passes_le(prev, runs.drop_last());
    }
}

proof fn lemma_newest_first_len(runs: Seq<TestRun>)
    ensures
        newest_first(runs).len() == runs.len(),
    decreases runs.len(),
{
    if runs.len() > 0 {
        lemma_newest_first_len(runs.drop_last());
    }
}

/// The score of the spec, computed.
fn compute_score(total: u32, failures: u32, recent: &Vec<TestRun>) -> (s: u64)
    ensures
        s == score_spec(total as nat, failures as nat, recent@),
{
    if total == 0 {
        return 0;
    }
    let rc: usize = if recent.len() < 20 {
        recent.len()
    } else {
        20
    };
    let mut rf: u64 = 0;
    let mut i: usize = 0;
    assert(recent@.take(0) =~= Seq::<TestRun>::empty());
    while i < rc
        invariant
            i <= rc,
            rc <= recent@.len(),
            rf == fail_count(recent@.take(i as int)),
            rf <= i,
        decreases rc - i,
    {
        assert(recent@.take(i + 1).drop_last() =~= recent@.take(i as int));
        if !recent[i].passed {
            rf = rf + 1;
        }
        i = i + 1;
    }
    let t = total as u128;
    let f = failures as u128;
    if rc == 0 {
        let v = 700 * f / t;
        assert(v <= 700 * f) by (nonlinear_arith)
            requires
                v == 700 * f / (t as int),
                t > 0,
        ;
        v as u64
    } else {
        let c = rc as u128;
        let r = rf as u128;
        assert(f <= 4294967295 && t <= 4294967295 && c <= 20 && r <= c);
        assert(t * c > 0) by (nonlinear_arith)
            requires
                t > 0,
                c > 0,
        ;
        assert(t * c <= 20 * 4294967295) by (nonlinear_arith)
            requires
                t <= 4294967295,
                c <= 20,
        ;
        assert(700 * f * c <= 700 * 4294967295 * 20 && 300 * r * t <= 300 * 20 * 4294967295) by (nonlinear_arith)
            requires
                f <= 4294967295,
                t <= 4294967295,
                c <= 20,
                r <= c,
        ;
        let v = (700 * f * c + 300 * r * t) / (t * c);
        assert(v <= 700 * f * c + 300 * r * t) by (nonlinear_arith)
            requires
                v == (700 * f * c + 300 * r * t) / ((t * c) as int),
                t * c > 0,
        ;
        v as u64
    }
}


proof fn lemma_newest_first_index(runs: Seq<TestRun>)
    ensures
        newest_first(runs).len() == runs.len(),
        forall|j: int| 0 <= j < runs.len() ==> #[trigger] newest_first(runs)[j] == runs[runs.len() - 1 - j],
    decreases runs.len(),
{
    if runs.len() > 0 {
        lemma_newest_first_index(runs.drop_last());
        assert forall|j: int| 0 <= j < runs.len() implies #[trigger] newest_first(runs)[j] == runs[runs.len() - 1 - j] by {
            if j > 0 {
                assert(newest_first(runs)[j] == newest_first(runs.drop_last())[j - 1]);
            }
        }
    }
}

/// The histories after recording `runs` of `id` at `now` (see [`recorded`]):
/// the test's history is replaced, or added at the end.
pub open spec fn after_record(
    config: FlakyConfig,
    hs: Seq<TestHistory>,
    id: Seq<char>,
    runs: Seq<TestRun>,
    now: u64,
) -> Seq<HistoryView> {
    match find_history(hs, id) {
        Some(k) => histories_view(hs).update(k, recorded(config, Some(history_view(hs[k])), id, runs, now)),
        None => histories_view(hs).push(recorded(config, None, id, runs, now)),
    }
}

/// There is room in the counters of `id`'s history for `n` more runs.
pub open spec fn room_for(hs: Seq<TestHistory>, id: Seq<char>, n: nat) -> bool {
    match find_history(hs, id) {
        Some(k) => hs[k].total_runs + n <= u32::MAX && hs[k].total_failures + n <= u32::MAX
            && hs[k].consecutive_passes + n <= u32::MAX,
        None => n <= u32::MAX,
    }
}

/// Retries and history for flaky tests.
#[derive(Debug)]
pub struct FlakyManager {
    pub config: FlakyConfig,
    pub database: FlakyDatabase,
    pub database_path: String,
    pub modified: bool,
}

proof fn lemma_find_unique(hs: Seq<TestHistory>, id: Seq<char>, k: int)
    requires
        ids_unique(hs),
        0 <= k < hs.len(),
        hs[k].nodeid@ == id,
    ensures
        find_history(hs, id) == Some(k),
{
    let c = choose|i: int| 0 <= i < hs.len() && (#[trigger] hs[i]).nodeid@ == id;
    assert(0 <= c < hs.len() && hs[c].nodeid@ == id);
    if c < k {
        assert(hs[c].nodeid@ != hs[k].nodeid@);
    } else if c > k {
        assert(hs[k].nodeid@ != hs[c].nodeid@);
    }
}

fn find_index(hs: &Vec<TestHistory>, nodeid: &str) -> (r: Option<usize>)
    requires
        ids_unique(hs@),
    ensures
        match r {
            Some(k) => k < hs@.len() && find_history(hs@, nodeid@) == Some(k as int),
            None => find_history(hs@, nodeid@) is None,
        },
{
    let mut k: usize = 0;
    while k < hs.len()
        invariant
            k <= hs@.len(),
            ids_unique(hs@),
            forall|j: int| 0 <= j < k ==> (#[trigger] hs@[j]).nodeid@ != nodeid@,
        decreases hs@.len() - k,
    {
        if crate::text::str_eq(hs[k].nodeid.as_str(), nodeid) {
            proof {
                lemma_find_unique(hs@, nodeid@, k as int);
            }
            return Some(k);
        }
        k = k + 1;
    }
    None
}

/// `n` runs counted: failures and passes in a row at the end.
fn count_runs(runs: &Vec<TestRun>, prev_passes: u32) -> (r: (u32, u32))
    requires
        runs@.len() <= u32::MAX,
        prev_passes + runs@.len() <= u32::MAX,
    ensures
        r.0 == fail_count(runs@),
        r.1 == passes_after(prev_passes as nat, runs@),
{
    let mut f: u32 = 0;
    let mut p: u32 = prev_passes;
    let mut i: usize = 0;
    assert(runs@.take(0) =~= Seq::<TestRun>::empty());
    while i < runs.len()
        invariant
            i <= runs@.len(),
            runs@.len() <= u32::MAX,
            prev_passes + runs@.len() <= u32::MAX,
            f == fail_count(runs@.take(i as int)),
            p == passes_after(prev_passes as nat, runs@.take(i as int)),
            f <= i,
            p <= prev_passes + i,
        decreases runs@.len() - i,
    {
        assert(runs@.take(i + 1).drop_last() =~= runs@.take(i as int));
        if runs[i].passed {
            p = p + 1;
        } else {
            f = f + 1;
            p = 0;
        }
        i = i + 1;
    }
    assert(runs@.take(runs@.len() as int) =~= runs@);
    (f, p)
}

impl FlakyManager {
    /// Histories are kept one per test.
    pub open spec fn wf(&self) -> bool {
        ids_unique(self.database.test_history@)
    }

    /// A manager with an empty history.
    pub fn new(config: FlakyConfig) -> (m: Self)
        ensures
            m.wf(),
            m.database.test_history@.len() == 0,
            m.database.version@ == "1.0"@,
            m.database_path@ == config.flaky_db_path@,
            m.config == config,
            !m.modified,
    {
        let database_path = config.flaky_db_path.clone();
        FlakyManager {
            config,
            database: FlakyDatabase {
                test_history: Vec::new(),
                last_updated: crate::event_stream::unix_seconds(),
                version: "1.0".to_owned(),
            },
            database_path,
            modified: false,
        }
    }

    /// Whether the counters of `nodeid`'s history have room for `n` more
    /// runs (see [`room_for`]).
    pub fn can_record(&self, nodeid: &str, n: usize) -> (r: bool)
        requires
            self.wf(),
        ensures
            r == room_for(self.database.test_history@, nodeid@, n as nat),
    {
        match find_index(&self.database.test_history, nodeid) {
            Some(k) => {
                let h = &self.database.test_history[k];
                (h.total_runs as u128) + (n as u128) <= u32::MAX as u128 && (h.total_failures as u128) + (n as u128)
                    <= u32::MAX as u128 && (h.consecutive_passes as u128) + (n as u128) <= u32::MAX as u128
            },
            None => (n as u128) <= u32::MAX as u128,
        }
    }

    /// Records `runs` of `nodeid` (in the order they ran) at time `now`:
    /// its history becomes [`recorded`] from the one before, or is added
    /// when there was none.
    pub fn record_test_result_at(&mut self, nodeid: &str, runs: &Vec<TestRun>, now: u64) -> (r: Result<(), String>)
        requires
            old(self).wf(),
            room_for(old(self).database.test_history@, nodeid@, runs@.len()),
        ensures
            r is Ok,
            final(self).wf(),
            final(self).modified,
            final(self).config == old(self).config,
            final(self).database_path == old(self).database_path,
            final(self).database.last_updated == old(self).database.last_updated,
            final(self).database.version == old(self).database.version,
            histories_view(final(self).database.test_history@) == after_record(old(self).config, old(self).database.test_history@, nodeid@, runs@, now),
    {
        let found = find_index(&self.database.test_history, nodeid);
        let ghost prev: Option<HistoryView> = match found {
            Some(k) => Some(history_view(self.database.test_history@[k as int])),
            None => None,
        };
        let (prev_total, prev_failures, prev_passes) = match found {
            Some(k) => (
                self.database.test_history[k].total_runs,
                self.database.test_history[k].total_failures,
                self.database.test_history[k].consecutive_passes,
            ),
            None => (0u32, 0u32, 0u32),
        };
        let mut recent: Vec<TestRun> = Vec::new();
        let mut i: usize = runs.len();
        proof {
            lemma_newest_first_index(runs@);
        }
        while i > 0
            invariant
                i <= runs@.len(),
                recent@.len() == runs@.len() - i,
                forall|j: int| 0 <= j < recent@.len() ==> #[trigger] recent@[j] == runs@[runs@.len() - 1 - j],
            decreases i,
        {
            i = i - 1;
            recent.push(runs[i].copy());
        }
        assert(recent@ =~= newest_first(runs@));
        match found {
            Some(k) => {
                let more = copy_runs(&self.database.test_history[k].recent_runs);
                let mut j: usize = 0;
                let ghost base = recent@;
                while j < more.len()
                    invariant
                        j <= more@.len(),
                        recent@ == base + more@.take(j as int),
                    decreases more@.len() - j,
                {
                    recent.push(more[j].copy());
                    assert(recent@ =~= base + more@.take(j + 1));
                    j = j + 1;
                }
                assert(more@.take(more@.len() as int) =~= more@);
            },
            None => {
                assert(recent@ =~= newest_first(runs@) + Seq::<TestRun>::empty());
            },
        }
        let ghost all = recent@;
        assert(all == newest_first(runs@) + match prev {
            Some(h) => h.recent_runs,
            None => Seq::<TestRun>::empty(),
        });
        recent.truncate(100);
        assert(recent@ =~= (if all.len() > 100 {
            all.take(100)
        } else {
            all
        }));
        proof {
            lemma_fail_count_le(runs@);
        }
        let (fails, passes) = count_runs(runs, prev_passes);
        let total: u32 = prev_total + runs.len() as u32;
        let failures: u32 = prev_failures + fails;
        let judged = total >= self.config.min_runs_for_flaky;
        let score: u64 = if judged {
            compute_score(total, failures, &recent)
        } else {
            0
        };
        let flaky = judged && total > 0 && score >= self.config.flaky_threshold_permille as u64;
        let history = TestHistory {
            nodeid: nodeid.to_owned(),
            recent_runs: recent,
            total_runs: total,
            total_failures: failures,
            flaky_score_permille: score,
            is_flaky: flaky,
            last_flaky_time: if flaky {
                Some(now)
            } else {
                None
            },
            consecutive_passes: passes,
        };
        assert(history_view(history) == recorded(self.config, prev, nodeid@, runs@, now));
        let ghost old_hs = self.database.test_history@;
        match found {
            Some(k) => {
                let _ = self.database.test_history.remove(k);
                self.database.test_history.insert(k, history);
                assert(self.database.test_history@ == old_hs.update(k as int, history));
                assert(histories_view(self.database.test_history@) =~= histories_view(old_hs).update(
                    k as int,
                    history_view(history),
                ));
            },
            None => {
                self.database.test_history.push(history);
                assert(histories_view(self.database.test_history@) =~= histories_view(old_hs).push(
                    history_view(history),
                ));
            },
        }
        self.modified = true;
        Ok(())
    }
}


/// The ids of the flaky tests, in history order.
pub open spec fn flaky_ids(hs: Seq<TestHistory>) -> Seq<Seq<char>>
    decreases hs.len(),
{
    if hs.len() == 0 {
        Seq::empty()
    } else if hs.last().is_flaky {
        flaky_ids(hs.drop_last()).push(hs.last().nodeid@)
    } else {
        flaky_ids(hs.drop_last())
    }
}

/// Whether some attempt passed.
pub open spec fn any_passed(runs: Seq<TestRun>) -> bool {
    exists|i: int| 0 <= i < runs.len() && (#[trigger] runs[i]).passed
}

/// The failure reason of the last failed attempt, if any.
pub open spec fn last_failure_reason(runs: Seq<TestRun>) -> Option<String>
    decreases runs.len(),
{
    if runs.len() == 0 {
        None
    } else if !runs.last().passed {
        runs.last().failure_reason
    } else {
        last_failure_reason(runs.drop_last())
    }
}

/// The next step of the retry loop for one test.
#[derive(Debug, PartialEq, Eq, Structural)]
pub enum RetryStep {
    /// Wait `wait_ms` milliseconds, then make attempt number `attempt`
    /// (from 1).
    Run { attempt: u64, wait_ms: u64 },
    /// Stop: the test passed or the attempts are used up.
    Finish,
}

/// The outcome of running a test with retries.
#[derive(Debug)]
pub struct TestExecutionResult {
    pub passed: bool,
    pub attempts: u32,
    pub attempt_results: Vec<TestRun>,
    pub was_retried: bool,
    pub is_flaky: bool,
    pub failure_reason: Option<String>,
}

/// The history stays unless it was last run before `cutoff` and is not
/// flaky.
pub open spec fn stays(h: TestHistory, cutoff: u64) -> bool {
    !(h.recent_runs@.len() > 0 && h.recent_runs@[0].timestamp_secs < cutoff && !h.is_flaky)
}

/// The histories that stay, in order.
pub open spec fn kept(hs: Seq<TestHistory>, cutoff: u64) -> Seq<TestHistory>
    decreases hs.len(),
{
    if hs.len() == 0 {
        Seq::empty()
    } else if stays(hs.last(), cutoff) {
        kept(hs.drop_last(), cutoff).push(hs.last())
    } else {
        kept(hs.drop_last(), cutoff)
    }
}

proof fn lemma_kept_unique(hs: Seq<TestHistory>, cutoff: u64)
    requires
        ids_unique(hs),
    ensures
        ids_unique(kept(hs, cutoff)),
        kept(hs, cutoff).len() <= hs.len(),
        forall|i: int| 0 <= i < kept(hs, cutoff).len() ==> exists|j: int|
            0 <= j < hs.len() && #[trigger] kept(hs, cutoff)[i] == hs[j],
    decreases hs.len(),
{
    if hs.len() > 0 {
        let d = hs.drop_last();
        assert(ids_unique(d)) by {
            assert forall|i: int, j: int| 0 <= i < j < d.len() implies (#[trigger] d[i]).nodeid@ != (#[trigger] d[j]).nodeid@ by {
                assert(d[i] == hs[i] && d[j] == hs[j]);
            }
        }
        lemma_kept_unique(d, cutoff);
        let k = kept(d, cutoff);
        assert forall|i: int| 0 <= i < k.len() implies exists|j: int| 0 <= j < hs.len() && #[trigger] k[i] == hs[j] by {
            let j = choose|j: int| 0 <= j < d.len() && k[i] == d[j];
            assert(k[i] == hs[j]);
        }
        if stays(hs.last(), cutoff) {
            let k2 = k.push(hs.last());
            assert forall|i: int, j: int| 0 <= i < j < k2.len() implies (#[trigger] k2[i]).nodeid@ != (#[trigger] k2[j]).nodeid@ by {
                if j == k2.len() - 1 {
                    let m = choose|m: int| 0 <= m < d.len() && k[i] == d[m];
                    assert(hs[m].nodeid@ != hs[hs.len() - 1].nodeid@);
                } else {
                    assert(k2[i] == k[i] && k2[j] == k[j]);
                }
            }
            assert forall|i: int| 0 <= i < k2.len() implies exists|j: int| 0 <= j < hs.len() && #[trigger] k2[i] == hs[j] by {
                if i == k2.len() - 1 {
                    assert(k2[i] == hs[hs.len() - 1]);
                } else {
                    assert(k2[i] == k[i]);
                }
            }
        }
    }
}

impl FlakyManager {
    /// Attempts per test: one more than the retries when retrying is on,
    /// else one.
    pub fn max_attempts(&self) -> (r: u64)
        ensures
            r == if self.config.auto_retry {
                self.config.retry_count + 1
            } else {
                1
            },
    {
        if self.config.auto_retry {
            self.config.retry_count as u64 + 1
        } else {
            1
        }
    }

    /// Whether to run the test again after attempt number `attempt` (from
    /// 1): only after a failure that was not the last attempt.
    pub fn should_retry(&self, attempt: u64, passed: bool) -> (r: bool)
        ensures
            r == (!passed && attempt < if self.config.auto_retry {
                self.config.retry_count + 1
            } else {
                1
            }),
    {
        !passed && attempt < self.max_attempts()
    }

    /// What the retry loop does next, given the attempts made so far: it
    /// stops after a passing attempt or once the attempts are used up (see
    /// [`FlakyManager::max_attempts`]); otherwise it runs the next attempt,
    /// after waiting the retry delay when an attempt already failed.
    pub fn next_retry_step(&self, attempt_results: &Vec<TestRun>) -> (r: RetryStep)
        ensures
            ({
                let n = attempt_results@.len();
                let max: int = if self.config.auto_retry {
                    self.config.retry_count + 1
                } else {
                    1
                };
                if (n > 0 && attempt_results@.last().passed) || n >= max {
                    r is Finish
                } else {
                    r == RetryStep::Run {
                        attempt: (n + 1) as u64,
                        wait_ms: if n > 0 {
                            self.config.retry_delay_ms
                        } else {
                            0
                        },
                    }
                }
            }),
    {
        let n = attempt_results.len();
        if n > 0 && attempt_results[n - 1].passed {
            return RetryStep::Finish;
        }
        let max = self.max_attempts();
        if n as u64 >= max {
            return RetryStep::Finish;
        }
        RetryStep::Run {
            attempt: n as u64 + 1,
            wait_ms: if n > 0 {
                self.config.retry_delay_ms
            } else {
                0
            },
        }
    }

    /// Records the attempts at running `nodeid` (in order) at time `now` and
    /// reports the outcome: passed when some attempt passed, the failure
    /// reason of the last failed attempt when the test failed (none when it
    /// passed in the end), and whether the test now counts as flaky.
    pub fn finish_execution_at(&mut self, nodeid: &str, attempt_results: Vec<TestRun>, now: u64) -> (r: Result<
        TestExecutionResult,
        String,
    >)
        requires
            old(self).wf(),
            room_for(old(self).database.test_history@, nodeid@, attempt_results@.len()),
        ensures
            final(self).wf(),
            r matches Ok(e) && {
                &&& e.passed == any_passed(attempt_results@)
                &&& e.attempts == attempt_results@.len()
                &&& e.attempt_results@ == attempt_results@
                &&& e.was_retried == (attempt_results@.len() > 1)
                &&& e.failure_reason == if any_passed(attempt_results@) {
                    None
                } else {
                    last_failure_reason(attempt_results@)
                }
                &&& e.is_flaky == recorded(
                    old(self).config,
                    match find_history(old(self).database.test_history@, nodeid@) {
                        Some(k) => Some(history_view(old(self).database.test_history@[k])),
                        None => None,
                    },
                    nodeid@,
                    attempt_results@,
                    now,
                ).is_flaky
            },
            histories_view(final(self).database.test_history@) == after_record(old(self).config, old(self).database.test_history@, nodeid@, attempt_results@, now),
            final(self).modified,
            final(self).config == old(self).config,
    {
        let mut passed = false;
        let mut reason: Option<String> = None;
        let mut i: usize = 0;
        assert(attempt_results@.take(0) =~= Seq::<TestRun>::empty());
        while i < attempt_results.len()
            invariant
                i <= attempt_results@.len(),
                passed == any_passed(attempt_results@.take(i as int)),
                reason == last_failure_reason(attempt_results@.take(i as int)),
            decreases attempt_results@.len() - i,
        {
            let ghost t = attempt_results@.take(i + 1);
            assert(t.drop_last() =~= attempt_results@.take(i as int));
            if attempt_results[i].passed {
                passed = true;
                assert(t[i as int].passed);
            } else {
                reason = copy_opt(&attempt_results[i].failure_reason);
                assert forall|m: int| 0 <= m < i + 1 && (#[trigger] t[m]).passed implies m < i by {}
            }
            assert(any_passed(t) == (any_passed(attempt_results@.take(i as int)) || attempt_results@[i as int].passed)) by {
                if any_passed(t) {
                    let m = choose|m: int| 0 <= m < t.len() && (#[trigger] t[m]).passed;
                    if m < i {
                        assert(attempt_results@.take(i as int)[m] == t[m]);
                    }
                }
                if any_passed(attempt_results@.take(i as int)) {
                    let m = choose|m: int| 0 <= m < i && (#[trigger] attempt_results@.take(i as int)[m]).passed;
                    assert(t[m] == attempt_results@.take(i as int)[m]);
                }
            }
            i = i + 1;
        }
        assert(attempt_results@.take(attempt_results@.len() as int) =~= attempt_results@);
        let _ = self.record_test_result_at(nodeid, &attempt_results, now);
        let is_flaky = self.is_test_flaky(nodeid);
        let ghost id = nodeid@;
        proof {
            let hs = self.database.test_history@;
            let old_hs = old(self).database.test_history@;
            assert(histories_view(hs).len() == hs.len());
            match find_history(old_hs, id) {
                Some(k) => {
                    assert(histories_view(hs)[k].nodeid == id);
                    assert(histories_view(hs)[k] == history_view(hs[k]));
                    assert(hs[k].nodeid@ == id);
                    lemma_find_unique(hs, id, k);
                    assert(history_view(hs[k]) == histories_view(hs)[k]);
                },
                None => {
                    assert(histories_view(hs).len() == histories_view(old_hs).len() + 1);
                    let k = hs.len() - 1;
                    assert(histories_view(hs)[k].nodeid == id);
                    assert(histories_view(hs)[k] == history_view(hs[k]));
                    assert(hs[k].nodeid@ == id);
                    lemma_find_unique(hs, id, k);
                    assert(history_view(hs[k]) == histories_view(hs)[k]);
                },
            }
        }
        let n = attempt_results.len() as u32;
        let failure_reason = if passed {
            None
        } else {
            reason
        };
        Ok(TestExecutionResult {
            passed,
            attempts: n,
            was_retried: attempt_results.len() > 1,
            attempt_results,
            is_flaky,
            failure_reason,
        })
    }

    /// Like [`FlakyManager::finish_execution_at`], stamped with the current
    /// time; what holds for every time is stated.
    pub fn finish_execution(&mut self, nodeid: &str, attempt_results: Vec<TestRun>) -> (r: Result<
        TestExecutionResult,
        String,
    >)
        requires
            old(self).wf(),
            room_for(old(self).database.test_history@, nodeid@, attempt_results@.len()),
        ensures
            final(self).wf(),
            r matches Ok(e) && {
                &&& e.passed == any_passed(attempt_results@)
                &&& e.attempts == attempt_results@.len()
                &&& e.attempt_results@ == attempt_results@
                &&& e.was_retried == (attempt_results@.len() > 1)
                &&& e.failure_reason == if any_passed(attempt_results@) {
                    None
                } else {
                    last_failure_reason(attempt_results@)
                }
            },
            exists|now: u64|
                histories_view(final(self).database.test_history@) == #[trigger] after_record(old(self).config, old(self).database.test_history@, nodeid@, attempt_results@, now),
    {
        let now = crate::event_stream::unix_seconds();
        self.finish_execution_at(nodeid, attempt_results, now)
    }

    /// Whether the test is marked flaky (false when it has no history).
    pub fn is_test_flaky(&self, nodeid: &str) -> (r: bool)
        requires
            self.wf(),
        ensures
            r == match find_history(self.database.test_history@, nodeid@) {
                Some(k) => self.database.test_history@[k].is_flaky,
                None => false,
            },
    {
        match find_index(&self.database.test_history, nodeid) {
            Some(k) => self.database.test_history[k].is_flaky,
            None => false,
        }
    }

    /// The test's flaky score in thousandths (0 when it has no history).
    pub fn get_flaky_score(&self, nodeid: &str) -> (r: u64)
        requires
            self.wf(),
        ensures
            r == match find_history(self.database.test_history@, nodeid@) {
                Some(k) => self.database.test_history@[k].flaky_score_permille,
                None => 0,
            },
    {
        match find_index(&self.database.test_history, nodeid) {
            Some(k) => self.database.test_history[k].flaky_score_permille,
            None => 0,
        }
    }

    /// The ids of the tests marked flaky.
    pub fn get_flaky_tests(&self) -> (r: Vec<String>)
        ensures
            views(r@) == flaky_ids(self.database.test_history@),
    {
        let hs = &self.database.test_history;
        let mut r: Vec<String> = Vec::new();
        let mut i: usize = 0;
        assert(hs@.take(0) =~= Seq::<TestHistory>::empty());
        while i < hs.len()
            invariant
                i <= hs@.len(),
                views(r@) == flaky_ids(hs@.take(i as int)),
            decreases hs@.len() - i,
        {
            assert(hs@.take(i + 1).drop_last() =~= hs@.take(i as int));
            if hs[i].is_flaky {
                let ghost r0 = views(r@);
                let id = hs[i].nodeid.clone();
                r.push(id);
                assert(views(r@) =~= r0.push(id@));
            }
            i = i + 1;
        }
        assert(hs@.take(hs@.len() as int) =~= hs@);
        r
    }

    /// Drops the histories of tests last run more than 30 days before `now`
    /// that are not flaky; the manager counts as modified when any went.
    pub fn cleanup_old_entries(&mut self, now: u64)
        requires
            old(self).wf(),
            now >= 2_592_000,
        ensures
            final(self).wf(),
            final(self).database.test_history@ == kept(old(self).database.test_history@, (now - 2_592_000) as u64),
            final(self).modified == (old(self).modified || kept(
                old(self).database.test_history@,
                (now - 2_592_000) as u64,
            ).len() < old(self).database.test_history@.len()),
            final(self).config == old(self).config,
            final(self).database_path == old(self).database_path,
            final(self).database.last_updated == old(self).database.last_updated,
            final(self).database.version == old(self).database.version,
    {
        let cutoff: u64 = now - 2_592_000;
        let mut old_hs: Vec<TestHistory> = Vec::new();
        std::mem::swap(&mut old_hs, &mut self.database.test_history);
        let ghost hs = old_hs@;
        let mut result: Vec<TestHistory> = Vec::new();
        let mut removed = false;
        let n = old_hs.len();
        let mut i: usize = 0;
        assert(hs.take(0) =~= Seq::<TestHistory>::empty());
        while old_hs.len() > 0
            invariant
                i + old_hs@.len() == n,
                n == hs.len(),
                old_hs@ == hs.skip(i as int),
                result@ == kept(hs.take(i as int), cutoff),
                removed == (kept(hs.take(i as int), cutoff).len() < i),
            decreases old_hs@.len(),
        {
            let h = old_hs.remove(0);
            assert(h == hs[i as int]);
            assert(hs.take(i + 1).drop_last() =~= hs.take(i as int));
            assert(old_hs@ =~= hs.skip(i + 1));
            proof {
                lemma_kept_unique_len(hs.take(i as int), cutoff);
            }
            let stay = !(h.recent_runs.len() > 0 && h.recent_runs[0].timestamp_secs < cutoff && !h.is_flaky);
            if stay {
                result.push(h);
            } else {
                removed = true;
            }
            i = i + 1;
        }
        assert(hs.take(n as int) =~= hs);
        proof {
            lemma_kept_unique(hs, cutoff);
        }
        self.database.test_history = result;
        if removed {
            self.modified = true;
        }
    }

    /// Takes the history read from disk (a fresh one when there was none)
    /// and drops stale entries as of `now`.
    pub fn load_database(&mut self, loaded: Option<FlakyDatabase>, now: u64)
        requires
            now >= 2_592_000,
            match loaded {
                Some(db) => ids_unique(db.test_history@),
                None => true,
            },
        ensures
            final(self).wf(),
            final(self).config == old(self).config,
            final(self).database_path == old(self).database_path,
            match loaded {
                Some(db) => {
                    &&& final(self).database.test_history@ == kept(db.test_history@, (now - 2_592_000) as u64)
                    &&& final(self).database.last_updated == db.last_updated
                    &&& final(self).database.version == db.version
                    &&& final(self).modified == (old(self).modified || kept(
                        db.test_history@,
                        (now - 2_592_000) as u64,
                    ).len() < db.test_history@.len())
                },
                None => {
                    &&& final(self).database.test_history@.len() == 0
                    &&& final(self).database.last_updated == now
                    &&& final(self).database.version@ == "1.0"@
                    &&& final(self).modified == old(self).modified
                },
            },
    {
        match loaded {
            Some(db) => {
                self.database = db;
            },
            None => {
                self.database = FlakyDatabase { test_history: Vec::new(), last_updated: now, version: "1.0".to_owned() };
            },
        }
        self.cleanup_old_entries(now);
    }

    /// Notes that the history was written at `now`.
    pub fn mark_saved(&mut self, now: u64)
        ensures
            !final(self).modified,
            final(self).database.last_updated == now,
            final(self).database.test_history@ == old(self).database.test_history@,
            final(self).config == old(self).config,
    {
        self.database.last_updated = now;
        self.modified = false;
    }
}

proof fn lemma_kept_unique_len(hs: Seq<TestHistory>, cutoff: u64)
    ensures
        kept(hs, cutoff).len() <= hs.len(),
    decreases hs.len(),
{
    if hs.len() > 0 {
        lemma_kept_unique_len(hs.drop_last(), cutoff);
    }
}


impl FlakyManager {
    /// Records `runs` of `nodeid`, stamped with the current time; what holds
    /// for every time is stated.
    pub fn record_test_result(&mut self, nodeid: &str, runs: &Vec<TestRun>) -> (r: Result<(), String>)
        requires
            old(self).wf(),
            room_for(old(self).database.test_history@, nodeid@, runs@.len()),
        ensures
            r is Ok,
            final(self).wf(),
            final(self).modified,
            final(self).config == old(self).config,
            exists|now: u64|
                histories_view(final(self).database.test_history@) == #[trigger] after_record(
                    old(self).config,
                    old(self).database.test_history@,
                    nodeid@,
                    runs@,
                    now,
                ),
    {
        let now = crate::event_stream::unix_seconds();
        self.record_test_result_at(nodeid, runs, now)
    }
}

/// Some recent failure mentions a timeout or timing.
pub open spec fn timing_related(h: HistoryView) -> bool {
    exists|i: int|
        0 <= i < h.recent_runs.len() && match #[trigger] h.recent_runs[i].failure_reason {
            Some(r) => has_substr(r@, "timeout"@) || has_substr(r@, "timing"@),
            None => false,
        }
}

/// The flaky histories, in order.
pub open spec fn flaky_views(hs: Seq<HistoryView>) -> Seq<HistoryView>
    decreases hs.len(),
{
    if hs.len() == 0 {
        Seq::empty()
    } else if hs.last().is_flaky {
        flaky_views(hs.drop_last()).push(hs.last())
    } else {
        flaky_views(hs.drop_last())
    }
}

pub open spec fn count_timing(hs: Seq<HistoryView>) -> nat
    decreases hs.len(),
{
    if hs.len() == 0 {
        0
    } else {
        count_timing(hs.drop_last()) + if timing_related(hs.last()) {
            1nat
        } else {
            0nat
        }
    }
}

pub open spec fn count_unstable(hs: Seq<HistoryView>) -> nat
    decreases hs.len(),
{
    if hs.len() == 0 {
        0
    } else {
        count_unstable(hs.drop_last()) + if hs.last().flaky_score_permille > 500 {
            1nat
        } else {
            0nat
        }
    }
}

pub open spec fn score_sum(hs: Seq<HistoryView>) -> nat
    decreases hs.len(),
{
    if hs.len() == 0 {
        0
    } else {
        score_sum(hs.drop_last()) + (hs.last().flaky_score_permille as nat)
    }
}

/// The advice for the given flaky tests.
pub open spec fn recommendations_spec(flaky: Seq<HistoryView>) -> Seq<Seq<char>> {
    if flaky.len() == 0 {
        seq!["✅ No flaky tests detected in your test suite!"@]
    } else {
        let t = count_timing(flaky);
        let u = count_unstable(flaky);
        seq!["🔍 Found "@ + decimal(flaky.len()) + " flaky test(s) that may need attention"@] + (if t > 0 {
            seq![
                "⏱️  "@ + decimal(t) + " test(s) appear to be timing-related - consider adding timeouts or sleeps"@,
            ]
        } else {
            Seq::empty()
        }) + (if u > 0 {
            seq![
                "🚨 "@ + decimal(u)
                    + " test(s) are highly unstable (>50% failure rate) - prioritize fixing these"@,
            ]
        } else {
            Seq::empty()
        }) + seq![
            "💡 Consider implementing test isolation, fixing race conditions, or mocking external dependencies"@,
            "📖 More info: https://docs.veri.dev/troubleshooting#flaky-tests"@,
        ]
    }
}

/// A report on the flaky tests; the share of flaky tests and the average
/// score are in thousandths, rounded down.
#[derive(Debug)]
pub struct FlakyReport {
    pub total_tests: usize,
    pub total_flaky: usize,
    pub flaky_permille: u64,
    pub avg_flaky_score_permille: u64,
    pub flaky_tests: Vec<TestHistory>,
    pub recommendations: Vec<String>,
}

fn is_timing_related(h: &TestHistory) -> (r: bool)
    ensures
        r == timing_related(history_view(*h)),
{
    let mut i: usize = 0;
    while i < h.recent_runs.len()
        invariant
            i <= h.recent_runs@.len(),
            forall|j: int|
                0 <= j < i ==> match #[trigger] h.recent_runs@[j].failure_reason {
                    Some(r) => !(has_substr(r@, "timeout"@) || has_substr(r@, "timing"@)),
                    None => true,
                },
        decreases h.recent_runs@.len() - i,
    {
        match &h.recent_runs[i].failure_reason {
            Some(r) => {
                if crate::text::str_contains(r.as_str(), "timeout") || crate::text::str_contains(
                    r.as_str(),
                    "timing",
                ) {
                    assert(history_view(*h).recent_runs[i as int] == h.recent_runs@[i as int]);
                    return true;
                }
            },
            None => {},
        }
        i = i + 1;
    }
    false
}

/// The advice for the given flaky tests (see [`recommendations_spec`]).
pub fn generate_recommendations(flaky_tests: &Vec<TestHistory>) -> (r: Vec<String>)
    ensures
        views(r@) == recommendations_spec(histories_view(flaky_tests@)),
{
    let mut r: Vec<String> = Vec::new();
    if flaky_tests.len() == 0 {
        r.push("✅ No flaky tests detected in your test suite!".to_owned());
        assert(views(r@) =~= recommendations_spec(histories_view(flaky_tests@)));
        return r;
    }
    let ghost hv = histories_view(flaky_tests@);
    let mut t: usize = 0;
    let mut u: usize = 0;
    let mut i: usize = 0;
    assert(hv.take(0) =~= Seq::<HistoryView>::empty());
    while i < flaky_tests.len()
        invariant
            i <= flaky_tests@.len(),
            hv == histories_view(flaky_tests@),
            t == count_timing(hv.take(i as int)),
            u == count_unstable(hv.take(i as int)),
            t <= i && u <= i,
        decreases flaky_tests@.len() - i,
    {
        assert(hv.take(i + 1).drop_last() =~= hv.take(i as int));
        assert(hv.take(i + 1).last() == history_view(flaky_tests@[i as int]));
        if is_timing_related(&flaky_tests[i]) {
            t = t + 1;
        }
        if flaky_tests[i].flaky_score_permille > 500 {
            u = u + 1;
        }
        i = i + 1;
    }
    assert(hv.take(flaky_tests@.len() as int) =~= hv);
    let mut a = "🔍 Found ".to_owned();
    let n = crate::planner::decimal_string(flaky_tests.len() as u128);
    a.append(n.as_str());
    a.append(" flaky test(s) that may need attention");
    r.push(a);
    let ghost r1 = views(r@);
    if t > 0 {
        let mut b = "⏱️  ".to_owned();
        let d = crate::planner::decimal_string(t as u128);
        b.append(d.as_str());
        b.append(" test(s) appear to be timing-related - consider adding timeouts or sleeps");
        r.push(b);
    }
    let ghost r2 = views(r@);
    if u > 0 {
        let mut c = "🚨 ".to_owned();
        let d = crate::planner::decimal_string(u as u128);
        c.append(d.as_str());
        c.append(" test(s) are highly unstable (>50% failure rate) - prioritize fixing these");
        r.push(c);
    }
    let ghost r3 = views(r@);
    r.push("💡 Consider implementing test isolation, fixing race conditions, or mocking external dependencies".to_owned());
    r.push("📖 More info: https://docs.veri.dev/troubleshooting#flaky-tests".to_owned());
    assert(views(r@) =~= recommendations_spec(hv));
    r
}

impl FlakyManager {
    /// A report over all histories: how many tests are tracked and flaky,
    /// their share and average score, copies of the flaky histories and the
    /// advice.
    pub fn generate_report(&self) -> (rep: FlakyReport)
        ensures
            rep.total_tests == self.database.test_history@.len(),
            histories_view(rep.flaky_tests@) == flaky_views(histories_view(self.database.test_history@)),
            rep.total_flaky == rep.flaky_tests@.len(),
            rep.flaky_permille == if rep.total_tests > 0 {
                rep.total_flaky * 1000 / (rep.total_tests as int)
            } else {
                0
            },
            rep.avg_flaky_score_permille == if rep.total_flaky > 0 {
                score_sum(histories_view(rep.flaky_tests@)) / (rep.total_flaky as nat)
            } else {
                0
            },
            views(rep.recommendations@) == recommendations_spec(histories_view(rep.flaky_tests@)),
    {
        let hs = &self.database.test_history;
        let ghost hv = histories_view(hs@);
        let mut flaky: Vec<TestHistory> = Vec::new();
        let mut sum: u128 = 0;
        let mut i: usize = 0;
        assert(hv.take(0) =~= Seq::<HistoryView>::empty());
        while i < hs.len()
            invariant
                i <= hs@.len(),
                hv == histories_view(hs@),
                histories_view(flaky@) == flaky_views(hv.take(i as int)),
                sum == score_sum(flaky_views(hv.take(i as int))),
                flaky@.len() <= i,
                sum <= flaky@.len() * (u64::MAX as nat),
            decreases hs@.len() - i,
        {
            assert(hv.take(i + 1).drop_last() =~= hv.take(i as int));
            assert(hv.take(i + 1).last() == history_view(hs@[i as int]));
            if hs[i].is_flaky {
                let ghost f0 = histories_view(flaky@);
                let c = hs[i].copy();
                sum = sum + c.flaky_score_permille as u128;
                flaky.push(c);
                assert(histories_view(flaky@) =~= f0.push(history_view(c)));
                assert(f0.push(history_view(c)).drop_last() =~= f0);
                assert(score_sum(f0.push(history_view(c))) == score_sum(f0) + c.flaky_score_permille);
                assert(sum <= flaky@.len() * (u64::MAX as nat)) by (nonlinear_arith)
                    requires
                        sum <= (flaky@.len() - 1) * (u64::MAX as nat) + (u64::MAX as nat),
                ;
            }
            i = i + 1;
        }
        assert(hv.take(hs@.len() as int) =~= hv);
        let total = hs.len();
        let nf = flaky.len();
        let share: u64 = if total > 0 {
            let v = (nf as u128) * 1000 / (total as u128);
            assert(v <= 1000) by (nonlinear_arith)
                requires
                    v == (nf as int) * 1000 / (total as int),
                    nf <= total,
                    total > 0,
            ;
            v as u64
        } else {
            0
        };
        let avg: u64 = if nf > 0 {
            let v = sum / (nf as u128);
            assert(v <= u64::MAX) by (nonlinear_arith)
                requires
                    (v as int) == (sum as int) / (nf as int),
                    sum <= nf * (u64::MAX as nat),
                    nf > 0,
            ;
            v as u64
        } else {
            0
        };
        let recommendations = generate_recommendations(&flaky);
        FlakyReport {
            total_tests: total,
            total_flaky: nf,
            flaky_permille: share,
            avg_flaky_score_permille: avg,
            flaky_tests: flaky,
            recommendations,
        }
    }
}


/// Thousandths with two decimals, rounded down: 666 as `0.66`.
pub open spec fn hundredths_text(p: nat) -> Seq<char> {
    decimal(p / 1000) + "."@ + seq![digit_char((p / 100) % 10), digit_char((p / 10) % 10)]
}

fn hundredths_string(p: u64) -> (r: String)
    ensures
        r@ == hundredths_text(p as nat),
{
    let mut r = crate::planner::decimal_string((p / 1000) as u128);
    r.append(".");
    crate::text::push_char(&mut r, crate::planner::digit(((p / 100) % 10) as u128));
    crate::text::push_char(&mut r, crate::planner::digit(((p / 10) % 10) as u128));
    r
}

/// `x` inserted after every history whose score is not lower.
pub open spec fn insert_by_score(s: Seq<HistoryView>, x: HistoryView) -> Seq<HistoryView>
    decreases s.len(),
{
    if s.len() == 0 {
        seq![x]
    } else if x.flaky_score_permille > s[0].flaky_score_permille {
        seq![x] + s
    } else {
        seq![s[0]] + insert_by_score(s.drop_first(), x)
    }
}

/// The histories by score, highest first; equal scores keep their order.
pub open spec fn by_score(hs: Seq<HistoryView>) -> Seq<HistoryView>
    decreases hs.len(),
{
    if hs.len() == 0 {
        Seq::empty()
    } else {
        insert_by_score(by_score(hs.drop_last()), hs.last())
    }
}

/// The first failed run, newest first.
pub open spec fn first_failed(runs: Seq<TestRun>) -> Option<TestRun>
    decreases runs.len(),
{
    if runs.len() == 0 {
        None
    } else if !runs[0].passed {
        Some(runs[0])
    } else {
        first_failed(runs.drop_first())
    }
}

/// The first line of a text as `lines().next()` gives it, `Unknown` for
/// an empty text.
pub open spec fn first_line(r: Seq<char>) -> Seq<char> {
    if r.len() == 0 {
        "Unknown"@
    } else if crate::text::has_char(r, '\n') {
        let l = prefix_before(r, seq!['\n']);
        if l.len() > 0 && l.last() == '\r' {
            l.drop_last()
        } else {
            l
        }
    } else {
        r
    }
}

pub open spec fn paint(use_color: bool, code: Seq<char>) -> Seq<char> {
    if use_color {
        code
    } else {
        Seq::empty()
    }
}

/// The lines of one flaky test in the report: its rank, id, score and
/// counts, then its last failure's first line when it has one.
pub open spec fn entry_lines(rank: nat, h: HistoryView, use_color: bool) -> Seq<Seq<char>> {
    let c = if h.flaky_score_permille > 500 {
        paint(use_color, "\x1b[31m"@)
    } else {
        paint(use_color, "\x1b[33m"@)
    };
    let head = "  "@ + c + decimal(rank) + ". "@ + h.nodeid + " (score: "@ + hundredths_text(
        h.flaky_score_permille as nat,
    ) + ", "@ + decimal(h.total_failures as nat) + "/"@ + decimal(h.total_runs as nat) + " failures)"@
        + paint(use_color, "\x1b[0m"@);
    match first_failed(h.recent_runs) {
        Some(run) => match run.failure_reason {
            Some(reason) => seq![head, "     Last failure: "@ + first_line(reason@)],
            None => seq![head],
        },
        None => seq![head],
    }
}

pub open spec fn entries(hs: Seq<HistoryView>, use_color: bool) -> Seq<Seq<char>>
    decreases hs.len(),
{
    if hs.len() == 0 {
        Seq::empty()
    } else {
        entries(hs.drop_last(), use_color) + entry_lines(hs.len() as nat, hs.last(), use_color)
    }
}

/// The opening of the report: the title and the summary.
pub open spec fn summary_spec(rep: FlakyReport, use_color: bool) -> Seq<Seq<char>> {
    let reset = paint(use_color, "\x1b[0m"@);
    seq![
        "🎯 Flaky Test Report"@,
        "===================="@,
        ""@,
        "Summary:"@,
        "  Total tests tracked: "@ + decimal(rep.total_tests as nat),
    ] + if rep.total_flaky == 0 {
        seq!["  "@ + paint(use_color, "\x1b[32m"@) + "✅ No flaky tests detected"@ + reset]
    } else {
        let c = if rep.total_flaky * 10 > rep.total_tests {
            paint(use_color, "\x1b[31m"@)
        } else {
            paint(use_color, "\x1b[33m"@)
        };
        seq![
            "  "@ + c + "⚠️  Flaky tests: "@ + decimal(rep.total_flaky as nat) + " ("@ + tenths_text(
                rep.flaky_permille as nat,
            ) + "%)"@ + reset,
            "  Average flaky score: "@ + hundredths_text(rep.avg_flaky_score_permille as nat),
        ]
    }
}

/// The listing of the ten highest-scoring flaky tests.
pub open spec fn listing_spec(flaky: Seq<HistoryView>, use_color: bool) -> Seq<Seq<char>> {
    let sorted = by_score(flaky);
    if flaky.len() == 0 {
        Seq::empty()
    } else {
        seq![""@, "Flaky Tests:"@] + entries(
            if sorted.len() > 10 {
                sorted.take(10)
            } else {
                sorted
            },
            use_color,
        ) + if sorted.len() > 10 {
            seq!["  ... and "@ + decimal((sorted.len() - 10) as nat) + " more flaky tests"@]
        } else {
            Seq::empty()
        }
    }
}

/// The advice section.
pub open spec fn advice_spec(recs: Seq<Seq<char>>) -> Seq<Seq<char>> {
    if recs.len() == 0 {
        Seq::empty()
    } else {
        seq![""@, "Recommendations:"@] + recs.map_values(|r: Seq<char>| "  "@ + r)
    }
}

impl FlakyReport {
    /// The report as printed: summary, the ten highest-scoring flaky tests,
    /// and the advice.
    pub open spec fn report_spec(&self, use_color: bool) -> Seq<Seq<char>> {
        summary_spec(*self, use_color) + listing_spec(histories_view(self.flaky_tests@), use_color) + advice_spec(
            views(self.recommendations@),
        ) + seq![""@]
    }
}

proof fn lemma_insert_by_score_at(s: Seq<HistoryView>, x: HistoryView, k: int)
    requires
        0 <= k <= s.len(),
        forall|j: int| 0 <= j < k ==> !(x.flaky_score_permille > (#[trigger] s[j]).flaky_score_permille),
        k < s.len() ==> x.flaky_score_permille > s[k].flaky_score_permille,
    ensures
        insert_by_score(s, x) == s.insert(k, x),
    decreases k,
{
    if s.len() == 0 {
        assert(s.insert(k, x) =~= seq![x]);
    } else if k == 0 {
        assert(s.insert(0, x) =~= seq![x] + s);
    } else {
        let r = s.drop_first();
        assert forall|j: int| 0 <= j < k - 1 implies !(x.flaky_score_permille > (#[trigger] r[j]).flaky_score_permille) by {
            assert(r[j] == s[j + 1]);
        }
        lemma_insert_by_score_at(r, x, k - 1);
        assert(s.insert(k, x) =~= seq![s[0]] + r.insert(k - 1, x));
    }
}

fn sort_by_score(hs: &Vec<TestHistory>) -> (r: Vec<TestHistory>)
    ensures
        histories_view(r@) == by_score(histories_view(hs@)),
{
    let ghost hv = histories_view(hs@);
    let mut sorted: Vec<TestHistory> = Vec::new();
    let mut i: usize = 0;
    assert(hv.take(0) =~= Seq::<HistoryView>::empty());
    while i < hs.len()
        invariant
            i <= hs@.len(),
            hv == histories_view(hs@),
            histories_view(sorted@) == by_score(hv.take(i as int)),
        decreases hs@.len() - i,
    {
        let x = hs[i].copy();
        let ghost sv = histories_view(sorted@);
        let mut k: usize = 0;
        let mut found = false;
        while k < sorted.len() && !found
            invariant
                k <= sorted@.len(),
                sv == histories_view(sorted@),
                found ==> k < sorted@.len() && x.flaky_score_permille > sv[k as int].flaky_score_permille,
                forall|j: int| 0 <= j < k ==> !(x.flaky_score_permille > (#[trigger] sv[j]).flaky_score_permille),
            decreases sorted@.len() - k + (if found { 0int } else { 1int }),
        {
            assert(sv[k as int] == history_view(sorted@[k as int]));
            if x.flaky_score_permille > sorted[k].flaky_score_permille {
                found = true;
            } else {
                k = k + 1;
            }
        }
        proof {
            lemma_insert_by_score_at(sv, history_view(x), k as int);
            assert(hv.take(i + 1).drop_last() =~= hv.take(i as int));
            assert(hv.take(i + 1).last() == history_view(hs@[i as int]));
        }
        let ghost xv = history_view(x);
        sorted.insert(k, x);
        assert(histories_view(sorted@) =~= sv.insert(k as int, xv));
        i = i + 1;
    }
    assert(hv.take(hs@.len() as int) =~= hv);
    sorted
}

fn first_line_of(r: &str) -> (l: String)
    ensures
        l@ == first_line(r@),
{
    let cs = crate::text::chars_of(r);
    if cs.len() == 0 {
        return "Unknown".to_owned();
    }
    if !crate::text::contains_char(cs.as_slice(), '\n') {
        return r.to_owned();
    }
    let seps: [char; 1] = ['\n'];
    let p = crate::text::prefix_until(r, &seps);
    assert(seps@ =~= seq!['\n']);
    let pc = crate::text::chars_of(p.as_str());
    if pc.len() > 0 && pc[pc.len() - 1] == '\r' {
        let t = crate::text::string_from_chars(&pc.as_slice()[0..pc.len() - 1]);
        assert(t@ =~= p@.drop_last());
        t
    } else {
        p
    }
}

fn push_entry(lines: &mut Vec<String>, rank: usize, h: &TestHistory, use_color: bool)
    ensures
        views(final(lines)@) == views(old(lines)@) + entry_lines(rank as nat, history_view(*h), use_color),
{
    let ghost l0 = views(lines@);
    let mut head = "  ".to_owned();
    if use_color {
        if h.flaky_score_permille > 500 {
            head.append("\x1b[31m");
        } else {
            head.append("\x1b[33m");
        }
    }
    let a = crate::planner::decimal_string(rank as u128);
    head.append(a.as_str());
    head.append(". ");
    head.append(h.nodeid.as_str());
    head.append(" (score: ");
    let b = hundredths_string(h.flaky_score_permille);
    head.append(b.as_str());
    head.append(", ");
    let c = crate::planner::decimal_string(h.total_failures as u128);
    head.append(c.as_str());
    head.append("/");
    let d = crate::planner::decimal_string(h.total_runs as u128);
    head.append(d.as_str());
    head.append(" failures)");
    if use_color {
        head.append("\x1b[0m");
    }
    let ghost hl = head@;
    assert(hl =~= entry_lines(rank as nat, history_view(*h), use_color)[0]);
    lines.push(head);
    let mut j: usize = 0;
    assert(h.recent_runs@.skip(0) =~= h.recent_runs@);
    while j < h.recent_runs.len() && h.recent_runs[j].passed
        invariant
            j <= h.recent_runs@.len(),
            first_failed(h.recent_runs@) == first_failed(h.recent_runs@.skip(j as int)),
        decreases h.recent_runs@.len() - j,
    {
        assert(h.recent_runs@.skip(j as int).drop_first() =~= h.recent_runs@.skip(j + 1));
        j = j + 1;
    }
    if j < h.recent_runs.len() {
        assert(h.recent_runs@.skip(j as int)[0] == h.recent_runs@[j as int]);
        assert(first_failed(h.recent_runs@.skip(j as int)) == Some(h.recent_runs@[j as int]));
        if let Some(reason) = &h.recent_runs[j].failure_reason {
            let mut l = "     Last failure: ".to_owned();
            let f = first_line_of(reason.as_str());
            l.append(f.as_str());
            let ghost lv = l@;
            lines.push(l);
            assert(views(lines@) =~= l0 + seq![hl, lv]);
        } else {
            assert(views(lines@) =~= l0 + seq![hl]);
        }
    } else {
        assert(h.recent_runs@.skip(j as int) =~= Seq::<TestRun>::empty());
        assert(views(lines@) =~= l0 + seq![hl]);
    }
}


proof fn lemma_by_score_len(hs: Seq<HistoryView>)
    ensures
        by_score(hs).len() == hs.len(),
    decreases hs.len(),
{
    if hs.len() > 0 {
        lemma_by_score_len(hs.drop_last());
        lemma_insert_by_score_len(by_score(hs.drop_last()), hs.last());
    }
}

proof fn lemma_insert_by_score_len(s: Seq<HistoryView>, x: HistoryView)
    ensures
        insert_by_score(s, x).len() == s.len() + 1,
    decreases s.len(),
{
    if s.len() > 0 {
        lemma_insert_by_score_len(s.drop_first(), x);
    }
}

fn push_summary(lines: &mut Vec<String>, rep: &FlakyReport, use_color: bool)
    ensures
        views(final(lines)@) == views(old(lines)@) + summary_spec(*rep, use_color),
{
    let ghost l0 = views(lines@);
    lines.push("🎯 Flaky Test Report".to_owned());
    lines.push("====================".to_owned());
    lines.push("".to_owned());
    lines.push("Summary:".to_owned());
    let mut t = "  Total tests tracked: ".to_owned();
    let n = crate::planner::decimal_string(rep.total_tests as u128);
    t.append(n.as_str());
    let ghost tv = t@;
    lines.push(t);
    let ghost l1 = views(lines@);
    assert(l1 =~= l0 + seq!["🎯 Flaky Test Report"@, "===================="@, ""@, "Summary:"@, tv]);
    let reset = if use_color {
        "\x1b[0m"
    } else {
        ""
    };
    proof {
        reveal_strlit("");
    }
    assert(reset@ == paint(use_color, "\x1b[0m"@));
    if rep.total_flaky == 0 {
        let mut a = "  ".to_owned();
        if use_color {
            a.append("\x1b[32m");
        }
        a.append("✅ No flaky tests detected");
        a.append(reset);
        let ghost av = a@;
        assert(av =~= "  "@ + paint(use_color, "\x1b[32m"@) + "✅ No flaky tests detected"@ + paint(use_color, "\x1b[0m"@));
        lines.push(a);
        assert(views(lines@) =~= l1.push(av));
        assert(views(lines@) =~= l0 + summary_spec(*rep, use_color));
    } else {
        let mut a = "  ".to_owned();
        if use_color {
            if (rep.total_flaky as u128) * 10 > rep.total_tests as u128 {
                a.append("\x1b[31m");
            } else {
                a.append("\x1b[33m");
            }
        }
        a.append("⚠️  Flaky tests: ");
        let d = crate::planner::decimal_string(rep.total_flaky as u128);
        a.append(d.as_str());
        a.append(" (");
        let p = crate::planner::tenths_string(rep.flaky_permille as u128);
        a.append(p.as_str());
        a.append("%)");
        a.append(reset);
        let ghost av = a@;
        lines.push(a);
        let mut b = "  Average flaky score: ".to_owned();
        let h = hundredths_string(rep.avg_flaky_score_permille);
        b.append(h.as_str());
        let ghost bv = b@;
        lines.push(b);
        assert(views(lines@) =~= l1 + seq![av, bv]);
        assert(views(lines@) =~= l0 + summary_spec(*rep, use_color));
    }
}

impl FlakyReport {
    /// The lines of the report (see [`FlakyReport::report_spec`]).
    #[verifier::rlimit(40)]
    pub fn report_lines(&self, use_color: bool) -> (r: Vec<String>)
        ensures
            views(r@) == self.report_spec(use_color),
    {
        let mut lines: Vec<String> = Vec::new();
        push_summary(&mut lines, self, use_color);
        let ghost after_summary = views(lines@);
        let ghost flaky = histories_view(self.flaky_tests@);
        if self.flaky_tests.len() > 0 {
            lines.push("".to_owned());
            lines.push("Flaky Tests:".to_owned());
            let sorted = sort_by_score(&self.flaky_tests);
            proof {
                lemma_by_score_len(flaky);
            }
            let ghost sv = histories_view(sorted@);
            let shown: usize = if sorted.len() > 10 {
                10
            } else {
                sorted.len()
            };
            let ghost top = if sv.len() > 10 {
                sv.take(10)
            } else {
                sv
            };
            assert(top =~= sv.take(shown as int));
            let ghost base = views(lines@);
            let mut i: usize = 0;
            assert(top.take(0) =~= Seq::<HistoryView>::empty());
            while i < shown
                invariant
                    i <= shown,
                    shown <= sorted@.len(),
                    sv == histories_view(sorted@),
                    top == sv.take(shown as int),
                    views(lines@) == base + entries(top.take(i as int), use_color),
                decreases shown - i,
            {
                let ghost l = views(lines@);
                push_entry(&mut lines, i + 1, &sorted[i], use_color);
                assert(top.take(i + 1).drop_last() =~= top.take(i as int));
                assert(top.take(i + 1).last() == history_view(sorted@[i as int]));
                assert(views(lines@) =~= base + entries(top.take(i + 1), use_color));
                i = i + 1;
            }
            assert(top.take(shown as int) =~= top);
            assert(views(lines@) =~= after_summary + seq![""@, "Flaky Tests:"@] + entries(top, use_color));
            if sorted.len() > 10 {
                let mut m = "  ... and ".to_owned();
                let d = crate::planner::decimal_string((sorted.len() - 10) as u128);
                m.append(d.as_str());
                m.append(" more flaky tests");
                let ghost mv = m@;
                let ghost l = views(lines@);
                lines.push(m);
                assert(views(lines@) =~= l.push(mv));
            }
        }
        let ghost after_list = views(lines@);
        assert(after_list =~= after_summary + listing_spec(flaky, use_color));
        if self.recommendations.len() > 0 {
            lines.push("".to_owned());
            lines.push("Recommendations:".to_owned());
            let ghost base = views(lines@);
            let ghost rv = views(self.recommendations@);
            let mut i: usize = 0;
            while i < self.recommendations.len()
                invariant
                    i <= self.recommendations@.len(),
                    rv == views(self.recommendations@),
                    views(lines@) == base + rv.take(i as int).map_values(|r: Seq<char>| "  "@ + r),
                decreases self.recommendations@.len() - i,
            {
                let mut l = "  ".to_owned();
                l.append(self.recommendations[i].as_str());
                let ghost lv = l@;
                let ghost l0 = views(lines@);
                lines.push(l);
                assert(views(lines@) =~= l0.push(lv));
                assert(rv.take(i + 1).map_values(|r: Seq<char>| "  "@ + r) =~= rv.take(i as int).map_values(
                    |r: Seq<char>| "  "@ + r,
                ).push("  "@ + rv[i as int]));
                i = i + 1;
            }
            assert(rv.take(self.recommendations@.len() as int) =~= rv);
        }
        assert(views(lines@) =~= after_list + advice_spec(views(self.recommendations@)));
        let ghost before_end = views(lines@);
        lines.push("".to_owned());
        assert(views(lines@) =~= before_end.push(""@));
        assert(views(lines@) =~= self.report_spec(use_color));
        lines
    }
}


/// The environment a run is recorded with: `os-python_version`, the version
/// `unknown` when not known.
pub fn environment_info(os: &str, python_version: Option<&str>) -> (r: String)
    ensures
        r@ == os@ + "-"@ + match python_version {
            Some(v) => v@,
            None => "unknown"@,
        },
{
    let mut r = os.to_owned();
    r.append("-");
    match python_version {
        Some(v) => r.append(v),
        None => r.append("unknown"),
    }
    r
}


/// Every run passed.
pub open spec fn all_passed(runs: Seq<TestRun>) -> bool {
    forall|i: int| 0 <= i < runs.len() ==> (#[trigger] runs[i]).passed
}

proof fn lemma_all_passed_no_failures(runs: Seq<TestRun>)
    requires
        all_passed(runs),
    ensures
        fail_count(runs) == 0,
    decreases runs.len(),
{
    if runs.len() > 0 {
        assert(runs.last() == runs[runs.len() - 1]);
        lemma_all_passed_no_failures(runs.drop_last());
    }
}

/// A test that never failed is never flaky (for a positive threshold), and
/// its score is 0.
pub proof fn lemma_never_failing_never_flaky(
    config: FlakyConfig,
    prev: Option<HistoryView>,
    id: Seq<char>,
    runs: Seq<TestRun>,
    now: u64,
)
    requires
        config.flaky_threshold_permille > 0,
        all_passed(runs),
        prev matches Some(h) ==> h.total_failures == 0 && all_passed(h.recent_runs),
    ensures
        recorded(config, prev, id, runs, now).flaky_score_permille == 0,
        !recorded(config, prev, id, runs, now).is_flaky,
{
    let prev_recent = match prev {
        Some(h) => h.recent_runs,
        None => Seq::<TestRun>::empty(),
    };
    let all = newest_first(runs) + prev_recent;
    let recent = if all.len() > 100 {
        all.take(100)
    } else {
        all
    };
    lemma_newest_first_index(runs);
    assert(all_passed(recent)) by {
        assert forall|i: int| 0 <= i < recent.len() implies (#[trigger] recent[i]).passed by {
            assert(recent[i] == all[i]);
            if i < runs.len() {
                assert(all[i] == newest_first(runs)[i]);
                assert(runs[runs.len() - 1 - i].passed);
            } else {
                assert(all[i] == prev_recent[i - runs.len()]);
            }
        }
    }
    lemma_all_passed_no_failures(runs);
    let rc: nat = if recent.len() < 20 {
        recent.len()
    } else {
        20
    };
    assert(all_passed(recent.take(rc as int))) by {
        assert forall|i: int| 0 <= i < recent.take(rc as int).len() implies (#[trigger] recent.take(
            rc as int,
        )[i]).passed by {
            assert(recent.take(rc as int)[i] == recent[i]);
        }
    }
    lemma_all_passed_no_failures(recent.take(rc as int));
    let prev_total: nat = match prev {
        Some(h) => h.total_runs as nat,
        None => 0,
    };
    let total = prev_total + runs.len();
    assert(score_spec(total, 0, recent) == 0) by {
        if total > 0 {
            if rc == 0 {
                assert(700 * 0nat / total == 0);
            } else {
                assert((700 * 0 * rc + 300 * 0 * total) / (total * rc) == 0) by (nonlinear_arith)
                    requires
                        total > 0,
                        rc > 0,
                ;
            }
        }
    }
}

proof fn lemma_fail_count_take(runs: Seq<TestRun>, k: int)
    requires
        0 <= k <= runs.len(),
    ensures
        fail_count(runs.take(k)) <= k,
{
    lemma_fail_count_le(runs.take(k));
}

/// The score is at most 1000 (certainly flaky) when the history counts no
/// more failures than runs.
pub proof fn lemma_score_at_most_one(total: nat, failures: nat, recent: Seq<TestRun>)
    requires
        failures <= total,
    ensures
        score_spec(total, failures, recent) <= 1000,
{
    if total > 0 {
        let rc: nat = if recent.len() < 20 {
            recent.len()
        } else {
            20
        };
        let rf = fail_count(recent.take(rc as int));
        lemma_fail_count_take(recent, rc as int);
        if rc == 0 {
            assert(700 * failures / total <= 1000) by (nonlinear_arith)
                requires
                    failures <= total,
                    total > 0,
            ;
        } else {
            assert((700 * failures * rc + 300 * rf * total) / (total * rc) <= 1000) by (nonlinear_arith)
                requires
                    failures <= total,
                    rf <= rc,
                    total > 0,
                    rc > 0,
            ;
        }
    }
}

/// A test is judged flaky only after enough runs.
pub proof fn lemma_flaky_needs_enough_runs(
    config: FlakyConfig,
    prev: Option<HistoryView>,
    id: Seq<char>,
    runs: Seq<TestRun>,
    now: u64,
)
    ensures
        recorded(config, prev, id, runs, now).is_flaky ==> (match prev {
            Some(h) => h.total_runs as nat,
            None => 0,
        }) + runs.len() >= config.min_runs_for_flaky,
{
}

} // verus!
