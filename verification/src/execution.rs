//! What a parallel run reports once its batches are back: the exit code, the
//! counts of failed batches, of tests and of each outcome, and the lines
//! shown to the user.  Durations are milliseconds, shown as seconds with
//! one decimal.
use crate::order::views;
use crate::planner::decimal;
use crate::scheduler::{SchedulerConfig, SchedulingStrategy};
use crate::schemas::{AggregatedTiming, TestOutcome};
use crate::sharder::seconds_text;
use crate::text::split_on;
use crate::worker_pool::{BatchResult, PerTestResult};
use vstd::prelude::*;

verus! {

/// The line without a final `\r`.
pub open spec fn strip_cr(l: Seq<char>) -> Seq<char> {
    if l.len() > 0 && l.last() == '\r' {
        l.drop_last()
    } else {
        l
    }
}

/// The lines of a text as `str::lines` gives them: split at `\n`, a `\r`
/// before a `\n` dropped, and no empty line after a final `\n`.
pub open spec fn text_lines(s: Seq<char>) -> Seq<Seq<char>> {
    let p = split_on(s, '\n');
    let body = p.drop_last().map_values(|l: Seq<char>| strip_cr(l));
    if p.last().len() > 0 {
        body.push(p.last())
    } else {
        body
    }
}

/// The last `n` items, or all of them when there are fewer.
pub open spec fn last_items(s: Seq<Seq<char>>, n: nat) -> Seq<Seq<char>> {
    if s.len() <= n {
        s
    } else {
        s.skip(s.len() - n)
    }
}

/// A title and the last 80 lines of a text; nothing for an empty text.
pub open spec fn tail_block(title: Seq<char>, text: Seq<char>) -> Seq<Seq<char>> {
    if text.len() == 0 {
        Seq::empty()
    } else {
        seq![title] + last_items(text_lines(text), 80)
    }
}

/// An integer in decimal, with a `-` when negative.
pub open spec fn signed_decimal(x: int) -> Seq<char> {
    if x < 0 {
        "-"@ + decimal((-x) as nat)
    } else {
        decimal(x as nat)
    }
}

/// The heading of a failed batch (after an empty line).
pub open spec fn failure_header(r: BatchResult) -> Seq<char> {
    "\n--- Batch failure: worker "@ + decimal(r.worker_id as nat) + " ("@ + decimal(r.nodeids@.len()) + " tests, "@
        + seconds_text(r.duration_ms as nat) + "s, exit "@ + signed_decimal(r.exit_code as int) + ") ---"@
}

/// What a failed batch shows on standard output: the heading and the tail
/// of its output.
pub open spec fn failure_out(r: BatchResult) -> Seq<Seq<char>> {
    seq![failure_header(r)] + tail_block("[stdout tail]"@, r.stdout@)
}

/// What a failed batch shows on standard error: the tail of its errors.
pub open spec fn failure_err(r: BatchResult) -> Seq<Seq<char>> {
    tail_block("[stderr tail]"@, r.stderr@)
}

/// The verbose line of a batch.
pub open spec fn worker_line(r: BatchResult) -> Seq<char> {
    "Worker "@ + decimal(r.worker_id as nat) + " completed "@ + decimal(r.nodeids@.len()) + " tests in "@
        + seconds_text(r.duration_ms as nat) + "s (exit: "@ + signed_decimal(r.exit_code as int) + ")"@
}

/// What a batch shows on standard output: its failure, if it failed, then
/// its verbose line when asked for.
pub open spec fn batch_out(r: BatchResult, verbose: bool) -> Seq<Seq<char>> {
    (if r.exit_code != 0 {
        failure_out(r)
    } else {
        Seq::empty()
    }) + (if verbose {
        seq![worker_line(r)]
    } else {
        Seq::empty()
    })
}

/// What the batches show on standard output, in order.
pub open spec fn batches_out(rs: Seq<BatchResult>, verbose: bool) -> Seq<Seq<char>>
    decreases rs.len(),
{
    if rs.len() == 0 {
        Seq::empty()
    } else {
        batches_out(rs.drop_last(), verbose) + batch_out(rs.last(), verbose)
    }
}

/// What the failed batches show on standard error, in order.
pub open spec fn batches_err(rs: Seq<BatchResult>) -> Seq<Seq<char>>
    decreases rs.len(),
{
    if rs.len() == 0 {
        Seq::empty()
    } else {
        batches_err(rs.drop_last()) + if rs.last().exit_code != 0 {
            failure_err(rs.last())
        } else {
            Seq::empty()
        }
    }
}

/// The exit code of the first batch that did not end with 0, or 0.
pub open spec fn first_failure_code(rs: Seq<BatchResult>) -> i32
    decreases rs.len(),
{
    if rs.len() == 0 {
        0
    } else {
        let p = first_failure_code(rs.drop_last());
        if p != 0 {
            p
        } else {
            rs.last().exit_code
        }
    }
}

/// The number of batches that did not end with 0.
pub open spec fn failed_batch_count(rs: Seq<BatchResult>) -> nat
    decreases rs.len(),
{
    if rs.len() == 0 {
        0
    } else {
        failed_batch_count(rs.drop_last()) + if rs.last().exit_code != 0 {
            1nat
        } else {
            0nat
        }
    }
}

/// The number of tests the batches ran.
pub open spec fn tests_run(rs: Seq<BatchResult>) -> nat
    decreases rs.len(),
{
    if rs.len() == 0 {
        0
    } else {
        tests_run(rs.drop_last()) + rs.last().nodeids@.len()
    }
}

/// The number of tests with outcome `o`.
pub open spec fn outcome_count(ts: Seq<PerTestResult>, o: Seq<char>) -> nat
    decreases ts.len(),
{
    if ts.len() == 0 {
        0
    } else {
        outcome_count(ts.drop_last(), o) + if ts.last().outcome@ == o {
            1nat
        } else {
            0nat
        }
    }
}

/// The number of tests with outcome `o` over all batches.
pub open spec fn batches_outcome(rs: Seq<BatchResult>, o: Seq<char>) -> nat
    decreases rs.len(),
{
    if rs.len() == 0 {
        0
    } else {
        batches_outcome(rs.drop_last(), o) + outcome_count(rs.last().per_test@, o)
    }
}

/// The number of per-test results over all batches.
pub open spec fn per_test_total(rs: Seq<BatchResult>) -> nat
    decreases rs.len(),
{
    if rs.len() == 0 {
        0
    } else {
        per_test_total(rs.drop_last()) + rs.last().per_test@.len()
    }
}

/// The closing lines of a run: tests and time, failed batches when there
/// are any, and the outcome counts when any test reported one.
pub open spec fn closing_lines(
    run: nat,
    total_ms: nat,
    workers: nat,
    failed_batches: nat,
    batches: nat,
    passed: nat,
    skipped: nat,
    failed: nat,
    error: nat,
) -> Seq<Seq<char>> {
    seq!["✅ Completed "@ + decimal(run) + " tests in "@ + seconds_text(total_ms) + "s using "@ + decimal(workers) + " workers"@]
        + (if failed_batches > 0 {
        seq!["❌ "@ + decimal(failed_batches) + " of "@ + decimal(batches) + " worker batches reported failures"@]
    } else {
        Seq::empty()
    }) + (if passed + skipped + failed + error > 0 {
        seq![
            "Summary: "@ + decimal(passed) + " passed, "@ + decimal(skipped) + " skipped, "@ + decimal(failed)
                + " failed, "@ + decimal(error) + " error ("@ + decimal(passed + skipped + failed + error)
                + " total)"@,
        ]
    } else {
        Seq::empty()
    })
}

/// The scheduler settings of a parallel run with `worker_count` workers:
/// balanced order, long poles (over 5 s) spread first, last-failed tests
/// first, batches of at most 30 s.
pub fn execution_scheduler_config(worker_count: usize) -> (c: SchedulerConfig)
    ensures
        c.strategy == SchedulingStrategy::Balanced,
        c.worker_count == worker_count,
        c.enable_long_pole_detection,
        c.long_pole_threshold_ms == 5000,
        c.enable_fail_first,
        c.max_batch_duration_ms == 30000,
{
    SchedulerConfig {
        strategy: SchedulingStrategy::Balanced,
        worker_count,
        enable_long_pole_detection: true,
        long_pole_threshold_ms: 5000,
        enable_fail_first: true,
        max_batch_duration_ms: 30000,
    }
}

/// The summary of a run: exit code, counts, and the lines for standard
/// output and standard error.
#[derive(Debug)]
pub struct RunSummary {
    pub exit_code: i32,
    pub failed_batches: usize,
    pub total_tests_run: usize,
    pub passed: u32,
    pub failed: u32,
    pub skipped: u32,
    pub error: u32,
    pub out_lines: Vec<String>,
    pub err_lines: Vec<String>,
}

proof fn lemma_outcome_le(ts: Seq<PerTestResult>, o: Seq<char>)
    ensures
        outcome_count(ts, o) <= ts.len(),
    decreases ts.len(),
{
    if ts.len() > 0 {
        lemma_outcome_le(ts.drop_last(), o);
    }
}

proof fn lemma_batches_outcome_le(rs: Seq<BatchResult>, o: Seq<char>)
    ensures
        batches_outcome(rs, o) <= per_test_total(rs),
    decreases rs.len(),
{
    if rs.len() > 0 {
        lemma_batches_outcome_le(rs.drop_last(), o);
        lemma_outcome_le(rs.last().per_test@, o);
    }
}

proof fn lemma_prefix_totals(rs: Seq<BatchResult>, i: int)
    requires
        0 <= i <= rs.len(),
    ensures
        tests_run(rs.subrange(0, i)) <= tests_run(rs),
        per_test_total(rs.subrange(0, i)) <= per_test_total(rs),
    decreases rs.len() - i,
{
    if i < rs.len() {
        lemma_prefix_totals(rs, i + 1);
        let s = rs.subrange(0, i + 1);
        assert(s.drop_last() =~= rs.subrange(0, i));
    } else {
        assert(rs.subrange(0, i) =~= rs);
    }
}

proof fn lemma_failed_le(rs: Seq<BatchResult>)
    ensures
        failed_batch_count(rs) <= rs.len(),
    decreases rs.len(),
{
    if rs.len() > 0 {
        lemma_failed_le(rs.drop_last());
    }
}

/// An integer in decimal (see [`signed_decimal`]).
pub fn signed_string(x: i32) -> (s: String)
    ensures
        s@ == signed_decimal(x as int),
{
    if x < 0 {
        let m: i64 = 0i64 - (x as i64);
        let d = crate::planner::decimal_string(m as u128);
        let mut s = "-".to_owned();
        s.append(d.as_str());
        s
    } else {
        crate::planner::decimal_string(x as u128)
    }
}

/// An integer in decimal (see [`signed_decimal`]).
pub fn signed_string_i64(x: i64) -> (s: String)
    ensures
        s@ == signed_decimal(x as int),
{
    if x < 0 {
        let m: i128 = 0i128 - (x as i128);
        let d = crate::planner::decimal_string(m as u128);
        let mut s = "-".to_owned();
        s.append(d.as_str());
        s
    } else {
        crate::planner::decimal_string(x as u128)
    }
}

fn strip_cr_string(l: &String) -> (r: String)
    ensures
        r@ == strip_cr(l@),
{
    let cs = crate::text::chars_of(l.as_str());
    let n = cs.len();
    if n > 0 && cs[n - 1] == '\r' {
        let mut keep: Vec<char> = Vec::new();
        let mut i: usize = 0;
        while i < n - 1
            invariant
                n == cs@.len(),
                n > 0,
                i <= n - 1,
                keep@ == cs@.subrange(0, i as int),
            decreases n - 1 - i,
        {
            keep.push(cs[i]);
            assert(keep@ =~= cs@.subrange(0, i + 1));
            i = i + 1;
        }
        assert(keep@ =~= l@.drop_last());
        crate::text::string_from_chars(keep.as_slice())
    } else {
        l.clone()
    }
}

/// The lines of a text (see [`text_lines`]).
pub fn lines_of(s: &str) -> (r: Vec<String>)
    ensures
        views(r@) == text_lines(s@),
{
    let parts = crate::text::split_char(s, '\n');
    let ghost p = split_on(s@, '\n');
    assert(p.len() >= 1);
    let n = parts.len();
    assert(views(parts@).len() == n);
    let mut r: Vec<String> = Vec::new();
    let mut i: usize = 0;
    while i < n - 1
        invariant
            n == parts@.len(),
            n >= 1,
            views(parts@) == p,
            i <= n - 1,
            views(r@) == p.subrange(0, i as int).map_values(|l: Seq<char>| strip_cr(l)),
        decreases n - 1 - i,
    {
        let line = strip_cr_string(&parts[i]);
        let ghost r0 = views(r@);
        r.push(line);
        assert(p[i as int] == parts@[i as int]@);
        assert(views(r@) =~= p.subrange(0, i + 1).map_values(|l: Seq<char>| strip_cr(l))) by {
            assert(views(r@) =~= r0.push(line@));
        }
        i = i + 1;
    }
    assert(p.subrange(0, n - 1) =~= p.drop_last());
    assert(p.last() == parts@[n - 1]@);
    if !parts[n - 1].as_str().is_empty() {
        let ghost r0 = views(r@);
        r.push(parts[n - 1].clone());
        assert(views(r@) =~= r0.push(p.last()));
    }
    r
}

/// Appends the title and the last 80 lines of `text` (see [`tail_block`]).
fn push_tail(out: &mut Vec<String>, title: &str, text: &String)
    ensures
        views(final(out)@) == views(old(out)@) + tail_block(title@, text@),
{
    if text.as_str().is_empty() {
        assert(views(out@) =~= views(out@) + Seq::<Seq<char>>::empty());
        return;
    }
    let ghost o0 = views(out@);
    out.push(title.to_owned());
    let ls = lines_of(text.as_str());
    let ghost lv = views(ls@);
    let start: usize = if ls.len() <= 80 {
        0
    } else {
        ls.len() - 80
    };
    let mut i: usize = start;
    while i < ls.len()
        invariant
            start <= i <= ls@.len(),
            lv == views(ls@),
            start == if lv.len() <= 80 { 0 } else { lv.len() - 80 },
            views(out@) == o0.push(title@) + lv.subrange(start as int, i as int),
        decreases ls@.len() - i,
    {
        let ghost b = views(out@);
        out.push(ls[i].clone());
        assert(views(out@) =~= b.push(lv[i as int]));
        assert(lv.subrange(start as int, i + 1) =~= lv.subrange(start as int, i as int).push(lv[i as int]));
        i = i + 1;
    }
    assert(lv.subrange(start as int, lv.len() as int) =~= last_items(lv, 80));
    assert(views(out@) =~= o0 + tail_block(title@, text@));
}

/// The heading of a failed batch (see [`failure_header`]).
pub fn batch_failure_header(r: &BatchResult) -> (s: String)
    ensures
        s@ == failure_header(*r),
{
    let mut s = "\n--- Batch failure: worker ".to_owned();
    s.append(crate::planner::decimal_string(r.worker_id as u128).as_str());
    s.append(" (");
    s.append(crate::planner::decimal_string(r.nodeids.len() as u128).as_str());
    s.append(" tests, ");
    s.append(crate::sharder::seconds_string(r.duration_ms).as_str());
    s.append("s, exit ");
    s.append(signed_string(r.exit_code).as_str());
    s.append(") ---");
    s
}

/// What a failed batch shows: the heading and the last 80 lines of its
/// output, then (for standard error) the last 80 lines of its errors.
pub fn batch_failure_lines(r: &BatchResult) -> (out: (Vec<String>, Vec<String>))
    ensures
        views(out.0@) == failure_out(*r),
        views(out.1@) == failure_err(*r),
{
    let mut o: Vec<String> = Vec::new();
    o.push(batch_failure_header(r));
    push_tail(&mut o, "[stdout tail]", &r.stdout);
    let mut e: Vec<String> = Vec::new();
    push_tail(&mut e, "[stderr tail]", &r.stderr);
    assert(views(e@) =~= failure_err(*r));
    (o, e)
}

/// The verbose line of a batch (see [`worker_line`]).
pub fn worker_completed_line(r: &BatchResult) -> (s: String)
    ensures
        s@ == worker_line(*r),
{
    let mut s = "Worker ".to_owned();
    s.append(crate::planner::decimal_string(r.worker_id as u128).as_str());
    s.append(" completed ");
    s.append(crate::planner::decimal_string(r.nodeids.len() as u128).as_str());
    s.append(" tests in ");
    s.append(crate::sharder::seconds_string(r.duration_ms).as_str());
    s.append("s (exit: ");
    s.append(signed_string(r.exit_code).as_str());
    s.append(")");
    s
}

fn count_outcome(ts: &Vec<PerTestResult>, o: &str) -> (n: usize)
    ensures
        n == outcome_count(ts@, o@),
{
    let mut n: usize = 0;
    let mut i: usize = 0;
    while i < ts.len()
        invariant
            i <= ts@.len(),
            n == outcome_count(ts@.subrange(0, i as int), o@),
            n <= i,
        decreases ts@.len() - i,
    {
        assert(ts@.subrange(0, i + 1).drop_last() =~= ts@.subrange(0, i as int));
        if crate::text::str_eq(ts[i].outcome.as_str(), o) {
            n = n + 1;
        }
        i = i + 1;
    }
    assert(ts@.subrange(0, ts@.len() as int) =~= ts@);
    n
}

fn append_all(out: &mut Vec<String>, more: Vec<String>)
    ensures
        views(final(out)@) == views(old(out)@) + views(more@),
{
    let ghost o0 = views(out@);
    let mut i: usize = 0;
    while i < more.len()
        invariant
            i <= more@.len(),
            views(out@) == o0 + views(more@).subrange(0, i as int),
        decreases more@.len() - i,
    {
        let ghost b = views(out@);
        out.push(more[i].clone());
        assert(views(out@) =~= b.push(more@[i as int]@));
        assert(views(more@).subrange(0, i + 1) =~= views(more@).subrange(0, i as int).push(more@[i as int]@));
        i = i + 1;
    }
    assert(views(more@).subrange(0, more@.len() as int) =~= views(more@));
}

/// Rolls up the results of a run's batches: the exit code is that of the
/// first batch that failed (0 when none did), with the counts of failed
/// batches, of tests run and of each outcome; the lines show each failed
/// batch, each batch when verbose, then the totals.
pub fn process_and_summarize_results(
    results: &Vec<BatchResult>,
    total_duration_ms: u64,
    worker_count: usize,
    verbose: bool,
) -> (s: RunSummary)
    requires
        tests_run(results@) <= usize::MAX,
        per_test_total(results@) <= u32::MAX,
    ensures
        s.exit_code == first_failure_code(results@),
        s.failed_batches == failed_batch_count(results@),
        s.total_tests_run == tests_run(results@),
        s.passed == batches_outcome(results@, "passed"@),
        s.failed == batches_outcome(results@, "failed"@),
        s.skipped == batches_outcome(results@, "skipped"@),
        s.error == batches_outcome(results@, "error"@),
        views(s.out_lines@) == batches_out(results@, verbose) + closing_lines(
            tests_run(results@),
            total_duration_ms as nat,
            worker_count as nat,
            failed_batch_count(results@),
            results@.len(),
            batches_outcome(results@, "passed"@),
            batches_outcome(results@, "skipped"@),
            batches_outcome(results@, "failed"@),
            batches_outcome(results@, "error"@),
        ),
        views(s.err_lines@) == batches_err(results@),
{
    let rs = results;
    let mut exit_code: i32 = 0;
    let mut failed_batches: usize = 0;
    let mut run: usize = 0;
    let mut passed: u32 = 0;
    let mut failed: u32 = 0;
    let mut skipped: u32 = 0;
    let mut error: u32 = 0;
    let mut out: Vec<String> = Vec::new();
    let mut err: Vec<String> = Vec::new();
    let mut i: usize = 0;
    while i < rs.len()
        invariant
            i <= rs@.len(),
            tests_run(rs@) <= usize::MAX,
            per_test_total(rs@) <= u32::MAX,
            exit_code == first_failure_code(rs@.subrange(0, i as int)),
            failed_batches == failed_batch_count(rs@.subrange(0, i as int)),
            run == tests_run(rs@.subrange(0, i as int)),
            passed == batches_outcome(rs@.subrange(0, i as int), "passed"@),
            failed == batches_outcome(rs@.subrange(0, i as int), "failed"@),
            skipped == batches_outcome(rs@.subrange(0, i as int), "skipped"@),
            error == batches_outcome(rs@.subrange(0, i as int), "error"@),
            views(out@) == batches_out(rs@.subrange(0, i as int), verbose),
            views(err@) == batches_err(rs@.subrange(0, i as int)),
        decreases rs@.len() - i,
    {
        let ghost pre = rs@.subrange(0, i as int);
        let ghost cur = rs@.subrange(0, i + 1);
        proof {
            assert(cur.drop_last() =~= pre);
            assert(cur.last() == rs@[i as int]);
            lemma_prefix_totals(rs@, i + 1);
            lemma_failed_le(cur);
            lemma_batches_outcome_le(cur, "passed"@);
            lemma_batches_outcome_le(cur, "failed"@);
            lemma_batches_outcome_le(cur, "skipped"@);
            lemma_batches_outcome_le(cur, "error"@);
        }
        let r = &rs[i];
        run = run + r.nodeids.len();
        let ghost o0 = views(out@);
        let ghost e0 = views(err@);
        if r.exit_code != 0 {
            failed_batches = failed_batches + 1;
            if exit_code == 0 {
                exit_code = r.exit_code;
            }
            let (fo, fe) = batch_failure_lines(r);
            append_all(&mut out, fo);
            append_all(&mut err, fe);
        } else {
            assert(views(err@) =~= e0 + Seq::<Seq<char>>::empty());
        }
        if verbose {
            let ghost o1 = views(out@);
            out.push(worker_completed_line(r));
            assert(views(out@) =~= o1.push(worker_line(*r)));
        }
        assert(views(out@) =~= o0 + batch_out(*r, verbose));
        let np = count_outcome(&r.per_test, "passed");
        let nf = count_outcome(&r.per_test, "failed");
        let ns = count_outcome(&r.per_test, "skipped");
        let ne = count_outcome(&r.per_test, "error");
        passed = passed + np as u32;
        failed = failed + nf as u32;
        skipped = skipped + ns as u32;
        error = error + ne as u32;
        i = i + 1;
    }
    assert(rs@.subrange(0, rs@.len() as int) =~= rs@);
    proof {
        lemma_batches_outcome_le(rs@, "passed"@);
        lemma_batches_outcome_le(rs@, "failed"@);
        lemma_batches_outcome_le(rs@, "skipped"@);
        lemma_batches_outcome_le(rs@, "error"@);
    }
    let ghost o0 = views(out@);
    let mut line = "✅ Completed ".to_owned();
    line.append(crate::planner::decimal_string(run as u128).as_str());
    line.append(" tests in ");
    line.append(crate::sharder::seconds_string(total_duration_ms).as_str());
    line.append("s using ");
    line.append(crate::planner::decimal_string(worker_count as u128).as_str());
    line.append(" workers");
    out.push(line);
    let ghost o1 = views(out@);
    if failed_batches > 0 {
        let mut l = "❌ ".to_owned();
        l.append(crate::planner::decimal_string(failed_batches as u128).as_str());
        l.append(" of ");
        l.append(crate::planner::decimal_string(rs.len() as u128).as_str());
        l.append(" worker batches reported failures");
        out.push(l);
    }
    let ghost o2 = views(out@);
    let total: u64 = passed as u64 + skipped as u64 + failed as u64 + error as u64;
    if total > 0 {
        let mut l = "Summary: ".to_owned();
        l.append(crate::planner::decimal_string(passed as u128).as_str());
        l.append(" passed, ");
        l.append(crate::planner::decimal_string(skipped as u128).as_str());
        l.append(" skipped, ");
        l.append(crate::planner::decimal_string(failed as u128).as_str());
        l.append(" failed, ");
        l.append(crate::planner::decimal_string(error as u128).as_str());
        l.append(" error (");
        l.append(crate::planner::decimal_string(total as u128).as_str());
        l.append(" total)");
        out.push(l);
    }
    assert(views(out@) =~= o0 + closing_lines(
        run as nat,
        total_duration_ms as nat,
        worker_count as nat,
        failed_batches as nat,
        rs@.len(),
        passed as nat,
        skipped as nat,
        failed as nat,
        error as nat,
    ));
    RunSummary {
        exit_code,
        failed_batches,
        total_tests_run: run,
        passed,
        failed,
        skipped,
        error,
        out_lines: out,
        err_lines: err,
    }
}

/// A run ends with exit code 0 exactly when none of its batches failed,
/// and otherwise with the code of a batch that failed.
pub proof fn lemma_exit_code_reflects_failed_batches(rs: Seq<BatchResult>)
    ensures
        (first_failure_code(rs) == 0) <==> (failed_batch_count(rs) == 0),
        first_failure_code(rs) != 0 ==> exists|i: int| 0 <= i < rs.len() && rs[i].exit_code == first_failure_code(rs),
    decreases rs.len(),
{
    if rs.len() > 0 {
        let p = rs.drop_last();
        lemma_exit_code_reflects_failed_batches(p);
        if first_failure_code(p) != 0 {
            let i = choose|i: int| 0 <= i < p.len() && p[i].exit_code == first_failure_code(p);
            assert(rs[i] == p[i]);
        } else {
            assert(rs[rs.len() - 1] == rs.last());
        }
    }
}

/// The outcome counts of a run add up to at most the number of per-test
/// results its batches reported.
pub proof fn lemma_outcomes_within_results(rs: Seq<BatchResult>)
    ensures
        batches_outcome(rs, "passed"@) + batches_outcome(rs, "failed"@) + batches_outcome(rs, "skipped"@)
            + batches_outcome(rs, "error"@) <= per_test_total(rs),
    decreases rs.len(),
{
    if rs.len() > 0 {
        lemma_outcomes_within_results(rs.drop_last());
        lemma_outcomes_within_tests(rs.last().per_test@);
    }
}

proof fn lemma_outcomes_within_tests(ts: Seq<PerTestResult>)
    ensures
        outcome_count(ts, "passed"@) + outcome_count(ts, "failed"@) + outcome_count(ts, "skipped"@) + outcome_count(
            ts,
            "error"@,
        ) <= ts.len(),
    decreases ts.len(),
{
    if ts.len() > 0 {
        lemma_outcomes_within_tests(ts.drop_last());
        reveal_strlit("passed");
        reveal_strlit("failed");
        reveal_strlit("skipped");
        reveal_strlit("error");
        assert("passed"@[0] == 'p' && "failed"@[0] == 'f' && "skipped"@[0] == 's' && "error"@[0] == 'e');
    }
}

/// The recorded outcome of a test result: `passed`, `failed`, `skipped`,
/// anything else an error.
pub open spec fn outcome_of(o: Seq<char>) -> TestOutcome {
    if o == "passed"@ {
        TestOutcome::Passed
    } else if o == "failed"@ {
        TestOutcome::Failed
    } else if o == "skipped"@ {
        TestOutcome::Skipped
    } else {
        TestOutcome::Error
    }
}

/// The recorded outcome of a test result (see [`outcome_of`]).
pub fn timing_outcome(outcome: &str) -> (r: TestOutcome)
    ensures
        r == outcome_of(outcome@),
{
    if crate::text::str_eq(outcome, "passed") {
        TestOutcome::Passed
    } else if crate::text::str_eq(outcome, "failed") {
        TestOutcome::Failed
    } else if crate::text::str_eq(outcome, "skipped") {
        TestOutcome::Skipped
    } else {
        TestOutcome::Error
    }
}

/// The aggregate of a test before any run.
pub open spec fn fresh_timing(nodeid: String) -> AggregatedTiming {
    AggregatedTiming {
        nodeid,
        run_count: 0,
        avg_ms: 0,
        min_ms: u64::MAX,
        max_ms: 0,
        p50_ms: 0,
        p95_ms: 0,
        last_ms: 0,
        stability_permille: 1000,
    }
}

/// The aggregate after one more run of `d` milliseconds: the running mean
/// (rounded down), the extremes, the last duration, the median taken as
/// the mean and the 95th percentile as the maximum; stability decays by a
/// fifth on a failure or error and otherwise moves a fifth of the way to
/// 1000.
pub open spec fn timing_step(a: AggregatedTiming, d: u64, failed: bool) -> AggregatedTiming {
    let n = a.run_count + 1;
    let avg = ((a.avg_ms * (n - 1) + d) / n) as u64;
    let mx = if d > a.max_ms { d } else { a.max_ms };
    let decayed = a.stability_permille * 8 / 10;
    AggregatedTiming {
        nodeid: a.nodeid,
        run_count: n as u32,
        avg_ms: avg,
        min_ms: if d < a.min_ms { d } else { a.min_ms },
        max_ms: mx,
        p50_ms: avg,
        p95_ms: mx,
        last_ms: d,
        stability_permille: (if failed {
            decayed
        } else if decayed + 200 > 1000 {
            1000
        } else {
            decayed + 200
        }) as u32,
    }
}

/// Index of the aggregate of `id`, -1 when there is none.
pub open spec fn timing_index(aggs: Seq<AggregatedTiming>, id: Seq<char>) -> int
    decreases aggs.len(),
{
    if aggs.len() == 0 {
        -1
    } else if aggs.last().nodeid@ == id {
        aggs.len() - 1
    } else {
        timing_index(aggs.drop_last(), id)
    }
}

/// A result counts against stability when it failed or errored.
pub open spec fn counts_as_failure(o: Seq<char>) -> bool {
    o == "failed"@ || o == "error"@
}

/// The aggregates after one test result: its entry updated, or a new one
/// added at the end.
pub open spec fn with_result(aggs: Seq<AggregatedTiming>, t: PerTestResult) -> Seq<AggregatedTiming> {
    let k = timing_index(aggs, t.nodeid@);
    let failed = counts_as_failure(t.outcome@);
    if k >= 0 {
        aggs.update(k, timing_step(aggs[k], t.duration_ms, failed))
    } else {
        aggs.push(timing_step(fresh_timing(t.nodeid), t.duration_ms, failed))
    }
}

/// The aggregates after the results, in order.
pub open spec fn with_results(aggs: Seq<AggregatedTiming>, ts: Seq<PerTestResult>) -> Seq<AggregatedTiming>
    decreases ts.len(),
{
    if ts.len() == 0 {
        aggs
    } else {
        with_result(with_results(aggs, ts.drop_last()), ts.last())
    }
}

/// The per-test results of the batches, in order.
pub open spec fn all_results(rs: Seq<BatchResult>) -> Seq<PerTestResult>
    decreases rs.len(),
{
    if rs.len() == 0 {
        Seq::empty()
    } else {
        all_results(rs.drop_last()) + rs.last().per_test@
    }
}

/// Each test has at most one aggregate.
pub open spec fn timings_unique(aggs: Seq<AggregatedTiming>) -> bool {
    forall|i: int, j: int| 0 <= i < j < aggs.len() ==> aggs[i].nodeid@ != aggs[j].nodeid@
}

/// Every aggregate can take this many more runs without its count
/// overflowing.
pub open spec fn room_for_runs(aggs: Seq<AggregatedTiming>, extra: nat) -> bool {
    forall|i: int| 0 <= i < aggs.len() ==> aggs[i].run_count + extra <= u32::MAX
}

proof fn lemma_timing_index(aggs: Seq<AggregatedTiming>, id: Seq<char>)
    ensures
        -1 <= timing_index(aggs, id) < aggs.len(),
        timing_index(aggs, id) >= 0 ==> aggs[timing_index(aggs, id)].nodeid@ == id,
        timing_index(aggs, id) < 0 ==> forall|i: int| 0 <= i < aggs.len() ==> aggs[i].nodeid@ != id,
    decreases aggs.len(),
{
    if aggs.len() > 0 && aggs.last().nodeid@ != id {
        lemma_timing_index(aggs.drop_last(), id);
        assert forall|i: int| 0 <= i < aggs.len() - 1 implies aggs[i] == aggs.drop_last()[i] by {}
    }
}

proof fn lemma_with_result_keeps(aggs: Seq<AggregatedTiming>, t: PerTestResult, extra: nat)
    requires
        timings_unique(aggs),
        room_for_runs(aggs, extra + 1),
        extra + 1 <= u32::MAX,
    ensures
        timings_unique(with_result(aggs, t)),
        room_for_runs(with_result(aggs, t), extra),
{
    lemma_timing_index(aggs, t.nodeid@);
    let r = with_result(aggs, t);
    let k = timing_index(aggs, t.nodeid@);
    assert forall|i: int, j: int| 0 <= i < j < r.len() implies r[i].nodeid@ != r[j].nodeid@ by {
        if k < 0 && j == aggs.len() {
            assert(r[i] == aggs[i]);
        }
    }
    assert forall|i: int| 0 <= i < r.len() implies r[i].run_count + extra <= u32::MAX by {
        if i < aggs.len() && i != k {
            assert(r[i] == aggs[i]);
        }
    }
}

fn find_timing(aggs: &Vec<AggregatedTiming>, id: &String) -> (r: Option<usize>)
    ensures
        match r {
            Some(k) => k as int == timing_index(aggs@, id@),
            None => timing_index(aggs@, id@) == -1,
        },
{
    let mut i: usize = aggs.len();
    assert(aggs@.take(i as int) =~= aggs@);
    while i > 0
        invariant
            i <= aggs@.len(),
            timing_index(aggs@, id@) == timing_index(aggs@.take(i as int), id@),
        decreases i,
    {
        let ghost t = aggs@.take(i as int);
        assert(t.last() == aggs@[i - 1]);
        if crate::text::str_eq(aggs[i - 1].nodeid.as_str(), id.as_str()) {
            return Some(i - 1);
        }
        assert(t.drop_last() =~= aggs@.take(i - 1));
        i = i - 1;
    }
    None
}

fn step_timing(a: &AggregatedTiming, d: u64, failed: bool) -> (r: AggregatedTiming)
    requires
        a.run_count < u32::MAX,
    ensures
        r == timing_step(*a, d, failed),
{
    let n: u32 = a.run_count + 1;
    proof {
        assert((a.avg_ms as int) * ((n - 1) as int) <= u64::MAX * u32::MAX) by (nonlinear_arith)
            requires
                a.avg_ms <= u64::MAX,
                0 <= n - 1 <= u32::MAX;
        assert((a.avg_ms as int) * ((n - 1) as int) + d <= (u64::MAX as int) * (n as int)) by (nonlinear_arith)
            requires
                a.avg_ms <= u64::MAX,
                d <= u64::MAX,
                n >= 1;
    }
    let total: u128 = (a.avg_ms as u128) * ((n - 1) as u128) + (d as u128);
    let avg128: u128 = total / (n as u128);
    proof {
        assert(total / (n as u128) <= u64::MAX) by (nonlinear_arith)
            requires
                total <= (u64::MAX as int) * (n as int),
                n >= 1;
    }
    let avg: u64 = avg128 as u64;
    let mx: u64 = if d > a.max_ms { d } else { a.max_ms };
    let decayed64: u64 = (a.stability_permille as u64) * 8 / 10;
    let decayed: u32 = decayed64 as u32;
    let stab: u32 = if failed {
        decayed
    } else if decayed as u64 + 200 > 1000 {
        1000
    } else {
        decayed + 200
    };
    AggregatedTiming {
        nodeid: a.nodeid.clone(),
        run_count: n,
        avg_ms: avg,
        min_ms: if d < a.min_ms { d } else { a.min_ms },
        max_ms: mx,
        p50_ms: avg,
        p95_ms: mx,
        last_ms: d,
        stability_permille: stab,
    }
}

/// Folds the results of a run's batches into the aggregated timings, one
/// test result after the other (see [`with_results`]).
pub fn update_aggregated_timings(aggs: &mut Vec<AggregatedTiming>, results: &Vec<BatchResult>)
    requires
        timings_unique(old(aggs)@),
        room_for_runs(old(aggs)@, all_results(results@).len()),
        all_results(results@).len() <= u32::MAX,
    ensures
        final(aggs)@ == with_results(old(aggs)@, all_results(results@)),
        timings_unique(final(aggs)@),
{
    let ghost a0 = aggs@;
    let ghost all = all_results(results@);
    let mut i: usize = 0;
    while i < results.len()
        invariant
            i <= results@.len(),
            all == all_results(results@),
            aggs@ == with_results(a0, all_results(results@.subrange(0, i as int))),
            timings_unique(aggs@),
            room_for_runs(aggs@, (all.len() - all_results(results@.subrange(0, i as int)).len()) as nat),
            all_results(results@.subrange(0, i as int)).len() <= all.len(),
            all.len() <= u32::MAX,
        decreases results@.len() - i,
    {
        let ghost done = all_results(results@.subrange(0, i as int));
        proof {
            let s = results@.subrange(0, i + 1);
            assert(s.drop_last() =~= results@.subrange(0, i as int));
            assert(s.last() == results@[i as int]);
            lemma_results_prefix_len(results@, i + 1);
        }
        let ts = &results[i].per_test;
        let mut j: usize = 0;
        while j < ts.len()
            invariant
                j <= ts@.len(),
                i < results@.len(),
                ts@ == results@[i as int].per_test@,
                all == all_results(results@),
                done == all_results(results@.subrange(0, i as int)),
                done.len() + ts@.len() <= all.len(),
                aggs@ == with_results(a0, done + ts@.subrange(0, j as int)),
                timings_unique(aggs@),
                room_for_runs(aggs@, (all.len() - done.len() - j) as nat),
                all.len() <= u32::MAX,
            decreases ts@.len() - j,
        {
            let t = &ts[j];
            proof {
                let pre = done + ts@.subrange(0, j as int);
                let post = done + ts@.subrange(0, j + 1);
                assert(post.drop_last() =~= pre);
                assert(post.last() == ts@[j as int]);
                lemma_with_result_keeps(aggs@, *t, (all.len() - done.len() - j - 1) as nat);
                lemma_timing_index(aggs@, t.nodeid@);
            }
            let failed = crate::text::str_eq(t.outcome.as_str(), "failed") || crate::text::str_eq(
                t.outcome.as_str(),
                "error",
            );
            match find_timing(aggs, &t.nodeid) {
                Some(k) => {
                    let updated = step_timing(&aggs[k], t.duration_ms, failed);
                    aggs.set(k, updated);
                },
                None => {
                    let fresh = AggregatedTiming {
                        nodeid: t.nodeid.clone(),
                        run_count: 0,
                        avg_ms: 0,
                        min_ms: u64::MAX,
                        max_ms: 0,
                        p50_ms: 0,
                        p95_ms: 0,
                        last_ms: 0,
                        stability_permille: 1000,
                    };
                    let updated = step_timing(&fresh, t.duration_ms, failed);
                    aggs.push(updated);
                },
            }
            j = j + 1;
        }
        assert(ts@.subrange(0, ts@.len() as int) =~= ts@);
        i = i + 1;
    }
    assert(results@.subrange(0, results@.len() as int) =~= results@);
}

proof fn lemma_results_prefix_len(rs: Seq<BatchResult>, i: int)
    requires
        0 <= i <= rs.len(),
    ensures
        all_results(rs.subrange(0, i)).len() <= all_results(rs).len(),
    decreases rs.len() - i,
{
    if i < rs.len() {
        lemma_results_prefix_len(rs, i + 1);
        assert(rs.subrange(0, i + 1).drop_last() =~= rs.subrange(0, i));
    } else {
        assert(rs.subrange(0, i) =~= rs);
    }
}

} // verus!
