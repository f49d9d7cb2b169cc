//! The CI subcommands: splitting the suite into shards and running one
//! shard.  Collecting tests, reading the manifest, running the tests and
//! writing reports are left to the program; these functions decide what it
//! prints, which tests it runs and what it reports.
use vstd::prelude::*;
use crate::cli::{exit_status, Cli, ExitCode};
use crate::order::views;
use crate::planner::{decimal, tenths_text};
use crate::python_worker::TestRunOptions;
use crate::schemas::{Shard, ShardTest, ShardsManifest};
use crate::sharder::{
    count_sum, expected_ids, out_of_range_text, seconds_text, shard_ids, sort_ids, ShardingStats,
    TestSharder,
};

verus! {

/// The line announcing a split.
pub fn split_start_line(shards: u32) -> (r: String)
    ensures
        r@ == "🔀 Splitting tests into "@ + decimal(shards as nat) + " shards"@,
{
    let mut r = "🔀 Splitting tests into ".to_owned();
    let d = crate::planner::decimal_string(shards as u128);
    r.append(d.as_str());
    r.append(" shards");
    r
}

/// The lines closing a split: the number of shards and their balance, the
/// total and average estimates, and the explanation when one is given.
pub fn split_done_lines(stats: &ShardingStats, explain: Option<String>) -> (r: Vec<String>)
    ensures
        views(r@) == seq![
            "📊 Generated "@ + decimal(stats.total_shards as nat) + " shards with "@ + tenths_text(
                stats.balance_ratio_permille as nat,
            ) + "% load balance"@,
            "⏱️  Total estimated duration: "@ + seconds_text(stats.total_estimated_duration_ms as nat)
                + "s (avg per shard: "@ + seconds_text(stats.avg_shard_duration_ms as nat) + "s)"@,
        ] + match explain {
            Some(e) => seq![e@],
            None => Seq::empty(),
        },
{
    let mut a = "📊 Generated ".to_owned();
    let n = crate::planner::decimal_string(stats.total_shards as u128);
    a.append(n.as_str());
    a.append(" shards with ");
    let b = crate::planner::tenths_string(stats.balance_ratio_permille as u128);
    a.append(b.as_str());
    a.append("% load balance");
    let mut c = "⏱️  Total estimated duration: ".to_owned();
    let t = crate::sharder::seconds_string(stats.total_estimated_duration_ms);
    c.append(t.as_str());
    c.append("s (avg per shard: ");
    let v = crate::sharder::seconds_string(stats.avg_shard_duration_ms);
    c.append(v.as_str());
    c.append("s)");
    let ghost av = a@;
    let ghost cv = c@;
    let mut r: Vec<String> = Vec::new();
    r.push(a);
    r.push(c);
    match explain {
        Some(e) => {
            let ghost ev = e@;
            r.push(e);
            assert(views(r@) =~= seq![av, cv, ev]);
        },
        None => {
            assert(views(r@) =~= seq![av, cv]);
        },
    }
    r
}

/// What running one shard comes to.
#[derive(Debug)]
pub enum ShardStep {
    /// The shard holds no tests: print the header and the notice, succeed.
    Empty { header: String, notice: String },
    /// Run these tests; the total is over all shards of the manifest.
    Run { header: String, nodeids: Vec<String>, total_tests: u32, test_count: u32, estimated_duration_ms: u64 },
}

/// The header printed for a shard.
pub open spec fn shard_header(s: Shard) -> Seq<char> {
    "📋 Shard "@ + decimal(s.shard_id as nat) + ": "@ + decimal(s.test_count as nat) + " tests, estimated "@
        + seconds_text(s.estimated_duration_ms as nat) + "s"@
}

/// The first shard with the id.
pub open spec fn shard_with_id(shards: Seq<Shard>, id: u32) -> Option<Shard>
    decreases shards.len(),
{
    if shards.len() == 0 {
        None
    } else if shards[0].shard_id == id {
        Some(shards[0])
    } else {
        shard_with_id(shards.drop_first(), id)
    }
}

proof fn lemma_shard_with_id(shards: Seq<Shard>, id: u32, k: int)
    requires
        0 <= k < shards.len(),
        shards[k].shard_id == id,
        forall|j: int| 0 <= j < k ==> (#[trigger] shards[j]).shard_id != id,
    ensures
        shard_with_id(shards, id) == Some(shards[k]),
    decreases k,
{
    if k > 0 {
        let r = shards.drop_first();
        assert forall|j: int| 0 <= j < k - 1 implies (#[trigger] r[j]).shard_id != id by {
            assert(r[j] == shards[j + 1]);
        }
        lemma_shard_with_id(r, id, k - 1);
    }
}

proof fn lemma_no_shard_with_id(shards: Seq<Shard>, id: u32)
    requires
        forall|j: int| 0 <= j < shards.len() ==> (#[trigger] shards[j]).shard_id != id,
    ensures
        shard_with_id(shards, id) is None,
    decreases shards.len(),
{
    if shards.len() > 0 {
        let r = shards.drop_first();
        assert forall|j: int| 0 <= j < r.len() implies (#[trigger] r[j]).shard_id != id by {
            assert(r[j] == shards[j + 1]);
        }
        lemma_no_shard_with_id(r, id);
    }
}

/// Decides how to run shard `shard_id` of a manifest: the manifest must
/// validate, the id be in range and the shard be present; then its tests
/// run, unless it has none.
pub fn prepare_shard(sharder: &TestSharder, manifest: &ShardsManifest, shard_id: u32) -> (r: Result<
    ShardStep,
    String,
>)
    requires
        count_sum(manifest.shards@) <= u32::MAX,
    ensures
        manifest.format_version@ != "veri-shards@1"@ ==> r is Err,
        r is Ok ==> manifest.format_version@ == "veri-shards@1"@ && sort_ids(shard_ids(manifest.shards@))
            == expected_ids(manifest.total_shards as nat) && shard_id < manifest.total_shards,
        (manifest.format_version@ == "veri-shards@1"@ && sort_ids(shard_ids(manifest.shards@)) == expected_ids(
            manifest.total_shards as nat,
        ) && shard_id >= manifest.total_shards) ==> r is Err && r->Err_0@ == out_of_range_text(
            shard_id as nat,
            manifest.total_shards as nat,
        ),
        (manifest.format_version@ == "veri-shards@1"@ && sort_ids(shard_ids(manifest.shards@)) == expected_ids(
            manifest.total_shards as nat,
        ) && shard_id < manifest.total_shards) ==> match shard_with_id(manifest.shards@, shard_id) {
            None => r is Err && r->Err_0@ == "Shard "@ + decimal(shard_id as nat) + " not found in manifest"@,
            Some(s) => r matches Ok(step) && match step {
                ShardStep::Empty { header, notice } => s.tests@.len() == 0 && header@ == shard_header(s)
                    && notice@ == "✅ No tests to run in this shard"@,
                ShardStep::Run { header, nodeids, total_tests, test_count, estimated_duration_ms } => s.tests@.len()
                    > 0 && header@ == shard_header(s) && views(nodeids@) == s.tests@.map_values(
                    |t: ShardTest| t.nodeid@,
                ) && total_tests == count_sum(manifest.shards@) && test_count == s.test_count
                    && estimated_duration_ms == s.estimated_duration_ms,
            },
        },
{
    sharder.validate_manifest(manifest)?;
    let found = sharder.get_shard(manifest, shard_id)?;
    let shard = match found {
        Some(s) => s,
        None => {
            proof {
                lemma_no_shard_with_id(manifest.shards@, shard_id);
            }
            let mut m = "Shard ".to_owned();
            let d = crate::planner::decimal_string(shard_id as u128);
            m.append(d.as_str());
            m.append(" not found in manifest");
            return Err(m);
        },
    };
    proof {
        let k = choose|k: int|
            0 <= k < manifest.shards@.len() && *shard == manifest.shards@[k] && shard.shard_id == shard_id
                && forall|j: int| 0 <= j < k ==> (#[trigger] manifest.shards@[j]).shard_id != shard_id;
        lemma_shard_with_id(manifest.shards@, shard_id, k);
    }
    let mut header = "📋 Shard ".to_owned();
    let a = crate::planner::decimal_string(shard.shard_id as u128);
    header.append(a.as_str());
    header.append(": ");
    let b = crate::planner::decimal_string(shard.test_count as u128);
    header.append(b.as_str());
    header.append(" tests, estimated ");
    let c = crate::sharder::seconds_string(shard.estimated_duration_ms);
    header.append(c.as_str());
    header.append("s");
    assert(header@ =~= shard_header(*shard));
    let nodeids = sharder.extract_nodeids(shard);
    assert(views(nodeids@).len() == nodeids@.len());
    assert(shard.tests@.map_values(|t: ShardTest| t.nodeid@).len() == shard.tests@.len());
    if nodeids.len() == 0 {
        return Ok(ShardStep::Empty { header, notice: "✅ No tests to run in this shard".to_owned() });
    }
    let mut total: u32 = 0;
    let mut i: usize = 0;
    assert(manifest.shards@.take(0) =~= Seq::<Shard>::empty());
    while i < manifest.shards.len()
        invariant
            i <= manifest.shards@.len(),
            count_sum(manifest.shards@) <= u32::MAX,
            total == count_sum(manifest.shards@.take(i as int)),
        decreases manifest.shards@.len() - i,
    {
        proof {
            lemma_count_prefix_le(manifest.shards@, i + 1);
        }
        assert(manifest.shards@.take(i + 1).drop_last() =~= manifest.shards@.take(i as int));
        total = total + manifest.shards[i].test_count;
        i = i + 1;
    }
    assert(manifest.shards@.take(manifest.shards@.len() as int) =~= manifest.shards@);
    Ok(
        ShardStep::Run {
            header,
            nodeids,
            total_tests: total,
            test_count: shard.test_count,
            estimated_duration_ms: shard.estimated_duration_ms,
        },
    )
}

proof fn lemma_count_prefix_le(shards: Seq<Shard>, i: int)
    requires
        0 <= i <= shards.len(),
    ensures
        count_sum(shards.take(i)) <= count_sum(shards),
    decreases shards.len() - i,
{
    if i < shards.len() {
        lemma_count_prefix_le(shards, i + 1);
        assert(shards.take(i + 1).drop_last() =~= shards.take(i));
    }
    assert(shards.take(shards.len() as int) =~= shards);
}

/// The options a shard's tests run with: the command line's verbosity,
/// capture and stop settings, the configured JUnit report and coverage,
/// one worker, coverage of `src` with the usual omissions.
pub fn shard_run_options(cli: &Cli, junit_xml: Option<String>, cov: bool, cov_merge_full: bool) -> (o: TestRunOptions)
    ensures
        o.verbose == (cli.verbose > 0),
        o.quiet == cli.quiet,
        o.no_capture == cli.no_capture,
        o.exitfirst == cli.exitfirst,
        o.maxfail == cli.maxfail,
        o.junit_xml == junit_xml,
        o.workers matches Some(w) && w@ == "1"@,
        o.ignore@.len() == 0,
        o.coverage == cov,
        o.coverage_xml == (cov || cov_merge_full),
        !o.coverage_html,
        views(o.coverage_source_dirs@) == seq!["src"@],
        views(o.coverage_omit@) == crate::coverage::default_omit(),
{
    let mut o = crate::orchestrator::run_options_for(cli, "1".to_owned());
    o.junit_xml = junit_xml;
    o.coverage = cov;
    o.coverage_xml = cov || cov_merge_full;
    o
}

/// The pass and fail counts reported for a shard, known only from its exit
/// code: all passed on success, all failed otherwise.
pub fn shard_summary_counts(exit: ExitCode, n: u32) -> (r: (u32, u32))
    ensures
        r == if exit == ExitCode::Success {
            (n, 0u32)
        } else {
            (0u32, n)
        },
{
    if exit == ExitCode::Success {
        (n, 0)
    } else {
        (0, n)
    }
}

/// The status a shard run exits with.
pub fn shard_exit_status(exit: ExitCode) -> (r: i32)
    ensures
        r == exit_status(exit),
{
    exit.code()
}

/// The line closing a shard run.
pub fn shard_done_line(shard_id: u32, duration_ms: u64) -> (r: String)
    ensures
        r@ == "✅ Shard "@ + decimal(shard_id as nat) + " completed in "@ + seconds_text(duration_ms as nat) + "s"@,
{
    let mut r = "✅ Shard ".to_owned();
    let d = crate::planner::decimal_string(shard_id as u128);
    r.append(d.as_str());
    r.append(" completed in ");
    let s = crate::sharder::seconds_string(duration_ms);
    r.append(s.as_str());
    r.append("s");
    r
}

} // verus!
