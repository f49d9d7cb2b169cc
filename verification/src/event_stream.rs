//! CI reporting: the events of a run, JUnit XML and run identifiers.
//! Times are milliseconds; timestamps are RFC 3339 text.
use crate::planner::decimal;
use vstd::prelude::*;

verus! {

/// Outcome of a test case in the event stream.
#[derive(Debug, Clone, Copy, PartialEq, Eq, Structural)]
pub enum TestOutcome {
    Passed,
    Failed,
    Skipped,
    Error,
}

/// Level of a log event.
#[derive(Debug, Clone, Copy, PartialEq, Eq, Structural)]
pub enum LogLevel {
    Debug,
    Info,
    Warning,
    Error,
}

/// One event of the stream.
#[derive(Debug)]
pub enum EventType {
    Start {
        timestamp: String,
        run_id: String,
        total_tests: u32,
        selected_tests: u32,
        workers: u32,
        strategy: String,
    },
    Plan {
        timestamp: String,
        run_id: String,
        shard_id: Option<u32>,
        selected_nodeids: Vec<String>,
        broaden_reason: Option<String>,
        estimated_duration_ms: u64,
    },
    Case {
        timestamp: String,
        run_id: String,
        shard_id: Option<u32>,
        worker_id: Option<String>,
        nodeid: String,
        outcome: TestOutcome,
        duration_ms: u64,
        message: Option<String>,
    },
    Summary {
        timestamp: String,
        run_id: String,
        shard_id: Option<u32>,
        total_duration_ms: u64,
        tests_run: u32,
        tests_passed: u32,
        tests_failed: u32,
        tests_skipped: u32,
        tests_error: u32,
        exit_code: i32,
    },
    Log { timestamp: String, run_id: String, level: LogLevel, message: String },
}

/// The run an event stream belongs to.  Writing the events out is left to
/// the program; the stream stamps them with the run and shard.
#[derive(Debug)]
pub struct EventStream {
    pub run_id: String,
    pub shard_id: Option<u32>,
}

impl EventStream {
    pub fn new(run_id: String) -> (s: Self)
        ensures
            s.run_id == run_id,
            s.shard_id is None,
    {
        EventStream { run_id, shard_id: None }
    }

    pub fn with_shard(run_id: String, shard_id: u32) -> (s: Self)
        ensures
            s.run_id == run_id,
            s.shard_id == Some(shard_id),
    {
        EventStream { run_id, shard_id: Some(shard_id) }
    }

    /// The start event (carries no shard).
    pub fn start_event(&self, timestamp: String, total_tests: u32, selected_tests: u32, workers: u32, strategy: &str) -> (e: EventType)
        ensures
            e matches EventType::Start { timestamp: t, run_id, total_tests: a, selected_tests: b, workers: w, strategy: s }
                && t == timestamp && run_id@ == self.run_id@ && a == total_tests && b == selected_tests && w == workers
                && s@ == strategy@,
    {
        EventType::Start {
            timestamp,
            run_id: self.run_id.clone(),
            total_tests,
            selected_tests,
            workers,
            strategy: strategy.to_owned(),
        }
    }

    /// The plan event, stamped with the shard.
    pub fn plan_event(&self, timestamp: String, selected_nodeids: Vec<String>, broaden_reason: Option<String>, estimated_duration_ms: u64) -> (e: EventType)
        ensures
            e matches EventType::Plan { timestamp: t, run_id, shard_id, selected_nodeids: n, broaden_reason: b, estimated_duration_ms: d }
                && t == timestamp && run_id@ == self.run_id@ && shard_id == self.shard_id && n == selected_nodeids
                && b == broaden_reason && d == estimated_duration_ms,
    {
        EventType::Plan {
            timestamp,
            run_id: self.run_id.clone(),
            shard_id: self.shard_id,
            selected_nodeids,
            broaden_reason,
            estimated_duration_ms,
        }
    }

    /// The event for one test case, stamped with the shard.
    pub fn case_event(&self, timestamp: String, worker_id: Option<String>, nodeid: String, outcome: TestOutcome, duration_ms: u64, message: Option<String>) -> (e: EventType)
        ensures
            e matches EventType::Case { timestamp: t, run_id, shard_id, worker_id: w, nodeid: n, outcome: o, duration_ms: d, message: m }
                && t == timestamp && run_id@ == self.run_id@ && shard_id == self.shard_id && w == worker_id
                && n == nodeid && o == outcome && d == duration_ms && m == message,
    {
        EventType::Case {
            timestamp,
            run_id: self.run_id.clone(),
            shard_id: self.shard_id,
            worker_id,
            nodeid,
            outcome,
            duration_ms,
            message,
        }
    }

    /// The summary event, stamped with the shard.
    pub fn summary_event(
        &self,
        timestamp: String,
        total_duration_ms: u64,
        tests_run: u32,
        tests_passed: u32,
        tests_failed: u32,
        tests_skipped: u32,
        tests_error: u32,
        exit_code: i32,
    ) -> (e: EventType)
        ensures
            e matches EventType::Summary { timestamp: t, run_id, shard_id, total_duration_ms: d, tests_run: r, tests_passed: p, tests_failed: f, tests_skipped: s, tests_error: x, exit_code: c }
                && t == timestamp && run_id@ == self.run_id@ && shard_id == self.shard_id && d == total_duration_ms
                && r == tests_run && p == tests_passed && f == tests_failed && s == tests_skipped && x == tests_error
                && c == exit_code,
    {
        EventType::Summary {
            timestamp,
            run_id: self.run_id.clone(),
            shard_id: self.shard_id,
            total_duration_ms,
            tests_run,
            tests_passed,
            tests_failed,
            tests_skipped,
            tests_error,
            exit_code,
        }
    }

    /// A log event (carries no shard).
    pub fn log_event(&self, timestamp: String, level: LogLevel, message: String) -> (e: EventType)
        ensures
            e matches EventType::Log { timestamp: t, run_id, level: l, message: m } && t == timestamp
                && run_id@ == self.run_id@ && l == level && m == message,
    {
        EventType::Log { timestamp, run_id: self.run_id.clone(), level, message }
    }
}

/// Lower-case hexadecimal digit.
pub open spec fn hex_char(d: nat) -> char {
    if d < 10 {
        crate::planner::digit_char(d)
    } else if d == 10 {
        'a'
    } else if d == 11 {
        'b'
    } else if d == 12 {
        'c'
    } else if d == 13 {
        'd'
    } else if d == 14 {
        'e'
    } else {
        'f'
    }
}

/// The eight hexadecimal digits of `n`, most significant first.
pub open spec fn hex8(n: u32) -> Seq<char> {
    Seq::new(8, |j: int| hex_char(((n >> ((28 - 4 * j) as u32)) & 0xfu32) as nat))
}

/// The identifier of a run started at `seconds` (Unix time) with random
/// suffix `suffix`: `veri-<seconds>-<suffix as 8 hex digits>`.
pub open spec fn run_id_text(seconds: nat, suffix: u32) -> Seq<char> {
    "veri-"@ + decimal(seconds) + "-"@ + hex8(suffix)
}

fn hex_digit(d: u32) -> (c: char)
    requires
        d < 16,
    ensures
        c == hex_char(d as nat),
{
    if d < 10 {
        crate::planner::digit(d as u128)
    } else if d == 10 {
        'a'
    } else if d == 11 {
        'b'
    } else if d == 12 {
        'c'
    } else if d == 13 {
        'd'
    } else if d == 14 {
        'e'
    } else {
        'f'
    }
}

/// The run identifier for a start time and a random suffix (see [`run_id_text`]).
pub fn format_run_id(seconds: u64, suffix: u32) -> (r: String)
    ensures
        r@ == run_id_text(seconds as nat, suffix),
{
    let mut r = "veri-".to_owned();
    let d = crate::planner::decimal_string(seconds as u128);
    r.append(d.as_str());
    r.append("-");
    let ghost head = r@;
    let mut j: u32 = 0;
    while j < 8
        invariant
            j <= 8,
            r@ == head + hex8(suffix).take(j as int),
        decreases 8 - j,
    {
        let sh: u32 = 28 - 4 * j;
        let nib: u32 = (suffix >> sh) & 0xf;
        assert(nib < 16) by (bit_vector)
            requires
                nib == (suffix >> sh) & 0xf,
        ;
        crate::text::push_char(&mut r, hex_digit(nib));
        assert(r@ =~= head + hex8(suffix).take(j + 1));
        j = j + 1;
    }
    assert(hex8(suffix).take(8) =~= hex8(suffix));
    assert(r@ =~= run_id_text(seconds as nat, suffix));
    r
}

/// Seconds since the Unix epoch, 0 when the clock is before it.
///
/// Wraps `SystemTime::now().duration_since(UNIX_EPOCH)`; nothing is claimed
/// of the value, which depends on the clock.
#[verifier::external_body]
pub(crate) fn unix_seconds() -> (s: u64) {
    std::time::SystemTime::now().duration_since(std::time::UNIX_EPOCH).unwrap_or_default().as_secs()
}

/// A random 32-bit number.
///
/// Wraps `rand::random::<u32>`; nothing is claimed of the value.
#[verifier::external_body]
fn random_u32() -> (r: u32) {
    rand::random::<u32>()
}

/// A fresh run identifier from the current time and a random suffix.
pub fn generate_run_id() -> (r: String)
    ensures
        exists|s: nat, x: u32| r@ == run_id_text(s, x),
{
    let s = unix_seconds();
    let x = random_u32();
    format_run_id(s, x)
}

/// The XML escape of one character.
pub open spec fn xml_escape_char(c: char) -> Seq<char> {
    if c == '&' {
        "&amp;"@
    } else if c == '<' {
        "&lt;"@
    } else if c == '>' {
        "&gt;"@
    } else if c == '"' {
        "&quot;"@
    } else if c == '\'' {
        "&apos;"@
    } else {
        seq![c]
    }
}

/// Text with `&`, `<`, `>`, `"` and `'` escaped for XML.
pub open spec fn xml_escaped(s: Seq<char>) -> Seq<char>
    decreases s.len(),
{
    if s.len() == 0 {
        Seq::empty()
    } else {
        xml_escaped(s.drop_last()) + xml_escape_char(s.last())
    }
}

/// Escapes text for XML attributes and content (see [`xml_escaped`]).
pub fn escape_xml(text: &str) -> (r: String)
    ensures
        r@ == xml_escaped(text@),
{
    let cs = crate::text::chars_of(text);
    let mut r = String::new();
    let mut i: usize = 0;
    while i < cs.len()
        invariant
            i <= cs@.len(),
            cs@ == text@,
            r@ == xml_escaped(text@.take(i as int)),
        decreases cs@.len() - i,
    {
        let c = cs[i];
        if c == '&' {
            r.append("&amp;");
        } else if c == '<' {
            r.append("&lt;");
        } else if c == '>' {
            r.append("&gt;");
        } else if c == '"' {
            r.append("&quot;");
        } else if c == '\'' {
            r.append("&apos;");
        } else {
            crate::text::push_char(&mut r, c);
        }
        proof {
            let t = text@.take(i + 1);
            assert(t.drop_last() =~= text@.take(i as int));
            assert(t.last() == c);
            assert(r@ =~= xml_escaped(t));
        }
        i = i + 1;
    }
    assert(text@.take(cs@.len() as int) =~= text@);
    r
}

/// How a JUnit test case ended.
#[derive(Debug)]
pub enum JUnitResult {
    Passed,
    Failed { message: String, details: String },
    Skipped { message: String },
    Error { message: String, details: String },
}

/// One JUnit test case; its time is in milliseconds.
#[derive(Debug)]
pub struct JUnitTestCase {
    pub name: String,
    pub classname: String,
    pub time_ms: u64,
    pub result: JUnitResult,
}

/// Milliseconds as seconds with three decimals.
pub open spec fn seconds_text(ms: nat) -> Seq<char> {
    decimal(ms / 1000) + "."@ + seq![
        crate::planner::digit_char(ms % 1000 / 100),
        crate::planner::digit_char(ms % 100 / 10),
        crate::planner::digit_char(ms % 10),
    ]
}

/// Milliseconds as seconds with three decimals (see [`seconds_text`]).
pub fn seconds_string(ms: u64) -> (r: String)
    ensures
        r@ == seconds_text(ms as nat),
{
    let mut r = crate::planner::decimal_string((ms / 1000) as u128);
    r.append(".");
    crate::text::push_char(&mut r, crate::planner::digit((ms % 1000 / 100) as u128));
    crate::text::push_char(&mut r, crate::planner::digit((ms % 100 / 10) as u128));
    crate::text::push_char(&mut r, crate::planner::digit((ms % 10) as u128));
    assert(r@ =~= seconds_text(ms as nat));
    r
}

/// The XML of one test case.
pub open spec fn case_xml(c: JUnitTestCase) -> Seq<char> {
    case_head(c) + case_tail(c.result)
}

/// The opening of a test case's element, up to its attributes.
pub open spec fn case_head(c: JUnitTestCase) -> Seq<char> {
    "  <testcase name=\""@ + xml_escaped(c.name@) + "\" classname=\""@ + xml_escaped(c.classname@)
        + "\" time=\""@ + seconds_text(c.time_ms as nat) + "\""@
}

/// The rest of a test case's element, which depends on how it ended.
pub open spec fn case_tail(r: JUnitResult) -> Seq<char> {
    match r {
        JUnitResult::Passed => " />\n"@,
        JUnitResult::Failed { message, details } => ">\n"@ + "    <failure message=\""@ + xml_escaped(message@)
            + "\">"@ + xml_escaped(details@) + "</failure>\n"@ + "  </testcase>\n"@,
        JUnitResult::Error { message, details } => ">\n"@ + "    <error message=\""@ + xml_escaped(message@)
            + "\">"@ + xml_escaped(details@) + "</error>\n"@ + "  </testcase>\n"@,
        JUnitResult::Skipped { message } => ">\n"@ + "    <skipped message=\""@ + xml_escaped(message@)
            + "\" />\n"@ + "  </testcase>\n"@,
    }
}

/// The XML of all test cases, in order.
pub open spec fn cases_xml(cs: Seq<JUnitTestCase>) -> Seq<char>
    decreases cs.len(),
{
    if cs.len() == 0 {
        Seq::empty()
    } else {
        cases_xml(cs.drop_last()) + case_xml(cs.last())
    }
}

/// Number of test cases whose result satisfies `f`.
pub open spec fn count_results(cs: Seq<JUnitTestCase>, kind: int) -> nat
    decreases cs.len(),
{
    if cs.len() == 0 {
        0
    } else {
        count_results(cs.drop_last(), kind) + if result_kind(cs.last().result) == kind {
            1nat
        } else {
            0nat
        }
    }
}

/// 0 passed, 1 failed, 2 skipped, 3 error.
pub open spec fn result_kind(r: JUnitResult) -> int {
    match r {
        JUnitResult::Passed => 0,
        JUnitResult::Failed { .. } => 1,
        JUnitResult::Skipped { .. } => 2,
        JUnitResult::Error { .. } => 3,
    }
}

/// The JUnit document for the cases and the suite time.
pub open spec fn junit_xml(cs: Seq<JUnitTestCase>, total_ms: nat) -> Seq<char> {
    "<?xml version=\"1.0\" encoding=\"UTF-8\"?>\n"@ + "<testsuite name=\"veri\" tests=\""@ + decimal(cs.len())
        + "\" failures=\""@ + decimal(count_results(cs, 1)) + "\" errors=\""@ + decimal(count_results(cs, 3))
        + "\" skipped=\""@ + decimal(count_results(cs, 2)) + "\" time=\""@ + seconds_text(total_ms) + "\">\n"@
        + cases_xml(cs) + "</testsuite>\n"@
}

/// Collects test cases for a JUnit report.  Writing the file is left to the
/// program.
#[derive(Debug)]
pub struct JUnitWriter {
    pub output_path: String,
    pub test_cases: Vec<JUnitTestCase>,
}

proof fn lemma_count_le(cs: Seq<JUnitTestCase>, kind: int)
    ensures
        count_results(cs, kind) <= cs.len(),
    decreases cs.len(),
{
    if cs.len() > 0 {
        lemma_count_le(cs.drop_last(), kind);
    }
}

impl JUnitWriter {
    pub fn new(output_path: String) -> (w: Self)
        ensures
            w.output_path == output_path,
            w.test_cases@.len() == 0,
    {
        JUnitWriter { output_path, test_cases: Vec::new() }
    }

    pub fn add_test_case(&mut self, test_case: JUnitTestCase)
        ensures
            final(self).test_cases@ == old(self).test_cases@.push(test_case),
            final(self).output_path == old(self).output_path,
    {
        self.test_cases.push(test_case);
    }

    /// The JUnit XML document (see [`junit_xml`]) for a suite that ran
    /// `total_time_ms`.
    pub fn render(&self, total_time_ms: u64) -> (r: String)
        ensures
            r@ == junit_xml(self.test_cases@, total_time_ms as nat),
    {
        let mut failures: usize = 0;
        let mut errors: usize = 0;
        let mut skipped: usize = 0;
        let mut body = String::new();
        let mut i: usize = 0;
        while i < self.test_cases.len()
            invariant
                i <= self.test_cases@.len(),
                failures == count_results(self.test_cases@.subrange(0, i as int), 1),
                errors == count_results(self.test_cases@.subrange(0, i as int), 3),
                skipped == count_results(self.test_cases@.subrange(0, i as int), 2),
                body@ == cases_xml(self.test_cases@.subrange(0, i as int)),
            decreases self.test_cases@.len() - i,
        {
            let c = &self.test_cases[i];
            proof {
                let sub = self.test_cases@.subrange(0, i + 1);
                assert(sub.drop_last() =~= self.test_cases@.subrange(0, i as int));
                assert(sub.last() == *c);
                lemma_count_le(self.test_cases@.subrange(0, i as int), 1);
                lemma_count_le(self.test_cases@.subrange(0, i as int), 2);
                lemma_count_le(self.test_cases@.subrange(0, i as int), 3);
            }
            match &c.result {
                JUnitResult::Failed { .. } => failures = failures + 1,
                JUnitResult::Error { .. } => errors = errors + 1,
                JUnitResult::Skipped { .. } => skipped = skipped + 1,
                JUnitResult::Passed => {},
            }
            push_case_xml(&mut body, c);
            i = i + 1;
        }
        assert(self.test_cases@.subrange(0, self.test_cases@.len() as int) =~= self.test_cases@);
        let mut xml = "<?xml version=\"1.0\" encoding=\"UTF-8\"?>\n".to_owned();
        xml.append("<testsuite name=\"veri\" tests=\"");
        let n = crate::planner::decimal_string(self.test_cases.len() as u128);
        xml.append(n.as_str());
        xml.append("\" failures=\"");
        let f = crate::planner::decimal_string(failures as u128);
        xml.append(f.as_str());
        xml.append("\" errors=\"");
        let e = crate::planner::decimal_string(errors as u128);
        xml.append(e.as_str());
        xml.append("\" skipped=\"");
        let s = crate::planner::decimal_string(skipped as u128);
        xml.append(s.as_str());
        xml.append("\" time=\"");
        let t = seconds_string(total_time_ms);
        xml.append(t.as_str());
        xml.append("\">\n");
        xml.append(body.as_str());
        xml.append("</testsuite>\n");
        assert(xml@ =~= junit_xml(self.test_cases@, total_time_ms as nat));
        xml
    }
}

/// Appends the XML of one test case.
fn push_case_xml(out: &mut String, c: &JUnitTestCase)
    ensures
        final(out)@ == old(out)@ + case_xml(*c),
{
    let ghost o0 = out@;
    push_case_head(out, c);
    push_case_tail(out, &c.result);
    assert(out@ =~= o0 + case_xml(*c));
}

fn push_case_head(out: &mut String, c: &JUnitTestCase)
    ensures
        final(out)@ == old(out)@ + case_head(*c),
{
    let ghost o0 = out@;
    out.append("  <testcase name=\"");
    let n = escape_xml(c.name.as_str());
    out.append(n.as_str());
    out.append("\" classname=\"");
    let k = escape_xml(c.classname.as_str());
    out.append(k.as_str());
    out.append("\" time=\"");
    let t = seconds_string(c.time_ms);
    out.append(t.as_str());
    out.append("\"");
    assert(out@ =~= o0 + case_head(*c));
}

fn push_case_tail(out: &mut String, r: &JUnitResult)
    ensures
        final(out)@ == old(out)@ + case_tail(*r),
{
    let ghost o0 = out@;
    match r {
        JUnitResult::Passed => {
            out.append(" />\n");
        },
        JUnitResult::Failed { message, details } => {
            out.append(">\n    <failure message=\"");
            let m = escape_xml(message.as_str());
            out.append(m.as_str());
            out.append("\">");
            let d = escape_xml(details.as_str());
            out.append(d.as_str());
            out.append("</failure>\n  </testcase>\n");
        },
        JUnitResult::Error { message, details } => {
            out.append(">\n    <error message=\"");
            let m = escape_xml(message.as_str());
            out.append(m.as_str());
            out.append("\">");
            let d = escape_xml(details.as_str());
            out.append(d.as_str());
            out.append("</error>\n  </testcase>\n");
        },
        JUnitResult::Skipped { message } => {
            out.append(">\n    <skipped message=\"");
            let m = escape_xml(message.as_str());
            out.append(m.as_str());
            out.append("\" />\n  </testcase>\n");
        },
    }
    proof {
        reveal_strlit(">\n    <failure message=\"");
        reveal_strlit(">\n"); reveal_strlit("    <failure message=\"");
        reveal_strlit("</failure>\n  </testcase>\n"); reveal_strlit("</failure>\n"); reveal_strlit("  </testcase>\n");
        reveal_strlit(">\n    <error message=\""); reveal_strlit("    <error message=\"");
        reveal_strlit("</error>\n  </testcase>\n"); reveal_strlit("</error>\n");
        reveal_strlit(">\n    <skipped message=\""); reveal_strlit("    <skipped message=\"");
        reveal_strlit("\" />\n  </testcase>\n"); reveal_strlit("\" />\n");
    }
    assert(out@ =~= o0 + case_tail(*r));
}

} // verus!
