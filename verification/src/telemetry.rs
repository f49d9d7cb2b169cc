//! Opt-in usage telemetry: aggregated counters only, never test names,
//! code paths or personal data.  Times are milliseconds; averages of counts
//! are kept in thousandths.
use crate::order::views;
use vstd::prelude::*;

verus! {

/// Telemetry settings.
#[derive(Debug)]
pub struct TelemetryConfig {
    pub enabled: bool,
    pub endpoint: Option<String>,
    pub collection_interval: u64,
    pub collect_performance: bool,
    pub collect_usage: bool,
    pub max_queue_size: usize,
}

impl TelemetryConfig {
    /// Off, no endpoint, every 300 seconds, performance and usage collected,
    /// at most 1000 queued events.
    pub fn default_config() -> (c: Self)
        ensures
            !c.enabled,
            c.endpoint is None,
            c.collection_interval == 300,
            c.collect_performance,
            c.collect_usage,
            c.max_queue_size == 1000,
    {
        TelemetryConfig {
            enabled: false,
            endpoint: None,
            collection_interval: 300,
            collect_performance: true,
            collect_usage: true,
            max_queue_size: 1000,
        }
    }
}

impl Default for TelemetryConfig {
    fn default() -> (c: Self)
        ensures
            !c.enabled,
            c.endpoint is None,
            c.collection_interval == 300,
            c.collect_performance,
            c.collect_usage,
            c.max_queue_size == 1000,
    {
        Self::default_config()
    }
}

/// Named counters, each name once.
pub open spec fn count_of(cs: Seq<(String, u64)>, name: Seq<char>) -> nat
    decreases cs.len(),
{
    if cs.len() == 0 {
        0
    } else if cs.last().0@ == name {
        cs.last().1 as nat
    } else {
        count_of(cs.drop_last(), name)
    }
}

/// Each name occurs once, and only with a count of at least one.
pub open spec fn counters_ok(cs: Seq<(String, u64)>) -> bool {
    &&& forall|i: int, j: int| 0 <= i < j < cs.len() ==> cs[i].0@ != cs[j].0@
    &&& forall|i: int| 0 <= i < cs.len() ==> cs[i].1 >= 1
}

/// A name is among well-formed counters exactly when its count is not
/// zero, so the counts of all names determine the entries.
pub proof fn lemma_counter_present(cs: Seq<(String, u64)>, name: Seq<char>)
    requires
        counters_ok(cs),
    ensures
        (count_of(cs, name) > 0) <==> (exists|i: int| 0 <= i < cs.len() && cs[i].0@ == name),
    decreases cs.len(),
{
    if cs.len() > 0 {
        let d = cs.drop_last();
        assert(counters_ok(d)) by {
            assert forall|i: int, j: int| 0 <= i < j < d.len() implies d[i].0@ != d[j].0@ by {
                assert(d[i] == cs[i] && d[j] == cs[j]);
            }
            assert forall|i: int| 0 <= i < d.len() implies d[i].1 >= 1 by {
                assert(d[i] == cs[i]);
            }
        }
        lemma_counter_present(d, name);
        if cs.last().0@ != name {
            if exists|i: int| 0 <= i < cs.len() && cs[i].0@ == name {
                let i = choose|i: int| 0 <= i < cs.len() && cs[i].0@ == name;
                assert(i < cs.len() - 1);
                assert(d[i] == cs[i]);
            }
            if exists|i: int| 0 <= i < d.len() && d[i].0@ == name {
                let i = choose|i: int| 0 <= i < d.len() && d[i].0@ == name;
                assert(d[i] == cs[i]);
            }
        } else {
            assert(cs[cs.len() - 1].0@ == name);
        }
    }
}

proof fn lemma_count_at(cs: Seq<(String, u64)>, k: int)
    requires
        counters_ok(cs),
        0 <= k < cs.len(),
    ensures
        count_of(cs, cs[k].0@) == cs[k].1,
    decreases cs.len(),
{
    if k < cs.len() - 1 {
        lemma_count_at(cs.drop_last(), k);
    }
}

proof fn lemma_count_absent(cs: Seq<(String, u64)>, name: Seq<char>)
    requires
        forall|i: int| 0 <= i < cs.len() ==> cs[i].0@ != name,
    ensures
        count_of(cs, name) == 0,
    decreases cs.len(),
{
    if cs.len() > 0 {
        lemma_count_absent(cs.drop_last(), name);
    }
}

proof fn lemma_count_update(cs: Seq<(String, u64)>, k: int, v: u64, name: Seq<char>)
    requires
        counters_ok(cs),
        0 <= k < cs.len(),
    ensures
        name != cs[k].0@ ==> count_of(cs.update(k, (cs[k].0, v)), name) == count_of(cs, name),
    decreases cs.len(),
{
    if k < cs.len() - 1 {
        assert(cs.update(k, (cs[k].0, v)).drop_last() =~= cs.drop_last().update(k, (cs[k].0, v)));
        lemma_count_update(cs.drop_last(), k, v, name);
    } else {
        assert(cs.update(k, (cs[k].0, v)).drop_last() =~= cs.drop_last());
    }
}

/// Adds one to the counter `name`, starting it at one when new.
pub fn bump(cs: &mut Vec<(String, u64)>, name: &str)
    requires
        counters_ok(old(cs)@),
        count_of(old(cs)@, name@) < u64::MAX,
    ensures
        counters_ok(final(cs)@),
        count_of(final(cs)@, name@) == count_of(old(cs)@, name@) + 1,
        forall|n: Seq<char>| n != name@ ==> count_of(final(cs)@, n) == count_of(old(cs)@, n),
{
    let mut i: usize = 0;
    while i < cs.len()
        invariant
            i <= cs@.len(),
            cs@ == old(cs)@,
            counters_ok(old(cs)@),
            count_of(old(cs)@, name@) < u64::MAX,
            forall|j: int| 0 <= j < i ==> cs@[j].0@ != name@,
        decreases cs@.len() - i,
    {
        if crate::text::str_eq(cs[i].0.as_str(), name) {
            proof {
                lemma_count_at(cs@, i as int);
            }
            let v = cs[i].1 + 1;
            let key = cs[i].0.clone();
            let ghost before = cs@;
            cs.set(i, (key, v));
            proof {
                assert forall|n: Seq<char>| n != name@ implies count_of(cs@, n) == count_of(before, n) by {
                    assert(cs@ == before.update(i as int, (key, v)));
                    lemma_count_update_key(before, i as int, key, v, n);
                }
                lemma_count_at(cs@, i as int);
            }
            return;
        }
        i = i + 1;
    }
    proof {
        lemma_count_absent(cs@, name@);
    }
    let ghost before = cs@;
    cs.push((name.to_owned(), 1));
    proof {
        assert(cs@.drop_last() =~= before);
        assert forall|n: Seq<char>| n != name@ implies count_of(cs@, n) == count_of(before, n) by {}
        assert forall|a: int, b: int| 0 <= a < b < cs@.len() implies cs@[a].0@ != cs@[b].0@ by {
            if b == cs@.len() - 1 {
                assert(cs@[a] == before[a]);
            } else {
                assert(cs@[a] == before[a] && cs@[b] == before[b]);
            }
        }
    }
}

proof fn lemma_count_update_key(cs: Seq<(String, u64)>, k: int, key: String, v: u64, name: Seq<char>)
    requires
        counters_ok(cs),
        0 <= k < cs.len(),
        key@ == cs[k].0@,
        v >= 1,
    ensures
        counters_ok(cs.update(k, (key, v))),
        name != key@ ==> count_of(cs.update(k, (key, v)), name) == count_of(cs, name),
    decreases cs.len(),
{
    let u = cs.update(k, (key, v));
    if k < cs.len() - 1 {
        assert(u.drop_last() =~= cs.drop_last().update(k, (key, v)));
        lemma_count_update_key(cs.drop_last(), k, key, v, name);
    } else {
        assert(u.drop_last() =~= cs.drop_last());
    }
}

/// Adds one to the counter of each name, once per occurrence.
fn bump_all(cs: &mut Vec<(String, u64)>, names: &Vec<String>)
    requires
        counters_ok(old(cs)@),
        forall|k: int| 0 <= k < old(cs)@.len() ==> old(cs)@[k].1 + names@.len() <= u64::MAX,
    ensures
        counters_ok(final(cs)@),
        forall|n: Seq<char>| #[trigger] count_of(final(cs)@, n) == count_of(old(cs)@, n)
            + views(names@).filter(|f: Seq<char>| f == n).len(),
{
    let ghost f0 = cs@;
    let ghost fs = views(names@);
    let mut i: usize = 0;
    while i < names.len()
        invariant
            i <= names@.len(),
            fs == views(names@),
            f0 == old(cs)@,
            counters_ok(cs@),
            forall|n: Seq<char>| #[trigger] count_of(cs@, n) == count_of(f0, n)
                + fs.subrange(0, i as int).filter(|f: Seq<char>| f == n).len(),
            forall|k: int| 0 <= k < f0.len() ==> f0[k].1 + fs.len() <= u64::MAX,
        decreases names@.len() - i,
    {
        let ghost c0 = cs@;
        proof {
            let pre = fs.subrange(0, i as int);
            let post = fs.subrange(0, i + 1);
            assert(post.drop_last() =~= pre);
            assert(post.last() == fs[i as int]);
            reveal(Seq::filter);
            lemma_filter_len_le(pre, fs[i as int]);
            lemma_count_bound(f0, fs[i as int]);
            assert(count_of(c0, fs[i as int]) < u64::MAX);
        }
        bump(cs, names[i].as_str());
        proof {
            reveal(Seq::filter);
            assert forall|n: Seq<char>| #[trigger] count_of(cs@, n) == count_of(f0, n) + fs.subrange(0, i + 1).filter(
                |f: Seq<char>| f == n,
            ).len() by {
                let post = fs.subrange(0, i + 1);
                assert(post.drop_last() =~= fs.subrange(0, i as int));
            }
        }
        i = i + 1;
    }
    assert(fs.subrange(0, fs.len() as int) =~= fs);
}

/// Aggregated usage figures.
#[derive(Debug)]
pub struct TelemetryMetrics {
    pub session_id: String,
    pub veri_version: String,
    pub platform: String,
    pub python_version: Option<String>,
    pub runs_total: u64,
    pub runs_with_coverage: u64,
    pub runs_watch_mode: u64,
    pub runs_ci_mode: u64,
    pub avg_collection_time_ms: Option<u64>,
    pub avg_execution_time_ms: Option<u64>,
    pub avg_tests_per_run_milli: Option<u64>,
    pub avg_workers_used_milli: Option<u64>,
    pub features_used: Vec<(String, u64)>,
    pub error_categories: Vec<(String, u64)>,
    pub last_updated: u64,
}

/// The running average after one more value: three parts the old average
/// to one part the new value, rounded down; the value itself at first.
pub open spec fn averaged(avg: Option<u64>, value: nat) -> Option<nat> {
    match avg {
        Some(a) => Some(((a * 3 + value) / 4) as nat),
        None => Some(value),
    }
}

fn update_average(avg: Option<u64>, value: u64) -> (r: Option<u64>)
    ensures
        r matches Some(x) && averaged(avg, value as nat) == Some(x as nat),
{
    match avg {
        Some(a) => {
            let s: u128 = (a as u128) * 3 + (value as u128);
            Some((s / 4) as u64)
        },
        None => Some(value),
    }
}

/// What one run reports.
#[derive(Debug)]
pub struct RunEvent {
    pub test_count: u32,
    pub worker_count: u32,
    pub collection_time_ms: u64,
    pub execution_time_ms: u64,
    pub coverage_enabled: bool,
    pub watch_mode: bool,
    pub ci_mode: bool,
    pub python_version: Option<String>,
    pub features_used: Vec<String>,
}

/// Kinds of errors recorded (only the kind, never the message).
#[derive(Debug, Clone, Copy, PartialEq, Eq, Structural)]
pub enum ErrorCategory {
    ConfigurationError,
    CollectionError,
    ExecutionError,
    ImportGraphError,
    CacheError,
    PluginError,
    NetworkError,
    FileSystemError,
    PythonEnvironmentError,
}

/// The name under which an error kind is counted.
pub open spec fn category_name(c: ErrorCategory) -> Seq<char> {
    match c {
        ErrorCategory::ConfigurationError => "configuration"@,
        ErrorCategory::CollectionError => "collection"@,
        ErrorCategory::ExecutionError => "execution"@,
        ErrorCategory::ImportGraphError => "import_graph"@,
        ErrorCategory::CacheError => "cache"@,
        ErrorCategory::PluginError => "plugin"@,
        ErrorCategory::NetworkError => "network"@,
        ErrorCategory::FileSystemError => "filesystem"@,
        ErrorCategory::PythonEnvironmentError => "python_env"@,
    }
}

fn category_str(c: ErrorCategory) -> (r: &'static str)
    ensures
        r@ == category_name(c),
{
    match c {
        ErrorCategory::ConfigurationError => "configuration",
        ErrorCategory::CollectionError => "collection",
        ErrorCategory::ExecutionError => "execution",
        ErrorCategory::ImportGraphError => "import_graph",
        ErrorCategory::CacheError => "cache",
        ErrorCategory::PluginError => "plugin",
        ErrorCategory::NetworkError => "network",
        ErrorCategory::FileSystemError => "filesystem",
        ErrorCategory::PythonEnvironmentError => "python_env",
    }
}

/// A session of telemetry.
#[derive(Debug)]
pub struct TelemetryClient {
    pub session_id: String,
    pub config: TelemetryConfig,
    pub metrics: TelemetryMetrics,
    pub enabled: bool,
}

/// The text of a UUID as `Display` writes it: 36 characters, hyphens at
/// positions 8, 13, 18 and 23, lowercase hexadecimal digits elsewhere.
pub open spec fn is_uuid_text(s: Seq<char>) -> bool {
    &&& s.len() == 36
    &&& forall|i: int|
        0 <= i < 36 ==> if i == 8 || i == 13 || i == 18 || i == 23 {
            #[trigger] s[i] == '-'
        } else {
            crate::text::is_lower_hex(s[i])
        }
}

/// A fresh random session identifier.
///
/// Wraps `uuid::Uuid::new_v4().to_string()`: the value is random; only that
/// it is a hyphenated lowercase UUID text is claimed (uuid's `Display`
/// writes `as_hyphenated` in lowercase hexadecimal).
#[verifier::external_body]
fn new_session_id() -> (s: String)
    ensures
        is_uuid_text(s@),
{
    uuid::Uuid::new_v4().to_string()
}

impl TelemetryClient {
    /// Well-formed counters.
    pub open spec fn wf(&self) -> bool {
        counters_ok(self.metrics.features_used@) && counters_ok(self.metrics.error_categories@)
    }

    /// A client for a new session: enabled only when configured so and not
    /// opted out through the environment; no runs recorded yet.
    pub fn new(config: TelemetryConfig, opted_out: bool, veri_version: String, platform: String, now: u64) -> (c: Self)
        ensures
            c.wf(),
            c.enabled == (config.enabled && !opted_out),
            c.config == config,
            is_uuid_text(c.session_id@),
            c.metrics.session_id@ == c.session_id@,
            c.metrics.veri_version == veri_version,
            c.metrics.platform == platform,
            c.metrics.python_version is None,
            c.metrics.runs_total == 0 && c.metrics.runs_with_coverage == 0,
            c.metrics.runs_watch_mode == 0 && c.metrics.runs_ci_mode == 0,
            c.metrics.avg_collection_time_ms is None && c.metrics.avg_execution_time_ms is None,
            c.metrics.avg_tests_per_run_milli is None && c.metrics.avg_workers_used_milli is None,
            c.metrics.features_used@.len() == 0 && c.metrics.error_categories@.len() == 0,
            c.metrics.last_updated == now,
    {
        let session_id = new_session_id();
        let enabled = config.enabled && !opted_out;
        let metrics = TelemetryMetrics {
            session_id: session_id.clone(),
            veri_version,
            platform,
            python_version: None,
            runs_total: 0,
            runs_with_coverage: 0,
            runs_watch_mode: 0,
            runs_ci_mode: 0,
            avg_collection_time_ms: None,
            avg_execution_time_ms: None,
            avg_tests_per_run_milli: None,
            avg_workers_used_milli: None,
            features_used: Vec::new(),
            error_categories: Vec::new(),
            last_updated: now,
        };
        TelemetryClient { session_id, config, metrics, enabled }
    }

    /// Records a run when enabled: the run counters, the running averages,
    /// each feature used, and the Python version.  Nothing changes when
    /// disabled.
    pub fn record_run(&mut self, event: RunEvent, now: u64)
        requires
            old(self).wf(),
            old(self).enabled ==> {
                &&& old(self).metrics.runs_total < u64::MAX
                &&& old(self).metrics.runs_with_coverage < u64::MAX
                &&& old(self).metrics.runs_watch_mode < u64::MAX
                &&& old(self).metrics.runs_ci_mode < u64::MAX
                &&& forall|i: int|
                    0 <= i < old(self).metrics.features_used@.len() ==> old(self).metrics.features_used@[i].1
                        + event.features_used@.len() <= u64::MAX
            },
        ensures
            final(self).wf(),
            !old(self).enabled ==> *final(self) == *old(self),
            old(self).enabled ==> {
                let m = final(self).metrics;
                let o = old(self).metrics;
                &&& m.runs_total == o.runs_total + 1
                &&& m.runs_with_coverage == o.runs_with_coverage + if event.coverage_enabled { 1int } else { 0 }
                &&& m.runs_watch_mode == o.runs_watch_mode + if event.watch_mode { 1int } else { 0 }
                &&& m.runs_ci_mode == o.runs_ci_mode + if event.ci_mode { 1int } else { 0 }
                &&& m.avg_collection_time_ms matches Some(x) && averaged(o.avg_collection_time_ms, event.collection_time_ms as nat) == Some(x as nat)
                &&& m.avg_execution_time_ms matches Some(x) && averaged(o.avg_execution_time_ms, event.execution_time_ms as nat) == Some(x as nat)
                &&& m.avg_tests_per_run_milli matches Some(x) && averaged(o.avg_tests_per_run_milli, event.test_count as nat * 1000) == Some(x as nat)
                &&& m.avg_workers_used_milli matches Some(x) && averaged(o.avg_workers_used_milli, event.worker_count as nat * 1000) == Some(x as nat)
                &&& forall|n: Seq<char>| #[trigger] count_of(m.features_used@, n) == count_of(o.features_used@, n)
                    + views(event.features_used@).filter(|f: Seq<char>| f == n).len()
                &&& m.error_categories == o.error_categories
                &&& m.python_version == event.python_version
                &&& m.last_updated == now
                &&& final(self).enabled && final(self).session_id == old(self).session_id
            },
    {
        if !self.enabled {
            return;
        }
        self.metrics.runs_total = self.metrics.runs_total + 1;
        if event.coverage_enabled {
            self.metrics.runs_with_coverage = self.metrics.runs_with_coverage + 1;
        }
        if event.watch_mode {
            self.metrics.runs_watch_mode = self.metrics.runs_watch_mode + 1;
        }
        if event.ci_mode {
            self.metrics.runs_ci_mode = self.metrics.runs_ci_mode + 1;
        }
        self.metrics.avg_collection_time_ms = update_average(self.metrics.avg_collection_time_ms, event.collection_time_ms);
        self.metrics.avg_execution_time_ms = update_average(self.metrics.avg_execution_time_ms, event.execution_time_ms);
        self.metrics.avg_tests_per_run_milli = update_average(
            self.metrics.avg_tests_per_run_milli,
            (event.test_count as u64) * 1000,
        );
        self.metrics.avg_workers_used_milli = update_average(
            self.metrics.avg_workers_used_milli,
            (event.worker_count as u64) * 1000,
        );
        bump_all(&mut self.metrics.features_used, &event.features_used);
        self.metrics.python_version = event.python_version;
        self.metrics.last_updated = now;
    }

    /// Records an error of the given kind when enabled.
    pub fn record_error(&mut self, category: ErrorCategory, now: u64)
        requires
            old(self).wf(),
            old(self).enabled ==> count_of(old(self).metrics.error_categories@, category_name(category)) < u64::MAX,
        ensures
            final(self).wf(),
            !old(self).enabled ==> *final(self) == *old(self),
            old(self).enabled ==> {
                &&& count_of(final(self).metrics.error_categories@, category_name(category)) == count_of(
                    old(self).metrics.error_categories@,
                    category_name(category),
                ) + 1
                &&& forall|n: Seq<char>|
                    n != category_name(category) ==> count_of(final(self).metrics.error_categories@, n)
                        == count_of(old(self).metrics.error_categories@, n)
                &&& final(self).metrics.features_used == old(self).metrics.features_used
                &&& final(self).metrics.runs_total == old(self).metrics.runs_total
                &&& final(self).metrics.last_updated == now
                &&& final(self).enabled
            },
    {
        if !self.enabled {
            return;
        }
        bump(&mut self.metrics.error_categories, category_str(category));
        self.metrics.last_updated = now;
    }

    /// Records the use of a feature when enabled.
    pub fn record_feature_usage(&mut self, feature: &str, now: u64)
        requires
            old(self).wf(),
            old(self).enabled ==> count_of(old(self).metrics.features_used@, feature@) < u64::MAX,
        ensures
            final(self).wf(),
            !old(self).enabled ==> *final(self) == *old(self),
            old(self).enabled ==> {
                &&& count_of(final(self).metrics.features_used@, feature@) == count_of(
                    old(self).metrics.features_used@,
                    feature@,
                ) + 1
                &&& forall|n: Seq<char>|
                    n != feature@ ==> count_of(final(self).metrics.features_used@, n) == count_of(
                        old(self).metrics.features_used@,
                        n,
                    )
                &&& final(self).metrics.error_categories == old(self).metrics.error_categories
                &&& final(self).metrics.last_updated == now
                &&& final(self).enabled
            },
    {
        if !self.enabled {
            return;
        }
        bump(&mut self.metrics.features_used, feature);
        self.metrics.last_updated = now;
    }

    pub fn get_metrics(&self) -> (m: &TelemetryMetrics)
        ensures
            *m == self.metrics,
    {
        &self.metrics
    }

    pub fn is_enabled(&self) -> (r: bool)
        ensures
            r == self.enabled,
    {
        self.enabled
    }

    /// Turns telemetry off for the rest of the session.
    pub fn disable(&mut self)
        ensures
            !final(self).enabled,
            final(self).metrics == old(self).metrics,
            final(self).session_id == old(self).session_id,
    {
        self.enabled = false;
    }

    /// Where to send the figures: the endpoint, when enabled, one is
    /// configured and the network is not blocked; otherwise nowhere.
    pub fn send_target(&self, no_network: bool) -> (r: Option<String>)
        ensures
            match r {
                Some(e) => self.enabled && !no_network && self.config.endpoint is Some && e@
                    == self.config.endpoint->0@,
                None => !self.enabled || no_network || self.config.endpoint is None,
            },
    {
        if !self.enabled {
            return None;
        }
        match &self.config.endpoint {
            Some(url) => {
                if no_network {
                    None
                } else {
                    Some(url.clone())
                }
            },
            None => None,
        }
    }

    /// What is collected, for transparency; no personal data, code paths
    /// or test names are ever part of it.
    pub fn get_status(&self) -> (s: TelemetryStatus)
        ensures
            s.enabled == self.enabled,
            s.session_id@ == self.session_id@,
            crate::compatibility::opt_view(s.endpoint) == crate::compatibility::opt_view(self.config.endpoint),
            s.data_collected.runs_recorded == self.metrics.runs_total,
            s.data_collected.features_tracked == self.metrics.features_used@.len(),
            s.data_collected.errors_by_category == self.metrics.error_categories@.len(),
            !s.data_collected.contains_personal_data,
            !s.data_collected.contains_code_paths,
            !s.data_collected.contains_test_names,
            s.last_sent is None,
            views(s.opt_out_methods@) == opt_out_methods(),
    {
        let mut methods: Vec<String> = Vec::new();
        methods.push("Set VERI_NO_TELEMETRY=1".to_owned());
        methods.push("Set DO_NOT_TRACK=1".to_owned());
        methods.push("Add 'telemetry_enabled = false' to veri.toml".to_owned());
        assert(views(methods@) =~= opt_out_methods());
        TelemetryStatus {
            enabled: self.enabled,
            session_id: self.session_id.clone(),
            endpoint: match &self.config.endpoint {
                Some(e) => Some(e.clone()),
                None => None,
            },
            data_collected: TelemetryDataSummary {
                runs_recorded: self.metrics.runs_total,
                features_tracked: self.metrics.features_used.len(),
                errors_by_category: self.metrics.error_categories.len(),
                contains_personal_data: false,
                contains_code_paths: false,
                contains_test_names: false,
            },
            last_sent: None,
            opt_out_methods: methods,
        }
    }

    /// The status as printed lines (colour on request).
    pub fn status_lines(&self, use_color: bool) -> (r: Vec<String>)
        ensures
            views(r@) == status_text(
                self.enabled,
                self.session_id@,
                crate::compatibility::opt_view(self.config.endpoint),
                self.metrics.runs_total as nat,
                self.metrics.features_used@.len(),
                self.metrics.error_categories@.len(),
                use_color,
            ),
    {
        let mut r: Vec<String> = Vec::new();
        let mut m = (if use_color { "\x1b[36m" } else { "" }).to_owned();
        m.append("📊 Telemetry Status");
        m.append(if use_color { "\x1b[0m" } else { "" });
        r.push(m);
        r.push((if self.enabled { "  Enabled: ✅ Yes" } else { "  Enabled: ❌ No" }).to_owned());
        let ghost r1 = views(r@);
        assert(r1 =~= seq![
            (if use_color { "\x1b[36m"@ } else { ""@ }) + "📊 Telemetry Status"@ + (if use_color { "\x1b[0m"@ } else { ""@ }),
            if self.enabled { "  Enabled: ✅ Yes"@ } else { "  Enabled: ❌ No"@ },
        ]);
        if self.enabled {
            let mut m = "  Session ID: ".to_owned();
            m.append(self.session_id.as_str());
            r.push(m);
            match &self.config.endpoint {
                Some(e) => {
                    let mut m = "  Endpoint: ".to_owned();
                    m.append(e.as_str());
                    r.push(m);
                },
                None => {},
            }
            r.push("  Data collected:".to_owned());
            let mut m = "    • Runs recorded: ".to_owned();
            let d = crate::planner::decimal_string(self.metrics.runs_total as u128);
            m.append(d.as_str());
            r.push(m);
            let mut m = "    • Features tracked: ".to_owned();
            let d = crate::planner::decimal_string(self.metrics.features_used.len() as u128);
            m.append(d.as_str());
            r.push(m);
            let mut m = "    • Error categories: ".to_owned();
            let d = crate::planner::decimal_string(self.metrics.error_categories.len() as u128);
            m.append(d.as_str());
            r.push(m);
            r.push("  Privacy guarantees:".to_owned());
            r.push("    • No personal data: ✅".to_owned());
            r.push("    • No code paths: ✅".to_owned());
            r.push("    • No test names: ✅".to_owned());
        }
        let ghost r2 = views(r@);
        assert(r2 =~= r1 + (if self.enabled {
            seq!["  Session ID: "@ + self.session_id@] + (match crate::compatibility::opt_view(self.config.endpoint) {
                Some(e) => seq!["  Endpoint: "@ + e],
                None => Seq::empty(),
            }) + seq![
                "  Data collected:"@,
                "    • Runs recorded: "@ + crate::planner::decimal(self.metrics.runs_total as nat),
                "    • Features tracked: "@ + crate::planner::decimal(self.metrics.features_used@.len()),
                "    • Error categories: "@ + crate::planner::decimal(self.metrics.error_categories@.len()),
                "  Privacy guarantees:"@,
                "    • No personal data: ✅"@,
                "    • No code paths: ✅"@,
                "    • No test names: ✅"@,
            ]
        } else {
            Seq::empty()
        }));
        push_opt_out(&mut r);
        let ghost r4 = views(r@);
        assert(r4 == r2.push("  Opt-out methods:"@) + opt_out_methods().map_values(|m: Seq<char>| "    • "@ + m));

        r.push("  More info: https://docs.veri.dev/telemetry".to_owned());
        assert(views(r@) =~= r4.push("  More info: https://docs.veri.dev/telemetry"@));
        assert(views(r@) =~= status_text(
            self.enabled,
            self.session_id@,
            crate::compatibility::opt_view(self.config.endpoint),
            self.metrics.runs_total as nat,
            self.metrics.features_used@.len(),
            self.metrics.error_categories@.len(),
            use_color,
        ));
        r
    }
}

proof fn lemma_filter_len_le(s: Seq<Seq<char>>, x: Seq<char>)
    ensures
        s.filter(|f: Seq<char>| f == x).len() <= s.len(),
    decreases s.len(),
{
    reveal(Seq::filter);
    if s.len() > 0 {
        lemma_filter_len_le(s.drop_last(), x);
    }
}

proof fn lemma_count_bound(cs: Seq<(String, u64)>, name: Seq<char>)
    ensures
        count_of(cs, name) == 0 || exists|k: int| 0 <= k < cs.len() && count_of(cs, name) == cs[k].1,
    decreases cs.len(),
{
    if cs.len() > 0 && cs.last().0@ != name {
        lemma_count_bound(cs.drop_last(), name);
        if count_of(cs, name) != 0 {
            let k = choose|k: int| 0 <= k < cs.drop_last().len() && count_of(cs.drop_last(), name) == cs.drop_last()[k].1;
            assert(cs[k] == cs.drop_last()[k]);
        }
    }
}

/// Appends the opt-out lines.
fn push_opt_out(r: &mut Vec<String>)
    ensures
        views(final(r)@) == views(old(r)@).push("  Opt-out methods:"@) + opt_out_methods().map_values(
            |m: Seq<char>| "    • "@ + m,
        ),
{
    let ghost r2 = views(r@);
    r.push("  Opt-out methods:".to_owned());
    assert(views(r@) =~= r2.push("  Opt-out methods:"@) + opt_out_methods().take(0).map_values(
        |m: Seq<char>| "    • "@ + m,
    ));
    let methods: [&str; 3] = [
        "Set VERI_NO_TELEMETRY=1",
        "Set DO_NOT_TRACK=1",
        "Add 'telemetry_enabled = false' to veri.toml",
    ];
    let mut k: usize = 0;
    while k < 3
        invariant
            k <= 3,
            methods@ == seq!["Set VERI_NO_TELEMETRY=1", "Set DO_NOT_TRACK=1", "Add 'telemetry_enabled = false' to veri.toml"],
            views(r@) == r2.push("  Opt-out methods:"@) + opt_out_methods().take(k as int).map_values(
                |m: Seq<char>| "    • "@ + m,
            ),
        decreases 3 - k,
    {
        let mut m = "    • ".to_owned();
        m.append(methods[k]);
        let ghost r3 = views(r@);
        r.push(m);
        assert(views(r@) =~= r3.push(m@));
        assert(opt_out_methods().take(k + 1).map_values(|m: Seq<char>| "    • "@ + m) =~= opt_out_methods().take(
            k as int,
        ).map_values(|m: Seq<char>| "    • "@ + m).push(m@));
        k = k + 1;
    }
    assert(opt_out_methods().take(3) =~= opt_out_methods());
}

/// The ways to opt out of telemetry.
pub open spec fn opt_out_methods() -> Seq<Seq<char>> {
    seq!["Set VERI_NO_TELEMETRY=1"@, "Set DO_NOT_TRACK=1"@, "Add 'telemetry_enabled = false' to veri.toml"@]
}

/// The status as printed lines.
pub open spec fn status_text(
    enabled: bool,
    session: Seq<char>,
    endpoint: Option<Seq<char>>,
    runs: nat,
    features: nat,
    errors: nat,
    use_color: bool,
) -> Seq<Seq<char>> {
    seq![
        (if use_color { "\x1b[36m"@ } else { ""@ }) + "📊 Telemetry Status"@ + (if use_color { "\x1b[0m"@ } else { ""@ }),
        if enabled { "  Enabled: ✅ Yes"@ } else { "  Enabled: ❌ No"@ },
    ] + (if enabled {
        seq!["  Session ID: "@ + session] + (match endpoint {
            Some(e) => seq!["  Endpoint: "@ + e],
            None => Seq::empty(),
        }) + seq![
            "  Data collected:"@,
            "    • Runs recorded: "@ + crate::planner::decimal(runs),
            "    • Features tracked: "@ + crate::planner::decimal(features),
            "    • Error categories: "@ + crate::planner::decimal(errors),
            "  Privacy guarantees:"@,
            "    • No personal data: ✅"@,
            "    • No code paths: ✅"@,
            "    • No test names: ✅"@,
        ]
    } else {
        Seq::empty()
    }) + seq!["  Opt-out methods:"@] + opt_out_methods().map_values(|m: Seq<char>| "    • "@ + m) + seq![
        "  More info: https://docs.veri.dev/telemetry"@,
    ]
}

/// What telemetry collects, for transparency.
#[derive(Debug)]
pub struct TelemetryStatus {
    pub enabled: bool,
    pub session_id: String,
    pub endpoint: Option<String>,
    pub data_collected: TelemetryDataSummary,
    pub last_sent: Option<u64>,
    pub opt_out_methods: Vec<String>,
}

/// Amounts of data collected.
#[derive(Debug)]
pub struct TelemetryDataSummary {
    pub runs_recorded: u64,
    pub features_tracked: usize,
    pub errors_by_category: usize,
    pub contains_personal_data: bool,
    pub contains_code_paths: bool,
    pub contains_test_names: bool,
}


} // verus!
