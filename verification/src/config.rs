//! Run configuration: defaults, the environment, configuration files and
//! command-line flags, in that order of precedence (later wins).
use vstd::prelude::*;

verus! {

/// Settings of a run; unset values fall back to defaults.  The flaky
/// threshold is in thousandths.
#[derive(Debug)]
pub struct Config {
    pub workers: Option<String>,
    pub cache_dir: Option<String>,
    pub log_level: Option<String>,
    pub no_color: Option<bool>,
    pub test_paths: Option<Vec<String>>,
    pub markers: Option<String>,
    pub keyword: Option<String>,
    pub junit_xml: Option<String>,
    pub jsonl: Option<String>,
    pub cov: Option<bool>,
    pub cov_merge_full: Option<bool>,
    pub maxfail: Option<u32>,
    pub verbose: Option<u8>,
    pub quiet: Option<bool>,
    pub last_failed: Option<bool>,
    pub engine: Option<String>,
    pub watch: Option<bool>,
    pub all: Option<bool>,
    pub security: Option<SecurityConfig>,
    pub telemetry: Option<TelemetryConfig>,
    pub flaky: Option<FlakyTestConfig>,
    pub auto_retry: Option<bool>,
    pub retry_count: Option<u32>,
}

/// Security settings of the configuration file.
#[derive(Debug)]
pub struct SecurityConfig {
    pub enforce_allowlist: Option<bool>,
    pub allowed_plugins: Option<Vec<String>>,
    pub no_network: Option<bool>,
}

/// Telemetry settings of the configuration file.
#[derive(Debug)]
pub struct TelemetryConfig {
    pub enabled: Option<bool>,
    pub endpoint: Option<String>,
    pub collection_interval: Option<u64>,
}

/// Flaky-test settings of the configuration file.
#[derive(Debug)]
pub struct FlakyTestConfig {
    pub retry_count: Option<u32>,
    pub auto_retry: Option<bool>,
    pub flaky_threshold_permille: Option<u32>,
    pub min_runs_for_flaky: Option<u32>,
    pub fail_on_flaky: Option<bool>,
}

/// The environment variables the configuration reads.
#[derive(Debug)]
pub struct ConfigEnv {
    /// `VERI_LOG`
    pub log: Option<String>,
    /// `VERI_NO_COLOR` is set.
    pub no_color: bool,
    /// `VERI_CACHE_DIR`
    pub cache_dir: Option<String>,
    /// `VERI_WORKERS`
    pub workers: Option<String>,
    /// `VERI_NO_NETWORK` is set.
    pub no_network: bool,
    /// `VERI_DISABLE_ALLOWLIST` is set.
    pub disable_allowlist: bool,
    /// `VERI_TELEMETRY_ENABLED` is set.
    pub telemetry_enabled: bool,
    /// `VERI_TELEMETRY_ENDPOINT`
    pub telemetry_endpoint: Option<String>,
}

impl FlakyTestConfig {
    /// One retry, automatic retries on, threshold 0.2, five runs before a
    /// test can be judged flaky, flaky tests do not fail the run.
    pub fn default_config() -> (c: Self)
        ensures
            c.retry_count == Some(1u32),
            c.auto_retry == Some(true),
            c.flaky_threshold_permille == Some(200u32),
            c.min_runs_for_flaky == Some(5u32),
            c.fail_on_flaky == Some(false),
    {
        FlakyTestConfig {
            retry_count: Some(1),
            auto_retry: Some(true),
            flaky_threshold_permille: Some(200),
            min_runs_for_flaky: Some(5),
            fail_on_flaky: Some(false),
        }
    }
}

impl SecurityConfig {
    /// Allowlist enforced, no plugin list of its own, network allowed.
    pub fn default_config() -> (c: Self)
        ensures
            c.enforce_allowlist == Some(true),
            c.allowed_plugins is None,
            c.no_network == Some(false),
    {
        SecurityConfig { enforce_allowlist: Some(true), allowed_plugins: None, no_network: Some(false) }
    }

    /// A copy of the settings.
    pub fn copy(&self) -> (c: Self)
        ensures
            c.enforce_allowlist == self.enforce_allowlist,
            c.no_network == self.no_network,
            c.allowed_plugins is Some == self.allowed_plugins is Some,
            self.allowed_plugins is Some ==> crate::order::views(c.allowed_plugins->0@) == crate::order::views(
                self.allowed_plugins->0@,
            ),
    {
        SecurityConfig {
            enforce_allowlist: self.enforce_allowlist,
            allowed_plugins: match &self.allowed_plugins {
                Some(v) => Some(crate::planner::clone_strings(v)),
                None => None,
            },
            no_network: self.no_network,
        }
    }
}

impl TelemetryConfig {
    /// Telemetry off, no endpoint, collected every 300 seconds.
    pub fn default_config() -> (c: Self)
        ensures
            c.enabled == Some(false),
            c.endpoint is None,
            c.collection_interval == Some(300u64),
    {
        TelemetryConfig { enabled: Some(false), endpoint: None, collection_interval: Some(300) }
    }

    /// A copy of the settings.
    pub fn copy(&self) -> (c: Self)
        ensures
            c.enabled == self.enabled,
            crate::compatibility::opt_view(c.endpoint) == crate::compatibility::opt_view(self.endpoint),
            c.collection_interval == self.collection_interval,
    {
        TelemetryConfig {
            enabled: self.enabled,
            endpoint: match &self.endpoint {
                Some(e) => Some(e.clone()),
                None => None,
            },
            collection_interval: self.collection_interval,
        }
    }
}

impl Default for SecurityConfig {
    fn default() -> (c: Self)
        ensures
            c.enforce_allowlist == Some(true),
            c.allowed_plugins is None,
            c.no_network == Some(false),
    {
        Self::default_config()
    }
}

impl Default for TelemetryConfig {
    fn default() -> (c: Self)
        ensures
            c.enabled == Some(false),
            c.endpoint is None,
            c.collection_interval == Some(300u64),
    {
        Self::default_config()
    }
}

/// Whether the configuration has the defaults of [`Config::default_config`].
pub open spec fn is_default(c: Config) -> bool {
    &&& c.workers is None
    &&& c.cache_dir is Some && c.cache_dir->0@ == ".veri/cache"@
    &&& c.log_level is Some && c.log_level->0@ == "INFO"@
    &&& c.no_color == Some(false)
    &&& c.test_paths is None && c.markers is None && c.keyword is None
    &&& c.junit_xml is None && c.jsonl is None
    &&& c.cov == Some(false) && c.cov_merge_full == Some(false)
    &&& c.maxfail is None
    &&& c.verbose == Some(0u8)
    &&& c.quiet == Some(false) && c.last_failed == Some(false)
    &&& c.engine is Some && c.engine->0@ == "veri"@
    &&& c.watch == Some(false) && c.all == Some(false)
    &&& c.security is None && c.telemetry is None && c.flaky is None
    &&& c.auto_retry == Some(false)
    &&& c.retry_count == Some(1u32)
}

/// `new` where it is set, else `old`.
pub open spec fn over<T>(old: Option<T>, new: Option<T>) -> Option<T> {
    if new is Some {
        new
    } else {
        old
    }
}

/// `new` where it is set, else `old`.
fn pick<T>(old: Option<T>, new: Option<T>) -> (r: Option<T>)
    ensures
        r == over(old, new),
{
    match new {
        Some(v) => Some(v),
        None => old,
    }
}

/// `Some(true)` when the switch is on, else the setting as it was.
pub open spec fn on(old: Option<bool>, switch: bool) -> Option<bool> {
    if switch {
        Some(true)
    } else {
        old
    }
}

fn switch_on(old: Option<bool>, switch: bool) -> (r: Option<bool>)
    ensures
        r == on(old, switch),
{
    if switch {
        Some(true)
    } else {
        old
    }
}

/// Security settings with network blocking and allowlist switch-off applied.
pub open spec fn secured(s: SecurityConfig, no_network: bool, disable_allowlist: bool) -> SecurityConfig {
    SecurityConfig {
        enforce_allowlist: if disable_allowlist { Some(false) } else { s.enforce_allowlist },
        allowed_plugins: s.allowed_plugins,
        no_network: on(s.no_network, no_network),
    }
}

fn secure(s: SecurityConfig, no_network: bool, disable_allowlist: bool) -> (r: SecurityConfig)
    ensures
        r == secured(s, no_network, disable_allowlist),
{
    let SecurityConfig { enforce_allowlist, allowed_plugins, no_network: nn } = s;
    SecurityConfig {
        enforce_allowlist: if disable_allowlist { Some(false) } else { enforce_allowlist },
        allowed_plugins,
        no_network: switch_on(nn, no_network),
    }
}

/// The default security settings.
pub open spec fn default_security() -> SecurityConfig {
    SecurityConfig { enforce_allowlist: Some(true), allowed_plugins: None, no_network: Some(false) }
}

/// The security settings after the network and allowlist switches (created
/// with defaults when needed).
pub open spec fn security_after(s: Option<SecurityConfig>, no_network: bool, disable_allowlist: bool) -> Option<SecurityConfig> {
    if no_network || disable_allowlist {
        Some(
            secured(
                match s {
                    Some(x) => x,
                    None => default_security(),
                },
                no_network,
                disable_allowlist,
            ),
        )
    } else {
        s
    }
}

/// The configuration with the environment applied: log level, colour,
/// cache directory and workers when given; network blocking and allowlist
/// switch-off in the security settings, telemetry switch-on and endpoint in
/// the telemetry settings (each created with defaults when absent).
pub open spec fn with_env(c: Config, env: ConfigEnv) -> Config {
    Config {
        log_level: over(c.log_level, env.log),
        no_color: on(c.no_color, env.no_color),
        cache_dir: over(c.cache_dir, env.cache_dir),
        workers: over(c.workers, env.workers),
        security: security_after(c.security, env.no_network, env.disable_allowlist),
        telemetry: if env.telemetry_enabled || env.telemetry_endpoint is Some {
            let t = match c.telemetry {
                Some(t) => t,
                None => TelemetryConfig { enabled: Some(false), endpoint: None, collection_interval: Some(300) },
            };
            Some(
                TelemetryConfig {
                    enabled: on(t.enabled, env.telemetry_enabled),
                    endpoint: over(t.endpoint, env.telemetry_endpoint),
                    collection_interval: t.collection_interval,
                },
            )
        } else {
            c.telemetry
        },
        ..c
    }
}

/// The first configuration with every value the second sets.
pub open spec fn merged(a: Config, b: Config) -> Config {
    Config {
        workers: over(a.workers, b.workers),
        cache_dir: over(a.cache_dir, b.cache_dir),
        log_level: over(a.log_level, b.log_level),
        no_color: over(a.no_color, b.no_color),
        test_paths: over(a.test_paths, b.test_paths),
        markers: over(a.markers, b.markers),
        keyword: over(a.keyword, b.keyword),
        junit_xml: over(a.junit_xml, b.junit_xml),
        jsonl: over(a.jsonl, b.jsonl),
        cov: over(a.cov, b.cov),
        cov_merge_full: over(a.cov_merge_full, b.cov_merge_full),
        maxfail: over(a.maxfail, b.maxfail),
        verbose: over(a.verbose, b.verbose),
        quiet: over(a.quiet, b.quiet),
        last_failed: over(a.last_failed, b.last_failed),
        engine: over(a.engine, b.engine),
        watch: over(a.watch, b.watch),
        all: over(a.all, b.all),
        security: over(a.security, b.security),
        telemetry: over(a.telemetry, b.telemetry),
        flaky: over(a.flaky, b.flaky),
        auto_retry: over(a.auto_retry, b.auto_retry),
        retry_count: over(a.retry_count, b.retry_count),
    }
}

/// The command-line values that override the configuration.
pub ghost struct CliOverrides {
    pub all: bool,
    pub watch: bool,
    pub keyword: Option<String>,
    pub marker: Option<String>,
    pub workers: Option<String>,
    pub last_failed: bool,
    pub junit_xml: Option<String>,
    pub jsonl: Option<String>,
    pub maxfail: Option<u32>,
    pub verbose: u8,
    pub quiet: bool,
    pub cov: bool,
    pub cov_merge_full: bool,
    pub engine: String,
    pub no_network: bool,
    pub disable_allowlist: bool,
}

/// The configuration with the command-line flags applied.
pub open spec fn with_cli(c: Config, o: CliOverrides) -> Config {
    Config {
        workers: over(c.workers, o.workers),
        keyword: over(c.keyword, o.keyword),
        markers: over(c.markers, o.marker),
        junit_xml: over(c.junit_xml, o.junit_xml),
        jsonl: over(c.jsonl, o.jsonl),
        maxfail: over(c.maxfail, o.maxfail),
        verbose: if o.verbose > 0 { Some(o.verbose) } else { c.verbose },
        quiet: on(c.quiet, o.quiet),
        last_failed: on(c.last_failed, o.last_failed),
        watch: on(c.watch, o.watch),
        all: on(c.all, o.all),
        cov: on(c.cov, o.cov),
        cov_merge_full: on(c.cov_merge_full, o.cov_merge_full),
        security: security_after(c.security, o.no_network, o.disable_allowlist),
        engine: Some(o.engine),
        ..c
    }
}

impl Config {
    /// Cache in `.veri/cache`, log level INFO, the veri engine, a single
    /// retry, every switch off and everything else unset.
    pub fn default_config() -> (c: Self)
        ensures
            is_default(c),
    {
        Config {
            workers: None,
            cache_dir: Some(".veri/cache".to_owned()),
            log_level: Some("INFO".to_owned()),
            no_color: Some(false),
            test_paths: None,
            markers: None,
            keyword: None,
            junit_xml: None,
            jsonl: None,
            cov: Some(false),
            cov_merge_full: Some(false),
            maxfail: None,
            verbose: Some(0),
            quiet: Some(false),
            last_failed: Some(false),
            engine: Some("veri".to_owned()),
            watch: Some(false),
            all: Some(false),
            security: None,
            telemetry: None,
            flaky: None,
            auto_retry: Some(false),
            retry_count: Some(1),
        }
    }

    /// Applies the environment (see [`with_env`]).
    pub fn apply_env_vars(&mut self, env: ConfigEnv)
        ensures
            *final(self) == with_env(*old(self), env),
    {
        let ConfigEnv {
            log,
            no_color,
            cache_dir,
            workers,
            no_network,
            disable_allowlist,
            telemetry_enabled,
            telemetry_endpoint,
        } = env;
        self.log_level = pick(self.log_level.take(), log);
        self.no_color = switch_on(self.no_color, no_color);
        self.cache_dir = pick(self.cache_dir.take(), cache_dir);
        self.workers = pick(self.workers.take(), workers);
        if no_network || disable_allowlist {
            let s = match self.security.take() {
                Some(s) => s,
                None => SecurityConfig::default_config(),
            };
            self.security = Some(secure(s, no_network, disable_allowlist));
        }
        if telemetry_enabled || telemetry_endpoint.is_some() {
            let t = match self.telemetry.take() {
                Some(t) => t,
                None => TelemetryConfig::default_config(),
            };
            let TelemetryConfig { enabled, endpoint, collection_interval } = t;
            self.telemetry = Some(
                TelemetryConfig {
                    enabled: switch_on(enabled, telemetry_enabled),
                    endpoint: pick(endpoint, telemetry_endpoint),
                    collection_interval,
                },
            );
        }
    }

    /// Takes every value the other configuration sets (see [`merged`]).
    pub fn merge(&mut self, other: Self)
        ensures
            *final(self) == merged(*old(self), other),
    {
        let Config {
            workers,
            cache_dir,
            log_level,
            no_color,
            test_paths,
            markers,
            keyword,
            junit_xml,
            jsonl,
            cov,
            cov_merge_full,
            maxfail,
            verbose,
            quiet,
            last_failed,
            engine,
            watch,
            all,
            security,
            telemetry,
            flaky,
            auto_retry,
            retry_count,
        } = other;
        self.workers = pick(self.workers.take(), workers);
        self.cache_dir = pick(self.cache_dir.take(), cache_dir);
        self.log_level = pick(self.log_level.take(), log_level);
        self.no_color = pick(self.no_color, no_color);
        self.test_paths = pick(self.test_paths.take(), test_paths);
        self.markers = pick(self.markers.take(), markers);
        self.keyword = pick(self.keyword.take(), keyword);
        self.junit_xml = pick(self.junit_xml.take(), junit_xml);
        self.jsonl = pick(self.jsonl.take(), jsonl);
        self.cov = pick(self.cov, cov);
        self.cov_merge_full = pick(self.cov_merge_full, cov_merge_full);
        self.maxfail = pick(self.maxfail, maxfail);
        self.verbose = pick(self.verbose, verbose);
        self.quiet = pick(self.quiet, quiet);
        self.last_failed = pick(self.last_failed, last_failed);
        self.engine = pick(self.engine.take(), engine);
        self.watch = pick(self.watch, watch);
        self.all = pick(self.all, all);
        self.security = pick(self.security.take(), security);
        self.telemetry = pick(self.telemetry.take(), telemetry);
        self.flaky = pick(self.flaky.take(), flaky);
        self.auto_retry = pick(self.auto_retry, auto_retry);
        self.retry_count = pick(self.retry_count, retry_count);
    }

    /// The configuration for a run: the defaults, then the environment, then
    /// the configuration file when one was found.
    pub fn load(env: ConfigEnv, file_config: Option<Config>) -> (c: Self)
        ensures
            exists|d: Config|
                is_default(d) && c == match file_config {
                    Some(f) => merged(with_env(d, env), f),
                    None => with_env(d, env),
                },
    {
        let mut c = Self::default_config();
        let ghost d = c;
        c.apply_env_vars(env);
        match file_config {
            Some(f) => c.merge(f),
            None => {},
        }
        c
    }

    /// Applies the command-line flags (see [`with_cli`]): values given
    /// replace the configured ones, switches that are on turn the setting
    /// on, network and allowlist flags go to the security settings, and the
    /// engine is always taken.
    pub fn apply_cli_args(
        &mut self,
        all: bool,
        watch: bool,
        keyword: Option<String>,
        marker: Option<String>,
        workers: Option<String>,
        last_failed: bool,
        junit_xml: Option<String>,
        jsonl: Option<String>,
        maxfail: Option<u32>,
        verbose: u8,
        quiet: bool,
        cov: bool,
        cov_merge_full: bool,
        no_capture: bool,
        engine: String,
        no_network: bool,
        disable_allowlist: bool,
    )
        ensures
            *final(self) == with_cli(
                *old(self),
                CliOverrides {
                    all,
                    watch,
                    keyword,
                    marker,
                    workers,
                    last_failed,
                    junit_xml,
                    jsonl,
                    maxfail,
                    verbose,
                    quiet,
                    cov,
                    cov_merge_full,
                    engine,
                    no_network,
                    disable_allowlist,
                },
            ),
    {
        self.workers = pick(self.workers.take(), workers);
        self.keyword = pick(self.keyword.take(), keyword);
        self.markers = pick(self.markers.take(), marker);
        self.junit_xml = pick(self.junit_xml.take(), junit_xml);
        self.jsonl = pick(self.jsonl.take(), jsonl);
        self.maxfail = pick(self.maxfail, maxfail);
        if verbose > 0 {
            self.verbose = Some(verbose);
        }
        self.quiet = switch_on(self.quiet, quiet);
        self.last_failed = switch_on(self.last_failed, last_failed);
        self.watch = switch_on(self.watch, watch);
        self.all = switch_on(self.all, all);
        self.cov = switch_on(self.cov, cov);
        self.cov_merge_full = switch_on(self.cov_merge_full, cov_merge_full);
        let _ = no_capture;
        if no_network || disable_allowlist {
            let s = match self.security.take() {
                Some(s) => s,
                None => SecurityConfig::default_config(),
            };
            self.security = Some(secure(s, no_network, disable_allowlist));
        }
        self.engine = Some(engine);
    }

    /// The cache directory, `.veri/cache` when unset.
    pub fn cache_dir(&self) -> (r: String)
        ensures
            r@ == match self.cache_dir {
                Some(d) => d@,
                None => ".veri/cache"@,
            },
    {
        match &self.cache_dir {
            Some(d) => d.clone(),
            None => ".veri/cache".to_owned(),
        }
    }

    /// The log level, INFO when unset.
    pub fn log_level(&self) -> (r: &str)
        ensures
            r@ == match self.log_level {
                Some(l) => l@,
                None => "INFO"@,
            },
    {
        match &self.log_level {
            Some(l) => l.as_str(),
            None => "INFO",
        }
    }

    /// Whether colours are off: configured so, or `NO_COLOR` is set.
    pub fn no_color(&self, no_color_env: bool) -> (r: bool)
        ensures
            r == (self.no_color == Some(true) || no_color_env),
    {
        match self.no_color {
            Some(b) => b || no_color_env,
            None => no_color_env,
        }
    }

    /// The security settings, the defaults when unset.
    pub fn security(&self) -> (s: SecurityConfig)
        ensures
            match self.security {
                Some(o) => s.enforce_allowlist == o.enforce_allowlist && s.no_network == o.no_network,
                None => s.enforce_allowlist == Some(true) && s.no_network == Some(false) && s.allowed_plugins is None,
            },
    {
        match &self.security {
            Some(s) => s.copy(),
            None => SecurityConfig::default_config(),
        }
    }

    /// The telemetry settings, the defaults when unset.
    pub fn telemetry(&self) -> (t: TelemetryConfig)
        ensures
            match self.telemetry {
                Some(o) => t.enabled == o.enabled && t.collection_interval == o.collection_interval
                    && crate::compatibility::opt_view(t.endpoint) == crate::compatibility::opt_view(o.endpoint),
                None => t.enabled == Some(false) && t.endpoint is None && t.collection_interval == Some(300u64),
            },
    {
        match &self.telemetry {
            Some(t) => t.copy(),
            None => TelemetryConfig::default_config(),
        }
    }

    /// Whether network access is blocked: configured so, or
    /// `VERI_NO_NETWORK` is set.
    pub fn should_block_network(&self, no_network_env: bool) -> (r: bool)
        ensures
            r == (match self.security {
                Some(s) => s.no_network == Some(true),
                None => false,
            } || no_network_env),
    {
        let s = self.security();
        match s.no_network {
            Some(b) => b || no_network_env,
            None => no_network_env,
        }
    }

    /// Whether the plugin allowlist is enforced: not when
    /// `VERI_DISABLE_ALLOWLIST` is set, else as configured (on by default).
    pub fn enforce_plugin_allowlist(&self, disable_allowlist_env: bool) -> (r: bool)
        ensures
            r == (!disable_allowlist_env && match self.security {
                Some(s) => s.enforce_allowlist != Some(false),
                None => true,
            }),
    {
        if disable_allowlist_env {
            return false;
        }
        let s = self.security();
        match s.enforce_allowlist {
            Some(b) => b,
            None => true,
        }
    }

    /// Whether telemetry is on: never when an opt-out variable
    /// (`VERI_NO_TELEMETRY`, `DO_NOT_TRACK`, `NO_ANALYTICS`) is set, else as
    /// configured (off by default).
    pub fn is_telemetry_enabled(&self, opted_out: bool) -> (r: bool)
        ensures
            r == (!opted_out && match self.telemetry {
                Some(t) => t.enabled == Some(true),
                None => false,
            }),
    {
        if opted_out {
            return false;
        }
        let t = self.telemetry();
        match t.enabled {
            Some(b) => b,
            None => false,
        }
    }
}

impl Default for Config {
    fn default() -> (c: Self)
        ensures
            is_default(c),
    {
        Self::default_config()
    }
}


/// The configuration as loaded: the defaults `d`, the environment over
/// them, the file (when there is one) over that.
pub open spec fn loaded(d: Config, env: ConfigEnv, file: Option<Config>) -> Config {
    match file {
        Some(f) => merged(with_env(d, env), f),
        None => with_env(d, env),
    }
}

/// The worker count is the command line's, else the file's, else the
/// environment's, else the default.
pub proof fn lemma_workers_precedence(d: Config, env: ConfigEnv, file: Option<Config>, o: CliOverrides)
    ensures
        with_cli(loaded(d, env, file), o).workers == if o.workers is Some {
            o.workers
        } else if file matches Some(f) && f.workers is Some {
            file->0.workers
        } else if env.workers is Some {
            env.workers
        } else {
            d.workers
        },
{
}

/// The log level is the file's, else the environment's, else the default;
/// the command line leaves it alone.
pub proof fn lemma_log_level_precedence(d: Config, env: ConfigEnv, file: Option<Config>, o: CliOverrides)
    ensures
        with_cli(loaded(d, env, file), o).log_level == if file matches Some(f) && f.log_level is Some {
            file->0.log_level
        } else if env.log is Some {
            env.log
        } else {
            d.log_level
        },
{
}

} // verus!
