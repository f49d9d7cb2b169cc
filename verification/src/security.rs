//! Plugin allowlist and basic security checks.
use crate::order::views;
use crate::text::{has_substr, join, prefix_before};
use vstd::prelude::*;

verus! {

/// Security settings.  The allowlist is kept as a list; it is read as a set
/// (order and repeats carry no meaning).
#[derive(Debug)]
pub struct SecurityConfig {
    pub enforce_allowlist: bool,
    pub allowed_plugins: Vec<String>,
    pub no_network: bool,
    pub telemetry_enabled: bool,
    pub telemetry_endpoint: Option<String>,
}

/// What the environment says about security overrides.
#[derive(Debug)]
pub struct SecurityEnv {
    /// `VERI_NO_NETWORK` is set.
    pub no_network: bool,
    /// `VERI_DISABLE_ALLOWLIST` is set.
    pub disable_allowlist: bool,
    /// `VERI_TELEMETRY_ENABLED` is set.
    pub telemetry_enabled: bool,
    /// The value of `VERI_TELEMETRY_ENDPOINT`, if set.
    pub telemetry_endpoint: Option<String>,
}

/// The plugins allowed out of the box.
pub open spec fn default_plugin_names() -> Seq<Seq<char>> {
    seq![
        "pytest"@,
        "pytest-cov"@,
        "pytest-mock"@,
        "pytest-xdist"@,
        "pytest-asyncio"@,
        "pytest-html"@,
        "pytest-json-report"@,
        "pytest-benchmark"@,
        "pytest-timeout"@,
        "pytest-randomly"@,
        "pytest-rerunfailures"@,
        "pytest-sugar"@,
        "pytest-clarity"@,
        "pytest-django"@,
        "pytest-flask"@,
        "pytest-tornado"@,
        "pytest-aiohttp"@,
        "pytest-datadir"@,
        "pytest-postgresql"@,
        "pytest-redis"@,
        "pytest-mysql"@,
    ]
}

/// The characters that start a version specifier (`==`, `>=`, `<=`, `~=`, `!=`, ...).
pub open spec fn version_seps() -> Seq<char> {
    seq!['=', '>', '<', '~', '!']
}

/// A plugin requirement without its version specifier.
pub open spec fn plugin_base_name(s: Seq<char>) -> Seq<char> {
    prefix_before(s, version_seps())
}

/// Appends the items not yet in the list, in order (see
/// [`crate::python_launcher::distinct_after`]).
fn extend_distinct(list: &mut Vec<String>, extra: &Vec<String>)
    ensures
        views(final(list)@) == crate::python_launcher::distinct_after(views(old(list)@), views(extra@)),
{
    let ghost start = views(list@);
    let ghost ev = views(extra@);
    let mut i: usize = 0;
    assert(ev.take(0) =~= Seq::<Seq<char>>::empty());
    while i < extra.len()
        invariant
            i <= extra@.len(),
            ev == views(extra@),
            views(list@) == crate::python_launcher::distinct_after(start, ev.take(i as int)),
        decreases extra@.len() - i,
    {
        assert(ev.take(i + 1).drop_last() =~= ev.take(i as int));
        assert(ev.take(i + 1).last() == extra@[i as int]@);
        if !crate::import_graph::contains_string(list, &extra[i]) {
            let ghost a0 = views(list@);
            list.push(extra[i].clone());
            assert(views(list@) =~= a0.push(extra@[i as int]@));
        }
        i = i + 1;
    }
    assert(ev.take(extra@.len() as int) =~= ev);
}

/// A switch of the `[security]` section: `enforce_allowlist` (0) or the
/// network being allowed (1, the negation of `no_network`); on unless the
/// section sets it otherwise.
pub open spec fn configured_flag(sec: Option<crate::config::SecurityConfig>, which: int) -> bool {
    match sec {
        Some(s) => if which == 0 {
            match s.enforce_allowlist {
                Some(b) => b,
                None => true,
            }
        } else {
            match s.no_network {
                Some(b) => !b,
                None => true,
            }
        },
        None => true,
    }
}

/// The plugins the `[security]` section allows.
pub open spec fn configured_plugins(sec: Option<crate::config::SecurityConfig>) -> Seq<Seq<char>> {
    match sec {
        Some(s) => match s.allowed_plugins {
            Some(ps) => views(ps@),
            None => Seq::empty(),
        },
        None => Seq::empty(),
    }
}

impl SecurityConfig {
    /// The plugin (without version) is on the allowlist, or the allowlist is off.
    pub open spec fn allows(&self, plugin: Seq<char>) -> bool {
        !self.enforce_allowlist || views(self.allowed_plugins@).contains(plugin_base_name(plugin))
    }

    /// The plugins allowed out of the box.
    pub fn default_allowed_plugins() -> (r: Vec<String>)
        ensures
            views(r@) == default_plugin_names(),
    {
        let mut r: Vec<String> = Vec::new();
        r.push("pytest".to_owned());
        r.push("pytest-cov".to_owned());
        r.push("pytest-mock".to_owned());
        r.push("pytest-xdist".to_owned());
        r.push("pytest-asyncio".to_owned());
        r.push("pytest-html".to_owned());
        r.push("pytest-json-report".to_owned());
        r.push("pytest-benchmark".to_owned());
        r.push("pytest-timeout".to_owned());
        r.push("pytest-randomly".to_owned());
        r.push("pytest-rerunfailures".to_owned());
        r.push("pytest-sugar".to_owned());
        r.push("pytest-clarity".to_owned());
        r.push("pytest-django".to_owned());
        r.push("pytest-flask".to_owned());
        r.push("pytest-tornado".to_owned());
        r.push("pytest-aiohttp".to_owned());
        r.push("pytest-datadir".to_owned());
        r.push("pytest-postgresql".to_owned());
        r.push("pytest-redis".to_owned());
        r.push("pytest-mysql".to_owned());
        assert(views(r@) =~= default_plugin_names());
        r
    }

    /// Allowlist on with the default plugins, network allowed, telemetry off.
    pub fn default_config() -> (c: Self)
        ensures
            c.enforce_allowlist,
            views(c.allowed_plugins@) == default_plugin_names(),
            !c.no_network,
            !c.telemetry_enabled,
            c.telemetry_endpoint is None,
    {
        SecurityConfig {
            enforce_allowlist: true,
            allowed_plugins: Self::default_allowed_plugins(),
            no_network: false,
            telemetry_enabled: false,
            telemetry_endpoint: None,
        }
    }

    /// The defaults with the environment's overrides: network blocking, the
    /// allowlist turned off, telemetry (with its endpoint when one is given).
    pub fn from_env(env: SecurityEnv) -> (c: Self)
        ensures
            c.enforce_allowlist == !env.disable_allowlist,
            views(c.allowed_plugins@) == default_plugin_names(),
            c.no_network == env.no_network,
            c.telemetry_enabled == env.telemetry_enabled,
            c.telemetry_endpoint == if env.telemetry_enabled {
                env.telemetry_endpoint
            } else {
                None
            },
    {
        let mut c = Self::default_config();
        if env.no_network {
            c.no_network = true;
        }
        if env.disable_allowlist {
            c.enforce_allowlist = false;
        }
        if env.telemetry_enabled {
            c.telemetry_enabled = true;
            c.telemetry_endpoint = env.telemetry_endpoint;
        }
        c
    }

    /// The security settings of a run: the defaults, then the `[security]`
    /// section of the configuration, then the environment.  The configured
    /// plugins are allowed besides the default ones (the blocked-plugins
    /// warning asks users to list just the blocked plugins there); the
    /// configuration may turn the allowlist off and the network on or off,
    /// and the environment may turn the allowlist off and the network off
    /// whatever the configuration says.
    pub fn from_config(config: &crate::config::Config, env: SecurityEnv) -> (c: Self)
        ensures
            c.enforce_allowlist == (!env.disable_allowlist && configured_flag(config.security, 0)),
            views(c.allowed_plugins@) == crate::python_launcher::distinct_after(
                default_plugin_names(),
                configured_plugins(config.security),
            ),
            c.no_network == (env.no_network || !configured_flag(config.security, 1)),
            c.telemetry_enabled == env.telemetry_enabled,
            c.telemetry_endpoint == if env.telemetry_enabled {
                env.telemetry_endpoint
            } else {
                None
            },
    {
        let mut c = Self::default_config();
        match &config.security {
            Some(sec) => {
                match sec.enforce_allowlist {
                    Some(b) => c.enforce_allowlist = b,
                    None => {},
                }
                match sec.no_network {
                    Some(b) => c.no_network = b,
                    None => {},
                }
                match &sec.allowed_plugins {
                    Some(ps) => extend_distinct(&mut c.allowed_plugins, ps),
                    None => {},
                }
            },
            None => {},
        }
        if env.no_network {
            c.no_network = true;
        }
        if env.disable_allowlist {
            c.enforce_allowlist = false;
        }
        if env.telemetry_enabled {
            c.telemetry_enabled = true;
            c.telemetry_endpoint = env.telemetry_endpoint;
        }
        c
    }

    /// Whether the plugin may be loaded: the allowlist is off, or the name
    /// without its version specifier is on it.
    pub fn is_plugin_allowed(&self, plugin_name: &str) -> (r: bool)
        ensures
            r == self.allows(plugin_name@),
    {
        if !self.enforce_allowlist {
            return true;
        }
        let mut seps: Vec<char> = Vec::new();
        seps.push('=');
        seps.push('>');
        seps.push('<');
        seps.push('~');
        seps.push('!');
        assert(seps@ =~= version_seps());
        let base = crate::text::prefix_until(plugin_name, seps.as_slice());
        crate::import_graph::contains_string(&self.allowed_plugins, &base)
    }

    /// Splits the plugins into allowed and blocked ones, keeping their order.
    pub fn validate_plugins(&self, plugins: &Vec<String>) -> (r: PluginValidationResult)
        ensures
            views(r.allowed@) == views(plugins@).filter(|p: Seq<char>| self.allows(p)),
            views(r.blocked@) == views(plugins@).filter(|p: Seq<char>| !self.allows(p)),
    {
        let ghost ok = |p: Seq<char>| self.allows(p);
        let ghost bad = |p: Seq<char>| !self.allows(p);
        let mut allowed: Vec<String> = Vec::new();
        let mut blocked: Vec<String> = Vec::new();
        let mut i: usize = 0;
        while i < plugins.len()
            invariant
                i <= plugins@.len(),
                ok == (|p: Seq<char>| self.allows(p)),
                bad == (|p: Seq<char>| !self.allows(p)),
                views(allowed@) == views(plugins@.subrange(0, i as int)).filter(ok),
                views(blocked@) == views(plugins@.subrange(0, i as int)).filter(bad),
            decreases plugins@.len() - i,
        {
            let p = &plugins[i];
            let a = self.is_plugin_allowed(p.as_str());
            proof {
                let pre = views(plugins@.subrange(0, i as int));
                let post = views(plugins@.subrange(0, i + 1));
                assert(post.drop_last() =~= pre);
                assert(post.last() == p@);
                reveal(Seq::filter);
            }
            if a {
                allowed.push(p.clone());
                assert(views(allowed@) =~= views(plugins@.subrange(0, i as int)).filter(ok).push(p@));
            } else {
                blocked.push(p.clone());
                assert(views(blocked@) =~= views(plugins@.subrange(0, i as int)).filter(bad).push(p@));
            }
            i = i + 1;
        }
        assert(plugins@.subrange(0, plugins@.len() as int) =~= plugins@);
        PluginValidationResult { allowed, blocked }
    }

    /// Adds a plugin to the allowlist.
    pub fn allow_plugin(&mut self, plugin_name: String)
        ensures
            forall|n: Seq<char>|
                #[trigger] views(final(self).allowed_plugins@).contains(n) <==> (views(
                    old(self).allowed_plugins@,
                ).contains(n) || n == plugin_name@),
            final(self).enforce_allowlist == old(self).enforce_allowlist,
            final(self).no_network == old(self).no_network,
            final(self).telemetry_enabled == old(self).telemetry_enabled,
            final(self).telemetry_endpoint == old(self).telemetry_endpoint,
    {
        if !crate::import_graph::contains_string(&self.allowed_plugins, &plugin_name) {
            let ghost before = views(self.allowed_plugins@);
            let ghost name = plugin_name@;
            self.allowed_plugins.push(plugin_name);
            proof {
                let after = views(self.allowed_plugins@);
                assert(after =~= before.push(name));
                assert forall|n: Seq<char>| #[trigger] after.contains(n) <==> (before.contains(n) || n == name) by {
                    if before.contains(n) {
                        let j = choose|j: int| 0 <= j < before.len() && before[j] == n;
                        assert(after[j] == n);
                    }
                    if after.contains(n) {
                        let j = choose|j: int| 0 <= j < after.len() && after[j] == n;
                        if j < before.len() {
                            assert(before[j] == n);
                        }
                    }
                    if n == name {
                        assert(after[before.len() as int] == n);
                    }
                }
            }
        }
    }

    /// Removes a plugin from the allowlist.
    pub fn block_plugin(&mut self, plugin_name: &str)
        ensures
            forall|n: Seq<char>|
                #[trigger] views(final(self).allowed_plugins@).contains(n) <==> (views(
                    old(self).allowed_plugins@,
                ).contains(n) && n != plugin_name@),
            final(self).enforce_allowlist == old(self).enforce_allowlist,
            final(self).no_network == old(self).no_network,
            final(self).telemetry_enabled == old(self).telemetry_enabled,
            final(self).telemetry_endpoint == old(self).telemetry_endpoint,
    {
        let ghost before = views(self.allowed_plugins@);
        let mut kept: Vec<String> = Vec::new();
        let mut i: usize = 0;
        while i < self.allowed_plugins.len()
            invariant
                i <= self.allowed_plugins@.len(),
                before == views(self.allowed_plugins@),
                forall|n: Seq<char>|
                    #[trigger] views(kept@).contains(n) <==> (views(self.allowed_plugins@.subrange(0, i as int)).contains(n)
                        && n != plugin_name@),
            decreases self.allowed_plugins@.len() - i,
        {
            let ghost pre = views(self.allowed_plugins@.subrange(0, i as int));
            let ghost post = views(self.allowed_plugins@.subrange(0, i + 1));
            let ghost k0 = views(kept@);
            let p = &self.allowed_plugins[i];
            proof {
                assert(post =~= pre.push(p@));
            }
            let drop = crate::text::str_eq(p.as_str(), plugin_name);
            if !drop {
                kept.push(p.clone());
            }
            proof {
                let k1 = views(kept@);
                if !drop {
                    assert(k1 =~= k0.push(p@));
                } else {
                    assert(k1 == k0);
                }
                assert forall|n: Seq<char>| #[trigger] k1.contains(n) <==> (post.contains(n) && n != plugin_name@) by {
                    if post.contains(n) {
                        let j = choose|j: int| 0 <= j < post.len() && post[j] == n;
                        if j < pre.len() {
                            assert(pre[j] == n);
                        }
                    }
                    if pre.contains(n) {
                        let j = choose|j: int| 0 <= j < pre.len() && pre[j] == n;
                        assert(post[j] == n);
                    }
                    if k1.contains(n) && !drop {
                        let j = choose|j: int| 0 <= j < k1.len() && k1[j] == n;
                        if j < k0.len() {
                            assert(k0[j] == n);
                        }
                    }
                    if k0.contains(n) && !drop {
                        let j = choose|j: int| 0 <= j < k0.len() && k0[j] == n;
                        assert(k1[j] == n);
                    }
                    if !drop && n == p@ {
                        assert(k1[k0.len() as int] == n);
                        assert(post[pre.len() as int] == n);
                    }
                }
            }
            i = i + 1;
        }
        assert(self.allowed_plugins@.subrange(0, self.allowed_plugins@.len() as int) =~= self.allowed_plugins@);
        self.allowed_plugins = kept;
    }

    /// Whether network access should be blocked.
    pub fn should_block_network(&self) -> (r: bool)
        ensures
            r == self.no_network,
    {
        self.no_network
    }

    /// Whether telemetry is enabled.
    pub fn is_telemetry_enabled(&self) -> (r: bool)
        ensures
            r == self.telemetry_enabled,
    {
        self.telemetry_enabled
    }
}

impl Default for SecurityConfig {
    fn default() -> (c: Self)
        ensures
            c.enforce_allowlist,
            views(c.allowed_plugins@) == default_plugin_names(),
            !c.no_network,
            !c.telemetry_enabled,
            c.telemetry_endpoint is None,
    {
        Self::default_config()
    }
}


proof fn lemma_prefix_before_concat(name: Seq<char>, spec: Seq<char>, seps: Seq<char>)
    requires
        forall|i: int| 0 <= i < name.len() ==> !crate::text::has_char(seps, #[trigger] name[i]),
        spec.len() > 0,
        crate::text::has_char(seps, spec[0]),
    ensures
        crate::text::first_sep(name + spec, seps) == name.len(),
        prefix_before(name + spec, seps) == name,
    decreases name.len(),
{
    let s = name + spec;
    if name.len() == 0 {
        assert(s[0] == spec[0]);
        assert(s.take(0) =~= name);
    } else {
        assert(!crate::text::has_char(seps, name[0]));
        assert(s[0] == name[0]);
        assert(s.drop_first() =~= name.drop_first() + spec);
        assert forall|i: int| 0 <= i < name.drop_first().len() implies !crate::text::has_char(
            seps,
            #[trigger] name.drop_first()[i],
        ) by {
            assert(name.drop_first()[i] == name[i + 1]);
        }
        lemma_prefix_before_concat(name.drop_first(), spec, seps);
        assert(s.take(crate::text::first_sep(s, seps)) =~= name);
    }
}

/// A version specifier does not change whether a plugin is allowed: for a
/// plain name, `name==1.0`, `name>=2` and the like are allowed exactly when
/// `name` is.
pub proof fn lemma_version_specifier_ignored(config: SecurityConfig, name: Seq<char>, specifier: Seq<char>)
    requires
        forall|i: int| 0 <= i < name.len() ==> !crate::text::has_char(version_seps(), #[trigger] name[i]),
        specifier.len() > 0,
        crate::text::has_char(version_seps(), specifier[0]),
    ensures
        config.allows(name + specifier) == config.allows(name),
{
    lemma_prefix_before_concat(name, specifier, version_seps());
    lemma_prefix_before_concat(name, seq!['='], version_seps());
    assert(crate::text::has_char(version_seps(), '=')) by {
        assert(version_seps()[0] == '=');
    }
    lemma_plain_name_base(name);
}

proof fn lemma_plain_name_base(name: Seq<char>)
    requires
        forall|i: int| 0 <= i < name.len() ==> !crate::text::has_char(version_seps(), #[trigger] name[i]),
    ensures
        crate::text::first_sep(name, version_seps()) == name.len(),
        plugin_base_name(name) == name,
    decreases name.len(),
{
    if name.len() > 0 {
        assert(!crate::text::has_char(version_seps(), name[0]));
        assert forall|i: int| 0 <= i < name.drop_first().len() implies !crate::text::has_char(
            version_seps(),
            #[trigger] name.drop_first()[i],
        ) by {
            assert(name.drop_first()[i] == name[i + 1]);
        }
        lemma_plain_name_base(name.drop_first());
        assert(name.take(crate::text::first_sep(name, version_seps())) =~= name);
    } else {
        assert(name.take(0) =~= name);
    }
}

/// Validation splits the plugins: every plugin is either allowed or
/// blocked, so the two lists together are as long as the input.
pub proof fn lemma_validation_partitions(config: SecurityConfig, plugins: Seq<Seq<char>>)
    ensures
        plugins.filter(|p: Seq<char>| config.allows(p)).len() + plugins.filter(|p: Seq<char>| !config.allows(p)).len()
            == plugins.len(),
    decreases plugins.len(),
{
    reveal(Seq::filter);
    if plugins.len() > 0 {
        lemma_validation_partitions(config, plugins.drop_last());
    }
}

/// A plain name that was just allowed is allowed; one that was just blocked
/// is refused while the allowlist is enforced.
pub proof fn lemma_allow_block_round_trip(before: SecurityConfig, after: SecurityConfig, name: Seq<char>, allowed: bool)
    requires
        forall|i: int| 0 <= i < name.len() ==> !crate::text::has_char(version_seps(), #[trigger] name[i]),
        after.enforce_allowlist == before.enforce_allowlist,
        allowed ==> forall|n: Seq<char>|
            #[trigger] views(after.allowed_plugins@).contains(n) <==> (views(before.allowed_plugins@).contains(n)
                || n == name),
        !allowed ==> forall|n: Seq<char>|
            #[trigger] views(after.allowed_plugins@).contains(n) <==> (views(before.allowed_plugins@).contains(n)
                && n != name),
    ensures
        allowed ==> after.allows(name),
        !allowed && after.enforce_allowlist ==> !after.allows(name),
{
    lemma_plain_name_base(name);
}

/// Plugins split by the allowlist.
#[derive(Debug)]
pub struct PluginValidationResult {
    pub allowed: Vec<String>,
    pub blocked: Vec<String>,
}

/// The names quoted for a TOML list.
pub open spec fn quoted(items: Seq<Seq<char>>) -> Seq<Seq<char>> {
    items.map_values(|p: Seq<char>| "\""@ + p + "\""@)
}

/// The warning shown when plugins were blocked.
pub open spec fn blocked_warning(blocked: Seq<Seq<char>>) -> Seq<char> {
    WARN_HEAD@ + join(blocked, ", "@) + WARN_MID@ + join(quoted(blocked), ", "@) + WARN_TAIL@
}

impl PluginValidationResult {
    /// Whether any plugin was blocked.
    pub fn has_blocked_plugins(&self) -> (r: bool)
        ensures
            r == (self.blocked@.len() > 0),
    {
        self.blocked.len() > 0
    }

    /// The warning for the blocked plugins: their names, a TOML line that would
    /// allow them, and how to turn the allowlist off; none when nothing was blocked.
    pub fn get_warning_message(&self) -> (r: Option<String>)
        ensures
            self.blocked@.len() == 0 ==> r is None,
            self.blocked@.len() > 0 ==> r is Some && r->0@ == blocked_warning(views(self.blocked@)),
    {
        if self.blocked.len() == 0 {
            return None;
        }
        let ghost bs = views(self.blocked@);
        let mut q: Vec<String> = Vec::new();
        let mut i: usize = 0;
        while i < self.blocked.len()
            invariant
                i <= self.blocked@.len(),
                bs == views(self.blocked@),
                views(q@) == quoted(bs.subrange(0, i as int)),
            decreases self.blocked@.len() - i,
        {
            let mut one = "\"".to_owned();
            one.append(self.blocked[i].as_str());
            one.append("\"");
            let ghost q0 = views(q@);
            assert(one@ =~= "\""@ + bs[i as int] + "\""@);
            q.push(one);
            proof {
                assert(views(q@) =~= q0.push(one@));
                assert(quoted(bs.subrange(0, i + 1)) =~= quoted(bs.subrange(0, i as int)).push(one@));
            }
            i = i + 1;
        }
        assert(bs.subrange(0, bs.len() as int) =~= bs);
        let mut m = WARN_HEAD.to_owned();
        let names = crate::text::join_strings(&self.blocked, ", ");
        m.append(names.as_str());
        m.append(WARN_MID);
        let list = crate::text::join_strings(&q, ", ");
        m.append(list.as_str());
        m.append(WARN_TAIL);
        Some(m)
    }
}

/// First part of the blocked-plugins warning.
pub const WARN_HEAD: &'static str = "⚠️  Blocked plugins detected: ";

/// Middle part of the blocked-plugins warning.
pub const WARN_MID: &'static str = "\n\nThese plugins are not in the allowlist and may pose security risks.\nTo allow these plugins, add them to your veri.toml:\n\n[security]\nallowed_plugins = [";

/// Last part of the blocked-plugins warning.
pub const WARN_TAIL: &'static str = "]\n\nOr disable allowlist enforcement (not recommended):\nVERI_DISABLE_ALLOWLIST=1 veri\n\nFor more information: https://docs.veri.dev/security#plugin-allowlist";

/// Severity of a security finding.
#[derive(Debug, Clone, Copy, PartialEq, Eq, Structural)]
pub enum SecuritySeverity {
    Low,
    Medium,
    High,
    Critical,
}

impl SecuritySeverity {
    /// The symbol shown before a finding.
    pub fn emoji(&self) -> (r: &'static str)
        ensures
            r@ == severity_emoji(*self),
    {
        match self {
            SecuritySeverity::Low => "ℹ️",
            SecuritySeverity::Medium => "⚠️",
            SecuritySeverity::High => "🚨",
            SecuritySeverity::Critical => "🔴",
        }
    }

    /// The terminal colour escape for a finding: cyan, yellow, red, bright red.
    pub fn color_code(&self) -> (r: &'static str)
        ensures
            r@ == severity_color(*self),
    {
        match self {
            SecuritySeverity::Low => "\x1b[36m",
            SecuritySeverity::Medium => "\x1b[33m",
            SecuritySeverity::High => "\x1b[31m",
            SecuritySeverity::Critical => "\x1b[91m",
        }
    }

    /// The word used for a finding in reports.
    pub fn label(&self) -> (r: &'static str)
        ensures
            r@ == severity_label(*self),
    {
        match self {
            SecuritySeverity::Low => "Info",
            SecuritySeverity::Medium => "Warning",
            SecuritySeverity::High => "Alert",
            SecuritySeverity::Critical => "Critical",
        }
    }
}

/// The symbol shown before a finding.
pub open spec fn severity_emoji(s: SecuritySeverity) -> Seq<char> {
    match s {
        SecuritySeverity::Low => "ℹ️"@,
        SecuritySeverity::Medium => "⚠️"@,
        SecuritySeverity::High => "🚨"@,
        SecuritySeverity::Critical => "🔴"@,
    }
}

/// The terminal colour escape of a finding.
pub open spec fn severity_color(s: SecuritySeverity) -> Seq<char> {
    match s {
        SecuritySeverity::Low => "\x1b[36m"@,
        SecuritySeverity::Medium => "\x1b[33m"@,
        SecuritySeverity::High => "\x1b[31m"@,
        SecuritySeverity::Critical => "\x1b[91m"@,
    }
}

/// The word used for a finding in reports.
pub open spec fn severity_label(s: SecuritySeverity) -> Seq<char> {
    match s {
        SecuritySeverity::Low => "Info"@,
        SecuritySeverity::Medium => "Warning"@,
        SecuritySeverity::High => "Alert"@,
        SecuritySeverity::Critical => "Critical"@,
    }
}

/// A security finding.
#[derive(Debug)]
pub struct SecurityWarning {
    pub severity: SecuritySeverity,
    pub plugin_name: String,
    pub issue: String,
    pub recommendation: String,
}

/// A finding as values.
pub ghost struct WarningView {
    pub severity: SecuritySeverity,
    pub plugin_name: Seq<char>,
    pub issue: Seq<char>,
    pub recommendation: Seq<char>,
}

pub open spec fn warning_view(w: SecurityWarning) -> WarningView {
    WarningView {
        severity: w.severity,
        plugin_name: w.plugin_name@,
        issue: w.issue@,
        recommendation: w.recommendation@,
    }
}

pub open spec fn warning_views(ws: Seq<SecurityWarning>) -> Seq<WarningView> {
    ws.map_values(|w: SecurityWarning| warning_view(w))
}

pub open spec fn finding(sev: SecuritySeverity, name: Seq<char>, issue: Seq<char>, rec: Seq<char>) -> Seq<WarningView> {
    seq![WarningView { severity: sev, plugin_name: name, issue: issue, recommendation: rec }]
}

/// Findings for one plugin name: code execution (`exec`, `eval`), debugging
/// (`debug`, `pdb`), network access (`http`, `requests`, `urllib`).
pub open spec fn plugin_findings(p: Seq<char>) -> Seq<WarningView> {
    (if has_substr(p, "exec"@) || has_substr(p, "eval"@) {
        finding(SecuritySeverity::High, p, ISSUE_EXEC@, REC_EXEC@)
    } else {
        Seq::empty()
    }) + (if has_substr(p, "debug"@) || has_substr(p, "pdb"@) {
        finding(SecuritySeverity::Medium, p, ISSUE_DEBUG@, REC_DEBUG@)
    } else {
        Seq::empty()
    }) + (if has_substr(p, "http"@) || has_substr(p, "requests"@) || has_substr(p, "urllib"@) {
        finding(SecuritySeverity::Low, p, ISSUE_NET@, REC_NET@)
    } else {
        Seq::empty()
    })
}

/// Findings for one conftest source: `exec(`/`eval(` and subprocess/`os.system` use.
pub open spec fn conftest_findings(src: Seq<char>) -> Seq<WarningView> {
    (if has_substr(src, "exec("@) || has_substr(src, "eval("@) {
        finding(SecuritySeverity::High, "conftest.py"@, ISSUE_CONF_EXEC@, REC_CONF_EXEC@)
    } else {
        Seq::empty()
    }) + (if has_substr(src, "import subprocess"@) || has_substr(src, "os.system"@) {
        finding(SecuritySeverity::Medium, "conftest.py"@, ISSUE_CONF_SYS@, REC_CONF_SYS@)
    } else {
        Seq::empty()
    })
}

/// Findings for all the items, in order.
pub open spec fn all_findings(items: Seq<Seq<char>>, conftest: bool) -> Seq<WarningView>
    decreases items.len(),
{
    if items.len() == 0 {
        Seq::empty()
    } else {
        all_findings(items.drop_last(), conftest) + if conftest {
            conftest_findings(items.last())
        } else {
            plugin_findings(items.last())
        }
    }
}

pub const ISSUE_EXEC: &'static str = "Plugin name suggests code execution capabilities";
pub const REC_EXEC: &'static str = "Review plugin source code before allowing";
pub const ISSUE_DEBUG: &'static str = "Debug plugin detected - may expose sensitive information";
pub const REC_DEBUG: &'static str = "Consider disabling in production environments";
pub const ISSUE_NET: &'static str = "Plugin may make network requests";
pub const REC_NET: &'static str = "Use --no-network flag if network isolation is required";
pub const ISSUE_CONF_EXEC: &'static str = "Potentially unsafe code execution detected in conftest.py";
pub const REC_CONF_EXEC: &'static str = "Review conftest.py for security implications";
pub const ISSUE_CONF_SYS: &'static str = "System command execution detected in conftest.py";
pub const REC_CONF_SYS: &'static str = "Ensure subprocess calls are safe and necessary";

fn make_warning(sev: SecuritySeverity, name: &str, issue: &str, rec: &str) -> (w: SecurityWarning)
    ensures
        seq![warning_view(w)] == finding(sev, name@, issue@, rec@),
{
    SecurityWarning {
        severity: sev,
        plugin_name: name.to_owned(),
        issue: issue.to_owned(),
        recommendation: rec.to_owned(),
    }
}

/// Scanner for unsafe plugin and conftest patterns.
pub struct SecurityScanner;

impl SecurityScanner {
    /// Findings for the plugin names, in order (see [`plugin_findings`]).
    pub fn scan_plugins(plugins: &Vec<String>) -> (r: Vec<SecurityWarning>)
        ensures
            warning_views(r@) == all_findings(views(plugins@), false),
    {
        let ghost ps = views(plugins@);
        let mut r: Vec<SecurityWarning> = Vec::new();
        let mut i: usize = 0;
        while i < plugins.len()
            invariant
                i <= plugins@.len(),
                ps == views(plugins@),
                warning_views(r@) == all_findings(ps.subrange(0, i as int), false),
            decreases plugins@.len() - i,
        {
            let p = plugins[i].as_str();
            let ghost r0 = warning_views(r@);
            let ghost pv = p@;
            if crate::text::str_contains(p, "exec") || crate::text::str_contains(p, "eval") {
                r.push(make_warning(SecuritySeverity::High, p, ISSUE_EXEC, REC_EXEC));
            }
            let ghost r1 = warning_views(r@);
            if crate::text::str_contains(p, "debug") || crate::text::str_contains(p, "pdb") {
                r.push(make_warning(SecuritySeverity::Medium, p, ISSUE_DEBUG, REC_DEBUG));
            }
            let ghost r2 = warning_views(r@);
            if crate::text::str_contains(p, "http") || crate::text::str_contains(p, "requests")
                || crate::text::str_contains(p, "urllib") {
                r.push(make_warning(SecuritySeverity::Low, p, ISSUE_NET, REC_NET));
            }
            proof {
                let pre = ps.subrange(0, i as int);
                let post = ps.subrange(0, i + 1);
                assert(post.drop_last() =~= pre);
                assert(post.last() == pv);
                let f = plugin_findings(pv);
                assert(warning_views(r@) =~= r0 + f);
            }
            i = i + 1;
        }
        assert(ps.subrange(0, ps.len() as int) =~= ps);
        r
    }

    /// Findings for the conftest sources, in order (see [`conftest_findings`]).
    pub fn check_autoload_safety(conftest_files: &Vec<String>) -> (r: Vec<SecurityWarning>)
        ensures
            warning_views(r@) == all_findings(views(conftest_files@), true),
    {
        let ghost ps = views(conftest_files@);
        let mut r: Vec<SecurityWarning> = Vec::new();
        let mut i: usize = 0;
        while i < conftest_files.len()
            invariant
                i <= conftest_files@.len(),
                ps == views(conftest_files@),
                warning_views(r@) == all_findings(ps.subrange(0, i as int), true),
            decreases conftest_files@.len() - i,
        {
            let p = conftest_files[i].as_str();
            let ghost r0 = warning_views(r@);
            let ghost pv = p@;
            if crate::text::str_contains(p, "exec(") || crate::text::str_contains(p, "eval(") {
                r.push(make_warning(SecuritySeverity::High, "conftest.py", ISSUE_CONF_EXEC, REC_CONF_EXEC));
            }
            if crate::text::str_contains(p, "import subprocess") || crate::text::str_contains(p, "os.system") {
                r.push(make_warning(SecuritySeverity::Medium, "conftest.py", ISSUE_CONF_SYS, REC_CONF_SYS));
            }
            proof {
                let pre = ps.subrange(0, i as int);
                let post = ps.subrange(0, i + 1);
                assert(post.drop_last() =~= pre);
                assert(post.last() == pv);
                assert(warning_views(r@) =~= r0 + conftest_findings(pv));
            }
            i = i + 1;
        }
        assert(ps.subrange(0, ps.len() as int) =~= ps);
        r
    }
}

/// A finding as text: symbol, optional colour, `Security <label>: <issue>`,
/// then plugin, issue and recommendation on indented lines.
pub open spec fn warning_text(w: WarningView, use_color: bool) -> Seq<char> {
    severity_emoji(w.severity) + " "@ + (if use_color {
        severity_color(w.severity)
    } else {
        Seq::empty()
    }) + "Security "@ + severity_label(w.severity) + ": "@ + w.issue + (if use_color {
        "\x1b[0m"@
    } else {
        Seq::empty()
    }) + "\n  Plugin: "@ + w.plugin_name + "\n  Issue: "@ + w.issue + "\n  Recommendation: "@
        + w.recommendation
}

impl SecurityWarning {
    /// The finding as text (see [`warning_text`]), coloured on request.
    pub fn format(&self, use_color: bool) -> (r: String)
        ensures
            r@ == warning_text(warning_view(*self), use_color),
    {
        let mut s = self.severity.emoji().to_owned();
        s.append(" ");
        if use_color {
            s.append(self.severity.color_code());
        }
        s.append("Security ");
        s.append(self.severity.label());
        s.append(": ");
        s.append(self.issue.as_str());
        if use_color {
            s.append("\x1b[0m");
        }
        s.append("\n  Plugin: ");
        s.append(self.plugin_name.as_str());
        s.append("\n  Issue: ");
        s.append(self.issue.as_str());
        s.append("\n  Recommendation: ");
        s.append(self.recommendation.as_str());
        assert(s@ =~= warning_text(warning_view(*self), use_color));
        s
    }
}

} // verus!
