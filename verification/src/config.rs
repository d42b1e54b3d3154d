//! The agent's configuration, its defaults, and the values derived from it: the
//! agent's name, paths under the home directory and webhook secrets.
use vstd::prelude::*;
use crate::model::{string_of, opt_view};
use crate::speedtest::SpeedTestConfig;
use crate::text::{push_str, has_prefix, strip_prefix, is_blank, is_blank_str, trim, trim_str, join, join_strings, uppercase_char, char_to_uppercase, to_chars, string_from_range};

verus! {

pub struct AgentConfig {
    pub name: Option<String>,
}

impl Default for AgentConfig {
    fn default() -> (c: AgentConfig)
        ensures
            c.name is None,
    {
        AgentConfig { name: None }
    }
}

pub struct NetworkConfig {
    pub interface: String,
    pub scan_interval_secs: u64,
    pub passive_capture: bool,
    pub gateway: String,
    pub presence_timeout_secs: u64,
    pub link_check_interval_secs: u64,
}

impl Default for NetworkConfig {
    fn default() -> (c: NetworkConfig)
        ensures
            c.interface@ == "auto"@,
            c.scan_interval_secs == 60,
            c.passive_capture,
            c.gateway@ == "auto"@,
            c.presence_timeout_secs == 180,
            c.link_check_interval_secs == 30,
    {
        NetworkConfig {
            interface: string_of("auto"),
            scan_interval_secs: 60,
            passive_capture: true,
            gateway: string_of("auto"),
            presence_timeout_secs: 180,
            link_check_interval_secs: 30,
        }
    }
}

/// Seconds between discovery passes: the configured interval, at least 10.
pub fn scan_period_secs(scan_interval_secs: u64) -> (r: u64)
    ensures
        r == if scan_interval_secs >= 10 { scan_interval_secs } else { 10 },
{
    if scan_interval_secs >= 10 {
        scan_interval_secs
    } else {
        10
    }
}

pub struct StorageConfig {
    pub database_path: String,
}

impl Default for StorageConfig {
    fn default() -> (c: StorageConfig)
        ensures
            c.database_path@ == "~/.local/share/network-monitor/network-monitor.db"@,
    {
        StorageConfig { database_path: string_of("~/.local/share/network-monitor/network-monitor.db") }
    }
}

pub struct ApiConfig {
    pub bind_addr: String,
    pub enabled: bool,
}

impl Default for ApiConfig {
    fn default() -> (c: ApiConfig)
        ensures
            c.bind_addr@ == "127.0.0.1:8080"@,
            c.enabled,
    {
        ApiConfig { bind_addr: string_of("127.0.0.1:8080"), enabled: true }
    }
}

pub struct NtfyConfig {
    pub enabled: bool,
    pub server: String,
    pub topic: String,
}

impl Default for NtfyConfig {
    fn default() -> (c: NtfyConfig)
        ensures
            !c.enabled,
            c.server@ == "https://ntfy.sh"@,
            c.topic@ == "home-lan"@,
    {
        NtfyConfig { enabled: false, server: string_of("https://ntfy.sh"), topic: string_of("home-lan") }
    }
}

pub struct WebhookConfig {
    pub enabled: bool,
    pub url: String,
    pub secret: Option<String>,
}

impl Default for WebhookConfig {
    fn default() -> (c: WebhookConfig)
        ensures
            !c.enabled,
            c.url@.len() == 0,
            c.secret is None,
    {
        WebhookConfig { enabled: false, url: String::new(), secret: None }
    }
}

pub struct DesktopConfig {
    pub enabled: bool,
}

impl Default for DesktopConfig {
    fn default() -> (c: DesktopConfig)
        ensures
            c.enabled,
    {
        DesktopConfig { enabled: true }
    }
}

pub struct FcmConfig {
    pub enabled: bool,
    pub project_id: Option<String>,
    pub credentials_path: Option<String>,
}

impl Default for FcmConfig {
    fn default() -> (c: FcmConfig)
        ensures
            !c.enabled,
            c.project_id is None,
            c.credentials_path is None,
    {
        FcmConfig { enabled: false, project_id: None, credentials_path: None }
    }
}

pub struct NotificationsConfig {
    pub ntfy: NtfyConfig,
    pub webhook: WebhookConfig,
    pub desktop: DesktopConfig,
    pub fcm: FcmConfig,
}

impl Default for NotificationsConfig {
    /// Each channel's defaults: only desktop notifications are on.
    fn default() -> (c: NotificationsConfig)
        ensures
            !c.ntfy.enabled,
            c.ntfy.server@ == "https://ntfy.sh"@,
            c.ntfy.topic@ == "home-lan"@,
            !c.webhook.enabled,
            c.webhook.url@.len() == 0,
            c.webhook.secret is None,
            c.desktop.enabled,
            !c.fcm.enabled,
            c.fcm.project_id is None,
            c.fcm.credentials_path is None,
    {
        NotificationsConfig {
            ntfy: NtfyConfig::default(),
            webhook: WebhookConfig::default(),
            desktop: DesktopConfig::default(),
            fcm: FcmConfig::default(),
        }
    }
}

/// The whole configuration file.
pub struct AppConfig {
    pub agent: AgentConfig,
    pub network: NetworkConfig,
    pub speedtest: SpeedTestConfig,
    pub storage: StorageConfig,
    pub api: ApiConfig,
    pub notifications: NotificationsConfig,
}

impl Default for AppConfig {
    /// Every section's defaults.
    fn default() -> (c: AppConfig)
        ensures
            c.agent.name is None,
            c.network.interface@ == "auto"@,
            c.network.scan_interval_secs == 60,
            c.network.passive_capture,
            c.network.gateway@ == "auto"@,
            c.network.presence_timeout_secs == 180,
            c.network.link_check_interval_secs == 30,
            c.speedtest.enabled,
            c.speedtest.interval_secs == 21_600,
            c.speedtest.backend == crate::speedtest::SpeedTestBackendKind::Cloudflare,
            c.speedtest.server_url is None,
            c.speedtest.min_interval_secs == 300,
            c.storage.database_path@ == "~/.local/share/network-monitor/network-monitor.db"@,
            c.api.bind_addr@ == "127.0.0.1:8080"@,
            c.api.enabled,
            !c.notifications.ntfy.enabled,
            c.notifications.ntfy.server@ == "https://ntfy.sh"@,
            c.notifications.ntfy.topic@ == "home-lan"@,
            !c.notifications.webhook.enabled,
            c.notifications.webhook.url@.len() == 0,
            c.notifications.webhook.secret is None,
            c.notifications.desktop.enabled,
            !c.notifications.fcm.enabled,
            c.notifications.fcm.project_id is None,
            c.notifications.fcm.credentials_path is None,
    {
        AppConfig {
            agent: AgentConfig::default(),
            network: NetworkConfig::default(),
            speedtest: SpeedTestConfig::default(),
            storage: StorageConfig::default(),
            api: ApiConfig::default(),
            notifications: NotificationsConfig::default(),
        }
    }
}

/// Errors of the configuration layer.
#[derive(Debug)]
pub enum CoreError {
    Config(String),
    InvalidMac(String),
}

impl CoreError {
    pub fn message(&self) -> (r: String)
        ensures
            r@ == match self {
                CoreError::Config(s) => "config error: "@ + s@,
                CoreError::InvalidMac(s) => "invalid MAC address: "@ + s@,
            },
    {
        match self {
            CoreError::Config(s) => {
                let mut r = string_of("config error: ");
                push_str(&mut r, s.as_str());
                r
            },
            CoreError::InvalidMac(s) => {
                let mut r = string_of("invalid MAC address: ");
                push_str(&mut r, s.as_str());
                r
            },
        }
    }
}

// ---------------------------------------------------------------------------
// Paths and secrets
// ---------------------------------------------------------------------------
pub open spec fn expand_path_spec(path: Seq<char>, home: Option<Seq<char>>) -> Seq<char> {
    if has_prefix(path, "~/"@) && home is Some {
        home->0 + "/"@ + path.subrange(2, path.len() as int)
    } else {
        path
    }
}

/// `~/rest` becomes `home/rest` when the home directory is known (`$HOME`);
/// any other path is returned as it is.
pub fn expand_path(path: &str, home: Option<&str>) -> (r: String)
    ensures
        r@ == expand_path_spec(
            path@,
            match home {
                Some(h) => Some(h@),
                None => None,
            },
        ),
{
    proof {
        reveal_strlit("~/");
    }
    if let Some(rest) = strip_prefix(path, "~/") {
        if let Some(h) = home {
            let mut r = string_of(h);
            push_str(&mut r, "/");
            push_str(&mut r, rest.as_str());
            return r;
        }
    }
    string_of(path)
}

/// Where a configured secret comes from: nowhere, an environment variable
/// (`env:NAME`), or the text itself.
pub open spec fn secret_env_key_spec(value: Option<Seq<char>>) -> Option<Seq<char>> {
    match value {
        Some(v) => if has_prefix(v, "env:"@) {
            Some(v.subrange(4, v.len() as int))
        } else {
            None
        },
        None => None,
    }
}

/// The secret names an environment variable: it starts with `env:`.
pub open spec fn has_prefix_env(v: Seq<char>) -> bool {
    has_prefix(v, "env:"@)
}

/// The environment variable a secret names (`env:NAME`), if it names one.
pub fn secret_env_key(value: &Option<String>) -> (r: Option<String>)
    ensures
        match secret_env_key_spec(opt_view(*value)) {
            Some(k) => r matches Some(x) && x@ == k,
            None => r is None,
        },
{
    proof {
        reveal_strlit("env:");
    }
    match value {
        Some(v) => strip_prefix(v.as_str(), "env:"),
        None => None,
    }
}

/// The secret's value: nothing when none is configured, the named environment
/// variable's value (`env_value`, read by the caller) for `env:NAME`, else the
/// configured text.
pub fn resolve_secret(value: &Option<String>, env_value: Option<String>) -> (r: Option<String>)
    ensures
        opt_view(r) == match opt_view(*value) {
            None => None,
            Some(v) => if has_prefix_env(v) {
                opt_view(env_value)
            } else {
                Some(v)
            },
        },
{
    proof {
        reveal_strlit("env:");
    }
    match value {
        None => None,
        Some(v) => {
            if strip_prefix(v.as_str(), "env:").is_some() {
                env_value
            } else {
                Some(v.clone())
            }
        },
    }
}

// ---------------------------------------------------------------------------
// The agent's name
// ---------------------------------------------------------------------------
pub open spec fn is_name_sep(c: char) -> bool {
    c == '-' || c == '_'
}

/// `str::split` on `-` and `_`.
pub open spec fn split_seps(s: Seq<char>) -> Seq<Seq<char>>
    decreases s.len(),
{
    if s.len() == 0 {
        seq![Seq::empty()]
    } else {
        let rest = split_seps(s.drop_last());
        if is_name_sep(s.last()) {
            rest.push(Seq::empty())
        } else {
            rest.update(rest.len() - 1, rest.last().push(s.last()))
        }
    }
}

proof fn lemma_split_seps_len(s: Seq<char>)
    ensures
        split_seps(s).len() >= 1,
    decreases s.len(),
{
    if s.len() > 0 {
        lemma_split_seps_len(s.drop_last());
    }
}

/// A word with its first character upper-cased (`char::to_uppercase`).
pub open spec fn capitalized(w: Seq<char>) -> Seq<char> {
    if w.len() == 0 {
        Seq::empty()
    } else {
        uppercase_char(w[0]) + w.drop_first()
    }
}

/// The name derived from a host name: its `-`/`_`-separated words, capitalized,
/// joined by spaces.
pub open spec fn agent_name_spec(host: Seq<char>) -> Seq<char> {
    join(split_seps(host).map_values(|w: Seq<char>| capitalized(w)), " "@)
}

fn capitalize(w: &Vec<char>, from: usize, to: usize) -> (r: String)
    requires
        from <= to <= w.len(),
    ensures
        r@ == capitalized(w@.subrange(from as int, to as int)),
{
    if from == to {
        return String::new();
    }
    let mut r = char_to_uppercase(w[from]);
    let rest = string_from_range(w, from + 1, to);
    push_str(&mut r, rest.as_str());
    proof {
        let p = w@.subrange(from as int, to as int);
        assert(p.drop_first() =~= w@.subrange(from + 1, to as int));
    }
    r
}

/// The agent name made from a host name: `my-home_pi` becomes `My Home Pi`.
pub fn agent_name_from_hostname(host: &str) -> (r: String)
    ensures
        r@ == agent_name_spec(host@),
{
    let v = to_chars(host);
    let mut words: Vec<String> = Vec::new();
    let mut start: usize = 0;
    let mut i: usize = 0;
    let ghost f = |w: Seq<char>| capitalized(w);
    proof {
        assert(v@.subrange(0, 0) =~= Seq::<char>::empty());
        assert(split_seps(v@.take(0)) =~= seq![Seq::<char>::empty()]);
    }
    while i < v.len()
        invariant
            start <= i <= v.len(),
            v@ == host@,
            ({
                let p = split_seps(v@.take(i as int));
                &&& p.len() == words@.len() + 1
                &&& p.last() == v@.subrange(start as int, i as int)
                &&& forall|k: int| 0 <= k < words@.len() ==> words@[k]@ == capitalized(#[trigger] p[k])
            }),
        decreases v.len() - i,
    {
        let ghost before = split_seps(v@.take(i as int));
        proof {
            assert(v@.take(i + 1).drop_last() =~= v@.take(i as int));
            assert(v@.take(i + 1).last() == v@[i as int]);
            lemma_split_seps_len(v@.take(i as int));
        }
        if v[i] == '-' || v[i] == '_' {
            let w = capitalize(&v, start, i);
            words.push(w);
            start = i + 1;
            proof {
                assert(v@.subrange(start as int, i + 1) =~= Seq::<char>::empty());
            }
        } else {
            proof {
                assert(v@.subrange(start as int, i + 1) =~= v@.subrange(start as int, i as int).push(v@[i as int]));
            }
        }
        i += 1;
    }
    let last = capitalize(&v, start, v.len());
    words.push(last);
    proof {
        assert(v@.take(v.len() as int) =~= v@);
        let p = split_seps(v@);
        let caps = p.map_values(|w: Seq<char>| capitalized(w));
        assert(words@.map_values(|s: String| s@) =~= caps) by {
            assert forall|k: int| 0 <= k < words@.len() implies words@.map_values(|s: String| s@)[k] == caps[k] by {
                if k < words@.len() - 1 {
                    assert(words@[k]@ == capitalized(p[k]));
                }
            }
        }
    }
    join_strings(&words, " ")
}

/// What `hostname::get` returns, as text when it is valid Unicode.
#[verifier::external_body]
fn system_hostname() -> (r: Option<String>) {
    hostname::get().ok().and_then(|h| h.into_string().ok())
}

/// The agent name for a host name as read (`None` when it could not be read):
/// derived from it, or `Network Monitor`.
pub fn agent_name_or_default(host: Option<&str>) -> (r: String)
    ensures
        r@ == match host {
            Some(h) => agent_name_spec(h@),
            None => "Network Monitor"@,
        },
{
    match host {
        Some(h) => agent_name_from_hostname(h),
        None => string_of("Network Monitor"),
    }
}

/// The name derived from the machine's host name, or `Network Monitor` when the
/// host name cannot be read.
pub fn default_agent_name_from_hostname() -> (r: String)
    ensures
        r@ == "Network Monitor"@ || exists|h: Seq<char>| r@ == agent_name_spec(h),
{
    let host = system_hostname();
    let name = match &host {
        Some(h) => agent_name_or_default(Some(h.as_str())),
        None => agent_name_or_default(None),
    };
    name
}

/// The configured agent name, when there is one that is not blank.
pub fn configured_agent_name(config: &AppConfig) -> (r: Option<String>)
    ensures
        match opt_view(config.agent.name) {
            Some(n) => if is_blank(n) {
                r is None
            } else {
                r matches Some(x) && x@ == n
            },
            None => r is None,
        },
{
    match &config.agent.name {
        Some(n) => if is_blank_str(n.as_str()) {
            None
        } else {
            Some(n.clone())
        },
        None => None,
    }
}

/// The agent's name: the configured one when it is not blank; otherwise one
/// derived from the host name, which is stored in the configuration (the second
/// result then says that the configuration should be saved).
pub fn resolve_agent_name(config: &mut AppConfig) -> (r: (String, bool))
    ensures
        match configured_name_spec(old(config).agent.name) {
            Some(n) => r.0@ == n && !r.1 && opt_view(final(config).agent.name) == opt_view(old(config).agent.name),
            None => r.1 && opt_view(final(config).agent.name) == Some(r.0@) && (r.0@ == "Network Monitor"@
                || exists|h: Seq<char>| r.0@ == agent_name_spec(h)),
        },
{
    if let Some(n) = configured_agent_name(config) {
        return (n, false);
    }
    let name = default_agent_name_from_hostname();
    config.agent.name = Some(name.clone());
    (name, true)
}

pub open spec fn configured_name_spec(name: Option<String>) -> Option<Seq<char>> {
    match opt_view(name) {
        Some(n) => if is_blank(n) {
            None
        } else {
            Some(n)
        },
        None => None,
    }
}

/// The name offered during setup: the configured one if any (even blank),
/// otherwise the host-derived default (`hostname_default`, computed by the caller
/// only when needed).
pub fn setup_default_name(config: &AppConfig, hostname_default: Option<String>) -> (r: Option<String>)
    ensures
        match config.agent.name {
            Some(n) => r matches Some(x) && x@ == n@,
            None => opt_view(r) == opt_view(hostname_default),
        },
{
    match &config.agent.name {
        Some(n) => Some(n.clone()),
        None => hostname_default,
    }
}

/// The name setup settles on: what was typed, trimmed, unless that is empty;
/// otherwise (or when nothing could be typed) the default.
pub fn setup_agent_name(default_name: &str, typed: Option<&str>) -> (r: String)
    ensures
        r@ == match typed {
            Some(t) => if trim(t@).len() == 0 {
                default_name@
            } else {
                trim(t@)
            },
            None => default_name@,
        },
{
    match typed {
        Some(t) => {
            let name = trim_str(t);
            if name.as_str().unicode_len() == 0 {
                string_of(default_name)
            } else {
                name
            }
        },
        None => string_of(default_name),
    }
}

} // verus!
