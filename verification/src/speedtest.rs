//! Speed tests: which backend runs them, where it sends its requests, and when a
//! manual test may run.
use vstd::prelude::*;
use crate::model::{string_of, str_eq, opt_view};
use crate::text::{push_str, append_decimal, decimal, to_lowercase, lowercase, trim_end_matches_char, trim_end_char};

verus! {

/// Which service measures throughput.
#[derive(Clone, Copy, Debug, PartialEq, Eq, Structural)]
pub enum SpeedTestBackendKind {
    LibreSpeed,
    Cloudflare,
}

pub open spec fn backend_kind_name(k: SpeedTestBackendKind) -> Seq<char> {
    match k {
        SpeedTestBackendKind::LibreSpeed => "librespeed"@,
        SpeedTestBackendKind::Cloudflare => "cloudflare"@,
    }
}

/// The backend a lower-cased name stands for, or the error text for any other
/// name.
pub open spec fn backend_kind_from(lower: Seq<char>) -> Result<SpeedTestBackendKind, Seq<char>> {
    if lower == "librespeed"@ {
        Ok(SpeedTestBackendKind::LibreSpeed)
    } else if lower == "cloudflare"@ {
        Ok(SpeedTestBackendKind::Cloudflare)
    } else {
        Err("unknown speedtest backend: "@ + lower)
    }
}

impl SpeedTestBackendKind {
    pub fn name(&self) -> (r: String)
        ensures
            r@ == backend_kind_name(*self),
    {
        match self {
            SpeedTestBackendKind::LibreSpeed => string_of("librespeed"),
            SpeedTestBackendKind::Cloudflare => string_of("cloudflare"),
        }
    }

    /// Reads an already lower-cased backend name.
    pub fn from_lowercase_name(lower: &str) -> (r: Result<SpeedTestBackendKind, String>)
        ensures
            match backend_kind_from(lower@) {
                Ok(k) => r == Ok::<SpeedTestBackendKind, String>(k),
                Err(m) => r matches Err(e) && e@ == m,
            },
    {
        if str_eq(lower, "librespeed") {
            Ok(SpeedTestBackendKind::LibreSpeed)
        } else if str_eq(lower, "cloudflare") {
            Ok(SpeedTestBackendKind::Cloudflare)
        } else {
            let mut msg = string_of("unknown speedtest backend: ");
            push_str(&mut msg, lower);
            Err(msg)
        }
    }

    /// Reads a backend name in any case (lower-cased with `str::to_lowercase`).
    pub fn from_str(s: &str) -> (r: Result<SpeedTestBackendKind, String>)
        ensures
            match backend_kind_from(lowercase(s@)) {
                Ok(k) => r == Ok::<SpeedTestBackendKind, String>(k),
                Err(m) => r matches Err(e) && e@ == m,
            },
    {
        let lower = to_lowercase(s);
        SpeedTestBackendKind::from_lowercase_name(lower.as_str())
    }
}

/// Every backend's name reads back as that backend.
pub proof fn law_backend_name_round_trip(k: SpeedTestBackendKind)
    ensures
        backend_kind_from(backend_kind_name(k)) == Ok::<SpeedTestBackendKind, Seq<char>>(k),
{
    reveal_strlit("librespeed");
    reveal_strlit("cloudflare");
    assert("cloudflare"@[0] != "librespeed"@[0]);
}

/// Speed-test settings.
pub struct SpeedTestConfig {
    pub enabled: bool,
    pub interval_secs: u64,
    pub backend: SpeedTestBackendKind,
    pub server_url: Option<String>,
    pub min_interval_secs: u64,
}

impl Default for SpeedTestConfig {
    /// Enabled, every six hours, Cloudflare, no server, manual runs at least five
    /// minutes apart.
    fn default() -> (c: SpeedTestConfig)
        ensures
            c.enabled,
            c.interval_secs == 21_600,
            c.backend == SpeedTestBackendKind::Cloudflare,
            c.server_url is None,
            c.min_interval_secs == 300,
    {
        SpeedTestConfig {
            enabled: true,
            interval_secs: 21_600,
            backend: SpeedTestBackendKind::Cloudflare,
            server_url: None,
            min_interval_secs: 300,
        }
    }
}

/// What a test result is stamped with.
pub struct SpeedTestContext {
    pub agent_name: String,
    pub network_name: Option<String>,
    pub interface: String,
    pub network_up: bool,
}

impl SpeedTestContext {
    pub fn duplicate(&self) -> (r: SpeedTestContext)
        ensures
            r.agent_name@ == self.agent_name@,
            opt_view(r.network_name) == opt_view(self.network_name),
            r.interface@ == self.interface@,
            r.network_up == self.network_up,
    {
        SpeedTestContext {
            agent_name: self.agent_name.clone(),
            network_name: crate::model::clone_opt_string(&self.network_name),
            interface: self.interface.clone(),
            network_up: self.network_up,
        }
    }

    /// The error a test reports without running when the network is down.
    pub fn precheck(&self) -> (r: Option<String>)
        ensures
            self.network_up ==> r is None,
            !self.network_up ==> (r matches Some(e) && e@ == "network is down"@),
    {
        if self.network_up {
            None
        } else {
            Some(string_of("network is down"))
        }
    }
}

/// Why a speed test failed.
#[derive(Debug)]
pub enum SpeedTestError {
    Failed(String),
}

impl SpeedTestError {
    pub fn message(&self) -> (r: String)
        ensures
            match self {
                SpeedTestError::Failed(s) => r@ == "speed test failed: "@ + s@,
            },
    {
        match self {
            SpeedTestError::Failed(s) => {
                let mut r = string_of("speed test failed: ");
                push_str(&mut r, s.as_str());
                r
            },
        }
    }
}

/// The backend to build: LibreSpeed at a server, or Cloudflare.
pub enum BackendChoice {
    LibreSpeed { server_url: String },
    Cloudflare,
}

/// `create_backend`: LibreSpeed at the configured server (`http://localhost` when
/// none is set), or Cloudflare.
pub fn create_backend(kind: SpeedTestBackendKind, server_url: Option<String>) -> (r: BackendChoice)
    ensures
        match kind {
            SpeedTestBackendKind::LibreSpeed => r matches BackendChoice::LibreSpeed { server_url: u }
                && u@ == match server_url {
                Some(s) => s@,
                None => "http://localhost"@,
            },
            SpeedTestBackendKind::Cloudflare => r is Cloudflare,
        },
{
    match kind {
        SpeedTestBackendKind::LibreSpeed => {
            let url = match server_url {
                Some(s) => s,
                None => string_of("http://localhost"),
            };
            BackendChoice::LibreSpeed { server_url: url }
        },
        SpeedTestBackendKind::Cloudflare => BackendChoice::Cloudflare,
    }
}

impl BackendChoice {
    pub fn name(&self) -> (r: String)
        ensures
            r@ == match self {
                BackendChoice::LibreSpeed { .. } => "librespeed"@,
                BackendChoice::Cloudflare => "cloudflare"@,
            },
    {
        match self {
            BackendChoice::LibreSpeed { .. } => string_of("librespeed"),
            BackendChoice::Cloudflare => string_of("cloudflare"),
        }
    }
}

/// A LibreSpeed server's address without trailing slashes.
pub open spec fn librespeed_base(server_url: Seq<char>) -> Seq<char> {
    trim_end_char(server_url, '/')
}

/// Where a LibreSpeed test downloads from, uploads to, and what it reports as the
/// server's name.
pub struct LibreSpeedUrls {
    pub download: String,
    pub upload: String,
    pub server_name: String,
}

pub fn librespeed_urls(server_url: &str) -> (r: LibreSpeedUrls)
    ensures
        r.server_name@ == librespeed_base(server_url@),
        r.download@ == librespeed_base(server_url@) + "/garbage?ckSize=25"@,
        r.upload@ == librespeed_base(server_url@) + "/empty?ckSize=1"@,
{
    let base = trim_end_matches_char(server_url, '/');
    let mut download = base.clone();
    push_str(&mut download, "/garbage?ckSize=25");
    let mut upload = base.clone();
    push_str(&mut upload, "/empty?ckSize=1");
    LibreSpeedUrls { download, upload, server_name: base }
}

/// Seconds between scheduled tests: the configured interval, at least 300.
pub fn schedule_period_secs(interval_secs: u64) -> (r: u64)
    ensures
        r == if interval_secs >= 300 { interval_secs } else { 300 },
{
    if interval_secs >= 300 {
        interval_secs
    } else {
        300
    }
}

/// A manual test may run when none has run yet, or when at least
/// `min_interval_secs` whole seconds have passed since the last one.
pub fn can_run_manual(since_last_secs: Option<u64>, min_interval_secs: u64) -> (r: bool)
    ensures
        r == match since_last_secs {
            Some(e) => e >= min_interval_secs,
            None => true,
        },
{
    match since_last_secs {
        Some(e) => e >= min_interval_secs,
        None => true,
    }
}

pub open spec fn rate_limit_text(min_interval_secs: u64) -> Seq<char> {
    "rate limited — wait at least "@ + decimal(min_interval_secs as nat) + " seconds between manual tests"@
}

/// Whether a manual test request goes ahead, or the text it is refused with.
pub fn check_manual_run(since_last_secs: Option<u64>, min_interval_secs: u64) -> (r: Result<(), String>)
    ensures
        can_run_manual_spec(since_last_secs, min_interval_secs) ==> r is Ok,
        !can_run_manual_spec(since_last_secs, min_interval_secs) ==> (r matches Err(m) && m@ == rate_limit_text(
            min_interval_secs,
        )),
{
    if can_run_manual(since_last_secs, min_interval_secs) {
        Ok(())
    } else {
        let mut msg = string_of("rate limited — wait at least ");
        append_decimal(&mut msg, min_interval_secs);
        push_str(&mut msg, " seconds between manual tests");
        Err(msg)
    }
}

pub open spec fn can_run_manual_spec(since_last_secs: Option<u64>, min_interval_secs: u64) -> bool {
    match since_last_secs {
        Some(e) => e >= min_interval_secs,
        None => true,
    }
}

/// Right after a manual run is let through, another is refused until the minimum
/// interval has passed (when the minimum is not zero).
pub proof fn law_manual_runs_rate_limited(min_interval_secs: u64, elapsed: u64)
    requires
        elapsed < min_interval_secs,
    ensures
        can_run_manual_spec(None, min_interval_secs),
        !can_run_manual_spec(Some(elapsed), min_interval_secs),
        can_run_manual_spec(Some(min_interval_secs), min_interval_secs),
{
}

} // verus!
