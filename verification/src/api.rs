//! The REST API's rules: which requests are refused and with what status, how
//! query parameters are read and limited, and what the health endpoint says.
use vstd::prelude::*;
use crate::net::{MacAddr, parse_mac, mac_address_parse, ip_text};
use crate::model::{DeviceKind, OsHint, EventKind, Timestamp, string_of, str_eq, opt_view};
use crate::context::{LinkStatus, link_state_name};
use crate::text::is_blank_str;

verus! {

/// Why a request is refused.
#[derive(Clone, Copy, Debug, PartialEq, Eq, Structural)]
pub enum ApiError {
    BadRequest,
    NotFound,
    Internal,
    ServiceUnavailable,
    TooManyRequests,
}

pub open spec fn status_of(e: ApiError) -> u16 {
    match e {
        ApiError::BadRequest => 400,
        ApiError::NotFound => 404,
        ApiError::Internal => 500,
        ApiError::ServiceUnavailable => 503,
        ApiError::TooManyRequests => 429,
    }
}

impl ApiError {
    /// The HTTP status code.
    pub fn status(&self) -> (r: u16)
        ensures
            r == status_of(*self),
    {
        match self {
            ApiError::BadRequest => 400,
            ApiError::NotFound => 404,
            ApiError::Internal => 500,
            ApiError::ServiceUnavailable => 503,
            ApiError::TooManyRequests => 429,
        }
    }
}

/// A device kind in a request: one of the five lower-case names, exactly.
pub open spec fn kind_param_spec(s: Seq<char>) -> Option<DeviceKind> {
    if s == "router"@ {
        Some(DeviceKind::Router)
    } else if s == "mobile"@ {
        Some(DeviceKind::Mobile)
    } else if s == "desktop"@ {
        Some(DeviceKind::Desktop)
    } else if s == "iot"@ {
        Some(DeviceKind::IoT)
    } else if s == "unknown"@ {
        Some(DeviceKind::Unknown)
    } else {
        None
    }
}

pub open spec fn os_param_spec(s: Seq<char>) -> Option<OsHint> {
    if s == "android"@ {
        Some(OsHint::Android)
    } else if s == "ios"@ {
        Some(OsHint::Ios)
    } else if s == "linux"@ {
        Some(OsHint::Linux)
    } else if s == "macos"@ {
        Some(OsHint::MacOS)
    } else if s == "windows"@ {
        Some(OsHint::Windows)
    } else if s == "unknown"@ {
        Some(OsHint::Unknown)
    } else {
        None
    }
}

pub open spec fn event_kind_param_spec(s: Seq<char>) -> Option<EventKind> {
    if s == "network_down"@ {
        Some(EventKind::NetworkDown)
    } else if s == "network_restored"@ {
        Some(EventKind::NetworkRestored)
    } else if s == "device_joined"@ {
        Some(EventKind::DeviceJoined)
    } else if s == "device_left"@ {
        Some(EventKind::DeviceLeft)
    } else if s == "device_returned"@ {
        Some(EventKind::DeviceReturned)
    } else if s == "ip_changed"@ {
        Some(EventKind::IpChanged)
    } else if s == "kind_refined"@ {
        Some(EventKind::KindRefined)
    } else if s == "speed_test_completed"@ {
        Some(EventKind::SpeedTestCompleted)
    } else {
        None
    }
}

/// Reads a device kind; any other text is a bad request.
pub fn parse_kind(s: &str) -> (r: Result<DeviceKind, ApiError>)
    ensures
        match kind_param_spec(s@) {
            Some(k) => r == Ok::<DeviceKind, ApiError>(k),
            None => r == Err::<DeviceKind, ApiError>(ApiError::BadRequest),
        },
{
    if str_eq(s, "router") {
        Ok(DeviceKind::Router)
    } else if str_eq(s, "mobile") {
        Ok(DeviceKind::Mobile)
    } else if str_eq(s, "desktop") {
        Ok(DeviceKind::Desktop)
    } else if str_eq(s, "iot") {
        Ok(DeviceKind::IoT)
    } else if str_eq(s, "unknown") {
        Ok(DeviceKind::Unknown)
    } else {
        Err(ApiError::BadRequest)
    }
}

/// Reads an OS hint; any other text is a bad request.
pub fn parse_os(s: &str) -> (r: Result<OsHint, ApiError>)
    ensures
        match os_param_spec(s@) {
            Some(o) => r == Ok::<OsHint, ApiError>(o),
            None => r == Err::<OsHint, ApiError>(ApiError::BadRequest),
        },
{
    if str_eq(s, "android") {
        Ok(OsHint::Android)
    } else if str_eq(s, "ios") {
        Ok(OsHint::Ios)
    } else if str_eq(s, "linux") {
        Ok(OsHint::Linux)
    } else if str_eq(s, "macos") {
        Ok(OsHint::MacOS)
    } else if str_eq(s, "windows") {
        Ok(OsHint::Windows)
    } else if str_eq(s, "unknown") {
        Ok(OsHint::Unknown)
    } else {
        Err(ApiError::BadRequest)
    }
}

/// Reads an event kind; any other text is a bad request.
pub fn parse_event_kind(s: &str) -> (r: Result<EventKind, ApiError>)
    ensures
        match event_kind_param_spec(s@) {
            Some(k) => r == Ok::<EventKind, ApiError>(k),
            None => r == Err::<EventKind, ApiError>(ApiError::BadRequest),
        },
{
    if str_eq(s, "network_down") {
        Ok(EventKind::NetworkDown)
    } else if str_eq(s, "network_restored") {
        Ok(EventKind::NetworkRestored)
    } else if str_eq(s, "device_joined") {
        Ok(EventKind::DeviceJoined)
    } else if str_eq(s, "device_left") {
        Ok(EventKind::DeviceLeft)
    } else if str_eq(s, "device_returned") {
        Ok(EventKind::DeviceReturned)
    } else if str_eq(s, "ip_changed") {
        Ok(EventKind::IpChanged)
    } else if str_eq(s, "kind_refined") {
        Ok(EventKind::KindRefined)
    } else if str_eq(s, "speed_test_completed") {
        Ok(EventKind::SpeedTestCompleted)
    } else {
        Err(ApiError::BadRequest)
    }
}

/// Every kind's stored name is accepted by the API and means that kind.
pub proof fn law_kind_names_accepted(k: DeviceKind)
    ensures
        kind_param_spec(k.name()) == Some(k),
{
    reveal_strlit("router");
    reveal_strlit("mobile");
    reveal_strlit("desktop");
    reveal_strlit("iot");
    reveal_strlit("unknown");
    match k {
        DeviceKind::Router => {},
        DeviceKind::Mobile => { assert("mobile"@[0] != "router"@[0]); },
        DeviceKind::Desktop => { assert("desktop"@[0] != "router"@[0]); assert("desktop"@[0] != "mobile"@[0]); },
        DeviceKind::IoT => { assert("iot"@[0] != "router"@[0]); assert("iot"@[0] != "mobile"@[0]); assert("iot"@[0] != "desktop"@[0]); },
        DeviceKind::Unknown => { assert("unknown"@[0] != "router"@[0]); assert("unknown"@[0] != "mobile"@[0]); assert("unknown"@[0] != "desktop"@[0]); assert("unknown"@[0] != "iot"@[0]); },
    }
}

/// A MAC address in a path; one that does not parse is a bad request.
pub fn parse_mac_param(s: &str) -> (r: Result<MacAddr, ApiError>)
    ensures
        match mac_address_parse(s@) {
            Some(b) => r matches Ok(m) && m.octets() == b,
            None => r == Err::<MacAddr, ApiError>(ApiError::BadRequest),
        },
{
    match parse_mac(s) {
        Some(m) => Ok(m),
        None => Err(ApiError::BadRequest),
    }
}

/// What a device update asks for, once its parameters are read.
pub struct DeviceUpdate {
    pub mac: MacAddr,
    pub kind: Option<DeviceKind>,
    pub os_hint: Option<OsHint>,
}

/// Reads the parameters of `PUT /devices/{mac}`: the MAC address, then the kind,
/// then the OS hint; the first that does not parse makes the request bad.
pub fn update_device_params(mac: &str, kind: Option<&str>, os_hint: Option<&str>) -> (r: Result<DeviceUpdate, ApiError>)
    ensures
        match mac_address_parse(mac@) {
            None => r == Err::<DeviceUpdate, ApiError>(ApiError::BadRequest),
            Some(b) => {
                let kind_ok = match kind {
                    Some(k) => kind_param_spec(k@) is Some,
                    None => true,
                };
                let os_ok = match os_hint {
                    Some(o) => os_param_spec(o@) is Some,
                    None => true,
                };
                if kind_ok && os_ok {
                    r matches Ok(u) && u.mac.octets() == b && u.kind == match kind {
                        Some(k) => kind_param_spec(k@),
                        None => None,
                    } && u.os_hint == match os_hint {
                        Some(o) => os_param_spec(o@),
                        None => None,
                    }
                } else {
                    r == Err::<DeviceUpdate, ApiError>(ApiError::BadRequest)
                }
            },
        },
{
    let m = parse_mac_param(mac)?;
    let k = match kind {
        Some(s) => Some(parse_kind(s)?),
        None => None,
    };
    let o = match os_hint {
        Some(s) => Some(parse_os(s)?),
        None => None,
    };
    Ok(DeviceUpdate { mac: m, kind: k, os_hint: o })
}

/// A name (of the agent or of an identity) must not be blank.
pub fn check_name(name: &str) -> (r: Result<(), ApiError>)
    ensures
        crate::text::is_blank(name@) ==> r == Err::<(), ApiError>(ApiError::BadRequest),
        !crate::text::is_blank(name@) ==> r is Ok,
{
    if is_blank_str(name) {
        Err(ApiError::BadRequest)
    } else {
        Ok(())
    }
}

/// How many events a listing returns: 100 unless asked, never more than 1000.
pub fn events_limit(limit: Option<usize>) -> (r: usize)
    ensures
        r == match limit {
            Some(l) => if l <= 1000 { l } else { 1000 },
            None => 100,
        },
{
    match limit {
        Some(l) => if l <= 1000 {
            l
        } else {
            1000
        },
        None => 100,
    }
}

/// How many speed tests a listing returns: 500 unless asked, never more than 5000.
pub fn speedtests_limit(limit: Option<usize>) -> (r: usize)
    ensures
        r == match limit {
            Some(l) => if l <= 5000 { l } else { 5000 },
            None => 500,
        },
{
    match limit {
        Some(l) => if l <= 5000 {
            l
        } else {
            5000
        },
        None => 500,
    }
}

/// What RFC 3339 text means as an instant in UTC (`chrono`'s
/// `DateTime::parse_from_rfc3339`), if it is valid.
pub uninterp spec fn rfc3339_instant(s: Seq<char>) -> Option<Timestamp>;

/// `chrono::DateTime::parse_from_rfc3339`, converted to UTC seconds and
/// nanoseconds since the epoch; the result is named by `rfc3339_instant`.
#[verifier::external_body]
pub(crate) fn parse_rfc3339(s: &str) -> (r: Option<Timestamp>)
    ensures
        r == rfc3339_instant(s@),
{
    chrono::DateTime::parse_from_rfc3339(s).ok().map(
        |dt| Timestamp { secs: dt.timestamp(), nanos: dt.timestamp_subsec_nanos() },
    )
}

/// A time parameter: an instant, or a bad request when the text was no RFC 3339
/// time (`parsed` is what parsing gave).
pub fn time_param(parsed: Option<Timestamp>) -> (r: Result<Timestamp, ApiError>)
    ensures
        match parsed {
            Some(t) => r == Ok::<Timestamp, ApiError>(t),
            None => r == Err::<Timestamp, ApiError>(ApiError::BadRequest),
        },
{
    match parsed {
        Some(t) => Ok(t),
        None => Err(ApiError::BadRequest),
    }
}

/// Reads a time parameter given as RFC 3339 text.
pub fn parse_time(s: &str) -> (r: Result<Timestamp, ApiError>)
    ensures
        match rfc3339_instant(s@) {
            Some(t) => r == Ok::<Timestamp, ApiError>(t),
            None => r == Err::<Timestamp, ApiError>(ApiError::BadRequest),
        },
{
    time_param(parse_rfc3339(s))
}

/// Whether `POST /speedtests/run` may go ahead: refused as unavailable when no
/// scheduler runs, as too many requests when the rate limit refuses it.
pub fn speedtest_run_gate(scheduler_available: bool, manual: &Result<(), String>) -> (r: Result<(), ApiError>)
    ensures
        !scheduler_available ==> r == Err::<(), ApiError>(ApiError::ServiceUnavailable),
        scheduler_available && manual is Err ==> r == Err::<(), ApiError>(ApiError::TooManyRequests),
        scheduler_available && manual is Ok ==> r is Ok,
{
    if !scheduler_available {
        return Err(ApiError::ServiceUnavailable);
    }
    match manual {
        Ok(()) => Ok(()),
        Err(_) => Err(ApiError::TooManyRequests),
    }
}

/// The body of `GET /health`.
pub struct HealthResponse {
    pub status: String,
    pub agent_name: String,
    pub network_name: Option<String>,
    pub link_state: String,
    pub gateway: Option<String>,
}

pub fn health(agent_name: &str, network_name: Option<String>, link: &LinkStatus) -> (r: HealthResponse)
    ensures
        r.status@ == "ok"@,
        r.agent_name@ == agent_name@,
        opt_view(r.network_name) == opt_view(network_name),
        r.link_state@ == link_state_name(link.state),
        match link.gateway {
            Some(g) => r.gateway matches Some(t) && t@ == ip_text(g),
            None => r.gateway is None,
        },
{
    HealthResponse {
        status: string_of("ok"),
        agent_name: string_of(agent_name),
        network_name,
        link_state: link.state.name(),
        gateway: match link.gateway {
            Some(g) => Some(g.to_text()),
            None => None,
        },
    }
}

} // verus!
