//! Devices, events and identities: the data the agent keeps about the LAN.
use vstd::prelude::*;
use crate::net::{MacAddr, IpAddress, mac_text};
use crate::text::push_str;

verus! {

/// `Some(s@)` for `Some(s)`.
pub open spec fn opt_view(o: Option<String>) -> Option<Seq<char>> {
    match o {
        Some(s) => Some(s@),
        None => None,
    }
}

pub fn clone_opt_string(o: &Option<String>) -> (r: Option<String>)
    ensures
        opt_view(r) == opt_view(*o),
{
    match o {
        Some(s) => Some(s.clone()),
        None => None,
    }
}

pub fn opt_str_to_string(o: Option<&str>) -> (r: Option<String>)
    ensures
        match o {
            Some(s) => r is Some && r->0@ == s@,
            None => r is None,
        },
{
    match o {
        Some(s) => Some(String::from_str(s)),
        None => None,
    }
}

pub fn string_of(s: &str) -> (r: String)
    ensures
        r@ == s@,
{
    String::from_str(s)
}

/// The kind of device, as inferred by the classifier or set by the user.
#[derive(Clone, Copy, Debug, PartialEq, Eq, Structural)]
pub enum DeviceKind {
    Router,
    Mobile,
    Desktop,
    IoT,
    Unknown,
}

/// The operating system a device appears to run.
#[derive(Clone, Copy, Debug, PartialEq, Eq, Structural)]
pub enum OsHint {
    Android,
    Ios,
    Linux,
    MacOS,
    Windows,
    Unknown,
}

/// What happened on the network.
#[derive(Clone, Copy, Debug, PartialEq, Eq, Structural)]
pub enum EventKind {
    NetworkDown,
    NetworkRestored,
    DeviceJoined,
    DeviceLeft,
    DeviceReturned,
    IpChanged,
    KindRefined,
    SpeedTestCompleted,
}

impl DeviceKind {
    /// The lower-case name used in storage, the API and logs.
    pub open spec fn name(self) -> Seq<char> {
        match self {
            DeviceKind::Router => "router"@,
            DeviceKind::Mobile => "mobile"@,
            DeviceKind::Desktop => "desktop"@,
            DeviceKind::IoT => "iot"@,
            DeviceKind::Unknown => "unknown"@,
        }
    }

    pub fn to_text(&self) -> (r: String)
        ensures
            r@ == self.name(),
    {
        match self {
            DeviceKind::Router => string_of("router"),
            DeviceKind::Mobile => string_of("mobile"),
            DeviceKind::Desktop => string_of("desktop"),
            DeviceKind::IoT => string_of("iot"),
            DeviceKind::Unknown => string_of("unknown"),
        }
    }

    pub fn default() -> (k: DeviceKind)
        ensures
            k == DeviceKind::Unknown,
    {
        DeviceKind::Unknown
    }
}

impl OsHint {
    /// The lower-case name used in storage, the API and logs.
    pub open spec fn name(self) -> Seq<char> {
        match self {
            OsHint::Android => "android"@,
            OsHint::Ios => "ios"@,
            OsHint::Linux => "linux"@,
            OsHint::MacOS => "macos"@,
            OsHint::Windows => "windows"@,
            OsHint::Unknown => "unknown"@,
        }
    }

    pub fn to_text(&self) -> (r: String)
        ensures
            r@ == self.name(),
    {
        match self {
            OsHint::Android => string_of("android"),
            OsHint::Ios => string_of("ios"),
            OsHint::Linux => string_of("linux"),
            OsHint::MacOS => string_of("macos"),
            OsHint::Windows => string_of("windows"),
            OsHint::Unknown => string_of("unknown"),
        }
    }

    pub fn default() -> (o: OsHint)
        ensures
            o == OsHint::Unknown,
    {
        OsHint::Unknown
    }
}

impl EventKind {
    /// The snake_case name used in storage, the API and the event stream.
    pub open spec fn name(self) -> Seq<char> {
        match self {
            EventKind::NetworkDown => "network_down"@,
            EventKind::NetworkRestored => "network_restored"@,
            EventKind::DeviceJoined => "device_joined"@,
            EventKind::DeviceLeft => "device_left"@,
            EventKind::DeviceReturned => "device_returned"@,
            EventKind::IpChanged => "ip_changed"@,
            EventKind::KindRefined => "kind_refined"@,
            EventKind::SpeedTestCompleted => "speed_test_completed"@,
        }
    }

    pub fn to_text(&self) -> (r: String)
        ensures
            r@ == self.name(),
    {
        match self {
            EventKind::NetworkDown => string_of("network_down"),
            EventKind::NetworkRestored => string_of("network_restored"),
            EventKind::DeviceJoined => string_of("device_joined"),
            EventKind::DeviceLeft => string_of("device_left"),
            EventKind::DeviceReturned => string_of("device_returned"),
            EventKind::IpChanged => string_of("ip_changed"),
            EventKind::KindRefined => string_of("kind_refined"),
            EventKind::SpeedTestCompleted => string_of("speed_test_completed"),
        }
    }
}

/// A point in time: whole seconds since the Unix epoch and the nanoseconds within
/// that second.
#[derive(Clone, Copy, Debug, PartialEq, Eq, Structural)]
pub struct Timestamp {
    pub secs: i64,
    pub nanos: u32,
}

impl Timestamp {
    pub open spec fn total_nanos(self) -> int {
        self.secs as int * 1_000_000_000 + self.nanos as int
    }
}

/// Whole seconds in a span of `d` nanoseconds, truncated toward zero.
pub open spec fn whole_seconds(d: int) -> int {
    if d >= 0 {
        d / 1_000_000_000
    } else {
        -((-d) / 1_000_000_000)
    }
}

/// `(now - then).num_seconds() > limit`.
pub open spec fn elapsed_exceeds(now: Timestamp, then: Timestamp, limit: i64) -> bool {
    whole_seconds(now.total_nanos() - then.total_nanos()) > limit
}

pub fn elapsed_secs_exceed(now: Timestamp, then: Timestamp, limit: i64) -> (r: bool)
    ensures
        r == elapsed_exceeds(now, then, limit),
{
    let d: i128 = (now.secs as i128 - then.secs as i128) * 1_000_000_000 + (now.nanos as i128
        - then.nanos as i128);
    assert(d == now.total_nanos() - then.total_nanos());
    if limit >= 0 {
        // whole seconds > limit  <=>  d >= (limit + 1) * 1e9
        let bound: i128 = (limit as i128 + 1) * 1_000_000_000;
        proof {
            if d >= 0 {
                assert((d / 1_000_000_000 > limit) == (d >= bound)) by (nonlinear_arith)
                    requires
                        d >= 0,
                        limit >= 0,
                        bound == (limit + 1) * 1_000_000_000,
                ;
            }
        }
        d >= bound
    } else {
        // whole seconds > limit (negative)  <=>  d > limit * 1e9
        let bound: i128 = limit as i128 * 1_000_000_000;
        proof {
            if d >= 0 {
                assert(d / 1_000_000_000 >= 0) by (nonlinear_arith)
                    requires
                        d >= 0,
                ;
            } else {
                assert((-((-d) / 1_000_000_000) > limit) == (d > bound)) by (nonlinear_arith)
                    requires
                        d < 0,
                        limit < 0,
                        bound == limit * 1_000_000_000,
                ;
            }
        }
        d > bound
    }
}

/// Everything the agent knows about one device.
pub struct Device {
    pub mac: MacAddr,
    pub current_ip: Option<IpAddress>,
    pub hostname: Option<String>,
    pub vendor: Option<String>,
    pub kind: DeviceKind,
    pub os_hint: OsHint,
    pub identity_id: Option<u128>,
    pub user_label: Option<String>,
    pub first_seen: Timestamp,
    pub last_seen: Timestamp,
    pub online: bool,
    pub open_ports: Vec<u16>,
    pub mdns_services: Vec<String>,
    /// Classification confidence in thousandths.
    pub confidence_permille: u16,
    pub inference_source: Option<String>,
    pub do_not_scan: bool,
}

/// A device as mathematical values.
pub struct DeviceView {
    pub mac: MacAddr,
    pub current_ip: Option<IpAddress>,
    pub hostname: Option<Seq<char>>,
    pub vendor: Option<Seq<char>>,
    pub kind: DeviceKind,
    pub os_hint: OsHint,
    pub identity_id: Option<u128>,
    pub user_label: Option<Seq<char>>,
    pub first_seen: Timestamp,
    pub last_seen: Timestamp,
    pub online: bool,
    pub open_ports: Seq<u16>,
    pub mdns_services: Seq<Seq<char>>,
    pub confidence_permille: u16,
    pub inference_source: Option<Seq<char>>,
    pub do_not_scan: bool,
}

impl View for Device {
    type V = DeviceView;

    open spec fn view(&self) -> DeviceView {
        DeviceView {
            mac: self.mac,
            current_ip: self.current_ip,
            hostname: opt_view(self.hostname),
            vendor: opt_view(self.vendor),
            kind: self.kind,
            os_hint: self.os_hint,
            identity_id: self.identity_id,
            user_label: opt_view(self.user_label),
            first_seen: self.first_seen,
            last_seen: self.last_seen,
            online: self.online,
            open_ports: self.open_ports@,
            mdns_services: self.mdns_services@.map_values(|s: String| s@),
            confidence_permille: self.confidence_permille,
            inference_source: opt_view(self.inference_source),
            do_not_scan: self.do_not_scan,
        }
    }
}

pub fn clone_strings(v: &Vec<String>) -> (r: Vec<String>)
    ensures
        r@.map_values(|s: String| s@) == v@.map_values(|s: String| s@),
{
    let mut r: Vec<String> = Vec::new();
    let mut i: usize = 0;
    while i < v.len()
        invariant
            i <= v.len(),
            r.len() == i,
            forall|k: int| 0 <= k < i ==> r@[k]@ == v@[k]@,
        decreases v.len() - i,
    {
        r.push(v[i].clone());
        i += 1;
    }
    assert(r@.map_values(|s: String| s@) =~= v@.map_values(|s: String| s@));
    r
}

pub fn clone_ports(v: &Vec<u16>) -> (r: Vec<u16>)
    ensures
        r@ == v@,
{
    let mut r: Vec<u16> = Vec::new();
    let mut i: usize = 0;
    while i < v.len()
        invariant
            i <= v.len(),
            r@ == v@.take(i as int),
        decreases v.len() - i,
    {
        r.push(v[i]);
        proof {
            assert(v@.take(i + 1) =~= v@.take(i as int).push(v@[i as int]));
        }
        i += 1;
    }
    assert(v@.take(v@.len() as int) =~= v@);
    r
}

impl Device {
    /// A field-by-field copy.
    pub fn duplicate(&self) -> (r: Device)
        ensures
            r@ == self@,
    {
        Device {
            mac: self.mac,
            current_ip: self.current_ip,
            hostname: clone_opt_string(&self.hostname),
            vendor: clone_opt_string(&self.vendor),
            kind: self.kind,
            os_hint: self.os_hint,
            identity_id: self.identity_id,
            user_label: clone_opt_string(&self.user_label),
            first_seen: self.first_seen,
            last_seen: self.last_seen,
            online: self.online,
            open_ports: clone_ports(&self.open_ports),
            mdns_services: clone_strings(&self.mdns_services),
            confidence_permille: self.confidence_permille,
            inference_source: clone_opt_string(&self.inference_source),
            do_not_scan: self.do_not_scan,
        }
    }
}

/// The name a device is shown under: the user's label, else the identity's name,
/// else the host name, else "`vendor` device", else the MAC address.
pub open spec fn display_name_spec(d: DeviceView, identity_name: Option<Seq<char>>) -> Seq<char> {
    if d.user_label is Some {
        d.user_label->0
    } else if identity_name is Some {
        identity_name->0
    } else if d.hostname is Some {
        d.hostname->0
    } else if d.vendor is Some {
        d.vendor->0 + " device"@
    } else {
        mac_text(d.mac)
    }
}

/// A short description of the device from its kind and operating system.
pub open spec fn kind_label_spec(kind: DeviceKind, os: OsHint) -> Seq<char> {
    match kind {
        DeviceKind::Mobile => match os {
            OsHint::Android => "Android phone"@,
            OsHint::Ios => "iPhone"@,
            _ => "mobile device"@,
        },
        DeviceKind::Desktop => match os {
            OsHint::Linux => "Linux desktop"@,
            OsHint::MacOS => "Mac"@,
            OsHint::Windows => "Windows PC"@,
            _ => "desktop"@,
        },
        DeviceKind::Router => "router"@,
        DeviceKind::IoT => "IoT device"@,
        DeviceKind::Unknown => "device"@,
    }
}

pub open spec fn opt_str_view(o: Option<&str>) -> Option<Seq<char>> {
    match o {
        Some(s) => Some(s@),
        None => None,
    }
}

impl Device {
    pub fn display_name(&self, identity_name: Option<&str>) -> (r: String)
        ensures
            r@ == display_name_spec(self@, opt_str_view(identity_name)),
    {
        if let Some(label) = &self.user_label {
            return label.clone();
        }
        if let Some(name) = identity_name {
            return string_of(name);
        }
        if let Some(host) = &self.hostname {
            return host.clone();
        }
        if let Some(vendor) = &self.vendor {
            let mut s = vendor.clone();
            push_str(&mut s, " device");
            return s;
        }
        self.mac.to_text()
    }

    pub fn kind_label(&self) -> (r: String)
        ensures
            r@ == kind_label_spec(self.kind, self.os_hint),
    {
        match (self.kind, self.os_hint) {
            (DeviceKind::Mobile, OsHint::Android) => string_of("Android phone"),
            (DeviceKind::Mobile, OsHint::Ios) => string_of("iPhone"),
            (DeviceKind::Mobile, _) => string_of("mobile device"),
            (DeviceKind::Desktop, OsHint::Linux) => string_of("Linux desktop"),
            (DeviceKind::Desktop, OsHint::MacOS) => string_of("Mac"),
            (DeviceKind::Desktop, OsHint::Windows) => string_of("Windows PC"),
            (DeviceKind::Desktop, _) => string_of("desktop"),
            (DeviceKind::Router, _) => string_of("router"),
            (DeviceKind::IoT, _) => string_of("IoT device"),
            (DeviceKind::Unknown, _) => string_of("device"),
        }
    }

    /// Applies the optional changes of a device update request (user label,
    /// identity, kind, OS hint, scan opt-out); absent values leave the field alone.
    pub fn apply_update(
        &mut self,
        user_label: Option<String>,
        identity_id: Option<u128>,
        kind: Option<DeviceKind>,
        os_hint: Option<OsHint>,
        do_not_scan: Option<bool>,
    )
        ensures
            final(self)@ == (DeviceView {
                user_label: if user_label is Some {
                    opt_view(user_label)
                } else {
                    old(self)@.user_label
                },
                identity_id: if identity_id is Some {
                    identity_id
                } else {
                    old(self)@.identity_id
                },
                kind: if kind is Some {
                    kind->0
                } else {
                    old(self)@.kind
                },
                os_hint: if os_hint is Some {
                    os_hint->0
                } else {
                    old(self)@.os_hint
                },
                do_not_scan: if do_not_scan is Some {
                    do_not_scan->0
                } else {
                    old(self)@.do_not_scan
                },
                ..old(self)@
            }),
    {
        if let Some(label) = user_label {
            self.user_label = Some(label);
        }
        if let Some(id) = identity_id {
            self.identity_id = Some(id);
        }
        if let Some(k) = kind {
            self.kind = k;
        }
        if let Some(o) = os_hint {
            self.os_hint = o;
        }
        if let Some(s) = do_not_scan {
            self.do_not_scan = s;
        }
    }
}

/// What one discovery pass saw of a device.
pub struct DeviceSnapshot {
    pub mac: MacAddr,
    pub ip: Option<IpAddress>,
    pub hostname: Option<String>,
    pub vendor: Option<String>,
}

pub struct DeviceSnapshotView {
    pub mac: MacAddr,
    pub ip: Option<IpAddress>,
    pub hostname: Option<Seq<char>>,
    pub vendor: Option<Seq<char>>,
}

impl View for DeviceSnapshot {
    type V = DeviceSnapshotView;

    open spec fn view(&self) -> DeviceSnapshotView {
        DeviceSnapshotView {
            mac: self.mac,
            ip: self.ip,
            hostname: opt_view(self.hostname),
            vendor: opt_view(self.vendor),
        }
    }
}

impl DeviceSnapshot {
    pub fn duplicate(&self) -> (r: DeviceSnapshot)
        ensures
            r@ == self@,
    {
        DeviceSnapshot {
            mac: self.mac,
            ip: self.ip,
            hostname: clone_opt_string(&self.hostname),
            vendor: clone_opt_string(&self.vendor),
        }
    }
}

/// A household member that devices can be tagged with.
pub struct Identity {
    pub id: u128,
    pub display_name: String,
    pub notes: Option<String>,
    pub created_at: Timestamp,
}

/// How storage encodes a device kind, read back leniently: unknown text is
/// `Unknown`.
pub open spec fn parse_kind_spec(s: Seq<char>) -> DeviceKind {
    if s == "router"@ {
        DeviceKind::Router
    } else if s == "mobile"@ {
        DeviceKind::Mobile
    } else if s == "desktop"@ {
        DeviceKind::Desktop
    } else if s == "iot"@ {
        DeviceKind::IoT
    } else {
        DeviceKind::Unknown
    }
}

/// OS hint read back from storage; unknown text is `Unknown`.
pub open spec fn parse_os_spec(s: Seq<char>) -> OsHint {
    if s == "android"@ {
        OsHint::Android
    } else if s == "ios"@ {
        OsHint::Ios
    } else if s == "linux"@ {
        OsHint::Linux
    } else if s == "macos"@ {
        OsHint::MacOS
    } else if s == "windows"@ {
        OsHint::Windows
    } else {
        OsHint::Unknown
    }
}

/// Event kind read back from storage; unknown text reads as `DeviceJoined`.
pub open spec fn parse_event_kind_spec(s: Seq<char>) -> EventKind {
    if s == "network_down"@ {
        EventKind::NetworkDown
    } else if s == "network_restored"@ {
        EventKind::NetworkRestored
    } else if s == "device_joined"@ {
        EventKind::DeviceJoined
    } else if s == "device_left"@ {
        EventKind::DeviceLeft
    } else if s == "device_returned"@ {
        EventKind::DeviceReturned
    } else if s == "ip_changed"@ {
        EventKind::IpChanged
    } else if s == "kind_refined"@ {
        EventKind::KindRefined
    } else if s == "speed_test_completed"@ {
        EventKind::SpeedTestCompleted
    } else {
        EventKind::DeviceJoined
    }
}

/// Compares a string with a literal.
pub fn str_eq(a: &str, b: &str) -> (r: bool)
    ensures
        r == (a@ == b@),
{
    let x = string_of(a);
    let y = string_of(b);
    x == y
}

/// Reads a stored device kind.
pub fn parse_kind(s: &str) -> (k: DeviceKind)
    ensures
        k == parse_kind_spec(s@),
{
    if str_eq(s, "router") {
        DeviceKind::Router
    } else if str_eq(s, "mobile") {
        DeviceKind::Mobile
    } else if str_eq(s, "desktop") {
        DeviceKind::Desktop
    } else if str_eq(s, "iot") {
        DeviceKind::IoT
    } else {
        DeviceKind::Unknown
    }
}

/// Reads a stored OS hint.
pub fn parse_os(s: &str) -> (o: OsHint)
    ensures
        o == parse_os_spec(s@),
{
    if str_eq(s, "android") {
        OsHint::Android
    } else if str_eq(s, "ios") {
        OsHint::Ios
    } else if str_eq(s, "linux") {
        OsHint::Linux
    } else if str_eq(s, "macos") {
        OsHint::MacOS
    } else if str_eq(s, "windows") {
        OsHint::Windows
    } else {
        OsHint::Unknown
    }
}

/// Reads a stored event kind.
pub fn parse_event_kind(s: &str) -> (k: EventKind)
    ensures
        k == parse_event_kind_spec(s@),
{
    if str_eq(s, "network_down") {
        EventKind::NetworkDown
    } else if str_eq(s, "network_restored") {
        EventKind::NetworkRestored
    } else if str_eq(s, "device_joined") {
        EventKind::DeviceJoined
    } else if str_eq(s, "device_left") {
        EventKind::DeviceLeft
    } else if str_eq(s, "device_returned") {
        EventKind::DeviceReturned
    } else if str_eq(s, "ip_changed") {
        EventKind::IpChanged
    } else if str_eq(s, "kind_refined") {
        EventKind::KindRefined
    } else if str_eq(s, "speed_test_completed") {
        EventKind::SpeedTestCompleted
    } else {
        EventKind::DeviceJoined
    }
}

/// Writing a kind and reading it back gives the same kind.
pub proof fn lemma_kind_round_trip(k: DeviceKind)
    ensures
        parse_kind_spec(k.name()) == k,
{
    reveal_strlit("router");
    reveal_strlit("mobile");
    reveal_strlit("desktop");
    reveal_strlit("iot");
    reveal_strlit("unknown");
    match k {
        DeviceKind::Router => {  },
        DeviceKind::Mobile => { assert("mobile"@[0] != "router"@[0]); },
        DeviceKind::Desktop => { assert("desktop"@[0] != "router"@[0]); assert("desktop"@[0] != "mobile"@[0]); },
        DeviceKind::IoT => { assert("iot"@[0] != "router"@[0]); assert("iot"@[0] != "mobile"@[0]); assert("iot"@[0] != "desktop"@[0]); },
        DeviceKind::Unknown => { assert("unknown"@[0] != "router"@[0]); assert("unknown"@[0] != "mobile"@[0]); assert("unknown"@[0] != "desktop"@[0]); assert("unknown"@[0] != "iot"@[0]); },
    }
}

/// Writing an OS hint and reading it back gives the same hint.
pub proof fn lemma_os_round_trip(o: OsHint)
    ensures
        parse_os_spec(o.name()) == o,
{
    reveal_strlit("android");
    reveal_strlit("ios");
    reveal_strlit("linux");
    reveal_strlit("macos");
    reveal_strlit("windows");
    reveal_strlit("unknown");
    match o {
        OsHint::Android => {  },
        OsHint::Ios => { assert("ios"@[0] != "android"@[0]); },
        OsHint::Linux => { assert("linux"@[0] != "android"@[0]); assert("linux"@[0] != "ios"@[0]); },
        OsHint::MacOS => { assert("macos"@[0] != "android"@[0]); assert("macos"@[0] != "ios"@[0]); assert("macos"@[0] != "linux"@[0]); },
        OsHint::Windows => { assert("windows"@[0] != "android"@[0]); assert("windows"@[0] != "ios"@[0]); assert("windows"@[0] != "linux"@[0]); assert("windows"@[0] != "macos"@[0]); },
        OsHint::Unknown => { assert("unknown"@[0] != "android"@[0]); assert("unknown"@[0] != "ios"@[0]); assert("unknown"@[0] != "linux"@[0]); assert("unknown"@[0] != "macos"@[0]); assert("unknown"@[0] != "windows"@[0]); },
    }
}

/// Writing an event kind and reading it back gives the same kind.
pub proof fn lemma_event_kind_round_trip(k: EventKind)
    ensures
        parse_event_kind_spec(k.name()) == k,
{
    reveal_strlit("network_down");
    reveal_strlit("network_restored");
    reveal_strlit("device_joined");
    reveal_strlit("device_left");
    reveal_strlit("device_returned");
    reveal_strlit("ip_changed");
    reveal_strlit("kind_refined");
    reveal_strlit("speed_test_completed");
    match k {
        EventKind::NetworkDown => {  },
        EventKind::NetworkRestored => { assert("network_restored"@[8] != "network_down"@[8]); },
        EventKind::DeviceJoined => { assert("device_joined"@[0] != "network_down"@[0]); assert("device_joined"@[0] != "network_restored"@[0]); },
        EventKind::DeviceLeft => { assert("device_left"@[0] != "network_down"@[0]); assert("device_left"@[0] != "network_restored"@[0]); assert("device_left"@[7] != "device_joined"@[7]); },
        EventKind::DeviceReturned => { assert("device_returned"@[0] != "network_down"@[0]); assert("device_returned"@[0] != "network_restored"@[0]); assert("device_returned"@[7] != "device_joined"@[7]); assert("device_returned"@[7] != "device_left"@[7]); },
        EventKind::IpChanged => { assert("ip_changed"@[0] != "network_down"@[0]); assert("ip_changed"@[0] != "network_restored"@[0]); assert("ip_changed"@[0] != "device_joined"@[0]); assert("ip_changed"@[0] != "device_left"@[0]); assert("ip_changed"@[0] != "device_returned"@[0]); },
        EventKind::KindRefined => { assert("kind_refined"@[0] != "network_down"@[0]); assert("kind_refined"@[0] != "network_restored"@[0]); assert("kind_refined"@[0] != "device_joined"@[0]); assert("kind_refined"@[0] != "device_left"@[0]); assert("kind_refined"@[0] != "device_returned"@[0]); assert("kind_refined"@[0] != "ip_changed"@[0]); },
        EventKind::SpeedTestCompleted => { assert("speed_test_completed"@[0] != "network_down"@[0]); assert("speed_test_completed"@[0] != "network_restored"@[0]); assert("speed_test_completed"@[0] != "device_joined"@[0]); assert("speed_test_completed"@[0] != "device_left"@[0]); assert("speed_test_completed"@[0] != "device_returned"@[0]); assert("speed_test_completed"@[0] != "ip_changed"@[0]); assert("speed_test_completed"@[0] != "kind_refined"@[0]); },
    }
}

} // verus!
