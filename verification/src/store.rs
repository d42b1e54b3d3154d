//! Reading the store's rows back into devices, identities and event records, and
//! the store's device-label update.
use vstd::prelude::*;
use crate::net::{MacAddr, IpAddress, parse_mac, mac_address_parse, mac_text};
use crate::model::{
    Device, DeviceView, DeviceKind, OsHint, EventKind, Timestamp, Identity, opt_view, clone_opt_string,
    parse_kind, parse_os, parse_event_kind, parse_kind_spec, parse_os_spec, parse_event_kind_spec,
};
use crate::registry::EventDraft;
use crate::api::{parse_rfc3339, rfc3339_instant};
use crate::ipparse::{ip_parse, parse_ip};

verus! {

/// What `uuid::Uuid::parse_str` reads from text, as a 128-bit number.
pub uninterp spec fn uuid_value(s: Seq<char>) -> Option<u128>;

/// `uuid::Uuid::parse_str`, as a 128-bit number; named by `uuid_value`.
#[verifier::external_body]
fn parse_uuid(s: &str) -> (r: Option<u128>)
    ensures
        r == uuid_value(s@),
{
    uuid::Uuid::parse_str(s).ok().map(|u| u.as_u128())
}

/// What `serde_json::from_str::<Vec<u16>>` reads from text.
pub uninterp spec fn json_u16_list(s: Seq<char>) -> Option<Seq<u16>>;

/// `serde_json::from_str::<Vec<u16>>`; named by `json_u16_list`.
#[verifier::external_body]
fn parse_json_u16_list(s: &str) -> (r: Option<Vec<u16>>)
    ensures
        r is Some <==> json_u16_list(s@) is Some,
        r is Some ==> r->0@ == json_u16_list(s@)->0,
{
    serde_json::from_str::<Vec<u16>>(s).ok()
}

/// What `serde_json::from_str::<Vec<String>>` reads from text.
pub uninterp spec fn json_string_list(s: Seq<char>) -> Option<Seq<Seq<char>>>;

/// `serde_json::from_str::<Vec<String>>`; named by `json_string_list`.
#[verifier::external_body]
fn parse_json_string_list(s: &str) -> (r: Option<Vec<String>>)
    ensures
        r is Some <==> json_string_list(s@) is Some,
        r is Some ==> r->0@.map_values(|x: String| x@) == json_string_list(s@)->0,
{
    serde_json::from_str::<Vec<String>>(s).ok()
}

/// Whether text is a JSON document (`serde_json::from_str::<serde_json::Value>`
/// succeeds on it).
pub uninterp spec fn json_valid(s: Seq<char>) -> bool;

/// `serde_json::from_str::<serde_json::Value>(..).is_ok()`; named by `json_valid`.
#[verifier::external_body]
fn is_json(s: &str) -> (r: bool)
    ensures
        r == json_valid(s@),
{
    serde_json::from_str::<serde_json::Value>(s).is_ok()
}

/// Errors of the store.
#[derive(Debug)]
pub enum StoreError {
    NotFound(String),
    InvalidData(String),
    Migration(String),
    Database(String),
}

/// A row of the `devices` table as text and numbers, with the confidence as
/// thousandths.
pub struct DeviceRow {
    pub mac: String,
    pub current_ip: Option<String>,
    pub hostname: Option<String>,
    pub vendor: Option<String>,
    pub kind: String,
    pub os_hint: String,
    pub identity_id: Option<String>,
    pub user_label: Option<String>,
    pub first_seen: String,
    pub last_seen: String,
    pub online: i32,
    pub open_ports: String,
    pub mdns_services: String,
    pub confidence_permille: u16,
    pub inference_source: Option<String>,
    pub do_not_scan: i32,
}

/// A time column: its RFC 3339 instant, or `now` when it does not parse.
pub open spec fn time_or(s: Seq<char>, now: Timestamp) -> Timestamp {
    match rfc3339_instant(s) {
        Some(t) => t,
        None => now,
    }
}

pub open spec fn mac_or_zero(s: Seq<char>) -> MacAddr {
    match mac_address_parse(s) {
        Some(b) => MacAddr(b[0], b[1], b[2], b[3], b[4], b[5]),
        None => MacAddr(0, 0, 0, 0, 0, 0),
    }
}

/// An optional IP address column: none where it is empty or no address.
pub open spec fn ip_column(t: Option<Seq<char>>) -> Option<IpAddress> {
    match t {
        Some(s) => ip_parse(s),
        None => None,
    }
}

fn read_ip_column(t: &Option<String>) -> (r: Option<IpAddress>)
    ensures
        r == ip_column(opt_view(*t)),
{
    match t {
        Some(s) => parse_ip(s.as_str()),
        None => None,
    }
}

/// The device a row stands for: unreadable MAC addresses and IP addresses
/// become all zeros and none,
/// unknown kinds and OS hints `Unknown`, unreadable identity ids none, unreadable
/// times `now`, unreadable port and service lists empty; non-zero flags are true.
pub open spec fn device_row_spec(
    mac: Seq<char>,
    current_ip: Option<Seq<char>>,
    hostname: Option<Seq<char>>,
    vendor: Option<Seq<char>>,
    kind: Seq<char>,
    os_hint: Seq<char>,
    identity_id: Option<Seq<char>>,
    user_label: Option<Seq<char>>,
    first_seen: Seq<char>,
    last_seen: Seq<char>,
    online: i32,
    open_ports: Seq<char>,
    mdns_services: Seq<char>,
    confidence_permille: u16,
    inference_source: Option<Seq<char>>,
    do_not_scan: i32,
    now: Timestamp,
) -> DeviceView {
    DeviceView {
        mac: mac_or_zero(mac),
        current_ip: ip_column(current_ip),
        hostname,
        vendor,
        kind: parse_kind_spec(kind),
        os_hint: parse_os_spec(os_hint),
        identity_id: match identity_id {
            Some(t) => uuid_value(t),
            None => None,
        },
        user_label,
        first_seen: time_or(first_seen, now),
        last_seen: time_or(last_seen, now),
        online: online != 0,
        open_ports: match json_u16_list(open_ports) {
            Some(p) => p,
            None => Seq::empty(),
        },
        mdns_services: match json_string_list(mdns_services) {
            Some(s) => s,
            None => Seq::empty(),
        },
        confidence_permille,
        inference_source,
        do_not_scan: do_not_scan != 0,
    }
}

fn time_or_now(s: &str, now: Timestamp) -> (r: Timestamp)
    ensures
        r == time_or(s@, now),
{
    match parse_rfc3339(s) {
        Some(t) => t,
        None => now,
    }
}

/// Reads a device row; `now` stands in for unreadable times.
pub fn device_from_row(row: &DeviceRow, now: Timestamp) -> (d: Device)
    ensures
        d@ == device_row_spec(
            row.mac@,
            opt_view(row.current_ip),
            opt_view(row.hostname),
            opt_view(row.vendor),
            row.kind@,
            row.os_hint@,
            opt_view(row.identity_id),
            opt_view(row.user_label),
            row.first_seen@,
            row.last_seen@,
            row.online,
            row.open_ports@,
            row.mdns_services@,
            row.confidence_permille,
            opt_view(row.inference_source),
            row.do_not_scan,
            now,
        ),
{
    let mac = match parse_mac(row.mac.as_str()) {
        Some(m) => m,
        None => MacAddr::zero(),
    };
    proof {
        if let Some(b) = mac_address_parse(row.mac@) {
            assert(b == mac.octets());
        }
    }
    let identity_id = match &row.identity_id {
        Some(t) => parse_uuid(t.as_str()),
        None => None,
    };
    let open_ports = match parse_json_u16_list(row.open_ports.as_str()) {
        Some(p) => p,
        None => Vec::new(),
    };
    let mdns_services = match parse_json_string_list(row.mdns_services.as_str()) {
        Some(s) => s,
        None => Vec::new(),
    };
    let d = Device {
        mac,
        current_ip: read_ip_column(&row.current_ip),
        hostname: clone_opt_string(&row.hostname),
        vendor: clone_opt_string(&row.vendor),
        kind: parse_kind(row.kind.as_str()),
        os_hint: parse_os(row.os_hint.as_str()),
        identity_id,
        user_label: clone_opt_string(&row.user_label),
        first_seen: time_or_now(row.first_seen.as_str(), now),
        last_seen: time_or_now(row.last_seen.as_str(), now),
        online: row.online != 0,
        open_ports,
        mdns_services,
        confidence_permille: row.confidence_permille,
        inference_source: clone_opt_string(&row.inference_source),
        do_not_scan: row.do_not_scan != 0,
    };
    proof {
        assert(d@.mdns_services =~= match json_string_list(row.mdns_services@) {
            Some(s) => s,
            None => Seq::<Seq<char>>::empty(),
        });
    }
    d
}

/// A row of the `identities` table.
pub struct IdentityRow {
    pub id: String,
    pub display_name: String,
    pub notes: Option<String>,
    pub created_at: String,
}

/// Reads an identity row: an unreadable id becomes 0 (the nil UUID), an
/// unreadable time `now`.
pub fn identity_from_row(row: &IdentityRow, now: Timestamp) -> (i: Identity)
    ensures
        i.id == match uuid_value(row.id@) {
            Some(v) => v,
            None => 0,
        },
        i.display_name@ == row.display_name@,
        opt_view(i.notes) == opt_view(row.notes),
        i.created_at == time_or(row.created_at@, now),
{
    let id = match parse_uuid(row.id.as_str()) {
        Some(v) => v,
        None => 0,
    };
    Identity {
        id,
        display_name: row.display_name.clone(),
        notes: clone_opt_string(&row.notes),
        created_at: time_or_now(row.created_at.as_str(), now),
    }
}

/// An event-log record: a draft with an id and a time.
pub struct EventRecord {
    pub id: u128,
    pub kind: EventKind,
    pub timestamp: Timestamp,
    pub agent_name: String,
    pub network_name: Option<String>,
    pub device_mac: Option<MacAddr>,
    pub device_ip: Option<IpAddress>,
    pub message: String,
    /// JSON text of structured details.
    pub details: Option<String>,
}

impl EventRecord {
    /// Stamps a draft with its id and time.
    pub fn from_draft(draft: EventDraft, id: u128, timestamp: Timestamp) -> (r: EventRecord)
        ensures
            r.id == id,
            r.timestamp == timestamp,
            r.kind == draft@.kind,
            r.agent_name@ == draft@.agent_name,
            opt_view(r.network_name) == draft@.network_name,
            r.device_mac == draft@.device_mac,
            r.device_ip == draft@.device_ip,
            r.message@ == draft@.message,
            opt_view(r.details) == draft@.details,
    {
        EventRecord {
            id,
            kind: draft.kind,
            timestamp,
            agent_name: draft.agent_name,
            network_name: draft.network_name,
            device_mac: draft.device_mac,
            device_ip: draft.device_ip,
            message: draft.message,
            details: draft.details,
        }
    }
}

/// A row of the `events` table.
pub struct EventRow {
    pub id: String,
    pub kind: String,
    pub timestamp: String,
    pub agent_name: String,
    pub network_name: Option<String>,
    pub device_mac: Option<String>,
    pub device_ip: Option<String>,
    pub message: String,
    pub details: Option<String>,
}

/// Reads an event row: an unreadable id becomes 0, an unknown kind
/// `DeviceJoined`, an unreadable time `now`, an unreadable MAC or IP address none, and
/// details that are no JSON none.
pub fn event_from_row(row: &EventRow, now: Timestamp) -> (e: EventRecord)
    ensures
        e.id == match uuid_value(row.id@) {
            Some(v) => v,
            None => 0,
        },
        e.kind == parse_event_kind_spec(row.kind@),
        e.timestamp == time_or(row.timestamp@, now),
        e.agent_name@ == row.agent_name@,
        opt_view(e.network_name) == opt_view(row.network_name),
        e.device_mac == match row.device_mac {
            Some(t) => match mac_address_parse(t@) {
                Some(b) => Some(MacAddr(b[0], b[1], b[2], b[3], b[4], b[5])),
                None => None,
            },
            None => None,
        },
        e.device_ip == ip_column(opt_view(row.device_ip)),
        e.message@ == row.message@,
        opt_view(e.details) == match row.details {
            Some(t) => if json_valid(t@) {
                Some(t@)
            } else {
                None
            },
            None => None,
        },
{
    let id = match parse_uuid(row.id.as_str()) {
        Some(v) => v,
        None => 0,
    };
    let device_mac = match &row.device_mac {
        Some(t) => {
            let m = parse_mac(t.as_str());
            proof {
                if let Some(b) = mac_address_parse(t@) {
                    assert(b == m->0.octets());
                }
            }
            m
        },
        None => None,
    };
    let details = match &row.details {
        Some(t) => if is_json(t.as_str()) {
            Some(t.clone())
        } else {
            None
        },
        None => None,
    };
    EventRecord {
        id,
        kind: parse_event_kind(row.kind.as_str()),
        timestamp: time_or_now(row.timestamp.as_str(), now),
        agent_name: row.agent_name.clone(),
        network_name: clone_opt_string(&row.network_name),
        device_mac,
        device_ip: read_ip_column(&row.device_ip),
        message: row.message.clone(),
        details,
    }
}

/// `update_device_label`: the stored device (`existing`, read by MAC address) with
/// the requested changes applied, or not found.
pub fn update_device_label(
    existing: Option<Device>,
    mac: MacAddr,
    user_label: Option<String>,
    identity_id: Option<u128>,
    kind: Option<DeviceKind>,
    os_hint: Option<OsHint>,
    do_not_scan: Option<bool>,
) -> (r: Result<Device, StoreError>)
    ensures
        match existing {
            None => r matches Err(StoreError::NotFound(m)) && m@ == mac_text(mac),
            Some(d) => r matches Ok(u) && u@ == (DeviceView {
                user_label: if user_label is Some {
                    opt_view(user_label)
                } else {
                    d@.user_label
                },
                identity_id: if identity_id is Some {
                    identity_id
                } else {
                    d@.identity_id
                },
                kind: if kind is Some {
                    kind->0
                } else {
                    d@.kind
                },
                os_hint: if os_hint is Some {
                    os_hint->0
                } else {
                    d@.os_hint
                },
                do_not_scan: if do_not_scan is Some {
                    do_not_scan->0
                } else {
                    d@.do_not_scan
                },
                ..d@
            }),
        },
{
    match existing {
        None => Err(StoreError::NotFound(mac.to_text())),
        Some(mut d) => {
            d.apply_update(user_label, identity_id, kind, os_hint, do_not_scan);
            Ok(d)
        },
    }
}

} // verus!
