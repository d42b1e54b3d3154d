//! The device registry: turns what a discovery pass saw into device updates,
//! join/leave/return/IP-change events and event-log records.
use vstd::prelude::*;
use crate::net::{MacAddr, IpAddress, mac_text, ip_text};
use crate::model::{Device, DeviceView, DeviceKind, OsHint, EventKind, Timestamp, DeviceSnapshot, DeviceSnapshotView, Identity, opt_view, clone_opt_string, string_of, elapsed_exceeds, elapsed_secs_exceed};
use crate::table::{DeviceTable, device_views, load_spec, merged, upsert_spec};
use crate::text::push_str;

verus! {

/// Something the registry reports to the notifier.
pub enum RegistryEvent {
    DeviceJoined { device: Device, identity_name: Option<String> },
    DeviceLeft { device: Device, identity_name: Option<String> },
    DeviceReturned { device: Device, identity_name: Option<String> },
    IpChanged { device: Device, old_ip: Option<IpAddress> },
}

pub enum RegistryEventView {
    DeviceJoined { device: DeviceView, identity_name: Option<Seq<char>> },
    DeviceLeft { device: DeviceView, identity_name: Option<Seq<char>> },
    DeviceReturned { device: DeviceView, identity_name: Option<Seq<char>> },
    IpChanged { device: DeviceView, old_ip: Option<IpAddress> },
}

impl View for RegistryEvent {
    type V = RegistryEventView;

    open spec fn view(&self) -> RegistryEventView {
        match self {
            RegistryEvent::DeviceJoined { device, identity_name } => RegistryEventView::DeviceJoined {
                device: device@,
                identity_name: opt_view(*identity_name),
            },
            RegistryEvent::DeviceLeft { device, identity_name } => RegistryEventView::DeviceLeft {
                device: device@,
                identity_name: opt_view(*identity_name),
            },
            RegistryEvent::DeviceReturned { device, identity_name } => RegistryEventView::DeviceReturned {
                device: device@,
                identity_name: opt_view(*identity_name),
            },
            RegistryEvent::IpChanged { device, old_ip } => RegistryEventView::IpChanged {
                device: device@,
                old_ip: *old_ip,
            },
        }
    }
}

/// An event-log record before it is given an id and a time stamp.
pub struct EventDraft {
    pub kind: EventKind,
    pub agent_name: String,
    pub network_name: Option<String>,
    pub device_mac: Option<MacAddr>,
    pub device_ip: Option<IpAddress>,
    pub message: String,
    /// JSON text of structured details, if any.
    pub details: Option<String>,
}

pub struct EventDraftView {
    pub kind: EventKind,
    pub agent_name: Seq<char>,
    pub network_name: Option<Seq<char>>,
    pub device_mac: Option<MacAddr>,
    pub device_ip: Option<IpAddress>,
    pub message: Seq<char>,
    pub details: Option<Seq<char>>,
}

impl View for EventDraft {
    type V = EventDraftView;

    open spec fn view(&self) -> EventDraftView {
        EventDraftView {
            kind: self.kind,
            agent_name: self.agent_name@,
            network_name: opt_view(self.network_name),
            device_mac: self.device_mac,
            device_ip: self.device_ip,
            message: self.message@,
            details: opt_view(self.details),
        }
    }
}

/// A write to the store, in the order the registry makes them.
pub enum StoreWrite {
    Upsert(Device),
    Record(EventDraft),
}

pub enum StoreWriteView {
    Upsert(DeviceView),
    Record(EventDraftView),
}

impl View for StoreWrite {
    type V = StoreWriteView;

    open spec fn view(&self) -> StoreWriteView {
        match self {
            StoreWrite::Upsert(d) => StoreWriteView::Upsert(d@),
            StoreWrite::Record(e) => StoreWriteView::Record(e@),
        }
    }
}

/// The events of a pass and the store writes that go with them.
pub struct SweepOutcome {
    pub events: Vec<RegistryEvent>,
    pub writes: Vec<StoreWrite>,
}

pub open spec fn event_views(v: Seq<RegistryEvent>) -> Seq<RegistryEventView> {
    v.map_values(|e: RegistryEvent| e@)
}

pub open spec fn write_views(v: Seq<StoreWrite>) -> Seq<StoreWriteView> {
    v.map_values(|w: StoreWrite| w@)
}

pub open spec fn snapshot_views(v: Seq<DeviceSnapshot>) -> Seq<DeviceSnapshotView> {
    v.map_values(|s: DeviceSnapshot| s@)
}

/// The state of a pass: the store as it stands, and what has been reported and
/// written so far.
pub struct SweepView {
    pub store: Map<MacAddr, DeviceView>,
    pub events: Seq<RegistryEventView>,
    pub writes: Seq<StoreWriteView>,
}

/// The display name of the first identity with id `id`.
pub open spec fn identity_name_in(ids: Seq<Identity>, id: Option<u128>) -> Option<Seq<char>>
    decreases ids.len(),
{
    match id {
        None => None,
        Some(x) => if ids.len() == 0 {
            None
        } else if ids[0].id == x {
            Some(ids[0].display_name@)
        } else {
            identity_name_in(ids.drop_first(), id)
        },
    }
}

/// `"none"` or the address text.
pub open spec fn opt_ip_text(ip: Option<IpAddress>) -> Seq<char> {
    match ip {
        Some(a) => ip_text(a),
        None => "none"@,
    }
}

/// Log message for an event about a device.
pub open spec fn device_event_message(kind: EventKind, mac: MacAddr) -> Seq<char> {
    match kind {
        EventKind::DeviceJoined => mac_text(mac) + " joined"@,
        EventKind::DeviceLeft => mac_text(mac) + " left"@,
        EventKind::DeviceReturned => mac_text(mac) + " returned"@,
        _ => mac_text(mac),
    }
}

/// Log record for an event, stamped with the agent and network names and, when
/// given, the device's MAC and current IP.
pub open spec fn draft_spec(
    kind: EventKind,
    agent: Seq<char>,
    net: Option<Seq<char>>,
    device: Option<DeviceView>,
    message: Seq<char>,
    details: Option<Seq<char>>,
) -> EventDraftView {
    EventDraftView {
        kind,
        agent_name: agent,
        network_name: net,
        device_mac: match device {
            Some(d) => Some(d.mac),
            None => None,
        },
        device_ip: match device {
            Some(d) => d.current_ip,
            None => None,
        },
        message,
        details,
    }
}

pub open spec fn device_draft(agent: Seq<char>, net: Option<Seq<char>>, d: DeviceView, kind: EventKind) -> EventDraftView {
    draft_spec(kind, agent, net, Some(d), device_event_message(kind, d.mac), None)
}

pub open spec fn ip_change_message(old_ip: Option<IpAddress>, new_ip: Option<IpAddress>) -> Seq<char> {
    "IP changed from "@ + opt_ip_text(old_ip) + " to "@ + opt_ip_text(new_ip)
}

pub open spec fn ip_change_draft(agent: Seq<char>, net: Option<Seq<char>>, d: DeviceView, old_ip: Option<IpAddress>) -> EventDraftView {
    draft_spec(EventKind::IpChanged, agent, net, Some(d), ip_change_message(old_ip, d.current_ip), None)
}

/// A known device seen again: a reported IP, host name or vendor replaces the
/// stored one, and it is online as of `now`.
pub open spec fn refreshed(d: DeviceView, snap: DeviceSnapshotView, now: Timestamp) -> DeviceView {
    DeviceView {
        current_ip: if snap.ip is Some {
            snap.ip
        } else {
            d.current_ip
        },
        hostname: if snap.hostname is Some {
            snap.hostname
        } else {
            d.hostname
        },
        vendor: if snap.vendor is Some {
            snap.vendor
        } else {
            d.vendor
        },
        last_seen: now,
        online: true,
        ..d
    }
}

/// A device seen for the first time.
pub open spec fn fresh_device(snap: DeviceSnapshotView, now: Timestamp) -> DeviceView {
    DeviceView {
        mac: snap.mac,
        current_ip: snap.ip,
        hostname: snap.hostname,
        vendor: snap.vendor,
        kind: DeviceKind::Unknown,
        os_hint: OsHint::Unknown,
        identity_id: None,
        user_label: None,
        first_seen: now,
        last_seen: now,
        online: true,
        open_ports: Seq::empty(),
        mdns_services: Seq::empty(),
        confidence_permille: 0,
        inference_source: None,
        do_not_scan: false,
    }
}

/// One snapshot of a pass.
pub open spec fn sweep_step(
    st: SweepView,
    snap: DeviceSnapshotView,
    agent: Seq<char>,
    net: Option<Seq<char>>,
    ids: Seq<Identity>,
    now: Timestamp,
) -> SweepView {
    if st.store.contains_key(snap.mac) {
        let d = st.store[snap.mac];
        let d2 = refreshed(d, snap, now);
        let name = identity_name_in(ids, d2.identity_id);
        let kind = if d2.first_seen == d2.last_seen {
            EventKind::DeviceJoined
        } else {
            EventKind::DeviceReturned
        };
        let e1: Seq<RegistryEventView> = if !d.online {
            if kind == EventKind::DeviceJoined {
                seq![RegistryEventView::DeviceJoined { device: d2, identity_name: name }]
            } else {
                seq![RegistryEventView::DeviceReturned { device: d2, identity_name: name }]
            }
        } else {
            Seq::empty()
        };
        let w1: Seq<StoreWriteView> = if !d.online {
            seq![StoreWriteView::Record(device_draft(agent, net, d2, kind))]
        } else {
            Seq::empty()
        };
        let changed = d.current_ip != d2.current_ip && d2.current_ip is Some;
        let e2: Seq<RegistryEventView> = if changed {
            seq![RegistryEventView::IpChanged { device: d2, old_ip: d.current_ip }]
        } else {
            Seq::empty()
        };
        let w2: Seq<StoreWriteView> = if changed {
            seq![StoreWriteView::Record(ip_change_draft(agent, net, d2, d.current_ip))]
        } else {
            Seq::empty()
        };
        SweepView {
            store: upsert_spec(st.store, d2),
            events: st.events + e1 + e2,
            writes: st.writes + seq![StoreWriteView::Upsert(d2)] + w1 + w2,
        }
    } else {
        let d = fresh_device(snap, now);
        SweepView {
            store: upsert_spec(st.store, d),
            events: st.events.push(RegistryEventView::DeviceJoined { device: d, identity_name: None }),
            writes: st.writes + seq![
                StoreWriteView::Upsert(d),
                StoreWriteView::Record(device_draft(agent, net, d, EventKind::DeviceJoined)),
            ],
        }
    }
}

/// The first `n` snapshots of a pass, in order.
pub open spec fn sweep_snaps(
    st: SweepView,
    snaps: Seq<DeviceSnapshotView>,
    n: nat,
    agent: Seq<char>,
    net: Option<Seq<char>>,
    ids: Seq<Identity>,
    now: Timestamp,
) -> SweepView
    decreases n,
{
    if n == 0 || n > snaps.len() {
        st
    } else {
        sweep_step(sweep_snaps(st, snaps, (n - 1) as nat, agent, net, ids, now), snaps[n - 1], agent, net, ids, now)
    }
}

/// Some snapshot of the pass has MAC address `m`.
pub open spec fn seen_in(snaps: Seq<DeviceSnapshotView>, m: MacAddr) -> bool {
    exists|i: int| 0 <= i < snaps.len() && #[trigger] snaps[i].mac == m
}

/// A device that was online but is missing from the pass goes offline and is
/// reported as having left.
pub open spec fn leave_step(
    st: SweepView,
    d: DeviceView,
    snaps: Seq<DeviceSnapshotView>,
    agent: Seq<char>,
    net: Option<Seq<char>>,
    ids: Seq<Identity>,
) -> SweepView {
    if d.online && !seen_in(snaps, d.mac) {
        let off = DeviceView { online: false, ..d };
        SweepView {
            store: upsert_spec(st.store, off),
            events: st.events.push(
                RegistryEventView::DeviceLeft {
                    device: off,
                    identity_name: identity_name_in(ids, off.identity_id),
                },
            ),
            writes: st.writes + seq![
                StoreWriteView::Upsert(off),
                StoreWriteView::Record(device_draft(agent, net, off, EventKind::DeviceLeft)),
            ],
        }
    } else {
        st
    }
}

/// The first `n` previously stored devices, checked for having left.
pub open spec fn sweep_leavers(
    st: SweepView,
    existing: Seq<DeviceView>,
    n: nat,
    snaps: Seq<DeviceSnapshotView>,
    agent: Seq<char>,
    net: Option<Seq<char>>,
    ids: Seq<Identity>,
) -> SweepView
    decreases n,
{
    if n == 0 || n > existing.len() {
        st
    } else {
        leave_step(sweep_leavers(st, existing, (n - 1) as nat, snaps, agent, net, ids), existing[n - 1], snaps, agent, net, ids)
    }
}

/// A whole pass: every snapshot in order, then every previously stored device
/// (in the order the store listed them) that the pass did not see.
pub open spec fn process_sweep_spec(
    agent: Seq<char>,
    existing: Seq<DeviceView>,
    ids: Seq<Identity>,
    snaps: Seq<DeviceSnapshotView>,
    net: Option<Seq<char>>,
    now: Timestamp,
) -> SweepView {
    let st0 = SweepView { store: load_spec(existing), events: Seq::empty(), writes: Seq::empty() };
    let st1 = sweep_snaps(st0, snaps, snaps.len(), agent, net, ids, now);
    sweep_leavers(st1, existing, existing.len(), snaps, agent, net, ids)
}

/// One device of a staleness check: an online device last seen more than
/// `timeout` seconds before `now` goes offline and is reported as having left.
pub open spec fn stale_step(
    st: SweepView,
    d: DeviceView,
    timeout: u64,
    agent: Seq<char>,
    net: Option<Seq<char>>,
    ids: Seq<Identity>,
    now: Timestamp,
) -> SweepView {
    if d.online && elapsed_exceeds(now, d.last_seen, timeout as i64) {
        let off = DeviceView { online: false, ..d };
        SweepView {
            store: upsert_spec(st.store, off),
            events: st.events.push(
                RegistryEventView::DeviceLeft {
                    device: off,
                    identity_name: identity_name_in(ids, off.identity_id),
                },
            ),
            writes: st.writes + seq![
                StoreWriteView::Upsert(off),
                StoreWriteView::Record(device_draft(agent, net, off, EventKind::DeviceLeft)),
            ],
        }
    } else {
        st
    }
}

pub open spec fn stale_all(
    st: SweepView,
    devices: Seq<DeviceView>,
    n: nat,
    timeout: u64,
    agent: Seq<char>,
    net: Option<Seq<char>>,
    ids: Seq<Identity>,
    now: Timestamp,
) -> SweepView
    decreases n,
{
    if n == 0 || n > devices.len() {
        st
    } else {
        stale_step(stale_all(st, devices, (n - 1) as nat, timeout, agent, net, ids, now), devices[n - 1], timeout, agent, net, ids, now)
    }
}

/// A staleness check over the stored devices, in the order the store listed them.
pub open spec fn mark_stale_spec(
    agent: Seq<char>,
    devices: Seq<DeviceView>,
    ids: Seq<Identity>,
    timeout: u64,
    net: Option<Seq<char>>,
    now: Timestamp,
) -> SweepView {
    let st0 = SweepView { store: load_spec(devices), events: Seq::empty(), writes: Seq::empty() };
    stale_all(st0, devices, devices.len(), timeout, agent, net, ids, now)
}

pub open spec fn opt_str(o: Option<&str>) -> Option<Seq<char>> {
    match o {
        Some(s) => Some(s@),
        None => None,
    }
}

// ---------------------------------------------------------------------------
// Executable side
// ---------------------------------------------------------------------------
fn identity_name(ids: &Vec<Identity>, id: Option<u128>) -> (r: Option<String>)
    ensures
        opt_view(r) == identity_name_in(ids@, id),
{
    match id {
        None => None,
        Some(x) => {
            let mut i: usize = 0;
            proof {
                assert(ids@.subrange(0, ids@.len() as int) =~= ids@);
            }
            while i < ids.len()
                invariant
                    i <= ids.len(),
                    identity_name_in(ids@, id) == identity_name_in(ids@.subrange(i as int, ids@.len() as int), id),
                    id == Some(x),
                decreases ids.len() - i,
            {
                let ghost rest = ids@.subrange(i as int, ids@.len() as int);
                proof {
                    assert(rest.drop_first() =~= ids@.subrange(i + 1, ids@.len() as int));
                    assert(rest[0] == ids@[i as int]);
                }
                if ids[i].id == x {
                    return Some(ids[i].display_name.clone());
                }
                i += 1;
            }
            None
        },
    }
}

fn opt_ip_to_text(ip: Option<IpAddress>) -> (r: String)
    ensures
        r@ == opt_ip_text(ip),
{
    match ip {
        Some(a) => a.to_text(),
        None => string_of("none"),
    }
}

fn device_message(kind: EventKind, mac: MacAddr) -> (r: String)
    ensures
        r@ == device_event_message(kind, mac),
{
    let mut s = mac.to_text();
    match kind {
        EventKind::DeviceJoined => push_str(&mut s, " joined"),
        EventKind::DeviceLeft => push_str(&mut s, " left"),
        EventKind::DeviceReturned => push_str(&mut s, " returned"),
        _ => {},
    }
    s
}

fn opt_string_of(o: Option<&str>) -> (r: Option<String>)
    ensures
        opt_view(r) == opt_str(o),
{
    match o {
        Some(s) => Some(string_of(s)),
        None => None,
    }
}

proof fn lemma_push_views_event(v: Seq<RegistryEvent>, e: RegistryEvent)
    ensures
        event_views(v.push(e)) == event_views(v).push(e@),
{
    assert(event_views(v.push(e)) =~= event_views(v).push(e@));
}

proof fn lemma_push_views_write(v: Seq<StoreWrite>, w: StoreWrite)
    ensures
        write_views(v.push(w)) == write_views(v).push(w@),
{
    assert(write_views(v.push(w)) =~= write_views(v).push(w@));
}

/// Upserts a device with the store's merge rule.
fn upsert(table: &mut DeviceTable, d: &Device)
    requires
        old(table).wf(),
    ensures
        final(table).wf(),
        final(table).map() == upsert_spec(old(table).map(), d@),
{
    match table.find(d.mac) {
        Some(i) => {
            let old_row = &table.rows[i];
            let mut m = d.duplicate();
            if m.hostname.is_none() {
                m.hostname = clone_opt_string(&old_row.hostname);
            }
            if m.vendor.is_none() {
                m.vendor = clone_opt_string(&old_row.vendor);
            }
            m.first_seen = old_row.first_seen;
            proof {
                assert(m@ == merged(old(table).map()[d@.mac], d@));
            }
            table.put(m);
        },
        None => {
            table.put(d.duplicate());
        },
    }
}

/// The registry's own state: the name it stamps on event records.
pub struct DeviceRegistry {
    agent_name: String,
}

impl DeviceRegistry {
    pub closed spec fn agent(&self) -> Seq<char> {
        self.agent_name@
    }

    pub fn new(agent_name: String) -> (r: DeviceRegistry)
        ensures
            r.agent() == agent_name@,
    {
        DeviceRegistry { agent_name }
    }

    pub fn set_agent_name(&mut self, name: String)
        ensures
            final(self).agent() == name@,
    {
        self.agent_name = name;
    }

    pub fn agent_name(&self) -> (r: &str)
        ensures
            r@ == self.agent(),
    {
        self.agent_name.as_str()
    }

    /// The log record for an event: stamped with this agent's name and the network
    /// name, and, when a device is given, its MAC and current IP address.
    pub fn record_event(
        &self,
        kind: EventKind,
        network_name: Option<&str>,
        device: Option<&Device>,
        message: String,
        details: Option<String>,
    ) -> (r: EventDraft)
        ensures
            r@ == draft_spec(
                kind,
                self.agent(),
                opt_str(network_name),
                match device {
                    Some(d) => Some(d@),
                    None => None,
                },
                message@,
                opt_view(details),
            ),
    {
        EventDraft {
            kind,
            agent_name: self.agent_name.clone(),
            network_name: opt_string_of(network_name),
            device_mac: match device {
                Some(d) => Some(d.mac),
                None => None,
            },
            device_ip: match device {
                Some(d) => d.current_ip,
                None => None,
            },
            message,
            details,
        }
    }

    fn record_device_event(&self, device: &Device, kind: EventKind, network_name: Option<&str>) -> (r: EventDraft)
        ensures
            r@ == device_draft(self.agent(), opt_str(network_name), device@, kind),
    {
        let message = device_message(kind, device.mac);
        self.record_event(kind, network_name, Some(device), message, None)
    }

    fn sweep_one(
        &self,
        table: &mut DeviceTable,
        events: &mut Vec<RegistryEvent>,
        writes: &mut Vec<StoreWrite>,
        ids: &Vec<Identity>,
        snap: &DeviceSnapshot,
        network_name: Option<&str>,
        now: Timestamp,
    )
        requires
            old(table).wf(),
        ensures
            final(table).wf(),
            ({
                let st = SweepView {
                    store: old(table).map(),
                    events: event_views(old(events)@),
                    writes: write_views(old(writes)@),
                };
                let st2 = sweep_step(st, snap@, self.agent(), opt_str(network_name), ids@, now);
                &&& final(table).map() == st2.store
                &&& event_views(final(events)@) == st2.events
                &&& write_views(final(writes)@) == st2.writes
            }),
    {
        let ghost st = SweepView {
            store: table.map(),
            events: event_views(events@),
            writes: write_views(writes@),
        };
        let ghost net = opt_str(network_name);
        match table.find(snap.mac) {
            Some(i) => {
                let mut device = table.rows[i].duplicate();
                let ghost d = device@;
                let was_online = device.online;
                let old_ip = device.current_ip;
                if snap.ip.is_some() {
                    device.current_ip = snap.ip;
                }
                if snap.hostname.is_some() {
                    device.hostname = clone_opt_string(&snap.hostname);
                }
                if snap.vendor.is_some() {
                    device.vendor = clone_opt_string(&snap.vendor);
                }
                device.last_seen = now;
                device.online = true;
                let ghost d2 = device@;
                assert(d2 == refreshed(d, snap@, now));
                upsert(table, &device);
                writes.push(StoreWrite::Upsert(device.duplicate()));
                proof {
                    lemma_push_views_write(old(writes)@, StoreWrite::Upsert(device));
                }
                let identity_name = identity_name(ids, device.identity_id);
                let ghost mid_events = event_views(events@);
                let ghost mid_writes = write_views(writes@);
                if !was_online {
                    let joined = device.first_seen == device.last_seen;
                    let kind = if joined {
                        EventKind::DeviceJoined
                    } else {
                        EventKind::DeviceReturned
                    };
                    let evt = if joined {
                        RegistryEvent::DeviceJoined {
                            device: device.duplicate(),
                            identity_name: clone_opt_string(&identity_name),
                        }
                    } else {
                        RegistryEvent::DeviceReturned {
                            device: device.duplicate(),
                            identity_name: clone_opt_string(&identity_name),
                        }
                    };
                    let ghost ev = evt@;
                    proof {
                        lemma_push_views_event(events@, evt);
                    }
                    events.push(evt);
                    let draft = self.record_device_event(&device, kind, network_name);
                    let ghost w = StoreWrite::Record(draft)@;
                    proof {
                        lemma_push_views_write(writes@, StoreWrite::Record(draft));
                    }
                    writes.push(StoreWrite::Record(draft));
                }
                let ghost events1 = event_views(events@);
                let ghost writes1 = write_views(writes@);
                if old_ip != device.current_ip && device.current_ip.is_some() {
                    let evt = RegistryEvent::IpChanged { device: device.duplicate(), old_ip };
                    proof {
                        lemma_push_views_event(events@, evt);
                    }
                    events.push(evt);
                    let mut message = string_of("IP changed from ");
                    let a = opt_ip_to_text(old_ip);
                    push_str(&mut message, a.as_str());
                    push_str(&mut message, " to ");
                    let b = opt_ip_to_text(device.current_ip);
                    push_str(&mut message, b.as_str());
                    let draft = self.record_event(EventKind::IpChanged, network_name, Some(&device), message, None);
                    proof {
                        lemma_push_views_write(writes@, StoreWrite::Record(draft));
                    }
                    writes.push(StoreWrite::Record(draft));
                }
                proof {
                    let st2 = sweep_step(st, snap@, self.agent(), net, ids@, now);
                    assert(st.store.contains_key(snap@.mac));
                    assert(st.store[snap@.mac] == d);
                    assert(event_views(events@) =~= st2.events);
                    assert(write_views(writes@) =~= st2.writes);
                }
            },
            None => {
                let device = Device {
                    mac: snap.mac,
                    current_ip: snap.ip,
                    hostname: clone_opt_string(&snap.hostname),
                    vendor: clone_opt_string(&snap.vendor),
                    kind: DeviceKind::Unknown,
                    os_hint: OsHint::Unknown,
                    identity_id: None,
                    user_label: None,
                    first_seen: now,
                    last_seen: now,
                    online: true,
                    open_ports: Vec::new(),
                    mdns_services: Vec::new(),
                    confidence_permille: 0,
                    inference_source: None,
                    do_not_scan: false,
                };
                proof {
                    assert(device@.mdns_services =~= Seq::<Seq<char>>::empty());
                    assert(device@ == fresh_device(snap@, now));
                }
                upsert(table, &device);
                writes.push(StoreWrite::Upsert(device.duplicate()));
                proof {
                    lemma_push_views_write(old(writes)@, StoreWrite::Upsert(device));
                }
                let evt = RegistryEvent::DeviceJoined { device: device.duplicate(), identity_name: None };
                proof {
                    lemma_push_views_event(events@, evt);
                }
                events.push(evt);
                let draft = self.record_device_event(&device, EventKind::DeviceJoined, network_name);
                proof {
                    lemma_push_views_write(writes@, StoreWrite::Record(draft));
                }
                writes.push(StoreWrite::Record(draft));
                proof {
                    let st2 = sweep_step(st, snap@, self.agent(), net, ids@, now);
                    assert(!st.store.contains_key(snap@.mac));
                    assert(write_views(writes@) =~= st2.writes);
                }
            },
        }
    }

    fn mark_left(
        &self,
        table: &mut DeviceTable,
        events: &mut Vec<RegistryEvent>,
        writes: &mut Vec<StoreWrite>,
        ids: &Vec<Identity>,
        device: &Device,
        network_name: Option<&str>,
    )
        requires
            old(table).wf(),
        ensures
            final(table).wf(),
            ({
                let off = DeviceView { online: false, ..device@ };
                &&& final(table).map() == upsert_spec(old(table).map(), off)
                &&& event_views(final(events)@) == event_views(old(events)@).push(
                    RegistryEventView::DeviceLeft {
                        device: off,
                        identity_name: identity_name_in(ids@, off.identity_id),
                    },
                )
                &&& write_views(final(writes)@) == write_views(old(writes)@) + seq![
                    StoreWriteView::Upsert(off),
                    StoreWriteView::Record(device_draft(self.agent(), opt_str(network_name), off, EventKind::DeviceLeft)),
                ]
            }),
    {
        let mut offline = device.duplicate();
        offline.online = false;
        upsert(table, &offline);
        writes.push(StoreWrite::Upsert(offline.duplicate()));
        proof {
            lemma_push_views_write(old(writes)@, StoreWrite::Upsert(offline));
        }
        let identity_name = identity_name(ids, offline.identity_id);
        let evt = RegistryEvent::DeviceLeft { device: offline.duplicate(), identity_name };
        proof {
            lemma_push_views_event(old(events)@, evt);
        }
        events.push(evt);
        let draft = self.record_device_event(&offline, EventKind::DeviceLeft, network_name);
        let ghost w1 = write_views(writes@);
        proof {
            lemma_push_views_write(writes@, StoreWrite::Record(draft));
        }
        writes.push(StoreWrite::Record(draft));
        proof {
            assert(write_views(writes@) =~= write_views(old(writes)@) + seq![
                StoreWriteView::Upsert(offline@),
                StoreWriteView::Record(device_draft(self.agent(), opt_str(network_name), offline@, EventKind::DeviceLeft)),
            ]);
        }
    }

    /// Processes one discovery pass.
    ///
    /// `existing` is the store's device list and `identities` its identities;
    /// `snapshots` is what the pass saw. Each snapshot in turn updates or creates its
    /// device and may report it as joined, returned or moved to another IP; then
    /// every device of `existing` that was online and is not among the snapshots
    /// goes offline and is reported as having left. The outcome lists the events and,
    /// in order, the store writes that go with them.
    pub fn process_sweep(
        &self,
        existing: &Vec<Device>,
        identities: &Vec<Identity>,
        snapshots: &Vec<DeviceSnapshot>,
        network_name: Option<&str>,
        now: Timestamp,
    ) -> (out: SweepOutcome)
        ensures
            ({
                let r = process_sweep_spec(
                    self.agent(),
                    device_views(existing@),
                    identities@,
                    snapshot_views(snapshots@),
                    opt_str(network_name),
                    now,
                );
                &&& event_views(out.events@) == r.events
                &&& write_views(out.writes@) == r.writes
            }),
    {
        let ghost agent = self.agent();
        let ghost net = opt_str(network_name);
        let ghost snaps = snapshot_views(snapshots@);
        let ghost ex = device_views(existing@);
        let mut table = DeviceTable::load(existing);
        let mut events: Vec<RegistryEvent> = Vec::new();
        let mut writes: Vec<StoreWrite> = Vec::new();
        let ghost st0 = SweepView { store: load_spec(ex), events: Seq::empty(), writes: Seq::empty() };
        proof {
            assert(event_views(events@) =~= Seq::<RegistryEventView>::empty());
            assert(write_views(writes@) =~= Seq::<StoreWriteView>::empty());
        }
        let mut i: usize = 0;
        while i < snapshots.len()
            invariant
                i <= snapshots.len(),
                snaps == snapshot_views(snapshots@),
                table.wf(),
                ({
                    let st = sweep_snaps(st0, snaps, i as nat, agent, net, identities@, now);
                    &&& table.map() == st.store
                    &&& event_views(events@) == st.events
                    &&& write_views(writes@) == st.writes
                }),
                agent == self.agent(),
                net == opt_str(network_name),
            decreases snapshots.len() - i,
        {
            self.sweep_one(&mut table, &mut events, &mut writes, identities, &snapshots[i], network_name, now);
            proof {
                assert(snaps[i as int] == snapshots@[i as int]@);
            }
            i += 1;
        }
        let ghost st1 = sweep_snaps(st0, snaps, snaps.len(), agent, net, identities@, now);
        let mut k: usize = 0;
        while k < existing.len()
            invariant
                k <= existing.len(),
                ex == device_views(existing@),
                snaps == snapshot_views(snapshots@),
                table.wf(),
                ({
                    let st = sweep_leavers(st1, ex, k as nat, snaps, agent, net, identities@);
                    &&& table.map() == st.store
                    &&& event_views(events@) == st.events
                    &&& write_views(writes@) == st.writes
                }),
                agent == self.agent(),
                net == opt_str(network_name),
            decreases existing.len() - k,
        {
            let device = &existing[k];
            let seen = contains_mac(snapshots, device.mac);
            proof {
                assert(ex[k as int] == device@);
            }
            if device.online && !seen {
                self.mark_left(&mut table, &mut events, &mut writes, identities, device, network_name);
                proof {
                    let st = sweep_leavers(st1, ex, k as nat, snaps, agent, net, identities@);
                    assert(event_views(events@) =~= leave_step(st, ex[k as int], snaps, agent, net, identities@).events);
                }
            }
            k += 1;
        }
        SweepOutcome { events, writes }
    }

    /// Marks offline every online device last seen more than `timeout_secs` seconds
    /// before `now`, reporting each as having left, in the order of `devices` (the
    /// store's device list).
    pub fn mark_stale_offline(
        &self,
        devices: &Vec<Device>,
        identities: &Vec<Identity>,
        timeout_secs: u64,
        network_name: Option<&str>,
        now: Timestamp,
    ) -> (out: SweepOutcome)
        ensures
            ({
                let r = mark_stale_spec(
                    self.agent(),
                    device_views(devices@),
                    identities@,
                    timeout_secs,
                    opt_str(network_name),
                    now,
                );
                &&& event_views(out.events@) == r.events
                &&& write_views(out.writes@) == r.writes
            }),
    {
        let ghost agent = self.agent();
        let ghost net = opt_str(network_name);
        let ghost ex = device_views(devices@);
        let mut table = DeviceTable::load(devices);
        let mut events: Vec<RegistryEvent> = Vec::new();
        let mut writes: Vec<StoreWrite> = Vec::new();
        let ghost st0 = SweepView { store: load_spec(ex), events: Seq::empty(), writes: Seq::empty() };
        proof {
            assert(event_views(events@) =~= Seq::<RegistryEventView>::empty());
            assert(write_views(writes@) =~= Seq::<StoreWriteView>::empty());
        }
        let limit = timeout_secs as i64;
        let mut k: usize = 0;
        while k < devices.len()
            invariant
                k <= devices.len(),
                ex == device_views(devices@),
                limit == timeout_secs as i64,
                table.wf(),
                ({
                    let st = stale_all(st0, ex, k as nat, timeout_secs, agent, net, identities@, now);
                    &&& table.map() == st.store
                    &&& event_views(events@) == st.events
                    &&& write_views(writes@) == st.writes
                }),
                agent == self.agent(),
                net == opt_str(network_name),
            decreases devices.len() - k,
        {
            let device = &devices[k];
            proof {
                assert(ex[k as int] == device@);
            }
            if device.online && elapsed_secs_exceed(now, device.last_seen, limit) {
                self.mark_left(&mut table, &mut events, &mut writes, identities, device, network_name);
                proof {
                    let st = stale_all(st0, ex, k as nat, timeout_secs, agent, net, identities@, now);
                    assert(event_views(events@) =~= stale_step(st, ex[k as int], timeout_secs, agent, net, identities@, now).events);
                }
            }
            k += 1;
        }
        SweepOutcome { events, writes }
    }
}

/// Whether some snapshot has MAC address `mac`.
fn contains_mac(snaps: &Vec<DeviceSnapshot>, mac: MacAddr) -> (r: bool)
    ensures
        r == seen_in(snapshot_views(snaps@), mac),
{
    let mut i: usize = 0;
    while i < snaps.len()
        invariant
            i <= snaps.len(),
            forall|k: int| 0 <= k < i ==> snaps@[k].mac != mac,
        decreases snaps.len() - i,
    {
        if snaps[i].mac == mac {
            proof {
                assert(snapshot_views(snaps@)[i as int].mac == mac);
            }
            return true;
        }
        i += 1;
    }
    proof {
        assert forall|k: int| 0 <= k < snaps.len() implies #[trigger] snapshot_views(snaps@)[k].mac != mac by {
            assert(snapshot_views(snaps@)[k] == snaps@[k]@);
        }
    }
    false
}

} // verus!
