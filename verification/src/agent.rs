//! The daemon's decisions: what a link change or a registry event is reported as,
//! when a discovery pass runs, and how a device is re-classified from its mDNS
//! services.
use vstd::prelude::*;
use crate::net::IpAddress;
use crate::model::{Device, DeviceView, DeviceSnapshot, EventKind, Timestamp, string_of, opt_view, display_name_spec, kind_label_spec, opt_str_view, clone_opt_string};
use crate::notify::{
    NotificationPayload, NotificationPayloadView, network_down_title, network_down_body, network_restored_title,
    network_restored_body, device_joined_body, device_left_body, network_down_title_spec, network_down_body_spec,
    network_restored_title_spec, network_restored_body_spec, device_joined_body_spec, device_left_body_spec,
};
use crate::registry::{RegistryEvent, RegistryEventView, DeviceRegistry, EventDraft, draft_spec, opt_str};
use crate::context::{LinkState, LinkStatus, link_changed};
use crate::classify::{ClassificationInput, DeviceClassifier, classify_spec, source_text, host_choice};
use crate::speedtest::SpeedTestContext;
use crate::text::{push_str, lowercase};

verus! {

// ---------------------------------------------------------------------------
// Link changes
// ---------------------------------------------------------------------------
/// The kind, title and body a link state is reported with: `Down` as the network
/// being down, `Up` as it being restored; `Unknown` is not reported.
pub open spec fn link_alert_spec(state: LinkState, net: Option<Seq<char>>, gateway: Option<IpAddress>) -> Option<
    (EventKind, Seq<char>, Seq<char>),
> {
    match state {
        LinkState::Down => Some(
            (EventKind::NetworkDown, network_down_title_spec(net), network_down_body_spec(gateway, net)),
        ),
        LinkState::Up => Some((EventKind::NetworkRestored, network_restored_title_spec(net), network_restored_body_spec(net))),
        LinkState::Unknown => None,
    }
}

/// A link change as a notification and an event-log record (whose message is the
/// notification's body).
pub struct LinkAlert {
    pub payload: NotificationPayload,
    pub record: EventDraft,
}

/// What the daemon reports when the link goes from `last` to `current`: nothing
/// unless the state changed from a known one to `Up` or `Down`; then a
/// notification stamped with the agent's and network's names, the gateway and
/// `now`, and a matching log record without a device.
pub fn handle_link_change(
    registry: &DeviceRegistry,
    last: LinkState,
    current: LinkState,
    network_name: Option<&str>,
    gateway: Option<IpAddress>,
    now: Timestamp,
) -> (r: Option<LinkAlert>)
    ensures
        match (if current != last && last != LinkState::Unknown {
            link_alert_spec(current, opt_str(network_name), gateway)
        } else {
            None
        }) {
            None => r is None,
            Some((kind, title, body)) => r matches Some(a) && a.payload@ == (NotificationPayloadView {
                agent_name: registry.agent(),
                network_name: opt_str(network_name),
                kind,
                title,
                body,
                timestamp: now,
                device_name: None,
                device_ip: None,
                gateway,
            }) && a.record@ == draft_spec(kind, registry.agent(), opt_str(network_name), None, body, None),
        },
{
    if !link_changed(last, current) {
        return None;
    }
    let (kind, title, body) = match current {
        LinkState::Down => (EventKind::NetworkDown, network_down_title(network_name), network_down_body(gateway, network_name)),
        LinkState::Up => (EventKind::NetworkRestored, network_restored_title(network_name), network_restored_body(network_name)),
        LinkState::Unknown => return None,
    };
    let payload = NotificationPayload {
        agent_name: string_of(registry.agent_name()),
        network_name: crate::model::opt_str_to_string(network_name),
        kind,
        title,
        body: body.clone(),
        timestamp: now,
        device_name: None,
        device_ip: None,
        gateway,
    };
    let record = registry.record_event(kind, network_name, None, body, None);
    Some(LinkAlert { payload, record })
}

// ---------------------------------------------------------------------------
// Registry events
// ---------------------------------------------------------------------------
/// The notification for a registry event: joins, returns and departures are
/// announced under the device's display name; IP changes are not announced.
pub open spec fn event_payload_spec(
    agent: Seq<char>,
    net: Option<Seq<char>>,
    evt: RegistryEventView,
    now: Timestamp,
) -> Option<NotificationPayloadView> {
    match evt {
        RegistryEventView::DeviceJoined { device, identity_name } => {
            let name = display_name_spec(device, identity_name);
            Some(
                NotificationPayloadView {
                    agent_name: agent,
                    network_name: net,
                    kind: EventKind::DeviceJoined,
                    title: name + " joined"@,
                    body: device_joined_body_spec(name, kind_label_spec(device.kind, device.os_hint), device.current_ip, net),
                    timestamp: now,
                    device_name: Some(name),
                    device_ip: device.current_ip,
                    gateway: None,
                },
            )
        },
        RegistryEventView::DeviceReturned { device, identity_name } => {
            let name = display_name_spec(device, identity_name);
            Some(
                NotificationPayloadView {
                    agent_name: agent,
                    network_name: net,
                    kind: EventKind::DeviceReturned,
                    title: name + " returned"@,
                    body: device_joined_body_spec(name, kind_label_spec(device.kind, device.os_hint), device.current_ip, net),
                    timestamp: now,
                    device_name: Some(name),
                    device_ip: device.current_ip,
                    gateway: None,
                },
            )
        },
        RegistryEventView::DeviceLeft { device, identity_name } => {
            let name = display_name_spec(device, identity_name);
            Some(
                NotificationPayloadView {
                    agent_name: agent,
                    network_name: net,
                    kind: EventKind::DeviceLeft,
                    title: name + " left"@,
                    body: device_left_body_spec(name, kind_label_spec(device.kind, device.os_hint), net),
                    timestamp: now,
                    device_name: Some(name),
                    device_ip: device.current_ip,
                    gateway: None,
                },
            )
        },
        RegistryEventView::IpChanged { .. } => None,
    }
}

fn as_opt_str(o: &Option<String>) -> (r: Option<&str>)
    ensures
        opt_str_view(r) == opt_view(*o),
{
    match o {
        Some(s) => Some(s.as_str()),
        None => None,
    }
}

fn device_payload(
    agent: &str,
    network_name: Option<&str>,
    device: &Device,
    identity_name: &Option<String>,
    kind: EventKind,
    verb: &str,
    now: Timestamp,
) -> (r: NotificationPayload)
    ensures
        ({
            let name = display_name_spec(device@, opt_view(*identity_name));
            let label = kind_label_spec(device.kind, device.os_hint);
            r@ == NotificationPayloadView {
                agent_name: agent@,
                network_name: opt_str(network_name),
                kind,
                title: name + verb@,
                body: if kind == EventKind::DeviceLeft {
                    device_left_body_spec(name, label, opt_str(network_name))
                } else {
                    device_joined_body_spec(name, label, device.current_ip, opt_str(network_name))
                },
                timestamp: now,
                device_name: Some(name),
                device_ip: device.current_ip,
                gateway: None,
            }
        }),
{
    let name = device.display_name(as_opt_str(identity_name));
    let label = device.kind_label();
    let body = if kind == EventKind::DeviceLeft {
        device_left_body(name.as_str(), label.as_str(), network_name)
    } else {
        device_joined_body(name.as_str(), label.as_str(), device.current_ip, network_name)
    };
    let mut title = name.clone();
    push_str(&mut title, verb);
    NotificationPayload {
        agent_name: string_of(agent),
        network_name: crate::model::opt_str_to_string(network_name),
        kind,
        title,
        body,
        timestamp: now,
        device_name: Some(name),
        device_ip: device.current_ip,
        gateway: None,
    }
}

/// The notification the daemon sends for a registry event, stamped with the
/// agent's name, the current network name and `now`.
pub fn registry_event_payload(
    agent_name: &str,
    network_name: Option<&str>,
    evt: &RegistryEvent,
    now: Timestamp,
) -> (r: Option<NotificationPayload>)
    ensures
        match event_payload_spec(agent_name@, opt_str(network_name), evt@, now) {
            Some(p) => r matches Some(x) && x@ == p,
            None => r is None,
        },
{
    match evt {
        RegistryEvent::DeviceJoined { device, identity_name } => Some(
            device_payload(agent_name, network_name, device, identity_name, EventKind::DeviceJoined, " joined", now),
        ),
        RegistryEvent::DeviceReturned { device, identity_name } => Some(
            device_payload(agent_name, network_name, device, identity_name, EventKind::DeviceReturned, " returned", now),
        ),
        RegistryEvent::DeviceLeft { device, identity_name } => Some(
            device_payload(agent_name, network_name, device, identity_name, EventKind::DeviceLeft, " left", now),
        ),
        RegistryEvent::IpChanged { .. } => None,
    }
}

// ---------------------------------------------------------------------------
// The scan cycle
// ---------------------------------------------------------------------------
/// What a scan cycle does given the last and the current link state: report a
/// change (see `handle_link_change`), and run discovery unless the link is down.
pub struct CyclePlan {
    pub report_change: bool,
    pub discover: bool,
}

pub fn plan_scan_cycle(last: LinkState, current: LinkState) -> (r: CyclePlan)
    ensures
        r.report_change == (current != last && last != LinkState::Unknown),
        r.discover == (current != LinkState::Down),
{
    CyclePlan { report_change: link_changed(last, current), discover: current != LinkState::Down }
}

/// The context speed tests are stamped with during a cycle; the network counts as
/// up only when the link is.
pub fn cycle_speedtest_context(agent_name: &str, network_name: &Option<String>, interface: &str, link: &LinkStatus) -> (r: SpeedTestContext)
    ensures
        r.agent_name@ == agent_name@,
        opt_view(r.network_name) == opt_view(*network_name),
        r.interface@ == interface@,
        r.network_up == (link.state == LinkState::Up),
{
    SpeedTestContext {
        agent_name: string_of(agent_name),
        network_name: clone_opt_string(network_name),
        interface: string_of(interface),
        network_up: link.state == LinkState::Up,
    }
}

/// A stored device re-classified from the mDNS services its host advertises: the
/// classifier reads the discovered MAC, vendor and host name, the stored open
/// ports, the services, and whether the discovered IP is the gateway's; the
/// device keeps everything else and takes the services, the kind, the OS hint, the
/// confidence and the signal names.
pub open spec fn reclassified(stored: DeviceView, snap: crate::model::DeviceSnapshotView, services: Seq<Seq<char>>, gateway: Option<IpAddress>) -> DeviceView {
    let t = classify_spec(
        gateway == snap.ip,
        match snap.vendor {
            Some(v) => Some(lowercase(v)),
            None => None,
        },
        services.map_values(|s: Seq<char>| lowercase(s)),
        stored.open_ports,
        lowercase(host_choice(snap.hostname, None)),
    );
    DeviceView {
        mdns_services: services,
        kind: t.kind,
        os_hint: t.os,
        confidence_permille: t.conf as u16,
        inference_source: Some(source_text(t)),
        ..stored
    }
}

pub fn reclassify(stored: &Device, snapshot: &DeviceSnapshot, services: &Vec<String>, gateway: Option<IpAddress>) -> (r: Device)
    ensures
        r@ == reclassified(stored@, snapshot@, services@.map_values(|s: String| s@), gateway),
{
    let input = ClassificationInput {
        mac: snapshot.mac,
        vendor: clone_opt_string(&snapshot.vendor),
        hostname: clone_opt_string(&snapshot.hostname),
        open_ports: crate::model::clone_ports(&stored.open_ports),
        mdns_services: crate::model::clone_strings(services),
        dhcp_hostname: None,
        is_gateway: gateway == snapshot.ip,
    };
    let c = DeviceClassifier::classify(&input);
    let mut d = stored.duplicate();
    d.mdns_services = crate::model::clone_strings(services);
    d.kind = c.kind;
    d.os_hint = c.os_hint;
    d.confidence_permille = c.confidence_permille;
    d.inference_source = Some(c.inference_source);
    proof {
        assert(input.mdns_services@.map_values(|s: String| lowercase(s@)) =~= services@.map_values(
            |s: String| s@,
        ).map_values(|s: Seq<char>| lowercase(s)));
    }
    d
}

/// A device tagged with a household member and without a label of its own is
/// announced under the member's name when it joins, returns or leaves: the
/// notification's device name is that name, its title starts with it, and it
/// carries the agent's name.
pub proof fn law_identity_named_in_notifications(
    agent: Seq<char>,
    net: Option<Seq<char>>,
    device: DeviceView,
    name: Seq<char>,
    now: Timestamp,
)
    requires
        device.user_label is None,
    ensures
        ({
            let joined = event_payload_spec(agent, net, RegistryEventView::DeviceJoined { device, identity_name: Some(name) }, now);
            let returned = event_payload_spec(agent, net, RegistryEventView::DeviceReturned { device, identity_name: Some(name) }, now);
            let left = event_payload_spec(agent, net, RegistryEventView::DeviceLeft { device, identity_name: Some(name) }, now);
            &&& joined is Some && returned is Some && left is Some
            &&& joined->0.device_name == Some(name) && joined->0.title.subrange(0, name.len() as int) == name
            &&& returned->0.device_name == Some(name) && returned->0.title.subrange(0, name.len() as int) == name
            &&& left->0.device_name == Some(name) && left->0.title.subrange(0, name.len() as int) == name
            &&& joined->0.agent_name == agent && returned->0.agent_name == agent && left->0.agent_name == agent
        }),
{
    let j = event_payload_spec(agent, net, RegistryEventView::DeviceJoined { device, identity_name: Some(name) }, now);
    let r = event_payload_spec(agent, net, RegistryEventView::DeviceReturned { device, identity_name: Some(name) }, now);
    let l = event_payload_spec(agent, net, RegistryEventView::DeviceLeft { device, identity_name: Some(name) }, now);
    assert(j->0.title.subrange(0, name.len() as int) =~= name);
    assert(r->0.title.subrange(0, name.len() as int) =~= name);
    assert(l->0.title.subrange(0, name.len() as int) =~= name);
}

} // verus!
