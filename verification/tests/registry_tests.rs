use network_monitor::agent::{handle_link_change, plan_scan_cycle, reclassify, registry_event_payload};
use network_monitor::context::LinkState;
use network_monitor::model::{Device, DeviceKind, DeviceSnapshot, EventKind, Identity, OsHint, Timestamp};
use network_monitor::net::{parse_ipv4, IpAddress, MacAddr};
use network_monitor::registry::{DeviceRegistry, RegistryEvent, StoreWrite};

fn t(secs: i64) -> Timestamp {
    Timestamp { secs, nanos: 0 }
}

fn snap(m: u8, ip: &str) -> DeviceSnapshot {
    DeviceSnapshot {
        mac: MacAddr(2, 0, 0, 0, 0, m),
        ip: Some(IpAddress::V4(parse_ipv4(ip).unwrap())),
        hostname: None,
        vendor: None,
    }
}

/// Applies a pass's store writes to a device list, as the store would.
fn apply(devices: &mut Vec<Device>, writes: &[StoreWrite]) {
    for w in writes {
        if let StoreWrite::Upsert(d) = w {
            match devices.iter().position(|x| x.mac == d.mac) {
                Some(i) => {
                    let first = devices[i].first_seen;
                    let mut n = d.duplicate();
                    n.first_seen = first;
                    devices[i] = n;
                }
                None => devices.push(d.duplicate()),
            }
        }
    }
}

#[test]
fn new_device_joins_then_stays_quiet() {
    let reg = DeviceRegistry::new("Home Pi".into());
    let mut devices: Vec<Device> = Vec::new();
    let ids: Vec<Identity> = Vec::new();
    let out = reg.process_sweep(&devices, &ids, &vec![snap(1, "192.168.1.20")], Some("HomeWiFi"), t(100));
    assert_eq!(out.events.len(), 1);
    assert!(matches!(out.events[0], RegistryEvent::DeviceJoined { .. }));
    apply(&mut devices, &out.writes);
    assert_eq!(devices.len(), 1);
    assert!(devices[0].online);
    let again = reg.process_sweep(&devices, &ids, &vec![snap(1, "192.168.1.20")], Some("HomeWiFi"), t(160));
    assert!(again.events.is_empty());
}

#[test]
fn missing_device_leaves_and_returns() {
    let reg = DeviceRegistry::new("Home Pi".into());
    let mut devices: Vec<Device> = Vec::new();
    let ids: Vec<Identity> = Vec::new();
    let out = reg.process_sweep(&devices, &ids, &vec![snap(1, "192.168.1.20")], None, t(100));
    apply(&mut devices, &out.writes);
    let gone = reg.process_sweep(&devices, &ids, &vec![], None, t(200));
    assert_eq!(gone.events.len(), 1);
    assert!(matches!(gone.events[0], RegistryEvent::DeviceLeft { .. }));
    apply(&mut devices, &gone.writes);
    assert!(!devices[0].online);
    let back = reg.process_sweep(&devices, &ids, &vec![snap(1, "192.168.1.20")], None, t(300));
    assert_eq!(back.events.len(), 1);
    assert!(matches!(back.events[0], RegistryEvent::DeviceReturned { .. }));
}

#[test]
fn ip_change_reported_with_message() {
    let reg = DeviceRegistry::new("Home Pi".into());
    let mut devices: Vec<Device> = Vec::new();
    let ids: Vec<Identity> = Vec::new();
    let out = reg.process_sweep(&devices, &ids, &vec![snap(1, "192.168.1.20")], None, t(100));
    apply(&mut devices, &out.writes);
    let moved = reg.process_sweep(&devices, &ids, &vec![snap(1, "192.168.1.21")], None, t(200));
    assert_eq!(moved.events.len(), 1);
    assert!(matches!(moved.events[0], RegistryEvent::IpChanged { .. }));
    let messages: Vec<String> = moved
        .writes
        .iter()
        .filter_map(|w| match w {
            StoreWrite::Record(e) => Some(e.message.clone()),
            _ => None,
        })
        .collect();
    assert_eq!(messages, vec!["IP changed from 192.168.1.20 to 192.168.1.21".to_string()]);
}

#[test]
fn join_record_names_mac_and_agent() {
    let reg = DeviceRegistry::new("Attic".into());
    let out = reg.process_sweep(&Vec::new(), &Vec::new(), &vec![snap(0xab, "10.0.0.2")], Some("Net"), t(5));
    let rec = out
        .writes
        .iter()
        .find_map(|w| match w {
            StoreWrite::Record(e) => Some(e),
            _ => None,
        })
        .unwrap();
    assert_eq!(rec.message, "02:00:00:00:00:AB joined");
    assert_eq!(rec.agent_name, "Attic");
    assert_eq!(rec.network_name.as_deref(), Some("Net"));
    assert_eq!(rec.kind, EventKind::DeviceJoined);
}

#[test]
fn stale_devices_go_offline() {
    let reg = DeviceRegistry::new("Home".into());
    let mut devices: Vec<Device> = Vec::new();
    let ids: Vec<Identity> = Vec::new();
    let out = reg.process_sweep(&devices, &ids, &vec![snap(1, "192.168.1.20")], None, t(100));
    apply(&mut devices, &out.writes);
    let fresh = reg.mark_stale_offline(&devices, &ids, 180, None, t(280));
    assert!(fresh.events.is_empty());
    let stale = reg.mark_stale_offline(&devices, &ids, 180, None, t(281));
    assert_eq!(stale.events.len(), 1);
    assert!(matches!(stale.events[0], RegistryEvent::DeviceLeft { .. }));
}

#[test]
fn identity_names_join_notification() {
    let reg = DeviceRegistry::new("Home Pi".into());
    let mut devices: Vec<Device> = Vec::new();
    let ids = vec![Identity { id: 7, display_name: "Alice".into(), notes: None, created_at: t(0) }];
    let out = reg.process_sweep(&devices, &ids, &vec![snap(1, "192.168.1.20")], Some("Home"), t(100));
    apply(&mut devices, &out.writes);
    devices[0].identity_id = Some(7);
    devices[0].kind = DeviceKind::Mobile;
    devices[0].os_hint = OsHint::Ios;
    let gone = reg.process_sweep(&devices, &ids, &vec![], Some("Home"), t(200));
    apply(&mut devices, &gone.writes);
    let back = reg.process_sweep(&devices, &ids, &vec![snap(1, "192.168.1.20")], Some("Home"), t(300));
    let p = registry_event_payload("Home Pi", Some("Home"), &back.events[0], t(300)).unwrap();
    assert_eq!(p.title, "Alice returned");
    assert_eq!(p.body, "Alice's iPhone, 192.168.1.20 joined \"Home\"");
    assert_eq!(p.kind, EventKind::DeviceReturned);
    assert_eq!(p.device_name.as_deref(), Some("Alice"));
    let left = registry_event_payload("Home Pi", None, &gone.events[0], t(200)).unwrap();
    assert_eq!(left.title, "Alice left");
    assert_eq!(left.body, "Alice's iPhone left the network");
}

#[test]
fn ip_changes_are_not_notified() {
    let reg = DeviceRegistry::new("Home Pi".into());
    let mut devices: Vec<Device> = Vec::new();
    let out = reg.process_sweep(&devices, &Vec::new(), &vec![snap(1, "192.168.1.20")], None, t(100));
    apply(&mut devices, &out.writes);
    let moved = reg.process_sweep(&devices, &Vec::new(), &vec![snap(1, "192.168.1.21")], None, t(200));
    assert!(registry_event_payload("Home Pi", None, &moved.events[0], t(200)).is_none());
}

#[test]
fn link_change_alerts() {
    let reg = DeviceRegistry::new("Home Pi".into());
    let gw = Some(IpAddress::V4(parse_ipv4("192.168.1.1").unwrap()));
    assert!(handle_link_change(&reg, LinkState::Unknown, LinkState::Down, None, gw, t(1)).is_none());
    assert!(handle_link_change(&reg, LinkState::Up, LinkState::Up, None, gw, t(1)).is_none());
    let down = handle_link_change(&reg, LinkState::Up, LinkState::Down, Some("HomeWiFi"), gw, t(1)).unwrap();
    assert_eq!(down.payload.title, "\"HomeWiFi\" is down");
    assert_eq!(down.payload.body, "WiFi \"HomeWiFi\" — gateway 192.168.1.1 unreachable");
    assert_eq!(down.payload.kind, EventKind::NetworkDown);
    assert_eq!(down.record.message, down.payload.body);
    assert_eq!(down.record.agent_name, "Home Pi");
    let up = handle_link_change(&reg, LinkState::Down, LinkState::Up, None, gw, t(2)).unwrap();
    assert_eq!(up.payload.title, "Network restored");
    assert_eq!(up.payload.kind, EventKind::NetworkRestored);
}

#[test]
fn scan_cycle_plan() {
    let p = plan_scan_cycle(LinkState::Up, LinkState::Down);
    assert!(p.report_change);
    assert!(!p.discover);
    let q = plan_scan_cycle(LinkState::Unknown, LinkState::Up);
    assert!(!q.report_change);
    assert!(q.discover);
}

#[test]
fn reclassify_from_services() {
    let reg = DeviceRegistry::new("Home".into());
    let out = reg.process_sweep(&Vec::new(), &Vec::new(), &vec![snap(1, "192.168.1.30")], None, t(1));
    let mut devices: Vec<Device> = Vec::new();
    apply(&mut devices, &out.writes);
    let mut s = snap(1, "192.168.1.30");
    s.hostname = Some("living-room".into());
    let d = reclassify(&devices[0], &s, &vec!["Living Room._airplay._tcp.local.".to_string()], None);
    assert_eq!(d.kind, DeviceKind::Mobile);
    assert_eq!(d.os_hint, OsHint::Ios);
    assert_eq!(d.confidence_permille, 850);
    assert_eq!(d.inference_source.as_deref(), Some("mdns_airplay"));
    assert_eq!(d.mdns_services, vec!["Living Room._airplay._tcp.local.".to_string()]);
}

#[test]
fn first_pass_reports_each_device_joined_in_order() {
    let reg = DeviceRegistry::new("Home".into());
    let snaps = vec![snap(3, "192.168.1.3"), snap(1, "192.168.1.1"), snap(2, "192.168.1.2")];
    let out = reg.process_sweep(&Vec::new(), &Vec::new(), &snaps, None, t(10));
    assert_eq!(out.events.len(), 3);
    for (i, e) in out.events.iter().enumerate() {
        match e {
            RegistryEvent::DeviceJoined { device, identity_name } => {
                assert_eq!(device.mac, snaps[i].mac);
                assert_eq!(device.first_seen, t(10));
                assert_eq!(device.last_seen, t(10));
                assert!(identity_name.is_none());
            }
            _ => panic!("expected joins only"),
        }
    }
}
