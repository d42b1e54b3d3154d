use network_monitor::model::{DeviceKind, EventKind, OsHint, Timestamp};
use network_monitor::net::{IpAddress, MacAddr};
use network_monitor::registry::DeviceRegistry;
use network_monitor::store::{
    device_from_row, event_from_row, identity_from_row, update_device_label, DeviceRow, EventRecord, EventRow,
    IdentityRow, StoreError,
};

fn now() -> Timestamp {
    Timestamp { secs: 42, nanos: 7 }
}

fn row() -> DeviceRow {
    DeviceRow {
        mac: "AA:BB:CC:DD:EE:01".into(),
        current_ip: Some("10.0.0.2".into()),
        hostname: Some("pi".into()),
        vendor: None,
        kind: "desktop".into(),
        os_hint: "linux".into(),
        identity_id: Some("67e55044-10b1-426f-9247-bb680e5fe0c8".into()),
        user_label: None,
        first_seen: "2024-01-01T00:00:00+00:00".into(),
        last_seen: "garbage".into(),
        online: 1,
        open_ports: "[22,80]".into(),
        mdns_services: "[\"pi._ssh._tcp.local.\"]".into(),
        confidence_permille: 550,
        inference_source: Some("port_22".into()),
        do_not_scan: 0,
    }
}

#[test]
fn device_rows_read_back() {
    let d = device_from_row(&row(), now());
    assert_eq!(d.mac, MacAddr(0xaa, 0xbb, 0xcc, 0xdd, 0xee, 0x01));
    assert_eq!(d.kind, DeviceKind::Desktop);
    assert_eq!(d.os_hint, OsHint::Linux);
    assert_eq!(d.current_ip, Some(IpAddress::V4(0x0A00_0002)));
    assert_eq!(d.identity_id, Some(0x67e55044_10b1_426f_9247_bb680e5fe0c8));
    assert_eq!(d.first_seen, Timestamp { secs: 1_704_067_200, nanos: 0 });
    assert_eq!(d.last_seen, now());
    assert!(d.online);
    assert_eq!(d.open_ports, vec![22, 80]);
    assert_eq!(d.mdns_services, vec!["pi._ssh._tcp.local.".to_string()]);
    assert!(!d.do_not_scan);
}

#[test]
fn unreadable_columns_fall_back() {
    let mut r = row();
    r.mac = "nonsense".into();
    r.kind = "toaster".into();
    r.os_hint = "plan9".into();
    r.identity_id = Some("not-a-uuid".into());
    r.open_ports = "oops".into();
    r.mdns_services = "{}".into();
    r.current_ip = Some("10.0.0".into());
    let d = device_from_row(&r, now());
    assert_eq!(d.current_ip, None);
    assert_eq!(d.mac, MacAddr(0, 0, 0, 0, 0, 0));
    assert_eq!(d.kind, DeviceKind::Unknown);
    assert_eq!(d.os_hint, OsHint::Unknown);
    assert_eq!(d.identity_id, None);
    assert!(d.open_ports.is_empty());
    assert!(d.mdns_services.is_empty());
}

#[test]
fn identity_and_event_rows() {
    let i = identity_from_row(
        &IdentityRow { id: "bad".into(), display_name: "Alice".into(), notes: None, created_at: "x".into() },
        now(),
    );
    assert_eq!(i.id, 0);
    assert_eq!(i.display_name, "Alice");
    assert_eq!(i.created_at, now());
    let e = event_from_row(
        &EventRow {
            id: "00000000-0000-0000-0000-000000000001".into(),
            kind: "ip_changed".into(),
            timestamp: "2024-01-01T00:00:00Z".into(),
            agent_name: "Home".into(),
            network_name: None,
            device_mac: Some("aa:bb:cc:dd:ee:ff".into()),
            device_ip: Some("2001:db8::7".into()),
            message: "IP changed".into(),
            details: Some("not json".into()),
        },
        now(),
    );
    assert_eq!(e.id, 1);
    assert_eq!(e.kind, EventKind::IpChanged);
    assert_eq!(e.device_mac, Some(MacAddr(0xaa, 0xbb, 0xcc, 0xdd, 0xee, 0xff)));
    assert_eq!(e.device_ip, Some(IpAddress::V6(0x2001_0db8_0000_0000_0000_0000_0000_0007)));
    assert_eq!(e.details, None);
    let odd = event_from_row(
        &EventRow {
            id: "x".into(),
            kind: "weird".into(),
            timestamp: "x".into(),
            agent_name: "Home".into(),
            network_name: None,
            device_mac: None,
            device_ip: None,
            message: String::new(),
            details: Some("{\"a\":1}".into()),
        },
        now(),
    );
    assert_eq!(odd.kind, EventKind::DeviceJoined);
    assert_eq!(odd.details.as_deref(), Some("{\"a\":1}"));
}

#[test]
fn label_update_applies_changes() {
    let d = device_from_row(&row(), now());
    let mac = d.mac;
    let u = match update_device_label(Some(d), mac, Some("Office Pi".into()), None, Some(DeviceKind::IoT), None, Some(true)) {
        Ok(u) => u,
        Err(_) => panic!("device exists"),
    };
    assert_eq!(u.user_label.as_deref(), Some("Office Pi"));
    assert_eq!(u.kind, DeviceKind::IoT);
    assert_eq!(u.os_hint, OsHint::Linux);
    assert!(u.do_not_scan);
    match update_device_label(None, mac, None, None, None, None, None) {
        Err(StoreError::NotFound(m)) => assert_eq!(m, "AA:BB:CC:DD:EE:01"),
        _ => panic!("expected not found"),
    }
}

#[test]
fn records_stamp_drafts() {
    let reg = DeviceRegistry::new("Home".into());
    let draft = reg.record_event(EventKind::NetworkDown, Some("Net"), None, "link unreachable".into(), None);
    let rec = EventRecord::from_draft(draft, 99, now());
    assert_eq!(rec.id, 99);
    assert_eq!(rec.timestamp, now());
    assert_eq!(rec.agent_name, "Home");
    assert_eq!(rec.message, "link unreachable");
    assert_eq!(rec.device_mac, None);
}
