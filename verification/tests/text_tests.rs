use network_monitor::ipparse::parse_ip;
use network_monitor::ipv6::ipv6_to_string;
use network_monitor::model::{parse_event_kind, parse_kind, parse_os, Device, DeviceKind, EventKind, OsHint, Timestamp};
use network_monitor::net::{ipv4_to_string, parse_ipv4, parse_mac, IpAddress, Ipv4Net, MacAddr};
use network_monitor::text::{split_whitespace, trim_str, u64_to_string};

fn device() -> Device {
    Device {
        mac: MacAddr(0xde, 0xad, 0xbe, 0xef, 0x00, 0x01),
        current_ip: None,
        hostname: None,
        vendor: None,
        kind: DeviceKind::Unknown,
        os_hint: OsHint::Unknown,
        identity_id: None,
        user_label: None,
        first_seen: Timestamp { secs: 0, nanos: 0 },
        last_seen: Timestamp { secs: 0, nanos: 0 },
        online: true,
        open_ports: vec![],
        mdns_services: vec![],
        confidence_permille: 0,
        inference_source: None,
        do_not_scan: false,
    }
}

#[test]
fn display_name_precedence() {
    let mut d = device();
    assert_eq!(d.display_name(None), "DE:AD:BE:EF:00:01");
    d.vendor = Some("Acme".into());
    assert_eq!(d.display_name(None), "Acme device");
    d.hostname = Some("printer".into());
    assert_eq!(d.display_name(None), "printer");
    assert_eq!(d.display_name(Some("Alice")), "Alice");
    d.user_label = Some("Office printer".into());
    assert_eq!(d.display_name(Some("Alice")), "Office printer");
}

#[test]
fn kind_labels() {
    let mut d = device();
    assert_eq!(d.kind_label(), "device");
    d.kind = DeviceKind::Mobile;
    d.os_hint = OsHint::Android;
    assert_eq!(d.kind_label(), "Android phone");
    d.os_hint = OsHint::Windows;
    assert_eq!(d.kind_label(), "mobile device");
    d.kind = DeviceKind::Desktop;
    assert_eq!(d.kind_label(), "Windows PC");
    d.kind = DeviceKind::IoT;
    assert_eq!(d.kind_label(), "IoT device");
}

#[test]
fn stored_names_read_leniently() {
    assert_eq!(parse_kind("router"), DeviceKind::Router);
    assert_eq!(parse_kind("Router"), DeviceKind::Unknown);
    assert_eq!(parse_os("ios"), OsHint::Ios);
    assert_eq!(parse_os("?"), OsHint::Unknown);
    assert_eq!(parse_event_kind("device_left"), EventKind::DeviceLeft);
    assert_eq!(parse_event_kind("other"), EventKind::DeviceJoined);
    assert_eq!(DeviceKind::IoT.to_text(), "iot");
    assert_eq!(parse_kind(&DeviceKind::Desktop.to_text()), DeviceKind::Desktop);
    assert_eq!(EventKind::SpeedTestCompleted.to_text(), "speed_test_completed");
}

#[test]
fn addresses_as_text() {
    assert_eq!(ipv4_to_string(parse_ipv4("10.0.200.7").unwrap()), "10.0.200.7");
    assert_eq!(parse_ipv4("256.1.1.1"), None);
    assert_eq!(parse_ipv4("1.2.3"), None);
    assert_eq!(parse_ipv4("01.2.3.4"), None);
    assert_eq!(ipv6_to_string(0), "::");
    assert_eq!(ipv6_to_string(0x2001_0db8_0000_0000_0000_0000_0000_0001), "2001:db8::1");
    assert_eq!(ipv6_to_string(0x0000_0000_0000_0000_0000_ffff_c0a8_0101), "::ffff:192.168.1.1");
    assert_eq!(IpAddress::V4(0x7f000001).to_text(), "127.0.0.1");
    assert_eq!(MacAddr(0x0a, 0x1b, 0, 0, 0, 0xff).to_text(), "0A:1B:00:00:00:FF");
    assert_eq!(parse_mac("0a1b000000ff"), Some(MacAddr(0x0a, 0x1b, 0, 0, 0, 0xff)));
    assert_eq!(parse_mac("0a:1b"), None);
}

#[test]
fn subnets() {
    let n = Ipv4Net::new(parse_ipv4("192.168.1.77").unwrap(), 24).unwrap();
    assert_eq!(n.network(), parse_ipv4("192.168.1.0").unwrap());
    assert_eq!(n.broadcast(), parse_ipv4("192.168.1.255").unwrap());
    assert!(n.contains(parse_ipv4("192.168.1.200").unwrap()));
    assert!(!n.contains(parse_ipv4("192.168.2.1").unwrap()));
    assert!(Ipv4Net::new(1, 33).is_none());
}

#[test]
fn text_helpers() {
    assert_eq!(trim_str("\t hi there \n"), "hi there");
    assert_eq!(split_whitespace(" a  b\tc "), vec!["a".to_string(), "b".to_string(), "c".to_string()]);
    assert_eq!(u64_to_string(0), "0");
    assert_eq!(u64_to_string(18_446_744_073_709_551_615), "18446744073709551615");
}

#[test]
fn stored_names_round_trip() {
    for k in [DeviceKind::Router, DeviceKind::Mobile, DeviceKind::Desktop, DeviceKind::IoT, DeviceKind::Unknown] {
        assert_eq!(parse_kind(&k.to_text()), k);
    }
    for o in [OsHint::Android, OsHint::Ios, OsHint::Linux, OsHint::MacOS, OsHint::Windows, OsHint::Unknown] {
        assert_eq!(parse_os(&o.to_text()), o);
    }
    for e in [
        EventKind::NetworkDown,
        EventKind::NetworkRestored,
        EventKind::DeviceJoined,
        EventKind::DeviceLeft,
        EventKind::DeviceReturned,
        EventKind::IpChanged,
        EventKind::KindRefined,
        EventKind::SpeedTestCompleted,
    ] {
        assert_eq!(parse_event_kind(&e.to_text()), e);
    }
}

#[test]
fn ip_text_parses() {
    assert_eq!(parse_ip("192.168.1.20"), Some(IpAddress::V4(0xC0A8_0114)));
    assert_eq!(parse_ip("0.0.0.0"), Some(IpAddress::V4(0)));
    assert_eq!(parse_ip("255.255.255.255"), Some(IpAddress::V4(0xFFFF_FFFF)));
    assert_eq!(parse_ip("::"), Some(IpAddress::V6(0)));
    assert_eq!(parse_ip("::1"), Some(IpAddress::V6(1)));
    assert_eq!(parse_ip("fe80::1:2"), Some(IpAddress::V6(0xfe80_0000_0000_0000_0000_0000_0001_0002)));
    assert_eq!(parse_ip("1:2:3:4:5:6:7:8"), Some(IpAddress::V6(0x0001_0002_0003_0004_0005_0006_0007_0008)));
    assert_eq!(parse_ip("::ffff:192.0.2.1"), Some(IpAddress::V6(0xffff_c000_0201)));
    assert_eq!(parse_ip("64:ff9b::10.0.0.1"), Some(IpAddress::V6(0x0064_ff9b_0000_0000_0000_0000_0a00_0001)));
    assert_eq!(parse_ip("ABCD::Ef"), Some(IpAddress::V6(0xabcd_0000_0000_0000_0000_0000_0000_00ef)));
}

#[test]
fn ip_text_rejected() {
    for bad in [
        "", "1.2.3", "1.2.3.4.5", "256.0.0.1", "01.2.3.4", "1.2.3.4 ", " 1.2.3.4", "1..2.3",
        ":::", "1:2:3:4:5:6:7:8:9", "1::2::3", "12345::", "::ffff:1.2.3", "1.2.3.4::", "g::1",
        "1:2:3:4:5:6:7::8", "::1.2.3.4:5",
    ] {
        assert_eq!(parse_ip(bad), None, "{bad}");
    }
}

#[test]
fn displayed_addresses_read_back() {
    for a in [0u32, 1, 0x0A00_0001, 0xC0A8_0101, 0x7F00_0001, 0xFFFF_FFFF, 0x0102_0304] {
        let ip = IpAddress::V4(a);
        assert_eq!(parse_ip(&ip.to_text()), Some(ip));
    }
    for a in [0u128, 1, 0xfe80_0000_0000_0000_0000_0000_0000_0001, 0xffff_c0a8_0001, 0x2001_0db8_0000_0000_0001_0000_0000_0001] {
        let ip = IpAddress::V6(a);
        assert_eq!(parse_ip(&ip.to_text()), Some(ip));
    }
}
