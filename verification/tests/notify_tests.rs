use chrono::Utc;
use network_monitor::model::{EventKind, Timestamp};
use network_monitor::net::{parse_ipv4, IpAddress};
use network_monitor::notify::{
    device_joined_body, device_left_body, format_notification, network_down_body, network_down_title,
    network_restored_body, network_restored_title, NotificationPayload,
};

fn now() -> Timestamp {
    let t = Utc::now();
    Timestamp { secs: t.timestamp(), nanos: t.timestamp_subsec_nanos() }
}

#[test]
fn network_down_omits_ssid_when_unknown() {
    assert_eq!(network_down_title(None), "Network is down");
    assert_eq!(
        network_down_body(Some(IpAddress::V4(parse_ipv4("192.168.1.1").unwrap())), None),
        "gateway 192.168.1.1 unreachable"
    );
}

#[test]
fn network_down_includes_ssid_when_known() {
    assert_eq!(network_down_title(Some("HomeWiFi")), "\"HomeWiFi\" is down");
}

#[test]
fn agent_prefix_in_notification() {
    let payload = NotificationPayload {
        agent_name: "Home Pi".into(),
        network_name: Some("HomeWiFi".into()),
        kind: EventKind::NetworkRestored,
        title: network_restored_title(Some("HomeWiFi")),
        body: network_restored_body(Some("HomeWiFi")),
        timestamp: now(),
        device_name: None,
        device_ip: None,
        gateway: None,
    };
    let (title, _) = format_notification(&payload);
    assert!(title.starts_with("[Home Pi]"));
}

#[test]
fn formatted_title_and_body() {
    let payload = NotificationPayload {
        agent_name: "Attic".into(),
        network_name: None,
        kind: EventKind::NetworkDown,
        title: "Network is down".into(),
        body: "link unreachable".into(),
        timestamp: Timestamp { secs: 0, nanos: 0 },
        device_name: None,
        device_ip: None,
        gateway: None,
    };
    let (title, body) = format_notification(&payload);
    assert_eq!(title, "[Attic] Network is down");
    assert_eq!(body, "link unreachable");
}

#[test]
fn network_down_body_variants() {
    assert_eq!(network_down_body(None, None), "link unreachable");
    assert_eq!(
        network_down_body(Some(IpAddress::V4(parse_ipv4("10.0.0.1").unwrap())), Some("Cafe")),
        "WiFi \"Cafe\" — gateway 10.0.0.1 unreachable"
    );
    assert_eq!(network_down_body(None, Some("Cafe")), "WiFi \"Cafe\" — link unreachable");
}

#[test]
fn network_restored_texts() {
    assert_eq!(network_restored_title(None), "Network restored");
    assert_eq!(network_restored_title(Some("Home")), "\"Home\" restored");
    assert_eq!(network_restored_body(None), "Network connectivity restored");
    assert_eq!(network_restored_body(Some("Home")), "WiFi \"Home\" is back online");
}

#[test]
fn device_bodies() {
    let ip = Some(IpAddress::V4(parse_ipv4("192.168.1.23").unwrap()));
    assert_eq!(
        device_joined_body("Alice", "iPhone", ip, Some("Home")),
        "Alice's iPhone, 192.168.1.23 joined \"Home\""
    );
    assert_eq!(device_joined_body("Alice", "iPhone", None, None), "Alice's iPhone joined the network");
    assert_eq!(device_left_body("Bob", "Mac", Some("Home")), "Bob's Mac left \"Home\"");
    assert_eq!(device_left_body("Bob", "Mac", None), "Bob's Mac left the network");
}

#[test]
fn ipv6_address_in_body() {
    let ip = Some(IpAddress::V6(1));
    assert_eq!(device_joined_body("Pi", "device", ip, None), "Pi's device, ::1 joined the network");
}
