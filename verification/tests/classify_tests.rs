use network_monitor::classify::{ClassificationInput, DeviceClassifier};
use network_monitor::model::{DeviceKind, OsHint};
use network_monitor::net::parse_mac;

#[test]
fn classifies_apple_oui_as_ios() {
    let mac = parse_mac("AC:DE:48:00:11:22").unwrap();
    let result = DeviceClassifier::classify(&ClassificationInput {
        mac,
        vendor: Some("Apple".into()),
        ..Default::default()
    });
    assert_eq!(result.kind, DeviceKind::Mobile);
    assert_eq!(result.os_hint, OsHint::Ios);
}

#[test]
fn classifies_gateway_as_router() {
    let mac = parse_mac("00:1D:0F:00:11:22").unwrap();
    let result = DeviceClassifier::classify(&ClassificationInput {
        mac,
        vendor: Some("TP-Link".into()),
        is_gateway: true,
        open_ports: vec![80, 443],
        ..Default::default()
    });
    assert_eq!(result.kind, DeviceKind::Router);
}

#[test]
fn gateway_signals_recorded_in_order() {
    let result = DeviceClassifier::classify(&ClassificationInput {
        vendor: Some("TP-Link".into()),
        is_gateway: true,
        open_ports: vec![80, 443],
        ..Default::default()
    });
    assert_eq!(result.confidence_permille, 900);
    assert_eq!(
        result.inference_source,
        "gateway_ip,oui_router_vendor,port_router_web,port_router_web"
    );
}

#[test]
fn nothing_known_stays_unknown() {
    let result = DeviceClassifier::classify(&ClassificationInput::default());
    assert_eq!(result.kind, DeviceKind::Unknown);
    assert_eq!(result.os_hint, OsHint::Unknown);
    assert_eq!(result.confidence_permille, 0);
    assert_eq!(result.inference_source, "none");
}

#[test]
fn hostname_has_the_last_word() {
    let result = DeviceClassifier::classify(&ClassificationInput {
        vendor: Some("Samsung Electronics".into()),
        hostname: Some("Johns-iPhone".into()),
        open_ports: vec![22],
        ..Default::default()
    });
    assert_eq!(result.kind, DeviceKind::Mobile);
    assert_eq!(result.os_hint, OsHint::Ios);
    assert_eq!(result.confidence_permille, 850);
    assert_eq!(result.inference_source, "oui_android_vendor,port_22,hostname_apple");
}

#[test]
fn dhcp_hostname_used_when_no_hostname() {
    let result = DeviceClassifier::classify(&ClassificationInput {
        dhcp_hostname: Some("Galaxy-S21".into()),
        ..Default::default()
    });
    assert_eq!(result.kind, DeviceKind::Mobile);
    assert_eq!(result.os_hint, OsHint::Android);
}

#[test]
fn microsoft_vendor_is_windows_desktop() {
    let result = DeviceClassifier::classify(&ClassificationInput {
        vendor: Some("Microsoft Corporation".into()),
        ..Default::default()
    });
    assert_eq!(result.kind, DeviceKind::Desktop);
    assert_eq!(result.os_hint, OsHint::Windows);
    assert_eq!(result.confidence_permille, 500);
}

#[test]
fn mdns_services_classify() {
    let result = DeviceClassifier::classify(&ClassificationInput {
        mdns_services: vec!["Living Room._googlecast._tcp.local.".into()],
        ..Default::default()
    });
    assert_eq!(result.kind, DeviceKind::Mobile);
    assert_eq!(result.os_hint, OsHint::Android);
    assert_eq!(result.inference_source, "mdns_android");
    assert_eq!(result.confidence_permille, 800);
}

#[test]
fn web_ports_only_count_on_gateway() {
    let result = DeviceClassifier::classify(&ClassificationInput {
        open_ports: vec![80, 62078],
        ..Default::default()
    });
    assert_eq!(result.kind, DeviceKind::Mobile);
    assert_eq!(result.os_hint, OsHint::Ios);
    assert_eq!(result.inference_source, "port_ios_sync");
    assert_eq!(result.confidence_permille, 900);
}
