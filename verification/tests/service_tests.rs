use network_monitor::api::{
    check_name, events_limit, health, parse_event_kind, parse_kind, parse_mac_param, parse_os, parse_time,
    speedtest_run_gate, speedtests_limit, update_device_params, ApiError,
};
use network_monitor::channels::{ChannelKind, Channel, FcmChannel, NotificationDispatcher, NotifyError, NtfyChannel, WebhookChannel};
use network_monitor::config::NotificationsConfig;
use network_monitor::context::{LinkState, LinkStatus};
use network_monitor::model::{DeviceKind, EventKind, OsHint, Timestamp};
use network_monitor::net::{IpAddress, MacAddr};
use network_monitor::notify::NotificationPayload;
use network_monitor::speedtest::{
    can_run_manual, check_manual_run, create_backend, librespeed_urls, schedule_period_secs, BackendChoice,
    SpeedTestBackendKind, SpeedTestContext, SpeedTestError,
};

fn payload() -> NotificationPayload {
    NotificationPayload {
        agent_name: "Home Pi".into(),
        network_name: None,
        kind: EventKind::NetworkDown,
        title: "Network is down".into(),
        body: "gateway unreachable".into(),
        timestamp: Timestamp { secs: 0, nanos: 0 },
        device_name: None,
        device_ip: None,
        gateway: None,
    }
}

#[test]
fn backend_names_parse_in_any_case() {
    assert_eq!(SpeedTestBackendKind::from_str("LibreSpeed"), Ok(SpeedTestBackendKind::LibreSpeed));
    assert_eq!(SpeedTestBackendKind::from_str("cloudflare"), Ok(SpeedTestBackendKind::Cloudflare));
    assert_eq!(
        SpeedTestBackendKind::from_str("Ookla"),
        Err("unknown speedtest backend: ookla".to_string())
    );
    assert_eq!(SpeedTestBackendKind::Cloudflare.name(), "cloudflare");
}

#[test]
fn librespeed_requests() {
    let u = librespeed_urls("http://speed.lan//");
    assert_eq!(u.server_name, "http://speed.lan");
    assert_eq!(u.download, "http://speed.lan/garbage?ckSize=25");
    assert_eq!(u.upload, "http://speed.lan/empty?ckSize=1");
    match create_backend(SpeedTestBackendKind::LibreSpeed, None) {
        BackendChoice::LibreSpeed { server_url } => assert_eq!(server_url, "http://localhost"),
        BackendChoice::Cloudflare => panic!("expected LibreSpeed"),
    }
    assert!(matches!(create_backend(SpeedTestBackendKind::Cloudflare, Some("x".into())), BackendChoice::Cloudflare));
}

#[test]
fn manual_runs_are_rate_limited() {
    assert!(can_run_manual(None, 300));
    assert!(!can_run_manual(Some(299), 300));
    assert!(can_run_manual(Some(300), 300));
    assert_eq!(
        check_manual_run(Some(10), 300),
        Err("rate limited — wait at least 300 seconds between manual tests".to_string())
    );
    assert_eq!(check_manual_run(None, 300), Ok(()));
    assert_eq!(schedule_period_secs(60), 300);
    assert_eq!(schedule_period_secs(3600), 3600);
}

#[test]
fn speedtest_precheck_and_errors() {
    let ctx = SpeedTestContext { agent_name: "a".into(), network_name: None, interface: "eth0".into(), network_up: false };
    assert_eq!(ctx.precheck(), Some("network is down".to_string()));
    let up = SpeedTestContext { network_up: true, ..ctx.duplicate() };
    assert_eq!(up.precheck(), None);
    assert_eq!(SpeedTestError::Failed("timeout".into()).message(), "speed test failed: timeout");
}

#[test]
fn ntfy_request_shape() {
    let c = NtfyChannel::new("https://ntfy.sh/".into(), "home-lan".into());
    let r = c.request(&payload());
    assert_eq!(r.url, "https://ntfy.sh/home-lan");
    assert_eq!(r.title, "[Home Pi] Network is down");
    assert_eq!(r.tags, "network,wifi");
    assert_eq!(r.body, "gateway unreachable");
    assert_eq!(c.name(), "ntfy");
}

#[test]
fn webhook_signature_is_hmac_sha256_hex() {
    let w = WebhookChannel::new("http://hook".into(), Some("Jefe".into()));
    assert_eq!(
        w.signature("what do ya want for nothing?"),
        Some("5bdcc146bf60754e6a042426089575c75a003f089d2739839dec58b964ec3843".to_string())
    );
    let unsigned = WebhookChannel::new("http://hook".into(), None);
    assert_eq!(unsigned.signature("body"), None);
}

#[test]
fn fcm_always_fails() {
    let f = FcmChannel::new(Some("proj".into()), None);
    match f.send(&payload()) {
        Err(NotifyError::Failed(m)) => {
            assert_eq!(m, "FCM not yet implemented — use ntfy or webhook for Android notifications")
        }
        Ok(()) => panic!("FCM cannot send"),
    }
    assert_eq!(NotifyError::Failed("x".into()).message(), "notification failed: x");
}

#[test]
fn dispatcher_channels_follow_config() {
    let mut c = NotificationsConfig::default();
    let d = NotificationDispatcher::from_config(&c, None);
    assert_eq!(d.channels.len(), 1);
    assert!(matches!(d.channels[0], Channel::Desktop(_)));
    c.ntfy.enabled = true;
    c.webhook.enabled = true;
    c.fcm.enabled = true;
    let d = NotificationDispatcher::from_config(&c, None);
    let kinds: Vec<bool> = d.channels.iter().map(|ch| matches!(ch, Channel::Webhook(_))).collect();
    assert_eq!(kinds, vec![false, false, false]);
    c.webhook.url = "http://hook".into();
    c.webhook.secret = Some("env:HOOK".into());
    let d = NotificationDispatcher::from_config(&c, Some("from-env".into()));
    assert_eq!(d.channels.len(), 4);
    match &d.channels[1] {
        Channel::Webhook(w) => assert_eq!(w.secret.as_deref(), Some("from-env")),
        _ => panic!("expected the webhook second"),
    }
    let _ = ChannelKind::Fcm;
}

#[test]
fn api_parameter_parsing() {
    assert_eq!(parse_kind("iot"), Ok(DeviceKind::IoT));
    assert_eq!(parse_kind("unknown"), Ok(DeviceKind::Unknown));
    assert_eq!(parse_kind("Router"), Err(ApiError::BadRequest));
    assert_eq!(parse_os("macos"), Ok(OsHint::MacOS));
    assert_eq!(parse_os("bsd"), Err(ApiError::BadRequest));
    assert_eq!(parse_event_kind("speed_test_completed"), Ok(EventKind::SpeedTestCompleted));
    assert_eq!(parse_event_kind("nope"), Err(ApiError::BadRequest));
    assert_eq!(ApiError::BadRequest.status(), 400);
    assert_eq!(ApiError::NotFound.status(), 404);
    assert_eq!(ApiError::Internal.status(), 500);
    assert_eq!(ApiError::ServiceUnavailable.status(), 503);
    assert_eq!(ApiError::TooManyRequests.status(), 429);
}

#[test]
fn api_device_update_and_names() {
    let u = match update_device_params("aa:bb:cc:dd:ee:ff", Some("mobile"), None) {
        Ok(u) => u,
        Err(_) => panic!("valid request"),
    };
    assert_eq!(u.mac, MacAddr(0xaa, 0xbb, 0xcc, 0xdd, 0xee, 0xff));
    assert_eq!(u.kind, Some(DeviceKind::Mobile));
    assert_eq!(u.os_hint, None);
    assert!(matches!(update_device_params("not-a-mac", None, None), Err(ApiError::BadRequest)));
    assert!(matches!(update_device_params("aa:bb:cc:dd:ee:ff", Some("tablet"), None), Err(ApiError::BadRequest)));
    assert!(matches!(parse_mac_param("AA-BB-CC-DD-EE-FF"), Ok(MacAddr(0xaa, 0xbb, 0xcc, 0xdd, 0xee, 0xff))));
    assert_eq!(check_name("  "), Err(ApiError::BadRequest));
    assert_eq!(check_name("Home"), Ok(()));
}

#[test]
fn api_limits_and_times() {
    assert_eq!(events_limit(None), 100);
    assert_eq!(events_limit(Some(5000)), 1000);
    assert_eq!(events_limit(Some(7)), 7);
    assert_eq!(speedtests_limit(None), 500);
    assert_eq!(speedtests_limit(Some(9999)), 5000);
    assert_eq!(parse_time("2024-01-01T00:00:00Z"), Ok(Timestamp { secs: 1_704_067_200, nanos: 0 }));
    assert_eq!(parse_time("2024-01-01T01:00:00+01:00"), Ok(Timestamp { secs: 1_704_067_200, nanos: 0 }));
    assert_eq!(parse_time("yesterday"), Err(ApiError::BadRequest));
    assert_eq!(speedtest_run_gate(false, &Ok(())), Err(ApiError::ServiceUnavailable));
    assert_eq!(speedtest_run_gate(true, &Err("limited".into())), Err(ApiError::TooManyRequests));
    assert_eq!(speedtest_run_gate(true, &Ok(())), Ok(()));
}

#[test]
fn health_report() {
    let link = LinkStatus { state: LinkState::Down, gateway: Some(IpAddress::V4(0xC0A80101)), interface_up: true };
    let h = health("Home Pi", Some("HomeWiFi".into()), &link);
    assert_eq!(h.status, "ok");
    assert_eq!(h.link_state, "down");
    assert_eq!(h.gateway.as_deref(), Some("192.168.1.1"));
    assert_eq!(h.network_name.as_deref(), Some("HomeWiFi"));
}

#[test]
fn every_backend_name_reads_back() {
    for k in [SpeedTestBackendKind::LibreSpeed, SpeedTestBackendKind::Cloudflare] {
        assert_eq!(SpeedTestBackendKind::from_str(&k.name()), Ok(k));
    }
}

#[test]
fn every_kind_name_accepted_by_api() {
    for k in [DeviceKind::Router, DeviceKind::Mobile, DeviceKind::Desktop, DeviceKind::IoT, DeviceKind::Unknown] {
        assert_eq!(parse_kind(&k.to_text()), Ok(k));
    }
    for o in [OsHint::Android, OsHint::Ios, OsHint::Linux, OsHint::MacOS, OsHint::Windows, OsHint::Unknown] {
        assert_eq!(parse_os(&o.to_text()), Ok(o));
    }
}
