use network_monitor::config::{
    agent_name_from_hostname, configured_agent_name, expand_path, resolve_agent_name, resolve_secret, scan_period_secs,
    secret_env_key, setup_agent_name, setup_default_name, AppConfig, CoreError,
};
use network_monitor::speedtest::SpeedTestBackendKind;

#[test]
fn defaults_match_documented_config() {
    let c = AppConfig::default();
    assert!(c.agent.name.is_none());
    assert_eq!(c.network.interface, "auto");
    assert_eq!(c.network.scan_interval_secs, 60);
    assert!(c.network.passive_capture);
    assert_eq!(c.network.gateway, "auto");
    assert_eq!(c.network.presence_timeout_secs, 180);
    assert_eq!(c.network.link_check_interval_secs, 30);
    assert_eq!(c.storage.database_path, "~/.local/share/network-monitor/network-monitor.db");
    assert_eq!(c.api.bind_addr, "127.0.0.1:8080");
    assert!(c.api.enabled);
    assert!(!c.notifications.ntfy.enabled);
    assert_eq!(c.notifications.ntfy.server, "https://ntfy.sh");
    assert_eq!(c.notifications.ntfy.topic, "home-lan");
    assert!(c.notifications.desktop.enabled);
    assert!(!c.notifications.fcm.enabled);
    assert!(c.speedtest.enabled);
    assert_eq!(c.speedtest.interval_secs, 21_600);
    assert_eq!(c.speedtest.backend, SpeedTestBackendKind::Cloudflare);
    assert_eq!(c.speedtest.min_interval_secs, 300);
}

#[test]
fn home_paths_expand() {
    assert_eq!(expand_path("~/data/db.sqlite", Some("/home/pi")), "/home/pi/data/db.sqlite");
    assert_eq!(expand_path("~/data/db.sqlite", None), "~/data/db.sqlite");
    assert_eq!(expand_path("/var/lib/db", Some("/home/pi")), "/var/lib/db");
    assert_eq!(expand_path("~user/x", Some("/home/pi")), "~user/x");
}

#[test]
fn secrets_from_environment_or_text() {
    let env = Some("env:HOOK_SECRET".to_string());
    assert_eq!(secret_env_key(&env), Some("HOOK_SECRET".to_string()));
    assert_eq!(resolve_secret(&env, Some("s3cr3t".into())), Some("s3cr3t".to_string()));
    assert_eq!(resolve_secret(&env, None), None);
    let plain = Some("literal".to_string());
    assert_eq!(secret_env_key(&plain), None);
    assert_eq!(resolve_secret(&plain, Some("ignored".into())), Some("literal".to_string()));
    assert_eq!(resolve_secret(&None, Some("x".into())), None);
}

#[test]
fn agent_names_from_host_names() {
    assert_eq!(agent_name_from_hostname("my-home_pi"), "My Home Pi");
    assert_eq!(agent_name_from_hostname("raspberrypi"), "Raspberrypi");
    assert_eq!(agent_name_from_hostname("a--b"), "A  B");
    assert_eq!(agent_name_from_hostname(""), "");
}

#[test]
fn configured_name_wins_unless_blank() {
    let mut c = AppConfig::default();
    c.agent.name = Some("Attic".into());
    assert_eq!(configured_agent_name(&c), Some("Attic".to_string()));
    let (name, save) = resolve_agent_name(&mut c);
    assert_eq!(name, "Attic");
    assert!(!save);
    c.agent.name = Some("   ".into());
    assert_eq!(configured_agent_name(&c), None);
    let (derived, save) = resolve_agent_name(&mut c);
    assert!(save);
    assert_eq!(c.agent.name.as_deref(), Some(derived.as_str()));
}

#[test]
fn setup_name_choice() {
    assert_eq!(setup_agent_name("Home Pi", Some("  Garage \n")), "Garage");
    assert_eq!(setup_agent_name("Home Pi", Some("   \n")), "Home Pi");
    assert_eq!(setup_agent_name("Home Pi", None), "Home Pi");
    let mut c = AppConfig::default();
    assert_eq!(setup_default_name(&c, Some("Derived".into())), Some("Derived".to_string()));
    c.agent.name = Some("Kept".into());
    assert_eq!(setup_default_name(&c, Some("Derived".into())), Some("Kept".to_string()));
}

#[test]
fn scan_period_has_a_floor() {
    assert_eq!(scan_period_secs(3), 10);
    assert_eq!(scan_period_secs(60), 60);
}

#[test]
fn core_error_messages() {
    assert_eq!(CoreError::Config("read x: missing".into()).message(), "config error: read x: missing");
    assert_eq!(CoreError::InvalidMac("zz".into()).message(), "invalid MAC address: zz");
}

#[test]
fn unreadable_host_name_gives_default() {
    assert_eq!(network_monitor::config::agent_name_or_default(None), "Network Monitor");
    assert_eq!(network_monitor::config::agent_name_or_default(Some("lab_pi-3")), "Lab Pi 3");
}
