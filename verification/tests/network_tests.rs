use network_monitor::context::{detect_wifi_ssid, link_changed, LinkState, LinkStatus, SsidProbe};
use network_monitor::discovery::{getent_host, reverse_dns_name, LinuxDiscoveryBackend, PassiveCapture, PlatformBackend, DiscoveryError};
use network_monitor::interface::{default_route_from, detect_network, gateway_setting, guess_gateway, GatewaySetting, IfaceAddr, InterfaceError, InterfaceInfo};
use network_monitor::mdns::MdnsRegistry;
use network_monitor::neighbors::{parse_proc_arp, plan_arp_sweep, sweep_source, ArpError, NeighborTable};
use network_monitor::net::{parse_ipv4, IpAddress, Ipv4Net, MacAddr};
use network_monitor::packets::PassiveObservation;
use network_monitor::model::DeviceSnapshot;

fn ip(s: &str) -> u32 {
    parse_ipv4(s).unwrap()
}

fn iface(name: &str, up: bool, loopback: bool, ips: Vec<IfaceAddr>) -> InterfaceInfo {
    InterfaceInfo {
        name: name.into(),
        is_loopback: loopback,
        is_up: up,
        ips,
        mac: Some(MacAddr(2, 0, 0, 0, 0, 9)),
    }
}

#[test]
fn default_route_parsed_from_routing_table() {
    let table = "Iface\tDestination\tGateway\tFlags\n\
                 wlan0\t0000A8C0\t00000000\t0001\n\
                 wlan0\t00000000\t0101A8C0\t0003\n";
    let r = default_route_from(table).unwrap();
    assert_eq!(r.0, "wlan0");
    assert_eq!(r.1, ip("192.168.1.1"));
}

#[test]
fn default_route_skips_zero_gateway_and_stops_on_bad_hex() {
    let table = "Iface Destination Gateway\n eth0 00000000 00000000\n eth1 00000000 0101A8C0\n";
    assert_eq!(default_route_from(table).unwrap().0, "eth1");
    let bad = "Iface Destination Gateway\n eth0 00000000 zz01A8C0\n eth1 00000000 0101A8C0\n";
    assert_eq!(default_route_from(bad), None);
    assert_eq!(default_route_from(""), None);
}

#[test]
fn gateway_guess_is_first_host() {
    let net = Ipv4Net { addr: ip("192.168.1.57"), prefix: 24 };
    assert_eq!(guess_gateway(&net), ip("192.168.1.1"));
    let wide = Ipv4Net { addr: ip("10.20.30.40"), prefix: 16 };
    assert_eq!(guess_gateway(&wide), ip("10.20.0.1"));
}

#[test]
fn auto_interface_follows_default_route() {
    let ifs = vec![
        iface("lo", true, true, vec![IfaceAddr::V4 { ip: ip("127.0.0.1"), prefix: 8 }]),
        iface("wlan0", true, false, vec![IfaceAddr::V6, IfaceAddr::V4 { ip: ip("192.168.1.57"), prefix: 24 }]),
    ];
    let route = Some(("wlan0".to_string(), ip("192.168.1.254")));
    let n = detect_network("auto", &GatewaySetting::Auto, &ifs, &route).unwrap();
    assert_eq!(n.interface, "wlan0");
    assert_eq!(n.subnet, Ipv4Net { addr: ip("192.168.1.57"), prefix: 24 });
    assert_eq!(n.gateway, Some(IpAddress::V4(ip("192.168.1.254"))));
    assert_eq!(n.local_ip, Some(IpAddress::V4(ip("192.168.1.57"))));
    assert_eq!(n.mac, Some(MacAddr(2, 0, 0, 0, 0, 9)));
}

#[test]
fn auto_interface_without_route_picks_first_usable() {
    let ifs = vec![
        iface("lo", true, true, vec![IfaceAddr::V4 { ip: ip("127.0.0.1"), prefix: 8 }]),
        iface("eth0", false, false, vec![IfaceAddr::V4 { ip: ip("10.0.0.5"), prefix: 24 }]),
        iface("eth1", true, false, vec![IfaceAddr::V4 { ip: ip("172.16.4.9"), prefix: 20 }]),
    ];
    let n = detect_network("auto", &GatewaySetting::Auto, &ifs, &None).unwrap();
    assert_eq!(n.interface, "eth1");
    assert_eq!(n.gateway, Some(IpAddress::V4(ip("172.16.0.1"))));
}

#[test]
fn detection_errors() {
    let ifs = vec![iface("lo", true, true, vec![IfaceAddr::V4 { ip: ip("127.0.0.1"), prefix: 8 }])];
    match detect_network("auto", &GatewaySetting::Auto, &ifs, &None) {
        Err(InterfaceError::NotFound) => {}
        _ => panic!("expected NotFound"),
    }
    match detect_network("eth9", &GatewaySetting::Auto, &ifs, &None) {
        Err(e) => assert_eq!(e.message(), "interface error: interface eth9 not found"),
        Ok(_) => panic!("expected an error"),
    }
    let route = Some(("lo".to_string(), ip("127.0.0.1")));
    let bad = gateway_setting("gw.example");
    match detect_network("auto", &bad, &ifs, &route) {
        Err(e) => assert_eq!(e.message(), "interface error: invalid gateway: gw.example"),
        Ok(_) => panic!("expected an error"),
    }
    let v6_only = vec![iface("eth0", true, false, vec![IfaceAddr::V6])];
    match detect_network("eth0", &GatewaySetting::Auto, &v6_only, &None) {
        Err(e) => assert_eq!(e.message(), "interface error: no IPv4 subnet on interface"),
        Ok(_) => panic!("expected an error"),
    }
}

#[test]
fn named_interface_prefers_subnet_holding_gateway() {
    let ifs = vec![iface(
        "eth0",
        true,
        false,
        vec![
            IfaceAddr::V4 { ip: ip("10.1.0.2"), prefix: 31 },
            IfaceAddr::V4 { ip: ip("10.9.0.2"), prefix: 24 },
            IfaceAddr::V4 { ip: ip("192.168.7.3"), prefix: 24 },
        ],
    )];
    let gw = gateway_setting("192.168.7.1");
    let n = detect_network("eth0", &gw, &ifs, &None).unwrap();
    assert_eq!(n.subnet, Ipv4Net { addr: ip("192.168.7.3"), prefix: 24 });
    assert_eq!(n.local_ip, Some(IpAddress::V4(ip("192.168.7.3"))));
    assert_eq!(n.gateway, Some(IpAddress::V4(ip("192.168.7.1"))));
    let auto = detect_network("eth0", &GatewaySetting::Auto, &ifs, &None).unwrap();
    assert_eq!(auto.gateway, Some(IpAddress::V4(ip("10.1.0.1"))));
    assert_eq!(auto.subnet, Ipv4Net { addr: ip("10.9.0.2"), prefix: 24 });
}

#[test]
fn gateway_setting_reads_auto() {
    assert!(matches!(gateway_setting("auto"), GatewaySetting::Auto));
    assert!(matches!(gateway_setting("10.0.0.1"), GatewaySetting::Address(IpAddress::V4(0x0A00_0001))));
    assert!(matches!(gateway_setting("fe80::1"), GatewaySetting::Address(IpAddress::V6(0xfe80_0000_0000_0000_0000_0000_0000_0001))));
    match gateway_setting("10.0.0.256") {
        GatewaySetting::Invalid(t) => assert_eq!(t, "10.0.0.256"),
        _ => panic!("expected invalid gateway text"),
    }
}

#[test]
fn proc_arp_entries_filtered() {
    let content = "IP address       HW type     Flags       HW address            Mask     Device\n\
192.168.1.1      0x1         0x2         aa:bb:cc:dd:ee:ff     *        wlan0\n\
192.168.1.9      0x1         0x0         aa:bb:cc:dd:ee:01     *        wlan0\n\
192.168.1.7      0x1         0x2         00:00:00:00:00:00     *        wlan0\n\
192.168.1.8      0x1         0x2         aa:bb:cc:dd:ee:08     *        eth0\n\
10.0.0.8         0x1         0x2         aa:bb:cc:dd:ee:10     *        wlan0\n\
192.168.1.30     0x1         0x6         11:22:33:44:55:66     *        wlan0\n";
    let net = Ipv4Net { addr: ip("192.168.1.0"), prefix: 24 };
    let t = parse_proc_arp(content, "wlan0", &net);
    let mut v = t.to_vec();
    v.sort_by_key(|p| p.0);
    assert_eq!(
        v,
        vec![
            (ip("192.168.1.1"), MacAddr(0xaa, 0xbb, 0xcc, 0xdd, 0xee, 0xff)),
            (ip("192.168.1.30"), MacAddr(0x11, 0x22, 0x33, 0x44, 0x55, 0x66)),
        ]
    );
}

#[test]
fn neighbor_table_keeps_last_sighting() {
    let mut t = NeighborTable::new();
    t.insert(5, MacAddr(1, 1, 1, 1, 1, 1));
    t.insert(6, MacAddr(2, 2, 2, 2, 2, 2));
    t.insert(5, MacAddr(3, 3, 3, 3, 3, 3));
    assert_eq!(t.len(), 2);
    let v = t.to_vec();
    assert!(v.contains(&(5, MacAddr(3, 3, 3, 3, 3, 3))));
}

#[test]
fn sweep_plan_batches_targets() {
    let ifs = vec![iface("eth0", true, false, vec![IfaceAddr::V4 { ip: ip("192.168.1.5"), prefix: 24 }])];
    let net = Ipv4Net { addr: ip("192.168.1.5"), prefix: 24 };
    let plan = match plan_arp_sweep(&ifs, "eth0", &net, None) {
        Ok(p) => p,
        Err(_) => panic!("plan failed"),
    };
    assert_eq!(plan.src_ip, ip("192.168.1.5"));
    assert_eq!(plan.src_mac, MacAddr(2, 0, 0, 0, 0, 9));
    let total: usize = plan.batches.iter().map(|b| b.len()).sum();
    assert_eq!(total, 254);
    assert_eq!(plan.batches.len(), 8);
    assert!(plan.batches.iter().all(|b| !b.contains(&ip("192.168.1.5"))));
    assert_eq!(plan.batches[0][0], ip("192.168.1.1"));
    match plan_arp_sweep(&ifs, "wlan1", &net, None) {
        Err(ArpError::Failed(m)) => assert_eq!(m, "interface wlan1 not found"),
        Ok(_) => panic!("expected an error"),
    }
}

#[test]
fn sweep_interface_checks_come_before_the_subnet() {
    let whole = Ipv4Net { addr: 0, prefix: 0 };
    let ifs = vec![iface("eth0", true, false, vec![IfaceAddr::V4 { ip: ip("192.168.1.5"), prefix: 24 }])];
    match plan_arp_sweep(&ifs, "wlan1", &whole, None) {
        Err(ArpError::Failed(m)) => assert_eq!(m, "interface wlan1 not found"),
        Ok(_) => panic!("expected an error"),
    }
    let mut no_mac = iface("eth1", true, false, vec![]);
    no_mac.mac = None;
    match plan_arp_sweep(&vec![no_mac], "eth1", &whole, None) {
        Err(ArpError::Failed(m)) => assert_eq!(m, "interface has no MAC"),
        Ok(_) => panic!("expected an error"),
    }
    let v6 = vec![iface("eth2", true, false, vec![IfaceAddr::V6])];
    match plan_arp_sweep(&v6, "eth2", &whole, None) {
        Err(ArpError::Failed(m)) => assert_eq!(m, "interface has no IPv4 on subnet"),
        Ok(_) => panic!("expected an error"),
    }
    match sweep_source(&ifs, "eth0", &whole, None) {
        Ok((mac, src)) => {
            assert_eq!(mac, MacAddr(2, 0, 0, 0, 0, 9));
            assert_eq!(src, ip("192.168.1.5"));
        }
        Err(_) => panic!("expected a source"),
    }
}

#[test]
fn ssid_from_nmcli_listing() {
    let s = detect_wifi_ssid(SsidProbe::NmcliWifi, Some("no:Neighbour\nyes:HomeWiFi\n"));
    match s {
        SsidProbe::Done(Some(n)) => assert_eq!(n, "HomeWiFi"),
        _ => panic!("expected the active network"),
    }
}

#[test]
fn ssid_probe_falls_back_through_commands() {
    let s = detect_wifi_ssid(SsidProbe::NmcliWifi, Some("no:Other\n"));
    assert!(matches!(s, SsidProbe::NmcliConnection));
    let s = detect_wifi_ssid(s, Some("GENERAL.CONNECTION:  --\n"));
    assert!(matches!(s, SsidProbe::Iw));
    let s = detect_wifi_ssid(s, Some("Connected to aa:bb\n\tSSID: Cafe Net \n\tfreq: 2412\n"));
    match s {
        SsidProbe::Done(Some(n)) => assert_eq!(n, "Cafe Net"),
        _ => panic!("expected iw's answer"),
    }
    let conn = detect_wifi_ssid(SsidProbe::NmcliConnection, Some("GENERAL.CONNECTION: Office\n"));
    match conn {
        SsidProbe::Done(Some(n)) => assert_eq!(n, "Office"),
        _ => panic!("expected the connection name"),
    }
    assert!(matches!(detect_wifi_ssid(SsidProbe::NmcliWifi, Some("garbage\n")), SsidProbe::Iw));
    assert!(matches!(detect_wifi_ssid(SsidProbe::NmcliWifi, None), SsidProbe::Iw));
    assert!(matches!(detect_wifi_ssid(SsidProbe::Iw, None), SsidProbe::Done(None)));
}

#[test]
fn link_status_and_changes() {
    let s = LinkStatus::initial();
    assert_eq!(s.state, LinkState::Unknown);
    let up = LinkStatus::probed(true, Some(IpAddress::V4(1)), true);
    assert_eq!(up.state, LinkState::Up);
    let no_gw = LinkStatus::probed(true, None, true);
    assert_eq!(no_gw.state, LinkState::Down);
    assert!(!link_changed(LinkState::Unknown, LinkState::Up));
    assert!(link_changed(LinkState::Up, LinkState::Down));
    assert!(!link_changed(LinkState::Down, LinkState::Down));
    assert_eq!(LinkState::Up.name(), "up");
}

#[test]
fn reverse_dns_and_getent() {
    let a = IpAddress::V4(ip("192.168.1.4"));
    assert_eq!(reverse_dns_name(a, Some("printer.lan.")), Some("printer.lan".to_string()));
    assert_eq!(reverse_dns_name(a, Some("192.168.1.4")), None);
    assert_eq!(reverse_dns_name(a, None), None);
    assert_eq!(getent_host("192.168.1.4      printer.lan printer\n"), Some("printer.lan".to_string()));
    assert_eq!(getent_host("192.168.1.4"), None);
}

#[test]
fn backends_keep_settings() {
    let b = LinuxDiscoveryBackend::new("wlan0", "auto");
    assert_eq!(b.interface, "wlan0");
    assert_eq!(b.gateway, "auto");
    assert_eq!(b.platform_name(), "linux");
    let p = PlatformBackend::new("eth0", "10.0.0.1");
    assert_eq!(p.inner.interface, "eth0");
    assert_eq!(DiscoveryError::NoInterface.message(), "no suitable network interface found");
    assert_eq!(DiscoveryError::Failed("x".into()).message(), "discovery failed: x");
}

#[test]
fn passive_capture_reports_each_device_once() {
    let mut c = PassiveCapture::new("eth0");
    assert_eq!(c.interface(), "eth0");
    let obs = |m: u8| PassiveObservation {
        snapshot: DeviceSnapshot { mac: MacAddr(m, 0, 0, 0, 0, 0), ip: None, hostname: None, vendor: None },
        dhcp_hostname: None,
    };
    assert!(c.note(&obs(1)));
    assert!(c.note(&obs(2)));
    assert!(!c.note(&obs(1)));
}

#[test]
fn mdns_registry_records_services() {
    let mut r = MdnsRegistry::new();
    assert!(r.services_for_host("tv.local").is_empty());
    r.record_resolved("tv.local.", "TV._googlecast._tcp.local.");
    r.record_resolved("tv.local", "TV._airplay._tcp.local.");
    r.record_resolved("tv.local.", "TV._googlecast._tcp.local.");
    let mut s = r.services_for_host("tv.local");
    s.sort();
    assert_eq!(s, vec!["TV._airplay._tcp.local.".to_string(), "TV._googlecast._tcp.local.".to_string()]);
    assert_eq!(r.all_hosts(), vec!["tv.local".to_string()]);
}
