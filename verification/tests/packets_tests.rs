use network_monitor::net::{IpAddress, MacAddr, parse_ipv4};
use network_monitor::packets::{arp_request_frame, parse_arp_reply, parse_dhcp_hostname, parse_packet};

fn arp_frame(op: u8, sender_mac: [u8; 6], sender_ip: [u8; 4], target_ip: [u8; 4]) -> Vec<u8> {
    let mut f = vec![0xff, 0xff, 0xff, 0xff, 0xff, 0xff];
    f.extend_from_slice(&sender_mac);
    f.extend_from_slice(&[0x08, 0x06]);
    f.extend_from_slice(&[0x00, 0x01, 0x08, 0x00, 0x06, 0x04, 0x00, op]);
    f.extend_from_slice(&sender_mac);
    f.extend_from_slice(&sender_ip);
    f.extend_from_slice(&[0, 0, 0, 0, 0, 0]);
    f.extend_from_slice(&target_ip);
    f
}

fn dhcp_frame(src_port: u16, dst_port: u16, chaddr: [u8; 6], options: &[u8]) -> Vec<u8> {
    let mut f = vec![0xff; 6];
    f.extend_from_slice(&chaddr);
    f.extend_from_slice(&[0x08, 0x00]);
    let mut ip = vec![0u8; 20];
    ip[0] = 0x45;
    ip[9] = 17;
    f.extend_from_slice(&ip);
    f.extend_from_slice(&src_port.to_be_bytes());
    f.extend_from_slice(&dst_port.to_be_bytes());
    f.extend_from_slice(&[0, 0, 0, 0]);
    let mut bootp = vec![0u8; 236];
    bootp[28..34].copy_from_slice(&chaddr);
    f.extend_from_slice(&bootp);
    f.extend_from_slice(&[99, 130, 83, 99]);
    f.extend_from_slice(options);
    f
}

#[test]
fn arp_reply_gives_neighbour() {
    let mac = [0xaa, 0xbb, 0xcc, 0x00, 0x11, 0x22];
    let frame = arp_frame(2, mac, [192, 168, 1, 50], [192, 168, 1, 10]);
    let ours = parse_ipv4("192.168.1.10").unwrap();
    let r = parse_arp_reply(&frame, ours);
    assert_eq!(r, Some((parse_ipv4("192.168.1.50").unwrap(), MacAddr(0xaa, 0xbb, 0xcc, 0x00, 0x11, 0x22))));
}

#[test]
fn arp_request_only_when_addressed_to_us() {
    let mac = [2, 0, 0, 0, 0, 1];
    let ours = parse_ipv4("192.168.1.10").unwrap();
    let to_us = arp_frame(1, mac, [192, 168, 1, 7], [192, 168, 1, 10]);
    let to_other = arp_frame(1, mac, [192, 168, 1, 7], [192, 168, 1, 11]);
    assert!(parse_arp_reply(&to_us, ours).is_some());
    assert_eq!(parse_arp_reply(&to_other, ours), None);
}

#[test]
fn arp_from_ourselves_or_unusable_addresses_ignored() {
    let mac = [2, 0, 0, 0, 0, 1];
    let ours = parse_ipv4("192.168.1.10").unwrap();
    assert_eq!(parse_arp_reply(&arp_frame(2, mac, [192, 168, 1, 10], [192, 168, 1, 10]), ours), None);
    assert_eq!(parse_arp_reply(&arp_frame(2, mac, [0, 0, 0, 0], [192, 168, 1, 10]), ours), None);
    assert_eq!(parse_arp_reply(&arp_frame(2, mac, [255, 255, 255, 255], [192, 168, 1, 10]), ours), None);
    assert_eq!(parse_arp_reply(&arp_frame(3, mac, [192, 168, 1, 9], [192, 168, 1, 10]), ours), None);
}

#[test]
fn short_or_non_arp_frames_ignored() {
    let ours = parse_ipv4("192.168.1.10").unwrap();
    let mut frame = arp_frame(2, [2, 0, 0, 0, 0, 1], [192, 168, 1, 9], [192, 168, 1, 10]);
    frame.truncate(41);
    assert_eq!(parse_arp_reply(&frame, ours), None);
    let mut ipv4 = arp_frame(2, [2, 0, 0, 0, 0, 1], [192, 168, 1, 9], [192, 168, 1, 10]);
    ipv4[13] = 0x00;
    assert_eq!(parse_arp_reply(&ipv4, ours), None);
}

#[test]
fn request_frame_layout() {
    let src = MacAddr(0x02, 0x11, 0x22, 0x33, 0x44, 0x55);
    let frame = arp_request_frame(src, parse_ipv4("10.0.0.2").unwrap(), parse_ipv4("10.0.0.9").unwrap());
    let expected: Vec<u8> = vec![
        0xff, 0xff, 0xff, 0xff, 0xff, 0xff, 0x02, 0x11, 0x22, 0x33, 0x44, 0x55, 0x08, 0x06, 0x00, 0x01, 0x08,
        0x00, 0x06, 0x04, 0x00, 0x01, 0x02, 0x11, 0x22, 0x33, 0x44, 0x55, 10, 0, 0, 2, 0, 0, 0, 0, 0, 0, 10, 0,
        0, 9,
    ];
    assert_eq!(frame, expected);
}

fn no_vendor(_mac: MacAddr) -> Option<String> {
    None
}

fn vendor_by_prefix(mac: MacAddr) -> Option<String> {
    if mac.0 == 0x10 && mac.1 == 0x20 && mac.2 == 0x30 {
        Some("Acme".to_string())
    } else {
        None
    }
}

#[test]
fn passive_observations_carry_the_vendor_of_the_sender() {
    let frame = arp_frame(2, [0x10, 0x20, 0x30, 0x40, 0x50, 0x60], [192, 168, 0, 4], [192, 168, 0, 1]);
    assert_eq!(parse_packet(&frame, &vendor_by_prefix).unwrap().snapshot.vendor.as_deref(), Some("Acme"));
    let other = arp_frame(2, [0x11, 0x20, 0x30, 0x40, 0x50, 0x60], [192, 168, 0, 4], [192, 168, 0, 1]);
    assert_eq!(parse_packet(&other, &vendor_by_prefix).unwrap().snapshot.vendor, None);
    let dhcp = dhcp_frame(68, 67, [0x10, 0x20, 0x30, 1, 2, 3], &[12, 2, b'p', b'c', 255]);
    assert_eq!(parse_dhcp_hostname(&dhcp, &vendor_by_prefix).unwrap().snapshot.vendor.as_deref(), Some("Acme"));
}

#[test]
fn passive_arp_observation() {
    let frame = arp_frame(1, [0x10, 0x20, 0x30, 0x40, 0x50, 0x60], [192, 168, 0, 4], [192, 168, 0, 1]);
    let obs = parse_packet(&frame, &no_vendor).unwrap();
    assert_eq!(obs.snapshot.mac, MacAddr(0x10, 0x20, 0x30, 0x40, 0x50, 0x60));
    assert_eq!(obs.snapshot.ip, Some(IpAddress::V4(parse_ipv4("192.168.0.4").unwrap())));
    assert_eq!(obs.snapshot.hostname, None);
    assert_eq!(obs.dhcp_hostname, None);
}

#[test]
fn passive_arp_with_other_address_sizes_dropped() {
    let mut frame = arp_frame(1, [1, 2, 3, 4, 5, 6], [192, 168, 0, 4], [192, 168, 0, 1]);
    frame[18] = 4;
    frame[19] = 4;
    assert!(parse_packet(&frame, &no_vendor).is_none());
}

#[test]
fn dhcp_hostname_read() {
    let chaddr = [0x3c, 0x22, 0xfb, 0x01, 0x02, 0x03];
    let frame = dhcp_frame(68, 67, chaddr, &[53, 1, 3, 12, 5, b'a', b'l', b'p', b'h', b'a', 255]);
    let obs = parse_dhcp_hostname(&frame, &no_vendor).unwrap();
    assert_eq!(obs.snapshot.mac, MacAddr(0x3c, 0x22, 0xfb, 0x01, 0x02, 0x03));
    assert_eq!(obs.snapshot.ip, None);
    assert_eq!(obs.snapshot.hostname.as_deref(), Some("alpha"));
    assert_eq!(obs.dhcp_hostname.as_deref(), Some("alpha"));
    let via_packet = parse_packet(&frame, &no_vendor).unwrap();
    assert_eq!(via_packet.dhcp_hostname.as_deref(), Some("alpha"));
}

#[test]
fn dhcp_without_hostname_or_wrong_ports() {
    let chaddr = [1, 2, 3, 4, 5, 6];
    let no_name = dhcp_frame(67, 68, chaddr, &[0, 0, 53, 1, 2, 255]);
    let obs = parse_dhcp_hostname(&no_name, &no_vendor).unwrap();
    assert_eq!(obs.snapshot.hostname, None);
    let wrong_ports = dhcp_frame(68, 68, chaddr, &[12, 1, b'x', 255]);
    assert!(parse_dhcp_hostname(&wrong_ports, &no_vendor).is_none());
    let mut bad_cookie = dhcp_frame(68, 67, chaddr, &[12, 1, b'x', 255]);
    let cookie_at = 14 + 20 + 8 + 236;
    bad_cookie[cookie_at] = 98;
    assert!(parse_dhcp_hostname(&bad_cookie, &no_vendor).is_none());
}

#[test]
fn dhcp_truncated_option_keeps_earlier_name() {
    let chaddr = [1, 2, 3, 4, 5, 6];
    let frame = dhcp_frame(68, 67, chaddr, &[12, 2, b'o', b'k', 12, 9, b'x']);
    let obs = parse_dhcp_hostname(&frame, &no_vendor).unwrap();
    assert_eq!(obs.dhcp_hostname.as_deref(), Some("ok"));
}

#[test]
fn dhcp_invalid_utf8_is_replaced() {
    let chaddr = [1, 2, 3, 4, 5, 6];
    let frame = dhcp_frame(68, 67, chaddr, &[12, 3, b'a', 0xff, b'b', 255]);
    let obs = parse_dhcp_hostname(&frame, &no_vendor).unwrap();
    assert_eq!(obs.dhcp_hostname.as_deref(), Some("a\u{fffd}b"));
}
