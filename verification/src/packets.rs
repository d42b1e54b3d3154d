//! Packets on the wire: ARP replies to the active sweep, ARP requests it sends,
//! and the ARP and DHCP traffic that passive capture observes.
use vstd::prelude::*;
use crate::net::{MacAddr, IpAddress};
use crate::model::DeviceSnapshot;
use pnet::packet::arp::{ArpPacket, MutableArpPacket, ArpHardwareTypes, ArpOperations};
use pnet::packet::ethernet::{EthernetPacket, MutableEthernetPacket, EtherType, EtherTypes};
use pnet::packet::Packet;

verus! {

/// Big-endian 16-bit value of two bytes.
pub open spec fn be16(hi: u8, lo: u8) -> int {
    hi as int * 256 + lo as int
}

/// Big-endian 32-bit value of four bytes.
pub open spec fn be32(a: u8, b: u8, c: u8, d: u8) -> int {
    ((a as int * 256 + b as int) * 256 + c as int) * 256 + d as int
}

/// The fields of an ARP packet for IPv4 over Ethernet that the sweep reads.
pub struct ArpFields {
    pub operation: u16,
    pub sender_mac: MacAddr,
    pub sender_ip: u32,
    pub target_ip: u32,
}

pub open spec fn mac_at(p: Seq<u8>, i: int) -> MacAddr {
    MacAddr(p[i], p[i + 1], p[i + 2], p[i + 3], p[i + 4], p[i + 5])
}

pub open spec fn mac_bytes(m: MacAddr) -> Seq<u8> {
    seq![m.0, m.1, m.2, m.3, m.4, m.5]
}

pub open spec fn ip_bytes(ip: u32) -> Seq<u8> {
    seq![
        (ip / 0x1000000) as u8,
        ((ip / 0x10000) % 256) as u8,
        ((ip / 0x100) % 256) as u8,
        (ip % 256) as u8,
    ]
}

/// pnet's `EthernetPacket::new` and its `get_ethertype` and `payload`: there is a
/// packet when the buffer holds at least the 14-byte header; the ether type is
/// bytes 12 and 13, big-endian, and the payload is everything after the header.
#[verifier::external_body]
fn pnet_ethernet(packet: &[u8]) -> (r: Option<(u16, Vec<u8>)>)
    ensures
        r is None <==> packet@.len() < 14,
        r matches Some((t, payload)) ==> t == be16(packet@[12], packet@[13]) && payload@ == packet@.subrange(
            14,
            packet@.len() as int,
        ),
{
    EthernetPacket::new(packet).map(|e| (e.get_ethertype().0, e.payload().to_vec()))
}

/// pnet's `ArpPacket::new` and the field getters the sweep uses: there is a packet
/// when the buffer holds the 28 bytes of an Ethernet/IPv4 ARP packet (pnet reads
/// the fixed layout and ignores the length bytes); the operation is bytes 6..8,
/// the sender's MAC bytes 8..14, its IPv4 address bytes 14..18 and the target's
/// IPv4 address bytes 24..28, all big-endian.
#[verifier::external_body]
fn pnet_arp(payload: &[u8]) -> (r: Option<ArpFields>)
    ensures
        r is None <==> payload@.len() < 28,
        r matches Some(f) ==> {
            let p = payload@;
            &&& f.operation == be16(p[6], p[7])
            &&& f.sender_mac == mac_at(p, 8)
            &&& f.sender_ip == be32(p[14], p[15], p[16], p[17])
            &&& f.target_ip == be32(p[24], p[25], p[26], p[27])
        },
{
    ArpPacket::new(payload).map(|a| {
        let hw = a.get_sender_hw_addr();
        ArpFields {
            operation: a.get_operation().0,
            sender_mac: MacAddr(hw.0, hw.1, hw.2, hw.3, hw.4, hw.5),
            sender_ip: u32::from(a.get_sender_proto_addr()),
            target_ip: u32::from(a.get_target_proto_addr()),
        }
    })
}

/// What a frame received during the sweep says about a neighbour, if anything.
pub open spec fn arp_reply_spec(p: Seq<u8>, our_ip: u32) -> Option<(u32, MacAddr)> {
    if p.len() < 14 + 28 || be16(p[12], p[13]) != 0x0806 {
        None
    } else {
        let op = be16(p[20], p[21]);
        let sender_ip = be32(p[28], p[29], p[30], p[31]);
        let target_ip = be32(p[38], p[39], p[40], p[41]);
        if sender_ip == our_ip || sender_ip == 0 || sender_ip == 0xffff_ffff {
            None
        } else if op == 2 || (op == 1 && target_ip == our_ip) {
            Some((sender_ip as u32, mac_at(p, 22)))
        } else {
            None
        }
    }
}

/// Reads a frame received during the ARP sweep: an ARP reply, or an ARP request
/// addressed to us, from another host with a usable address gives that host's
/// IPv4 and MAC address.
pub fn parse_arp_reply(packet: &[u8], our_ip: u32) -> (r: Option<(u32, MacAddr)>)
    ensures
        r == arp_reply_spec(packet@, our_ip),
{
    let (ethertype, payload) = match pnet_ethernet(packet) {
        Some(e) => e,
        None => return None,
    };
    if ethertype != 0x0806 {
        return None;
    }
    let arp = match pnet_arp(payload.as_slice()) {
        Some(a) => a,
        None => return None,
    };
    proof {
        let p = packet@;
        let q = payload@;
        assert(q == p.subrange(14, p.len() as int));
        assert(q[6] == p[20] && q[7] == p[21]);
        assert(q[8] == p[22] && q[9] == p[23] && q[10] == p[24] && q[11] == p[25] && q[12] == p[26] && q[13] == p[27]);
        assert(q[14] == p[28] && q[15] == p[29] && q[16] == p[30] && q[17] == p[31]);
        assert(q[24] == p[38] && q[25] == p[39] && q[26] == p[40] && q[27] == p[41]);
    }
    let sender_ip = arp.sender_ip;
    if sender_ip == our_ip || sender_ip == 0 || sender_ip == 0xffff_ffff {
        return None;
    }
    if arp.operation == 2 {
    } else if arp.operation == 1 {
        if arp.target_ip != our_ip {
            return None;
        }
    } else {
        return None;
    }
    Some((sender_ip, arp.sender_mac))
}

/// The 28 bytes of an ARP request for `target_ip` from `sender_mac`/`sender_ip`:
/// Ethernet hardware, IPv4 protocol, address lengths 6 and 4, operation 1, a zero
/// target MAC.
pub open spec fn arp_request_bytes(sender_mac: MacAddr, sender_ip: u32, target_ip: u32) -> Seq<u8> {
    seq![0u8, 1u8, 8u8, 0u8, 6u8, 4u8, 0u8, 1u8] + mac_bytes(sender_mac) + ip_bytes(sender_ip) + seq![
        0u8,
        0u8,
        0u8,
        0u8,
        0u8,
        0u8,
    ] + ip_bytes(target_ip)
}

/// Fills a 28-byte buffer with pnet's `MutableArpPacket` setters, as an ARP request
/// (hardware type Ethernet, protocol IPv4, lengths 6 and 4, operation request, zero
/// target MAC); the setters write each field big-endian at its fixed offset.
#[verifier::external_body]
fn pnet_arp_request(sender_mac: MacAddr, sender_ip: u32, target_ip: u32) -> (r: Vec<u8>)
    ensures
        r@ == arp_request_bytes(sender_mac, sender_ip, target_ip),
{
    let mut buf = vec![0u8; 28];
    if let Some(mut arp) = MutableArpPacket::new(&mut buf) {
        arp.set_hardware_type(ArpHardwareTypes::Ethernet);
        arp.set_protocol_type(EtherTypes::Ipv4);
        arp.set_hw_addr_len(6);
        arp.set_proto_addr_len(4);
        arp.set_operation(ArpOperations::Request);
        arp.set_sender_hw_addr(pnet::util::MacAddr(sender_mac.0, sender_mac.1, sender_mac.2, sender_mac.3, sender_mac.4, sender_mac.5));
        arp.set_sender_proto_addr(sender_ip.into());
        arp.set_target_hw_addr(pnet::util::MacAddr::zero());
        arp.set_target_proto_addr(target_ip.into());
    }
    buf
}

/// Fills a buffer of `frame_len` bytes with pnet's `MutableEthernetPacket`
/// setters: destination, source, ether type (big-endian) and the payload after the
/// 14-byte header.
#[verifier::external_body]
fn pnet_ethernet_frame(frame_len: usize, dst: MacAddr, src: MacAddr, ethertype: u16, payload: &[u8]) -> (r: Vec<u8>)
    requires
        frame_len == 14 + payload@.len(),
    ensures
        r@ == mac_bytes(dst) + mac_bytes(src) + seq![(ethertype / 256) as u8, (ethertype % 256) as u8] + payload@,
{
    let mut buf = vec![0u8; frame_len];
    if let Some(mut eth) = MutableEthernetPacket::new(&mut buf) {
        eth.set_destination(pnet::util::MacAddr(dst.0, dst.1, dst.2, dst.3, dst.4, dst.5));
        eth.set_source(pnet::util::MacAddr(src.0, src.1, src.2, src.3, src.4, src.5));
        eth.set_ethertype(EtherType(ethertype));
        eth.set_payload(payload);
    }
    buf
}

/// The broadcast Ethernet frame that asks who has `target_ip`.
pub open spec fn arp_request_frame_spec(src_mac: MacAddr, src_ip: u32, target_ip: u32) -> Seq<u8> {
    mac_bytes(MacAddr(0xff, 0xff, 0xff, 0xff, 0xff, 0xff)) + mac_bytes(src_mac) + seq![8u8, 6u8]
        + arp_request_bytes(src_mac, src_ip, target_ip)
}

/// The 42-byte broadcast frame carrying an ARP request for `target_ip`.
pub fn arp_request_frame(src_mac: MacAddr, src_ip: u32, target_ip: u32) -> (r: Vec<u8>)
    ensures
        r@ == arp_request_frame_spec(src_mac, src_ip, target_ip),
        r@.len() == 42,
{
    let arp = pnet_arp_request(src_mac, src_ip, target_ip);
    proof {
        assert(arp@.len() == 28);
    }
    let frame = pnet_ethernet_frame(42, MacAddr(0xff, 0xff, 0xff, 0xff, 0xff, 0xff), src_mac, 0x0806, arp.as_slice());
    proof {
        assert(((0x0806u16 / 256) as u8) == 8u8);
        assert(((0x0806u16 % 256) as u8) == 6u8);
        assert(frame@ =~= arp_request_frame_spec(src_mac, src_ip, target_ip));
    }
    frame
}

/// etherparse's `ArpPacket::from_slice`, with the operation and the sender's
/// addresses read back: it fails when the slice is shorter than 8 bytes or than
/// `8 + 2 * h + 2 * p`, where `h` and `p` are the hardware and protocol address
/// lengths in bytes 4 and 5; the operation is bytes 6..8 (big-endian), the sender's
/// hardware address the `h` bytes from 8, and its protocol address the `p` bytes
/// after those.
#[verifier::external_body]
fn etherparse_arp(slice: &[u8]) -> (r: Option<(u16, Vec<u8>, Vec<u8>)>)
    ensures
        r is None <==> (slice@.len() < 8 || slice@.len() < 8 + 2 * slice@[4] + 2 * slice@[5]),
        r matches Some((op, hw, proto)) ==> {
            let s = slice@;
            let h = s[4] as int;
            let p = s[5] as int;
            &&& op == be16(s[6], s[7])
            &&& hw@ == s.subrange(8, 8 + h)
            &&& proto@ == s.subrange(8 + h, 8 + h + p)
        },
{
    etherparse::ArpPacket::from_slice(slice).ok().map(
        |a| (a.operation.0, a.sender_hw_addr().to_vec(), a.sender_protocol_addr().to_vec()),
    )
}

/// What `String::from_utf8_lossy` makes of a byte string.
pub uninterp spec fn utf8_lossy(b: Seq<u8>) -> Seq<char>;

/// `String::from_utf8_lossy`, owned; the result is named by `utf8_lossy`.
#[verifier::external_body]
fn from_utf8_lossy(b: &[u8]) -> (r: String)
    ensures
        r@ == utf8_lossy(b@),
{
    String::from_utf8_lossy(b).into_owned()
}

/// A device seen in captured traffic, with the host name it gave in DHCP, if any.
pub struct PassiveObservation {
    pub snapshot: DeviceSnapshot,
    pub dhcp_hostname: Option<String>,
}

/// An observation as plain values: the device's MAC, its IPv4 address from ARP,
/// and the raw bytes of the host name it gave in DHCP.
pub struct Sighting {
    pub mac: MacAddr,
    pub ip: Option<u32>,
    pub hostname: Option<Seq<u8>>,
}

/// The DHCP options from `pos` on: the last host-name option (code 12) before the
/// end option (255), the end of the data, or an option that runs past the end.
pub open spec fn dhcp_hostname_opt(data: Seq<u8>, pos: int, host: Option<Seq<u8>>) -> Option<Seq<u8>>
    decreases data.len() - pos,
{
    if pos < 0 || pos >= data.len() {
        host
    } else if data[pos] == 255 {
        host
    } else if data[pos] == 0 {
        dhcp_hostname_opt(data, pos + 1, host)
    } else if pos + 1 >= data.len() {
        host
    } else {
        let len = data[pos + 1] as int;
        if pos + 2 + len > data.len() {
            host
        } else {
            dhcp_hostname_opt(
                data,
                pos + 2 + len,
                if data[pos] == 12 { Some(data.subrange(pos + 2, pos + 2 + len)) } else { host },
            )
        }
    }
}

/// A DHCP message between a client and a server (UDP ports 67 and 68, either
/// way) in an IPv4-over-Ethernet frame: the client's hardware address and the host
/// name it gave.
pub open spec fn dhcp_spec(d: Seq<u8>) -> Option<Sighting> {
    if d.len() < 42 || be16(d[12], d[13]) != 0x0800 {
        None
    } else {
        let ihl = (d[14] % 16) as int * 4;
        if d.len() < 14 + ihl + 8 || d[23] != 17 {
            None
        } else {
            let udp = 14 + ihl;
            let src = be16(d[udp], d[udp + 1]);
            let dst = be16(d[udp + 2], d[udp + 3]);
            let bootp = udp + 8;
            if !((src == 68 && dst == 67) || (src == 67 && dst == 68)) {
                None
            } else if d.len() < bootp + 240 {
                None
            } else if d.subrange(bootp + 236, bootp + 240) != seq![99u8, 130u8, 83u8, 99u8] {
                None
            } else {
                Some(Sighting { mac: mac_at(d, bootp + 28), ip: None, hostname: dhcp_hostname_opt(d, bootp + 240, None) })
            }
        }
    }
}

/// An ARP request or reply (after the 14-byte Ethernet header) whose sender has a
/// 6-byte hardware address and a 4-byte protocol address: `Some(None)` when the
/// addresses have other lengths (the frame is dropped), `Some(Some(..))` when the
/// sender's IPv4 address is neither 0.0.0.0 nor the broadcast address, `None` when
/// the frame is no such ARP packet.
pub open spec fn passive_arp_spec(d: Seq<u8>) -> Option<Option<Sighting>> {
    if d.len() < 14 {
        None
    } else {
        let s = d.subrange(14, d.len() as int);
        if s.len() < 8 || s.len() < 8 + 2 * s[4] + 2 * s[5] {
            None
        } else {
            let op = be16(s[6], s[7]);
            let h = s[4] as int;
            let p = s[5] as int;
            if !(op == 1 || op == 2) {
                None
            } else if h != 6 || p != 4 {
                Some(None)
            } else {
                let ip = be32(s[8 + h], s[9 + h], s[10 + h], s[11 + h]);
                if ip == 0 || ip == 0xffff_ffff {
                    None
                } else {
                    Some(Some(Sighting { mac: mac_at(s, 8), ip: Some(ip as u32), hostname: None }))
                }
            }
        }
    }
}

/// What passive capture learns from a frame: first as ARP, else as DHCP.
pub open spec fn passive_spec(d: Seq<u8>) -> Option<Sighting> {
    match passive_arp_spec(d) {
        Some(r) => r,
        None => dhcp_spec(d),
    }
}

pub open spec fn observation_matches(o: PassiveObservation, s: Sighting) -> bool {
    &&& o.snapshot.mac == s.mac
    &&& o.snapshot.ip == match s.ip {
        Some(a) => Some(IpAddress::V4(a)),
        None => None::<IpAddress>,
    }
    &&& match s.hostname {
        Some(b) => {
            &&& o.snapshot.hostname is Some
            &&& o.snapshot.hostname->0@ == utf8_lossy(b)
            &&& o.dhcp_hostname is Some
            &&& o.dhcp_hostname->0@ == utf8_lossy(b)
        },
        None => o.snapshot.hostname is None && o.dhcp_hostname is None,
    }
}

fn be16_at(d: &[u8], i: usize) -> (r: u16)
    requires
        i + 1 < d@.len(),
    ensures
        r == be16(d@[i as int], d@[i + 1]),
{
    (d[i] as u16) * 256 + (d[i + 1] as u16)
}

fn dhcp_hostname_scan(data: &[u8], start: usize) -> (r: Option<(usize, usize)>)
    ensures
        match r {
            Some((a, b)) => a <= b <= data@.len() && dhcp_hostname_opt(data@, start as int, None)
                == Some(data@.subrange(a as int, b as int)),
            None => dhcp_hostname_opt(data@, start as int, None) is None,
        },
{
    let mut pos = start;
    let mut host: Option<(usize, usize)> = None;
    while pos < data.len()
        invariant
            match host {
                Some((a, b)) => a <= b <= data@.len() && dhcp_hostname_opt(data@, start as int, None)
                    == dhcp_hostname_opt(data@, pos as int, Some(data@.subrange(a as int, b as int))),
                None => dhcp_hostname_opt(data@, start as int, None) == dhcp_hostname_opt(
                    data@,
                    pos as int,
                    None,
                ),
            },
        ensures
            match host {
                Some((a, b)) => a <= b <= data@.len() && dhcp_hostname_opt(data@, start as int, None)
                    == Some(data@.subrange(a as int, b as int)),
                None => dhcp_hostname_opt(data@, start as int, None) is None,
            },
        decreases data.len() - pos,
    {
        let code = data[pos];
        if code == 255 {
            break;
        }
        if code == 0 {
            pos += 1;
            continue;
        }
        if pos + 1 >= data.len() {
            break;
        }
        let len = data[pos + 1] as usize;
        if len > data.len() - (pos + 2) {
            break;
        }
        if code == 12 {
            host = Some((pos + 2, pos + 2 + len));
        }
        pos = pos + 2 + len;
    }
    host
}

fn sighting_to_observation(
    data: &[u8],
    mac: MacAddr,
    ip: Option<u32>,
    host: Option<(usize, usize)>,
    vendor: Option<String>,
) -> (o: PassiveObservation)
    requires
        match host {
            Some((a, b)) => a <= b <= data@.len(),
            None => true,
        },
    ensures
        observation_matches(
            o,
            Sighting {
                mac,
                ip,
                hostname: match host {
                    Some((a, b)) => Some(data@.subrange(a as int, b as int)),
                    None => None,
                },
            },
        ),
        o.snapshot.vendor == vendor,
{
    let (hostname, dhcp_hostname) = match host {
        Some((a, b)) => {
            let name = from_utf8_lossy(vstd::slice::slice_subrange(data, a, b));
            (Some(name.clone()), Some(name))
        },
        None => (None, None),
    };
    let ip = match ip {
        Some(a) => Some(IpAddress::V4(a)),
        None => None,
    };
    PassiveObservation { snapshot: DeviceSnapshot { mac, ip, hostname, vendor }, dhcp_hostname }
}

/// Reads the client's hardware address and host name from a captured DHCP frame;
/// the vendor is what `vendor_of` gives for that address.
pub fn parse_dhcp_hostname<F: Fn(MacAddr) -> Option<String>>(data: &[u8], vendor_of: &F) -> (r: Option<
    PassiveObservation,
>)
    requires
        forall|m: MacAddr| vendor_of.requires((m,)),
    ensures
        match dhcp_spec(data@) {
            Some(s) => r matches Some(o) && observation_matches(o, s) && vendor_of.ensures((s.mac,), o.snapshot.vendor),
            None => r is None,
        },
{
    if data.len() < 42 {
        return None;
    }
    let ethertype = be16_at(data, 12);
    if ethertype != 0x0800 {
        return None;
    }
    let ihl = ((data[14] % 16) as usize) * 4;
    if data.len() < 14 + ihl + 8 {
        return None;
    }
    if data[23] != 17 {
        return None;
    }
    let udp = 14 + ihl;
    let src_port = be16_at(data, udp);
    let dst_port = be16_at(data, udp + 2);
    if !((src_port == 68 && dst_port == 67) || (src_port == 67 && dst_port == 68)) {
        return None;
    }
    let bootp = udp + 8;
    if data.len() < bootp + 240 {
        return None;
    }
    let opt = bootp + 236;
    if !(data[opt] == 99 && data[opt + 1] == 130 && data[opt + 2] == 83 && data[opt + 3] == 99) {
        proof {
            assert(data@.subrange(opt as int, opt + 4) != seq![99u8, 130u8, 83u8, 99u8]) by {
                let t = data@.subrange(opt as int, opt + 4);
                assert(t[0] == data@[opt as int] && t[1] == data@[opt + 1] && t[2] == data@[opt + 2] && t[3] == data@[opt + 3]);
            }
        }
        return None;
    }
    proof {
        assert(data@.subrange(opt as int, opt + 4) =~= seq![99u8, 130u8, 83u8, 99u8]);
    }
    let mac = MacAddr(data[bootp + 28], data[bootp + 29], data[bootp + 30], data[bootp + 31], data[bootp + 32], data[bootp + 33]);
    let host = dhcp_hostname_scan(data, opt + 4);
    let vendor = vendor_of(mac);
    Some(sighting_to_observation(data, mac, None, host, vendor))
}

/// Reads what a captured frame says about a device: an ARP request or reply gives
/// the sender's MAC and IPv4 address, a DHCP message the client's MAC and host
/// name; the vendor is what `vendor_of` gives for that address.
pub fn parse_packet<F: Fn(MacAddr) -> Option<String>>(data: &[u8], vendor_of: &F) -> (r: Option<PassiveObservation>)
    requires
        forall|m: MacAddr| vendor_of.requires((m,)),
    ensures
        match passive_spec(data@) {
            Some(s) => r matches Some(o) && observation_matches(o, s) && vendor_of.ensures((s.mac,), o.snapshot.vendor),
            None => r is None,
        },
{
    if data.len() >= 14 {
        let rest = vstd::slice::slice_subrange(data, 14, data.len());
        if let Some((op, hw, proto)) = etherparse_arp(rest) {
            if op == 1 || op == 2 {
                if hw.len() != 6 {
                    return None;
                }
                if proto.len() != 4 {
                    return None;
                }
                let ip = ((proto[0] as u32 * 256 + proto[1] as u32) * 256 + proto[2] as u32) * 256 + proto[3] as u32;
                proof {
                    let s = data@.subrange(14, data@.len() as int);
                    assert(rest@ == s);
                    assert(hw@[0] == s[8] && hw@[1] == s[9] && hw@[2] == s[10] && hw@[3] == s[11] && hw@[4] == s[12] && hw@[5] == s[13]);
                    assert(proto@[0] == s[14] && proto@[1] == s[15] && proto@[2] == s[16] && proto@[3] == s[17]);
                }
                if ip != 0 && ip != 0xffff_ffff {
                    let mac = MacAddr(hw[0], hw[1], hw[2], hw[3], hw[4], hw[5]);
                    let vendor = vendor_of(mac);
                    return Some(sighting_to_observation(data, mac, Some(ip), None, vendor));
                }
            }
        }
    }
    parse_dhcp_hostname(data, vendor_of)
}

/// Passive capture never reports a device at the unspecified address 0.0.0.0 or
/// at the broadcast address 255.255.255.255: ARP frames from such senders are
/// ignored, and DHCP sightings carry no address.
pub proof fn law_passive_sighting_address_usable(d: Seq<u8>)
    ensures
        passive_spec(d) matches Some(s) ==> (s.ip matches Some(a) ==> a != 0 && a != 0xffff_ffffu32),
{
    if let Some(Some(s)) = passive_arp_spec(d) {
        let t = d.subrange(14, d.len() as int);
        let ip = be32(t[14], t[15], t[16], t[17]);
        assert(0 <= ip < 0x1_0000_0000) by (nonlinear_arith)
            requires
                ip == be32(t[14], t[15], t[16], t[17]),
                0 <= t[14] < 256,
                0 <= t[15] < 256,
                0 <= t[16] < 256,
                0 <= t[17] < 256,
        {
        }
    }
}

} // verus!
