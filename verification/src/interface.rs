//! Which interface, subnet and gateway the agent watches: chosen from the
//! configuration, the kernel's default route and the host's interfaces.
use vstd::prelude::*;
use vstd::string::StrSliceExecFns;
use crate::net::{MacAddr, IpAddress, Ipv4Net};
use crate::model::{string_of, str_eq};
use crate::ipparse::{ip_parse, parse_ip};
use crate::text::{push_str, words, split_whitespace, split_lines, lines, parse_hex_u32, parse_hex_u32_spec};

verus! {

/// One address of an interface: IPv4 with its prefix length, or some IPv6 address.
#[derive(Clone, Copy, Debug, PartialEq, Eq, Structural)]
pub enum IfaceAddr {
    V4 { ip: u32, prefix: u8 },
    V6,
}

/// What the agent reads of a network interface of the host.
pub struct InterfaceInfo {
    pub name: String,
    pub is_loopback: bool,
    pub is_up: bool,
    pub ips: Vec<IfaceAddr>,
    pub mac: Option<MacAddr>,
}

pub struct InterfaceInfoView {
    pub name: Seq<char>,
    pub is_loopback: bool,
    pub is_up: bool,
    pub ips: Seq<IfaceAddr>,
    pub mac: Option<MacAddr>,
}

impl View for InterfaceInfo {
    type V = InterfaceInfoView;

    open spec fn view(&self) -> InterfaceInfoView {
        InterfaceInfoView {
            name: self.name@,
            is_loopback: self.is_loopback,
            is_up: self.is_up,
            ips: self.ips@,
            mac: self.mac,
        }
    }
}

pub open spec fn iface_views(v: Seq<InterfaceInfo>) -> Seq<InterfaceInfoView> {
    v.map_values(|i: InterfaceInfo| i@)
}

/// The network the agent watches.
#[derive(Debug)]
pub struct NetworkInfo {
    pub interface: String,
    pub subnet: Ipv4Net,
    pub gateway: Option<IpAddress>,
    pub local_ip: Option<IpAddress>,
    pub mac: Option<MacAddr>,
}

pub struct NetworkInfoView {
    pub interface: Seq<char>,
    pub subnet: Ipv4Net,
    pub gateway: Option<IpAddress>,
    pub local_ip: Option<IpAddress>,
    pub mac: Option<MacAddr>,
}

impl View for NetworkInfo {
    type V = NetworkInfoView;

    open spec fn view(&self) -> NetworkInfoView {
        NetworkInfoView {
            interface: self.interface@,
            subnet: self.subnet,
            gateway: self.gateway,
            local_ip: self.local_ip,
            mac: self.mac,
        }
    }
}

/// Why no network could be chosen.
#[derive(Debug)]
pub enum InterfaceError {
    NotFound,
    Other(String),
}

pub enum InterfaceErrorView {
    NotFound,
    Other(Seq<char>),
}

impl View for InterfaceError {
    type V = InterfaceErrorView;

    open spec fn view(&self) -> InterfaceErrorView {
        match self {
            InterfaceError::NotFound => InterfaceErrorView::NotFound,
            InterfaceError::Other(s) => InterfaceErrorView::Other(s@),
        }
    }
}

pub open spec fn interface_error_text(e: InterfaceErrorView) -> Seq<char> {
    match e {
        InterfaceErrorView::NotFound => "no network interface found"@,
        InterfaceErrorView::Other(s) => "interface error: "@ + s,
    }
}

impl InterfaceError {
    /// The error's text.
    pub fn message(&self) -> (r: String)
        ensures
            r@ == interface_error_text(self@),
    {
        match self {
            InterfaceError::NotFound => string_of("no network interface found"),
            InterfaceError::Other(s) => {
                let mut r = string_of("interface error: ");
                push_str(&mut r, s.as_str());
                r
            },
        }
    }
}

/// The configured gateway: `auto`, an address, or text that is no address.
#[derive(Debug)]
pub enum GatewaySetting {
    Auto,
    Address(IpAddress),
    Invalid(String),
}

pub enum GatewaySettingView {
    Auto,
    Address(IpAddress),
    Invalid(Seq<char>),
}

impl View for GatewaySetting {
    type V = GatewaySettingView;

    open spec fn view(&self) -> GatewaySettingView {
        match self {
            GatewaySetting::Auto => GatewaySettingView::Auto,
            GatewaySetting::Address(a) => GatewaySettingView::Address(*a),
            GatewaySetting::Invalid(s) => GatewaySettingView::Invalid(s@),
        }
    }
}

/// Reads the configured gateway: `auto`, else the IP address the text holds, else
/// invalid text.
pub fn gateway_setting(text: &str) -> (r: GatewaySetting)
    ensures
        r@ == (if text@ == "auto"@ {
            GatewaySettingView::Auto
        } else {
            match ip_parse(text@) {
                Some(a) => GatewaySettingView::Address(a),
                None => GatewaySettingView::Invalid(text@),
            }
        }),
{
    if str_eq(text, "auto") {
        GatewaySetting::Auto
    } else {
        match parse_ip(text) {
            Some(a) => GatewaySetting::Address(a),
            None => GatewaySetting::Invalid(string_of(text)),
        }
    }
}

// ---------------------------------------------------------------------------
// Scans over interfaces and addresses, first match wins
// ---------------------------------------------------------------------------
/// Index of the first interface from `i` on named `name`.
pub open spec fn find_named(ifs: Seq<InterfaceInfoView>, name: Seq<char>, i: int) -> Option<int>
    decreases ifs.len() - i,
{
    if i < 0 || i >= ifs.len() {
        None
    } else if ifs[i].name == name {
        Some(i)
    } else {
        find_named(ifs, name, i + 1)
    }
}

/// Index of the first interface from `i` on that is up, not loopback and has an
/// address.
pub open spec fn find_usable(ifs: Seq<InterfaceInfoView>, i: int) -> Option<int>
    decreases ifs.len() - i,
{
    if i < 0 || i >= ifs.len() {
        None
    } else if !ifs[i].is_loopback && ifs[i].is_up && ifs[i].ips.len() > 0 {
        Some(i)
    } else {
        find_usable(ifs, i + 1)
    }
}

/// The guessed gateway of a network: its network address with the last octet 1.
pub open spec fn guess_gateway_spec(net: Ipv4Net) -> u32 {
    (net.network_spec() - net.network_spec() % 256 + 1) as u32
}

/// The gateway guessed from the first IPv4 address (from `i` on) with a valid
/// prefix.
pub open spec fn guess_from(ips: Seq<IfaceAddr>, i: int) -> Option<u32>
    decreases ips.len() - i,
{
    if i < 0 || i >= ips.len() {
        None
    } else {
        match ips[i] {
            IfaceAddr::V4 { ip, prefix } => if prefix <= 32 {
                Some(guess_gateway_spec(Ipv4Net { addr: ip, prefix }))
            } else {
                guess_from(ips, i + 1)
            },
            IfaceAddr::V6 => guess_from(ips, i + 1),
        }
    }
}

/// The first IPv4 network (from `i` on) with a prefix of at most 30 that holds the
/// gateway, or any such network when there is no IPv4 gateway.
pub open spec fn pick_subnet(ips: Seq<IfaceAddr>, gw: Option<u32>, i: int) -> Option<Ipv4Net>
    decreases ips.len() - i,
{
    if i < 0 || i >= ips.len() {
        None
    } else {
        match ips[i] {
            IfaceAddr::V4 { ip, prefix } => {
                let net = Ipv4Net { addr: ip, prefix };
                if prefix <= 30 && match gw {
                    Some(g) => net.contains_spec(g),
                    None => true,
                } {
                    Some(net)
                } else {
                    pick_subnet(ips, gw, i + 1)
                }
            },
            IfaceAddr::V6 => pick_subnet(ips, gw, i + 1),
        }
    }
}

/// The first IPv4 address (from `i` on) inside `net`.
pub open spec fn local_in(ips: Seq<IfaceAddr>, net: Ipv4Net, i: int) -> Option<u32>
    decreases ips.len() - i,
{
    if i < 0 || i >= ips.len() {
        None
    } else {
        match ips[i] {
            IfaceAddr::V4 { ip, prefix } => if net.contains_spec(ip) {
                Some(ip)
            } else {
                local_in(ips, net, i + 1)
            },
            IfaceAddr::V6 => local_in(ips, net, i + 1),
        }
    }
}

pub(crate) fn find_named_exec(ifs: &Vec<InterfaceInfo>, name: &str) -> (r: Option<usize>)
    ensures
        match r {
            Some(k) => k < ifs.len() && find_named(iface_views(ifs@), name@, 0) == Some(k as int),
            None => find_named(iface_views(ifs@), name@, 0) is None,
        },
{
    let ghost v = iface_views(ifs@);
    let mut i: usize = 0;
    while i < ifs.len()
        invariant
            i <= ifs.len(),
            v == iface_views(ifs@),
            find_named(v, name@, 0) == find_named(v, name@, i as int),
        decreases ifs.len() - i,
    {
        if str_eq(ifs[i].name.as_str(), name) {
            return Some(i);
        }
        i += 1;
    }
    None
}

fn find_usable_exec(ifs: &Vec<InterfaceInfo>) -> (r: Option<usize>)
    ensures
        match r {
            Some(k) => k < ifs.len() && find_usable(iface_views(ifs@), 0) == Some(k as int),
            None => find_usable(iface_views(ifs@), 0) is None,
        },
{
    let ghost v = iface_views(ifs@);
    let mut i: usize = 0;
    while i < ifs.len()
        invariant
            i <= ifs.len(),
            v == iface_views(ifs@),
            find_usable(v, 0) == find_usable(v, i as int),
        decreases ifs.len() - i,
    {
        if !ifs[i].is_loopback && ifs[i].is_up && ifs[i].ips.len() > 0 {
            return Some(i);
        }
        i += 1;
    }
    None
}

/// The guessed gateway of a subnet: its network address with the last
/// octet replaced by 1.
pub fn guess_gateway(net: &Ipv4Net) -> (r: u32)
    requires
        net.wf(),
    ensures
        r == guess_gateway_spec(*net),
{
    let n = net.network();
    n - n % 256 + 1
}

fn guess_from_exec(ips: &Vec<IfaceAddr>) -> (r: Option<u32>)
    ensures
        r == guess_from(ips@, 0),
{
    let mut i: usize = 0;
    while i < ips.len()
        invariant
            i <= ips.len(),
            guess_from(ips@, 0) == guess_from(ips@, i as int),
        decreases ips.len() - i,
    {
        match ips[i] {
            IfaceAddr::V4 { ip, prefix } => {
                if let Some(net) = Ipv4Net::new(ip, prefix) {
                    return Some(guess_gateway(&net));
                }
            },
            IfaceAddr::V6 => {},
        }
        i += 1;
    }
    None
}

fn pick_subnet_exec(ips: &Vec<IfaceAddr>, gw: Option<u32>) -> (r: Option<Ipv4Net>)
    ensures
        r == pick_subnet(ips@, gw, 0),
        r matches Some(n) ==> n.wf(),
{
    let mut i: usize = 0;
    while i < ips.len()
        invariant
            i <= ips.len(),
            pick_subnet(ips@, gw, 0) == pick_subnet(ips@, gw, i as int),
        decreases ips.len() - i,
    {
        match ips[i] {
            IfaceAddr::V4 { ip, prefix } => {
                if prefix <= 30 {
                    let net = Ipv4Net { addr: ip, prefix };
                    let ok = match gw {
                        Some(g) => net.contains(g),
                        None => true,
                    };
                    if ok {
                        return Some(net);
                    }
                }
            },
            IfaceAddr::V6 => {},
        }
        i += 1;
    }
    None
}

fn local_in_exec(ips: &Vec<IfaceAddr>, net: &Ipv4Net) -> (r: Option<u32>)
    requires
        net.wf(),
    ensures
        r == local_in(ips@, *net, 0),
{
    let mut i: usize = 0;
    while i < ips.len()
        invariant
            i <= ips.len(),
            net.wf(),
            local_in(ips@, *net, 0) == local_in(ips@, *net, i as int),
        decreases ips.len() - i,
    {
        match ips[i] {
            IfaceAddr::V4 { ip, prefix } => {
                if net.contains(ip) {
                    return Some(ip);
                }
            },
            IfaceAddr::V6 => {},
        }
        i += 1;
    }
    None
}

// ---------------------------------------------------------------------------
// Choosing the network
// ---------------------------------------------------------------------------
/// The interface to watch and the gateway known so far.
pub open spec fn choose_interface(
    interface: Seq<char>,
    gateway: GatewaySettingView,
    ifs: Seq<InterfaceInfoView>,
    route: Option<(Seq<char>, u32)>,
) -> Result<(Seq<char>, Option<IpAddress>), InterfaceErrorView> {
    if interface == "auto"@ {
        match route {
            Some((iface, g)) => match gateway {
                GatewaySettingView::Auto => Ok((iface, Some(IpAddress::V4(g)))),
                GatewaySettingView::Address(a) => Ok((iface, Some(a))),
                GatewaySettingView::Invalid(t) => Err(InterfaceErrorView::Other("invalid gateway: "@ + t)),
            },
            None => match find_usable(ifs, 0) {
                None => Err(InterfaceErrorView::NotFound),
                Some(i) => Ok((
                    ifs[i].name,
                    match gateway {
                        GatewaySettingView::Address(a) => Some(a),
                        _ => None,
                    },
                )),
            },
        }
    } else {
        Ok((
            interface,
            match gateway {
                GatewaySettingView::Auto => match route {
                    Some((iface, g)) if iface == interface => Some(IpAddress::V4(g)),
                    _ => match find_named(ifs, interface, 0) {
                        Some(i) => match guess_from(ifs[i].ips, 0) {
                            Some(g) => Some(IpAddress::V4(g)),
                            None => None,
                        },
                        None => None,
                    },
                },
                GatewaySettingView::Address(a) => Some(a),
                GatewaySettingView::Invalid(_) => None,
            },
        ))
    }
}

/// The whole choice: the interface, then its IPv4 subnet (one holding the gateway
/// when there is an IPv4 gateway, else the first usable one), the interface's
/// address in that subnet, and the gateway (guessed from the subnet when unknown).
pub open spec fn detect_network_spec(
    interface: Seq<char>,
    gateway: GatewaySettingView,
    ifs: Seq<InterfaceInfoView>,
    route: Option<(Seq<char>, u32)>,
) -> Result<NetworkInfoView, InterfaceErrorView> {
    match choose_interface(interface, gateway, ifs, route) {
        Err(e) => Err(e),
        Ok((name, gw)) => match find_named(ifs, name, 0) {
            None => Err(InterfaceErrorView::Other("interface "@ + name + " not found"@)),
            Some(i) => {
                let ips = ifs[i].ips;
                let gw4 = match gw {
                    Some(IpAddress::V4(a)) => Some(a),
                    _ => None,
                };
                let subnet = match pick_subnet(ips, gw4, 0) {
                    Some(n) => Some(n),
                    None => pick_subnet(ips, None, 0),
                };
                match subnet {
                    None => Err(InterfaceErrorView::Other("no IPv4 subnet on interface"@)),
                    Some(net) => Ok(
                        NetworkInfoView {
                            interface: ifs[i].name,
                            subnet: net,
                            gateway: match gw {
                                Some(g) => Some(g),
                                None => Some(IpAddress::V4(guess_gateway_spec(net))),
                            },
                            local_ip: match local_in(ips, net, 0) {
                                Some(a) => Some(IpAddress::V4(a)),
                                None => None,
                            },
                            mac: ifs[i].mac,
                        },
                    ),
                }
            },
        },
    }
}

fn choose_interface_exec(
    interface: &str,
    gateway: &GatewaySetting,
    interfaces: &Vec<InterfaceInfo>,
    default_route: &Option<(String, u32)>,
) -> (r: Result<(String, Option<IpAddress>), InterfaceError>)
    ensures
        match choose_interface(
            interface@,
            gateway@,
            iface_views(interfaces@),
            match default_route {
                Some((i, g)) => Some((i@, *g)),
                None => None,
            },
        ) {
            Ok((n, g)) => r matches Ok((n2, g2)) && n2@ == n && g2 == g,
            Err(e) => r matches Err(e2) && e2@ == e,
        },
{
    if str_eq(interface, "auto") {
        match default_route {
            Some((iface, g)) => match gateway {
                GatewaySetting::Auto => Ok((iface.clone(), Some(IpAddress::V4(*g)))),
                GatewaySetting::Address(a) => Ok((iface.clone(), Some(*a))),
                GatewaySetting::Invalid(t) => {
                    let mut msg = string_of("invalid gateway: ");
                    push_str(&mut msg, t.as_str());
                    Err(InterfaceError::Other(msg))
                },
            },
            None => match find_usable_exec(interfaces) {
                None => Err(InterfaceError::NotFound),
                Some(i) => {
                    let gw = match gateway {
                        GatewaySetting::Address(a) => Some(*a),
                        _ => None,
                    };
                    proof {
                        assert(iface_views(interfaces@)[i as int] == interfaces@[i as int]@);
                    }
                    Ok((interfaces[i].name.clone(), gw))
                },
            },
        }
    } else {
        let gw = match gateway {
            GatewaySetting::Auto => {
                let from_route = match default_route {
                    Some((iface, g)) => if str_eq(iface.as_str(), interface) {
                        Some(IpAddress::V4(*g))
                    } else {
                        None
                    },
                    None => None,
                };
                match from_route {
                    Some(a) => Some(a),
                    None => match find_named_exec(interfaces, interface) {
                        Some(i) => match {
                            proof {
                                assert(iface_views(interfaces@)[i as int] == interfaces@[i as int]@);
                            }
                            guess_from_exec(&interfaces[i].ips)
                        } {
                            Some(g) => Some(IpAddress::V4(g)),
                            None => None,
                        },
                        None => None,
                    },
                }
            },
            GatewaySetting::Address(a) => Some(*a),
            GatewaySetting::Invalid(_) => None,
        };
        Ok((string_of(interface), gw))
    }
}

/// Chooses the network to watch from the configured interface (`auto` or a name),
/// the configured gateway, the host's interfaces and the kernel's default route.
pub fn detect_network(
    interface: &str,
    gateway: &GatewaySetting,
    interfaces: &Vec<InterfaceInfo>,
    default_route: &Option<(String, u32)>,
) -> (r: Result<NetworkInfo, InterfaceError>)
    ensures
        match detect_network_spec(
            interface@,
            gateway@,
            iface_views(interfaces@),
            match default_route {
                Some((i, g)) => Some((i@, *g)),
                None => None,
            },
        ) {
            Ok(n) => r matches Ok(n2) && n2@ == n,
            Err(e) => r matches Err(e2) && e2@ == e,
        },
{
    let (name, gw) = match choose_interface_exec(interface, gateway, interfaces, default_route) {
        Ok(p) => p,
        Err(e) => return Err(e),
    };
    let i = match find_named_exec(interfaces, name.as_str()) {
        Some(i) => i,
        None => {
            let mut msg = string_of("interface ");
            push_str(&mut msg, name.as_str());
            push_str(&mut msg, " not found");
            proof {
                assert(msg@ =~= "interface "@ + name@ + " not found"@);
            }
            return Err(InterfaceError::Other(msg));
        },
    };
    let iface = &interfaces[i];
    proof {
        assert(iface_views(interfaces@)[i as int] == iface@);
    }
    let gw4 = match gw {
        Some(IpAddress::V4(a)) => Some(a),
        _ => None,
    };
    let subnet = match pick_subnet_exec(&iface.ips, gw4) {
        Some(n) => n,
        None => match pick_subnet_exec(&iface.ips, None) {
            Some(n) => n,
            None => {
                proof {
                    assert(pick_subnet(iface@.ips, gw4, 0) is None);
                }
                return Err(InterfaceError::Other(string_of("no IPv4 subnet on interface")));
            },
        },
    };
    let local_ip = match local_in_exec(&iface.ips, &subnet) {
        Some(a) => Some(IpAddress::V4(a)),
        None => None,
    };
    let gateway_ip = match gw {
        Some(g) => Some(g),
        None => Some(IpAddress::V4(guess_gateway(&subnet))),
    };
    Ok(NetworkInfo { interface: iface.name.clone(), subnet, gateway: gateway_ip, local_ip, mac: iface.mac })
}

// ---------------------------------------------------------------------------
// The kernel's default route
// ---------------------------------------------------------------------------
/// The IPv4 address whose octets are the little-endian bytes of `v` (how the
/// routing table prints addresses).
pub open spec fn swap_bytes(v: u32) -> u32 {
    ((v % 256) * 0x1000000 + ((v / 256) % 256) * 0x10000 + ((v / 0x10000) % 256) * 256 + v
        / 0x1000000) as u32
}

/// What one line of the routing table says: not a usable default route, a
/// default route via a gateway, or a gateway column that is no hex number (which
/// ends the search).
pub enum RouteLine {
    Skip,
    Found(Seq<char>, u32),
    Stop,
}

pub open spec fn route_line(line: Seq<char>) -> RouteLine {
    let parts = words(line);
    if parts.len() < 3 || parts[1] != "00000000"@ {
        RouteLine::Skip
    } else if vstd::utf8::encode_utf8(parts[2]).len() != 8 {
        RouteLine::Skip
    } else {
        match parse_hex_u32_spec(parts[2]) {
            None => RouteLine::Stop,
            Some(v) => if swap_bytes(v) == 0 {
                RouteLine::Skip
            } else {
                RouteLine::Found(parts[0], swap_bytes(v))
            },
        }
    }
}

/// The first default route in lines `i..` of the routing table.
pub open spec fn route_scan(ls: Seq<Seq<char>>, i: int) -> Option<(Seq<char>, u32)>
    decreases ls.len() - i,
{
    if i < 0 || i >= ls.len() {
        None
    } else {
        match route_line(ls[i]) {
            RouteLine::Skip => route_scan(ls, i + 1),
            RouteLine::Found(name, ip) => Some((name, ip)),
            RouteLine::Stop => None,
        }
    }
}

fn swap_bytes_exec(v: u32) -> (r: u32)
    ensures
        r == swap_bytes(v),
{
    let a = (v % 256) as u64;
    let b = ((v / 256) % 256) as u64;
    let c = ((v / 0x10000) % 256) as u64;
    let d = (v / 0x1000000) as u64;
    (a * 0x1000000 + b * 0x10000 + c * 256 + d) as u32
}

/// The default route in the text of `/proc/net/route` (after its header line):
/// the interface and the gateway of the first line with destination `00000000`,
/// an eight-byte gateway column and a gateway other than 0.0.0.0.
pub fn default_route_from(content: &str) -> (r: Option<(String, u32)>)
    ensures
        match route_scan(lines(content@), 1) {
            Some((n, g)) => r matches Some((n2, g2)) && n2@ == n && g2 == g,
            None => r is None,
        },
{
    let ls = split_lines(content);
    let ghost lv = ls@.map_values(|p: String| p@);
    let mut i: usize = 1;
    while i < ls.len()
        invariant
            1 <= i,
            lv == ls@.map_values(|p: String| p@),
            lv == lines(content@),
            route_scan(lv, 1) == route_scan(lv, i as int),
        decreases ls.len() - i,
    {
        let parts = split_whitespace(ls[i].as_str());
        let ghost pv = parts@.map_values(|p: String| p@);
        proof {
            assert(lv[i as int] == ls@[i as int]@);
        }
        if parts.len() >= 3 && str_eq(parts[1].as_str(), "00000000") {
            proof {
                assert(pv[1] == parts@[1]@);
                assert(pv[2] == parts@[2]@);
                assert(pv[0] == parts@[0]@);
            }
            let gw_hex = parts[2].as_str();
            let bytes = gw_hex.as_bytes_vec();
            if bytes.len() == 8 {
                match parse_hex_u32(gw_hex) {
                    None => return None,
                    Some(v) => {
                        let ip = swap_bytes_exec(v);
                        if ip != 0 {
                            return Some((parts[0].clone(), ip));
                        }
                    },
                }
            }
        } else {
            proof {
                if parts.len() >= 3 {
                    assert(pv[1] == parts@[1]@);
                }
            }
        }
        i += 1;
    }
    None
}

proof fn lemma_find_named_found(ifs: Seq<InterfaceInfoView>, name: Seq<char>, i: int)
    ensures
        find_named(ifs, name, i) matches Some(k) ==> 0 <= k < ifs.len() && ifs[k].name == name,
    decreases ifs.len() - i,
{
    if 0 <= i < ifs.len() && ifs[i].name != name {
        lemma_find_named_found(ifs, name, i + 1);
    }
}

/// With a named interface and the gateway set to `auto`, when the kernel's default
/// route goes through that interface, the detected network is that interface and
/// its gateway is the route's gateway.
pub proof fn law_named_interface_uses_its_default_route(
    interface: Seq<char>,
    ifs: Seq<InterfaceInfoView>,
    g: u32,
)
    requires
        interface != "auto"@,
    ensures
        detect_network_spec(interface, GatewaySettingView::Auto, ifs, Some((interface, g))) matches Ok(n) ==> n.gateway
            == Some(IpAddress::V4(g)) && n.interface == interface,
{
    if let Some(i) = find_named(ifs, interface, 0) {
        lemma_find_named_found(ifs, interface, 0);
    }
}

} // verus!
