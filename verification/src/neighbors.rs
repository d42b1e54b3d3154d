//! Neighbours on the LAN: the kernel's ARP cache, and the plan of an active ARP
//! sweep and the replies it collects.
use vstd::prelude::*;
use crate::net::{MacAddr, Ipv4Net, ipv4_parse, parse_ipv4, parse_mac, mac_address_parse, subnet_host_ips, subnet_hosts};
use crate::model::{string_of, str_eq};
use crate::text::{push_str, words, split_whitespace, split_lines, lines, parse_hex_u32, parse_hex_u32_spec, trim_start_seq, trim_start_matches_str};
use crate::interface::{InterfaceInfo, IfaceAddr, iface_views, find_named, find_named_exec};

verus! {

/// No two entries share an IPv4 address.
pub open spec fn ips_distinct(s: Seq<(u32, MacAddr)>) -> bool {
    forall|i: int, j: int| 0 <= i < s.len() && 0 <= j < s.len() && i != j ==> s[i].0 != s[j].0
}

pub open spec fn has_ip(s: Seq<(u32, MacAddr)>, ip: u32) -> bool {
    exists|i: int| 0 <= i < s.len() && s[i].0 == ip
}

/// The entries as a map from IPv4 address to MAC address.
pub open spec fn pairs_map(s: Seq<(u32, MacAddr)>) -> Map<u32, MacAddr> {
    Map::new(|ip: u32| has_ip(s, ip), |ip: u32| s[choose|i: int| 0 <= i < s.len() && s[i].0 == ip].1)
}

proof fn lemma_pairs_lookup(s: Seq<(u32, MacAddr)>, i: int)
    requires
        ips_distinct(s),
        0 <= i < s.len(),
    ensures
        pairs_map(s).contains_key(s[i].0),
        pairs_map(s)[s[i].0] == s[i].1,
{
    assert(has_ip(s, s[i].0));
    let j = choose|j: int| 0 <= j < s.len() && s[j].0 == s[i].0;
    assert(j == i);
}

proof fn lemma_pairs_update(s: Seq<(u32, MacAddr)>, i: int, e: (u32, MacAddr))
    requires
        ips_distinct(s),
        0 <= i < s.len(),
        e.0 == s[i].0,
    ensures
        ips_distinct(s.update(i, e)),
        pairs_map(s.update(i, e)) == pairs_map(s).insert(e.0, e.1),
{
    let t = s.update(i, e);
    assert forall|a: int, b: int| 0 <= a < t.len() && 0 <= b < t.len() && a != b implies t[a].0 != t[b].0 by {
        assert(t[a].0 == s[a].0);
        assert(t[b].0 == s[b].0);
    }
    assert forall|ip: u32| #[trigger] has_ip(t, ip) == has_ip(s, ip) by {
        if has_ip(s, ip) {
            let j = choose|j: int| 0 <= j < s.len() && s[j].0 == ip;
            assert(t[j].0 == ip);
        }
        if has_ip(t, ip) {
            let j = choose|j: int| 0 <= j < t.len() && t[j].0 == ip;
            assert(s[j].0 == ip);
        }
    }
    assert forall|ip: u32| pairs_map(t).contains_key(ip) implies pairs_map(t)[ip] == pairs_map(s).insert(
        e.0,
        e.1,
    )[ip] by {
        let j = choose|j: int| 0 <= j < t.len() && t[j].0 == ip;
        lemma_pairs_lookup(t, j);
        if ip != e.0 {
            assert(j != i);
            lemma_pairs_lookup(s, j);
        } else {
            assert(j == i);
        }
    }
    assert(pairs_map(t) =~= pairs_map(s).insert(e.0, e.1));
}

proof fn lemma_pairs_push(s: Seq<(u32, MacAddr)>, e: (u32, MacAddr))
    requires
        ips_distinct(s),
        !has_ip(s, e.0),
    ensures
        ips_distinct(s.push(e)),
        pairs_map(s.push(e)) == pairs_map(s).insert(e.0, e.1),
{
    let t = s.push(e);
    assert forall|a: int, b: int| 0 <= a < t.len() && 0 <= b < t.len() && a != b implies t[a].0 != t[b].0 by {
        if a < s.len() && b < s.len() {
            assert(t[a] == s[a] && t[b] == s[b]);
        } else if a < s.len() {
            assert(t[a] == s[a]);
        } else {
            assert(t[b] == s[b]);
        }
    }
    assert forall|ip: u32| #[trigger] has_ip(t, ip) == (has_ip(s, ip) || ip == e.0) by {
        if has_ip(s, ip) {
            let j = choose|j: int| 0 <= j < s.len() && s[j].0 == ip;
            assert(t[j].0 == ip);
        }
        if ip == e.0 {
            assert(t[s.len() as int].0 == ip);
        }
        if has_ip(t, ip) && ip != e.0 {
            let j = choose|j: int| 0 <= j < t.len() && t[j].0 == ip;
            assert(j < s.len());
            assert(s[j].0 == ip);
        }
    }
    assert forall|ip: u32| pairs_map(t).contains_key(ip) implies pairs_map(t)[ip] == pairs_map(s).insert(
        e.0,
        e.1,
    )[ip] by {
        let j = choose|j: int| 0 <= j < t.len() && t[j].0 == ip;
        lemma_pairs_lookup(t, j);
        if ip != e.0 {
            assert(j < s.len());
            assert(t[j] == s[j]);
            lemma_pairs_lookup(s, j);
        }
    }
    assert(pairs_map(t) =~= pairs_map(s).insert(e.0, e.1));
}

/// Neighbours by IPv4 address; a later sighting of an address replaces the
/// earlier one.
pub struct NeighborTable {
    entries: Vec<(u32, MacAddr)>,
}

impl View for NeighborTable {
    type V = Map<u32, MacAddr>;

    closed spec fn view(&self) -> Map<u32, MacAddr> {
        pairs_map(self.entries@)
    }
}

impl NeighborTable {
    pub closed spec fn wf(&self) -> bool {
        ips_distinct(self.entries@)
    }

    pub fn new() -> (t: NeighborTable)
        ensures
            t.wf(),
            t@ == Map::<u32, MacAddr>::empty(),
    {
        let t = NeighborTable { entries: Vec::new() };
        assert(pairs_map(t.entries@) =~= Map::<u32, MacAddr>::empty());
        t
    }

    /// Records that `ip` is at `mac`.
    pub fn insert(&mut self, ip: u32, mac: MacAddr)
        requires
            old(self).wf(),
        ensures
            final(self).wf(),
            final(self)@ == old(self)@.insert(ip, mac),
    {
        let mut i: usize = 0;
        while i < self.entries.len()
            invariant
                i <= self.entries.len(),
                self.entries@ == old(self).entries@,
                ips_distinct(self.entries@),
                forall|k: int| 0 <= k < i ==> self.entries@[k].0 != ip,
            decreases self.entries.len() - i,
        {
            if self.entries[i].0 == ip {
                proof {
                    lemma_pairs_update(self.entries@, i as int, (ip, mac));
                }
                self.entries.set(i, (ip, mac));
                return;
            }
            i += 1;
        }
        proof {
            lemma_pairs_push(self.entries@, (ip, mac));
        }
        self.entries.push((ip, mac));
    }

    /// The entries, each address once.
    pub fn to_vec(&self) -> (r: Vec<(u32, MacAddr)>)
        requires
            self.wf(),
        ensures
            ips_distinct(r@),
            pairs_map(r@) == self@,
    {
        let mut r: Vec<(u32, MacAddr)> = Vec::new();
        let mut i: usize = 0;
        while i < self.entries.len()
            invariant
                i <= self.entries.len(),
                r@ == self.entries@.take(i as int),
            decreases self.entries.len() - i,
        {
            r.push(self.entries[i]);
            proof {
                assert(self.entries@.take(i + 1) =~= self.entries@.take(i as int).push(self.entries@[i as int]));
            }
            i += 1;
        }
        proof {
            assert(self.entries@.take(self.entries.len() as int) =~= self.entries@);
        }
        r
    }

    pub fn len(&self) -> (n: usize)
        requires
            self.wf(),
        ensures
            n == self@.len(),
    {
        proof {
            lemma_pairs_len(self.entries@);
        }
        self.entries.len()
    }
}

proof fn lemma_pairs_len(s: Seq<(u32, MacAddr)>)
    requires
        ips_distinct(s),
    ensures
        pairs_map(s).dom().finite(),
        pairs_map(s).len() == s.len(),
    decreases s.len(),
{
    if s.len() == 0 {
        assert(pairs_map(s).dom() =~= Set::<u32>::empty());
    } else {
        let t = s.drop_last();
        assert(ips_distinct(t)) by {
            assert forall|a: int, b: int| 0 <= a < t.len() && 0 <= b < t.len() && a != b implies t[a].0 != t[b].0 by {
                assert(t[a] == s[a] && t[b] == s[b]);
            }
        }
        lemma_pairs_len(t);
        assert(!has_ip(t, s.last().0)) by {
            if has_ip(t, s.last().0) {
                let j = choose|j: int| 0 <= j < t.len() && t[j].0 == s.last().0;
                assert(s[j].0 == s[s.len() - 1].0);
            }
        }
        lemma_pairs_push(t, s.last());
        assert(t.push(s.last()) =~= s);
    }
}

/// Why an ARP operation failed.
#[derive(Debug)]
pub enum ArpError {
    Failed(String),
}

impl ArpError {
    pub fn message(&self) -> (r: String)
        ensures
            match self {
                ArpError::Failed(s) => r@ == "arp error: "@ + s@,
            },
    {
        match self {
            ArpError::Failed(s) => {
                let mut r = string_of("arp error: ");
                push_str(&mut r, s.as_str());
                r
            },
        }
    }
}

// ---------------------------------------------------------------------------
// The kernel's ARP cache
// ---------------------------------------------------------------------------
pub open spec fn mac_of_octets(b: Seq<u8>) -> MacAddr {
    MacAddr(b[0], b[1], b[2], b[3], b[4], b[5])
}

/// What one line of `/proc/net/arp` says: a complete entry (flag 0x2) with a
/// non-zero MAC address, on `interface`, for an address inside `subnet`.
pub open spec fn arp_line(line: Seq<char>, interface: Seq<char>, subnet: Ipv4Net) -> Option<(u32, MacAddr)> {
    let parts = words(line);
    if parts.len() < 6 {
        None
    } else {
        match ipv4_parse(parts[0]) {
            None => None,
            Some(ip) => match parse_hex_u32_spec(trim_start_seq(parts[2], "0x"@)) {
                None => None,
                Some(flags) => if (flags / 2) % 2 == 0 || parts[3] == "00:00:00:00:00:00"@ || parts[5]
                    != interface || !subnet.contains_spec(ip) {
                    None
                } else {
                    match mac_address_parse(parts[3]) {
                        Some(b) => Some((ip, mac_of_octets(b))),
                        None => None,
                    }
                },
            },
        }
    }
}

/// The entries of lines `1..n` of `/proc/net/arp` (line 0 is the header).
pub open spec fn arp_cache(ls: Seq<Seq<char>>, n: int, interface: Seq<char>, subnet: Ipv4Net) -> Map<u32, MacAddr>
    decreases n,
{
    if n <= 1 || n > ls.len() {
        Map::empty()
    } else {
        let m = arp_cache(ls, n - 1, interface, subnet);
        match arp_line(ls[n - 1], interface, subnet) {
            Some((ip, mac)) => m.insert(ip, mac),
            None => m,
        }
    }
}

fn arp_line_exec(line: &str, interface: &str, subnet: &Ipv4Net) -> (r: Option<(u32, MacAddr)>)
    requires
        subnet.wf(),
    ensures
        r == arp_line(line@, interface@, *subnet),
{
    let parts = split_whitespace(line);
    let ghost pv = parts@.map_values(|p: String| p@);
    if parts.len() < 6 {
        return None;
    }
    proof {
        assert(pv[0] == parts@[0]@);
        assert(pv[2] == parts@[2]@);
        assert(pv[3] == parts@[3]@);
        assert(pv[5] == parts@[5]@);
        reveal_strlit("0x");
    }
    let ip = match parse_ipv4(parts[0].as_str()) {
        Some(ip) => ip,
        None => return None,
    };
    let flag_text = trim_start_matches_str(parts[2].as_str(), "0x");
    let flags = match parse_hex_u32(flag_text.as_str()) {
        Some(f) => f,
        None => return None,
    };
    assert((flags & 2u32 == 0u32) == ((flags / 2) % 2 == 0)) by (bit_vector);
    if flags & 2 == 0 {
        return None;
    }
    if str_eq(parts[3].as_str(), "00:00:00:00:00:00") {
        return None;
    }
    if !str_eq(parts[5].as_str(), interface) {
        return None;
    }
    if !subnet.contains(ip) {
        return None;
    }
    match parse_mac(parts[3].as_str()) {
        Some(mac) => {
            proof {
                let b = mac_address_parse(parts@[3]@)->0;
                assert(b == mac.octets());
                assert(mac_of_octets(b) == mac);
            }
            Some((ip, mac))
        },
        None => None,
    }
}

/// The neighbours in the text of `/proc/net/arp` on `interface` inside `subnet`.
pub fn parse_proc_arp(content: &str, interface: &str, subnet: &Ipv4Net) -> (t: NeighborTable)
    requires
        subnet.wf(),
    ensures
        t.wf(),
        t@ == arp_cache(lines(content@), lines(content@).len() as int, interface@, *subnet),
{
    let ls = split_lines(content);
    let ghost lv = ls@.map_values(|p: String| p@);
    let mut t = NeighborTable::new();
    let mut i: usize = 1;
    while i < ls.len()
        invariant
            1 <= i,
            i <= ls.len() || ls.len() == 0,
            lv == ls@.map_values(|p: String| p@),
            lv == lines(content@),
            subnet.wf(),
            t.wf(),
            t@ == arp_cache(lv, i as int, interface@, *subnet),
        decreases ls.len() - i,
    {
        proof {
            assert(lv[i as int] == ls@[i as int]@);
        }
        if let Some((ip, mac)) = arp_line_exec(ls[i].as_str(), interface, subnet) {
            t.insert(ip, mac);
        }
        i += 1;
    }
    proof {
        if ls.len() > 1 {
            assert(i == ls.len());
        }
    }
    t
}

// ---------------------------------------------------------------------------
// Active sweep
// ---------------------------------------------------------------------------
/// `s` cut into consecutive pieces of `n` (the last may be shorter).
pub open spec fn chunks(s: Seq<u32>, n: nat) -> Seq<Seq<u32>>
    decreases s.len(),
{
    if n == 0 || s.len() == 0 {
        Seq::empty()
    } else if s.len() <= n {
        seq![s]
    } else {
        seq![s.take(n as int)] + chunks(s.skip(n as int), n)
    }
}

/// What an ARP sweep sends from, and to whom, in batches of 32.
pub struct SweepPlan {
    pub src_mac: MacAddr,
    pub src_ip: u32,
    pub batches: Vec<Vec<u32>>,
}

/// The first IPv4 address (from `i` on) inside `net`.
pub open spec fn first_in_subnet(ips: Seq<IfaceAddr>, net: Ipv4Net, i: int) -> Option<u32>
    decreases ips.len() - i,
{
    if i < 0 || i >= ips.len() {
        None
    } else {
        match ips[i] {
            IfaceAddr::V4 { ip, prefix } => if net.contains_spec(ip) {
                Some(ip)
            } else {
                first_in_subnet(ips, net, i + 1)
            },
            IfaceAddr::V6 => first_in_subnet(ips, net, i + 1),
        }
    }
}

/// Where an ARP sweep is sent from: the interface's MAC address and our address
/// (`local_ip`, else the interface's first IPv4 address inside the subnet).
pub open spec fn sweep_source_spec(
    ifs: Seq<crate::interface::InterfaceInfoView>,
    name: Seq<char>,
    subnet: Ipv4Net,
    local_ip: Option<u32>,
) -> Result<(MacAddr, u32), Seq<char>> {
    match find_named(ifs, name, 0) {
        None => Err("interface "@ + name + " not found"@),
        Some(i) => match ifs[i].mac {
            None => Err("interface has no MAC"@),
            Some(mac) => {
                let src = match local_ip {
                    Some(a) => Some(a),
                    None => first_in_subnet(ifs[i].ips, subnet, 0),
                };
                match src {
                    None => Err("interface has no IPv4 on subnet"@),
                    Some(ip) => Ok((mac, ip)),
                }
            },
        },
    }
}

pub open spec fn sweep_plan_spec(
    ifs: Seq<crate::interface::InterfaceInfoView>,
    name: Seq<char>,
    subnet: Ipv4Net,
    local_ip: Option<u32>,
) -> Result<(MacAddr, u32, Seq<Seq<u32>>), Seq<char>> {
    match sweep_source_spec(ifs, name, subnet, local_ip) {
        Err(msg) => Err(msg),
        Ok((mac, ip)) => Ok((mac, ip, chunks(subnet_hosts(subnet, Some(ip)), 32))),
    }
}

fn first_in_subnet_exec(ips: &Vec<IfaceAddr>, net: &Ipv4Net) -> (r: Option<u32>)
    requires
        net.wf(),
    ensures
        r == first_in_subnet(ips@, *net, 0),
{
    let mut i: usize = 0;
    while i < ips.len()
        invariant
            i <= ips.len(),
            net.wf(),
            first_in_subnet(ips@, *net, 0) == first_in_subnet(ips@, *net, i as int),
        decreases ips.len() - i,
    {
        match ips[i] {
            IfaceAddr::V4 { ip, prefix } => {
                if net.contains(ip) {
                    return Some(ip);
                }
            },
            IfaceAddr::V6 => {},
        }
        i += 1;
    }
    None
}

fn chunk_targets(targets: &Vec<u32>) -> (r: Vec<Vec<u32>>)
    ensures
        r@.map_values(|b: Vec<u32>| b@) == chunks(targets@, 32),
{
    let mut r: Vec<Vec<u32>> = Vec::new();
    let mut start: usize = 0;
    let ghost views = chunks(targets@, 32);
    proof {
        assert(targets@.skip(0) =~= targets@);
        assert(r@.map_values(|b: Vec<u32>| b@) =~= Seq::<Seq<u32>>::empty());
    }
    while start < targets.len()
        invariant
            start <= targets.len(),
            chunks(targets@, 32) == r@.map_values(|b: Vec<u32>| b@) + chunks(targets@.skip(start as int), 32),
        decreases targets.len() - start,
    {
        let end = if targets.len() - start <= 32 {
            targets.len()
        } else {
            start + 32
        };
        let mut batch: Vec<u32> = Vec::new();
        let mut k = start;
        while k < end
            invariant
                start <= k <= end <= targets.len(),
                batch@ == targets@.subrange(start as int, k as int),
            decreases end - k,
        {
            batch.push(targets[k]);
            proof {
                assert(targets@.subrange(start as int, k + 1) =~= targets@.subrange(start as int, k as int).push(
                    targets@[k as int],
                ));
            }
            k += 1;
        }
        proof {
            let rest = targets@.skip(start as int);
            if rest.len() <= 32 {
                assert(batch@ =~= rest);
                assert(chunks(rest, 32) == seq![rest]);
                assert(targets@.skip(end as int).len() == 0);
                assert(chunks(targets@.skip(end as int), 32) =~= Seq::<Seq<u32>>::empty());
            } else {
                assert(batch@ =~= rest.take(32));
                assert(rest.skip(32) =~= targets@.skip(end as int));
            }
        }
        let ghost before = r@.map_values(|b: Vec<u32>| b@);
        r.push(batch);
        proof {
            assert(r@.map_values(|b: Vec<u32>| b@) =~= before.push(batch@));
            let rest = targets@.skip(start as int);
            if rest.len() <= 32 {
                assert(before.push(batch@) + chunks(targets@.skip(end as int), 32) =~= before + chunks(rest, 32));
            } else {
                assert(chunks(rest, 32) == seq![rest.take(32)] + chunks(rest.skip(32), 32));
                assert(before.push(batch@) + chunks(targets@.skip(end as int), 32) =~= before + chunks(rest, 32));
            }
        }
        start = end;
    }
    proof {
        assert(targets@.skip(start as int).len() == 0);
        assert(chunks(targets@.skip(start as int), 32) =~= Seq::<Seq<u32>>::empty());
        assert(chunks(targets@, 32) =~= r@.map_values(|b: Vec<u32>| b@));
    }
    r
}

/// Where an ARP sweep of `subnet` is sent from: the MAC address of the interface
/// named `interface_name`, and our address (`local_ip`, else the interface's first
/// IPv4 address inside the subnet); each failure with its message.
pub fn sweep_source(
    interfaces: &Vec<InterfaceInfo>,
    interface_name: &str,
    subnet: &Ipv4Net,
    local_ip: Option<u32>,
) -> (r: Result<(MacAddr, u32), ArpError>)
    requires
        subnet.wf(),
    ensures
        match sweep_source_spec(iface_views(interfaces@), interface_name@, *subnet, local_ip) {
            Ok((mac, ip)) => r == Ok::<(MacAddr, u32), ArpError>((mac, ip)),
            Err(msg) => r matches Err(ArpError::Failed(m)) && m@ == msg,
        },
{
    let ghost v = iface_views(interfaces@);
    let i = match find_named_exec(interfaces, interface_name) {
        Some(i) => i,
        None => {
            let mut msg = string_of("interface ");
            push_str(&mut msg, interface_name);
            push_str(&mut msg, " not found");
            proof {
                assert(msg@ =~= "interface "@ + interface_name@ + " not found"@);
            }
            return Err(ArpError::Failed(msg));
        },
    };
    let iface = &interfaces[i];
    proof {
        assert(v[i as int] == iface@);
    }
    let mac = match iface.mac {
        Some(m) => m,
        None => return Err(ArpError::Failed(string_of("interface has no MAC"))),
    };
    let src = match local_ip {
        Some(a) => Some(a),
        None => first_in_subnet_exec(&iface.ips, subnet),
    };
    match src {
        Some(a) => Ok((mac, a)),
        None => Err(ArpError::Failed(string_of("interface has no IPv4 on subnet"))),
    }
}

/// Plans an ARP sweep of `subnet` from the interface named `interface_name`: the
/// interface's MAC address, our address (`local_ip`, else the interface's first
/// address inside the subnet), and every host address of the subnet but ours, in
/// batches of 32. A sweep of a whole /0 space, whose host list does not fit in
/// memory, is left out: there the interface must fail one of its checks.
pub fn plan_arp_sweep(
    interfaces: &Vec<InterfaceInfo>,
    interface_name: &str,
    subnet: &Ipv4Net,
    local_ip: Option<u32>,
) -> (r: Result<SweepPlan, ArpError>)
    requires
        subnet.wf(),
        subnet.prefix == 0 ==> sweep_source_spec(iface_views(interfaces@), interface_name@, *subnet, local_ip) is Err,
    ensures
        match sweep_plan_spec(iface_views(interfaces@), interface_name@, *subnet, local_ip) {
            Ok((mac, ip, batches)) => r matches Ok(p) && p.src_mac == mac && p.src_ip == ip
                && p.batches@.map_values(|b: Vec<u32>| b@) == batches,
            Err(msg) => r matches Err(ArpError::Failed(m)) && m@ == msg,
        },
{
    let (mac, ip) = match sweep_source(interfaces, interface_name, subnet, local_ip) {
        Ok(x) => x,
        Err(e) => return Err(e),
    };
    let targets = subnet_host_ips(subnet, Some(ip));
    let batches = chunk_targets(&targets);
    Ok(SweepPlan { src_mac: mac, src_ip: ip, batches })
}

} // verus!
