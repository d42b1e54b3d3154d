//! Link-layer and IP addresses, and IPv4 subnets.
use vstd::prelude::*;
use vstd::arithmetic::power2::{pow2, lemma2_to64, lemma_pow2_unfold, lemma_pow2_strictly_increases, lemma_pow2_pos, lemma_pow2_adds};
use vstd::arithmetic::div_mod::{lemma_div_pos_is_pos, lemma_mod_pos_bound, lemma_fundamental_div_mod, lemma_small_mod, lemma_mod_multiples_basic};
use crate::text::{hex_upper, hex_upper_char, push_char, decimal, append_decimal, to_chars, split_on, split_chars};
use crate::ipv6::{ipv6_text, ipv6_to_string};

verus! {

/// A MAC (EUI-48) address, one field per octet.
#[derive(Clone, Copy, Debug, PartialEq, Eq, Structural)]
pub struct MacAddr(pub u8, pub u8, pub u8, pub u8, pub u8, pub u8);

impl MacAddr {
    /// The octets in transmission order.
    pub open spec fn octets(self) -> Seq<u8> {
        seq![self.0, self.1, self.2, self.3, self.4, self.5]
    }

    pub fn from_octets(b: &[u8]) -> (m: MacAddr)
        requires
            b@.len() == 6,
        ensures
            m.octets() == b@,
    {
        let m = MacAddr(b[0], b[1], b[2], b[3], b[4], b[5]);
        assert(m.octets() =~= b@);
        m
    }

    pub fn zero() -> (m: MacAddr)
        ensures
            m == MacAddr(0, 0, 0, 0, 0, 0),
    {
        MacAddr(0, 0, 0, 0, 0, 0)
    }
}

/// Two upper-case hex digits for a byte.
pub open spec fn byte_hex_upper(b: u8) -> Seq<char> {
    seq![hex_upper(b as int / 16), hex_upper(b as int % 16)]
}

/// How a MAC address is displayed: six upper-case hex pairs separated by `:`.
pub open spec fn mac_text(m: MacAddr) -> Seq<char> {
    byte_hex_upper(m.0) + seq![':'] + byte_hex_upper(m.1) + seq![':'] + byte_hex_upper(m.2)
        + seq![':'] + byte_hex_upper(m.3) + seq![':'] + byte_hex_upper(m.4) + seq![':']
        + byte_hex_upper(m.5)
}

fn push_byte_hex(s: &mut String, b: u8)
    ensures
        final(s)@ == old(s)@ + byte_hex_upper(b),
{
    push_char(s, hex_upper_char(b / 16));
    push_char(s, hex_upper_char(b % 16));
    assert(final(s)@ =~= old(s)@ + byte_hex_upper(b));
}

impl MacAddr {
    /// The display form `AA:BB:CC:DD:EE:FF`.
    pub fn to_text(&self) -> (r: String)
        ensures
            r@ == mac_text(*self),
    {
        let mut s = String::new();
        push_byte_hex(&mut s, self.0);
        push_char(&mut s, ':');
        push_byte_hex(&mut s, self.1);
        push_char(&mut s, ':');
        push_byte_hex(&mut s, self.2);
        push_char(&mut s, ':');
        push_byte_hex(&mut s, self.3);
        push_char(&mut s, ':');
        push_byte_hex(&mut s, self.4);
        push_char(&mut s, ':');
        push_byte_hex(&mut s, self.5);
        assert(s@ =~= mac_text(*self));
        s
    }
}

/// What `mac_address::MacAddress::from_str` returns for a string: the six octets, or
/// `None` where it reports an error.
pub uninterp spec fn mac_address_parse(s: Seq<char>) -> Option<Seq<u8>>;

/// `mac_address::MacAddress::from_str`, as octets; the result is named by
/// `mac_address_parse`, and always has six octets when present.
#[verifier::external_body]
fn mac_from_str(s: &str) -> (r: Option<MacAddr>)
    ensures
        r is Some <==> mac_address_parse(s@) is Some,
        r is Some ==> mac_address_parse(s@)->0 == r->0.octets(),
{
    match <mac_address::MacAddress as std::str::FromStr>::from_str(s) {
        Ok(m) => {
            let b = m.bytes();
            Some(MacAddr(b[0], b[1], b[2], b[3], b[4], b[5]))
        },
        Err(_) => None,
    }
}

/// Reads a MAC address as the `mac_address` crate does (six hex pairs, separated
/// by `:` or `-`, or not separated).
pub fn parse_mac(s: &str) -> (r: Option<MacAddr>)
    ensures
        r is Some <==> mac_address_parse(s@) is Some,
        r is Some ==> mac_address_parse(s@)->0 == r->0.octets(),
{
    mac_from_str(s)
}

/// An IP address: IPv4 as a big-endian `u32`, IPv6 as a big-endian `u128`.
#[derive(Clone, Copy, Debug, PartialEq, Eq, Structural)]
pub enum IpAddress {
    V4(u32),
    V6(u128),
}

/// Octet `k` (0 = most significant) of an IPv4 address.
pub open spec fn octet(ip: u32, k: int) -> nat {
    ((ip as int / pow2((24 - 8 * k) as nat) as int) % 256) as nat
}

/// Dotted-decimal form of an IPv4 address.
pub open spec fn ipv4_text(ip: u32) -> Seq<char> {
    decimal(octet(ip, 0)) + seq!['.'] + decimal(octet(ip, 1)) + seq!['.'] + decimal(octet(ip, 2))
        + seq!['.'] + decimal(octet(ip, 3))
}

/// How an IP address is displayed.
pub open spec fn ip_text(ip: IpAddress) -> Seq<char> {
    match ip {
        IpAddress::V4(a) => ipv4_text(a),
        IpAddress::V6(a) => ipv6_text(a),
    }
}

pub(crate) proof fn lemma_pow2_values()
    ensures
        pow2(0) == 1,
        pow2(8) == 256,
        pow2(16) == 65536,
        pow2(24) == 16777216,
{
    lemma2_to64();
}

pub fn ipv4_octet(ip: u32, k: u32) -> (o: u64)
    requires
        k < 4,
    ensures
        o == octet(ip, k as int),
        o < 256,
{
    proof {
        lemma_pow2_values();
    }
    let d: u64 = if k == 0 {
        16777216
    } else if k == 1 {
        65536
    } else if k == 2 {
        256
    } else {
        1
    };
    (ip as u64 / d) % 256
}

/// Dotted-decimal form of an IPv4 address.
pub fn ipv4_to_string(a: u32) -> (r: String)
    ensures
        r@ == ipv4_text(a),
{
    let mut s = String::new();
    append_decimal(&mut s, ipv4_octet(a, 0));
    push_char(&mut s, '.');
    append_decimal(&mut s, ipv4_octet(a, 1));
    push_char(&mut s, '.');
    append_decimal(&mut s, ipv4_octet(a, 2));
    push_char(&mut s, '.');
    append_decimal(&mut s, ipv4_octet(a, 3));
    assert(s@ =~= ipv4_text(a));
    s
}

impl IpAddress {
    /// The display form (`Display` for `std::net::IpAddr`).
    pub fn to_text(&self) -> (r: String)
        ensures
            r@ == ip_text(*self),
    {
        match self {
            IpAddress::V4(a) => ipv4_to_string(*a),
            IpAddress::V6(a) => ipv6_to_string(*a),
        }
    }
}

pub open spec fn ipv4(a: u8, b: u8, c: u8, d: u8) -> u32 {
    (a as int * 16777216 + b as int * 65536 + c as int * 256 + d as int) as u32
}

pub fn ipv4_from_octets(a: u8, b: u8, c: u8, d: u8) -> (r: u32)
    ensures
        r == ipv4(a, b, c, d),
        r as int == a as int * 16777216 + b as int * 65536 + c as int * 256 + d as int,
{
    a as u32 * 16777216 + b as u32 * 65536 + c as u32 * 256 + d as u32
}

// ---------------------------------------------------------------------------
// IPv4 subnets
// ---------------------------------------------------------------------------
/// An IPv4 network: an address and a prefix length of at most 32.
#[derive(Clone, Copy, Debug, PartialEq, Eq, Structural)]
pub struct Ipv4Net {
    pub addr: u32,
    pub prefix: u8,
}

impl Ipv4Net {
    pub open spec fn wf(self) -> bool {
        self.prefix <= 32
    }

    /// Number of addresses in the network.
    pub open spec fn block(self) -> nat {
        pow2((32 - self.prefix) as nat)
    }

    /// Lowest address in the network (`addr` with the host bits cleared).
    pub open spec fn network_spec(self) -> int {
        self.addr as int - self.addr as int % self.block() as int
    }

    /// Highest address in the network (`addr` with the host bits set).
    pub open spec fn broadcast_spec(self) -> int {
        self.network_spec() + self.block() - 1
    }

    /// `ip` lies in the network: it agrees with `addr` on the prefix bits.
    pub open spec fn contains_spec(self, ip: u32) -> bool {
        ip as int / self.block() as int == self.addr as int / self.block() as int
    }

    /// `Ipv4Network::new`: refuses a prefix longer than 32.
    pub fn new(addr: u32, prefix: u8) -> (r: Option<Ipv4Net>)
        ensures
            r is Some <==> prefix <= 32,
            r is Some ==> r->0 == (Ipv4Net { addr, prefix }),
    {
        if prefix > 32 {
            None
        } else {
            Some(Ipv4Net { addr, prefix })
        }
    }

    pub fn block_size(&self) -> (b: u64)
        requires
            self.wf(),
        ensures
            b == self.block(),
            1 <= b <= 0x1_0000_0000,
            0x1_0000_0000int % (b as int) == 0,
    {
        let n = 32 - self.prefix;
        let mut b: u64 = 1;
        let mut i: u8 = 0;
        proof {
            lemma2_to64();
        }
        while i < n
            invariant
                i <= n <= 32,
                b == pow2(i as nat),
                n == 32 - self.prefix,
            decreases n - i,
        {
            proof {
                lemma_pow2_unfold((i + 1) as nat);
                lemma_pow2_strictly_increases(i as nat, 32);
                lemma2_to64();
            }
            b = b * 2;
            i += 1;
        }
        proof {
            lemma_pow2_pos(n as nat);
            lemma2_to64();
            if n < 32 {
                lemma_pow2_strictly_increases(n as nat, 32);
            }
            lemma_pow2_adds(n as nat, (32 - n) as nat);
            lemma_pow2_pos((32 - n) as nat);
            lemma_mod_multiples_basic(pow2((32 - n) as nat) as int, b as int);
            assert(pow2((32 - n) as nat) as int * (b as int) == 0x1_0000_0000int) by (nonlinear_arith)
                requires pow2(n as nat) * pow2((32 - n) as nat) == pow2(32), pow2(32) == 0x1_0000_0000int, b == pow2(n as nat);
        }
        b
    }

    /// `Ipv4Network::network`.
    pub fn network(&self) -> (r: u32)
        requires
            self.wf(),
        ensures
            r == self.network_spec(),
    {
        let b = self.block_size();
        proof {
            lemma_mod_pos_bound(self.addr as int, b as int);
            lemma_fundamental_div_mod(self.addr as int, b as int);
            lemma_div_pos_is_pos(self.addr as int, b as int);
            assert(self.addr as int % b as int <= self.addr as int) by (nonlinear_arith)
                requires self.addr as int == b as int * (self.addr as int / b as int) + self.addr as int % b as int,
                    self.addr as int / b as int >= 0, b >= 1;
        }
        (self.addr as u64 - self.addr as u64 % b) as u32
    }

    /// `Ipv4Network::broadcast`.
    pub fn broadcast(&self) -> (r: u32)
        requires
            self.wf(),
        ensures
            r == self.broadcast_spec(),
    {
        let b = self.block_size();
        proof {
            lemma_mod_pos_bound(self.addr as int, b as int);
            lemma_fundamental_div_mod(self.addr as int, b as int);
            lemma_network_plus_block(self.addr as int, b as int);
        }
        (self.addr as u64 - self.addr as u64 % b + (b - 1)) as u32
    }

    /// `Ipv4Network::contains`.
    pub fn contains(&self, ip: u32) -> (r: bool)
        requires
            self.wf(),
        ensures
            r == self.contains_spec(ip),
    {
        let b = self.block_size();
        ip as u64 / b == self.addr as u64 / b
    }
}

/// The network's last address stays below 2^32.
proof fn lemma_network_plus_block(a: int, b: int)
    requires
        0 <= a < 0x1_0000_0000,
        1 <= b <= 0x1_0000_0000,
        b == 0x1_0000_0000 || 0x1_0000_0000int % b == 0,
    ensures
        a - a % b + b <= 0x1_0000_0000,
{
    lemma_fundamental_div_mod(a, b);
    lemma_mod_pos_bound(a, b);
    if b < 0x1_0000_0000 {
        let q = a / b;
        let n = 0x1_0000_0000int / b;
        lemma_fundamental_div_mod(0x1_0000_0000int, b);
        assert(q < n) by (nonlinear_arith)
            requires
                a == b * q + a % b,
                0 <= a % b,
                a < 0x1_0000_0000,
                0x1_0000_0000 == b * n,
                b > 0,
        ;
        assert(b * q + b <= b * n) by (nonlinear_arith)
            requires
                q < n,
                b > 0,
        ;
    } else {
        lemma_small_mod(a as nat, b as nat);
    }
}


/// An IPv4 address the host scan skips: the limited broadcast address, the
/// unspecified address, the excluded address, or one whose last octet is 0.
pub open spec fn keep_host(ip: int, exclude: Option<u32>) -> bool {
    &&& ip != 0xFFFF_FFFF
    &&& ip != 0
    &&& ip % 256 != 0
    &&& !(exclude == Some(ip as u32))
}

/// The kept addresses among the first `n` addresses of the network, in order.
pub open spec fn hosts_upto(net: Ipv4Net, exclude: Option<u32>, n: nat) -> Seq<u32>
    decreases n,
{
    if n == 0 {
        Seq::empty()
    } else {
        let ip = net.network_spec() + n - 1;
        hosts_upto(net, exclude, (n - 1) as nat) + if keep_host(ip, exclude) {
            seq![ip as u32]
        } else {
            Seq::empty()
        }
    }
}

/// Every address from the network address to the broadcast address, in
/// ascending order, without those `keep_host` rejects.
pub open spec fn subnet_hosts(net: Ipv4Net, exclude: Option<u32>) -> Seq<u32> {
    hosts_upto(net, exclude, net.block())
}

/// The host addresses of a subnet worth probing (`subnet_host_ips`).
pub fn subnet_host_ips(subnet: &Ipv4Net, exclude: Option<u32>) -> (r: Vec<u32>)
    requires
        1 <= subnet.prefix <= 32,
    ensures
        r@ == subnet_hosts(*subnet, exclude),
{
    let b = subnet.block_size();
    let start = subnet.network();
    proof {
        lemma_mod_pos_bound(subnet.addr as int, b as int);
        lemma_network_plus_block(subnet.addr as int, b as int);
    }
    let mut r: Vec<u32> = Vec::new();
    let mut k: u64 = 0;
    while k < b
        invariant
            k <= b,
            b == subnet.block(),
            start == subnet.network_spec(),
            start + b <= 0x1_0000_0000,
            r@ == hosts_upto(*subnet, exclude, k as nat),
        decreases b - k,
    {
        let ip = (start as u64 + k) as u32;
        let skip_ex = match exclude {
            Some(e) => ip == e,
            None => false,
        };
        if ip != 0xFFFF_FFFF && ip != 0 && ip % 256 != 0 && !skip_ex {
            r.push(ip);
            proof {
                assert(hosts_upto(*subnet, exclude, (k + 1) as nat) =~= hosts_upto(*subnet, exclude, k as nat) + seq![ip]);
            }
        } else {
            proof {
                assert(hosts_upto(*subnet, exclude, (k + 1) as nat) =~= hosts_upto(*subnet, exclude, k as nat));
            }
        }
        k += 1;
    }
    r
}

// ---------------------------------------------------------------------------
// Dotted-decimal parsing
// ---------------------------------------------------------------------------
pub open spec fn is_digit(c: char) -> bool {
    '0' <= c && c <= '9'
}

pub open spec fn all_digits(s: Seq<char>) -> bool {
    forall|k: int| 0 <= k < s.len() ==> is_digit(#[trigger] s[k])
}

/// Value of a run of decimal digits.
pub open spec fn dec_value(s: Seq<char>) -> int
    decreases s.len(),
{
    if s.len() == 0 {
        0
    } else {
        dec_value(s.drop_last()) * 10 + (s.last() as int - 48)
    }
}

/// One octet of dotted-decimal text: one to three digits, no leading zero, at
/// most 255.
pub open spec fn octet_ok(p: Seq<char>) -> bool {
    &&& 1 <= p.len() <= 3
    &&& all_digits(p)
    &&& !(p.len() > 1 && p[0] == '0')
    &&& dec_value(p) <= 255
}

/// `std::net::Ipv4Addr::from_str`: exactly four `.`-separated octets.
pub open spec fn ipv4_parse(s: Seq<char>) -> Option<u32> {
    let parts = split_on(s, '.');
    if parts.len() == 4 && octet_ok(parts[0]) && octet_ok(parts[1]) && octet_ok(parts[2])
        && octet_ok(parts[3]) {
        Some(
            (dec_value(parts[0]) * 16777216 + dec_value(parts[1]) * 65536 + dec_value(parts[2])
                * 256 + dec_value(parts[3])) as u32,
        )
    } else {
        None
    }
}

fn parse_octet(p: &Vec<char>) -> (r: Option<u32>)
    ensures
        r is Some <==> octet_ok(p@),
        r is Some ==> r->0 as int == dec_value(p@) && r->0 <= 255,
{
    if p.len() < 1 || p.len() > 3 {
        return None;
    }
    if p.len() > 1 && p[0] == '0' {
        return None;
    }
    let mut v: u32 = 0;
    let mut i: usize = 0;
    while i < p.len()
        invariant
            1 <= p.len() <= 3,
            i <= p.len(),
            all_digits(p@.subrange(0, i as int)),
            v as int == dec_value(p@.subrange(0, i as int)),
            i == 0 ==> v == 0,
            i == 1 ==> v < 10,
            i == 2 ==> v < 100,
            v < 1000,
        decreases p.len() - i,
    {
        let c = p[i];
        let ghost pre = p@.subrange(0, i as int);
        let ghost nxt = p@.subrange(0, i + 1);
        proof {
            assert(nxt.drop_last() =~= pre);
            assert(nxt.last() == c);
        }
        if !('0' <= c && c <= '9') {
            proof {
                assert(!is_digit(p@[i as int]));
            }
            return None;
        }
        proof {
            assert forall|k: int| 0 <= k < nxt.len() implies is_digit(#[trigger] nxt[k]) by {
                if k < pre.len() {
                    assert(nxt[k] == pre[k]);
                }
            }
        }
        v = v * 10 + (c as u32 - 48);
        i += 1;
    }
    proof {
        assert(p@.subrange(0, p@.len() as int) =~= p@);
    }
    if v > 255 {
        return None;
    }
    Some(v)
}

/// Parses dotted-decimal IPv4 text the way `Ipv4Addr::from_str` does.
pub fn parse_ipv4(s: &str) -> (r: Option<u32>)
    ensures
        r == ipv4_parse(s@),
{
    let v = to_chars(s);
    let parts = split_chars(&v, '.');
    let ghost pv = parts@.map_values(|p: Vec<char>| p@);
    if parts.len() != 4 {
        return None;
    }
    proof {
        assert(pv[0] == parts@[0]@);
        assert(pv[1] == parts@[1]@);
        assert(pv[2] == parts@[2]@);
        assert(pv[3] == parts@[3]@);
    }
    let a = match parse_octet(&parts[0]) {
        Some(x) => x,
        None => return None,
    };
    let b = match parse_octet(&parts[1]) {
        Some(x) => x,
        None => return None,
    };
    let c = match parse_octet(&parts[2]) {
        Some(x) => x,
        None => return None,
    };
    let d = match parse_octet(&parts[3]) {
        Some(x) => x,
        None => return None,
    };
    Some(a * 16777216 + b * 65536 + c * 256 + d)
}

} // verus!
