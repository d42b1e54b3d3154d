//! Reading IP addresses from text the way `IpAddr::from_str` does: dotted-decimal
//! IPv4 first, else colon-separated IPv6 (with `::` for a run of zero groups and
//! an optional embedded IPv4 tail), and the whole text must be used.
use vstd::prelude::*;
use crate::net::{IpAddress, is_digit};
use crate::text::{hex_value, to_chars};

verus! {

/// Value of `c` as a decimal or (when `hex`) hexadecimal digit.
pub open spec fn digit_in(c: char, hex: bool) -> Option<int> {
    if hex {
        hex_value(c)
    } else if is_digit(c) {
        Some(c as int - 48)
    } else {
        None
    }
}

pub open spec fn radix(hex: bool) -> int {
    if hex {
        16
    } else {
        10
    }
}

/// Number of consecutive digits from position `p`.
pub open spec fn run_len(s: Seq<char>, p: int, hex: bool) -> nat
    decreases s.len() - p,
{
    if p < 0 || p >= s.len() || digit_in(s[p], hex) is None {
        0
    } else {
        1 + run_len(s, p + 1, hex)
    }
}

/// Value of the `n` digits from position `p`.
pub open spec fn run_value(s: Seq<char>, p: int, n: nat, hex: bool) -> int
    decreases n,
{
    if n == 0 {
        0
    } else {
        run_value(s, p, (n - 1) as nat, hex) * radix(hex) + digit_in(s[p + n - 1], hex)->0
    }
}

/// A number at `p`: the whole run of digits there, at most `max_digits` long, of
/// value at most `max`, and with no leading zero unless `zero_prefix` allows it (a
/// lone `0` is fine); with the position after it.
pub open spec fn read_number(s: Seq<char>, p: int, hex: bool, max_digits: nat, max: int, zero_prefix: bool) -> Option<(int, int)> {
    let n = run_len(s, p, hex);
    if n == 0 || n > max_digits || run_value(s, p, n, hex) > max || (!zero_prefix && s[p] == '0' && n > 1) {
        None
    } else {
        Some((run_value(s, p, n, hex), p + n))
    }
}

pub open spec fn read_octet(s: Seq<char>, p: int) -> Option<(int, int)> {
    read_number(s, p, false, 3, 255, false)
}

/// An octet after a `.` at `p`.
pub open spec fn dot_octet(s: Seq<char>, p: int) -> Option<(int, int)> {
    if 0 <= p < s.len() && s[p] == '.' {
        read_octet(s, p + 1)
    } else {
        None
    }
}

/// Dotted-decimal IPv4 at `p`: four octets; the address as a number and the
/// position after it.
pub open spec fn read_ipv4(s: Seq<char>, p: int) -> Option<(int, int)> {
    match read_octet(s, p) {
        None => None,
        Some((a, p1)) => match dot_octet(s, p1) {
            None => None,
            Some((b, p2)) => match dot_octet(s, p2) {
                None => None,
                Some((c, p3)) => match dot_octet(s, p3) {
                    None => None,
                    Some((d, p4)) => Some((((a * 256 + b) * 256 + c) * 256 + d, p4)),
                },
            },
        },
    }
}

/// Group `i` of an IPv6 address as an embedded IPv4 address (after a `:` unless it
/// is the first group).
pub open spec fn v4_group(s: Seq<char>, q: int, i: nat) -> Option<(int, int)> {
    if i > 0 {
        if 0 <= q < s.len() && s[q] == ':' {
            read_ipv4(s, q + 1)
        } else {
            None
        }
    } else {
        read_ipv4(s, q)
    }
}

/// Group `i` of an IPv6 address: up to four hex digits (after a `:` unless it is
/// the first group).
pub open spec fn v6_group(s: Seq<char>, q: int, i: nat) -> Option<(int, int)> {
    if i > 0 {
        if 0 <= q < s.len() && s[q] == ':' {
            read_number(s, q + 1, true, 4, 65535, true)
        } else {
            None
        }
    } else {
        read_number(s, q, true, 4, 65535, true)
    }
}

/// The groups read, where reading stopped, and whether it ended with an embedded
/// IPv4 address.
pub struct Groups {
    pub groups: Seq<int>,
    pub pos: int,
    pub ipv4: bool,
}

/// Reads groups `i..limit` from `q`, after `acc`: an embedded IPv4 address (two
/// groups, ending the run) when at least two groups remain, else a hex group;
/// stops at the first group that does not read.
pub open spec fn read_groups(s: Seq<char>, q: int, i: nat, limit: nat, acc: Seq<int>) -> Groups
    decreases limit - i,
{
    if i >= limit {
        Groups { groups: acc, pos: q, ipv4: false }
    } else {
        match (if i + 1 < limit { v4_group(s, q, i) } else { None }) {
            Some((v, q2)) => Groups { groups: acc + seq![v / 65536, v % 65536], pos: q2, ipv4: true },
            None => match v6_group(s, q, i) {
                Some((g, q2)) => read_groups(s, q2, i + 1, limit, acc.push(g)),
                None => Groups { groups: acc, pos: q, ipv4: false },
            },
        }
    }
}

/// Groups as a number, most significant first.
pub open spec fn groups_value(g: Seq<int>) -> int
    decreases g.len(),
{
    if g.len() == 0 {
        0
    } else {
        groups_value(g.drop_last()) * 65536 + g.last()
    }
}

/// IPv6 at `p`: eight groups, or fewer before a `::` and fewer after it (the `::`
/// standing for at least one zero group); an embedded IPv4 address may only end
/// the address.
pub open spec fn read_ipv6(s: Seq<char>, p: int) -> Option<(int, int)> {
    let h = read_groups(s, p, 0, 8, Seq::empty());
    if h.groups.len() == 8 {
        Some((groups_value(h.groups), h.pos))
    } else if h.ipv4 {
        None
    } else if !(0 <= h.pos && h.pos + 1 < s.len() && s[h.pos] == ':' && s[h.pos + 1] == ':') {
        None
    } else {
        let t = read_groups(s, h.pos + 2, 0, (8 - (h.groups.len() + 1)) as nat, Seq::empty());
        let all = h.groups + Seq::new((8 - h.groups.len() - t.groups.len()) as nat, |k: int| 0int) + t.groups;
        Some((groups_value(all), t.pos))
    }
}

/// `IpAddr::from_str`: IPv4 when dotted-decimal IPv4 reads from the start (then it
/// must use the whole text), else IPv6 using the whole text.
pub open spec fn ip_parse(s: Seq<char>) -> Option<IpAddress> {
    match read_ipv4(s, 0) {
        Some((v, q)) => if q == s.len() {
            Some(IpAddress::V4(v as u32))
        } else {
            None
        },
        None => match read_ipv6(s, 0) {
            Some((v, q)) => if q == s.len() {
                Some(IpAddress::V6(v as u128))
            } else {
                None
            },
            None => None,
        },
    }
}

// ---------------------------------------------------------------------------
// Lemmas
// ---------------------------------------------------------------------------
pub(crate) proof fn lemma_run_len_exact(s: Seq<char>, p: int, i: int, hex: bool)
    requires
        0 <= p <= i <= s.len(),
        forall|k: int| p <= k < i ==> digit_in(#[trigger] s[k], hex) is Some,
        i == s.len() || digit_in(s[i], hex) is None,
    ensures
        run_len(s, p, hex) == i - p,
    decreases i - p,
{
    if p < i {
        lemma_run_len_exact(s, p + 1, i, hex);
    }
}

proof fn lemma_run_len_at_least(s: Seq<char>, p: int, i: int, hex: bool)
    requires
        0 <= p <= i <= s.len(),
        forall|k: int| p <= k < i ==> digit_in(#[trigger] s[k], hex) is Some,
    ensures
        run_len(s, p, hex) >= i - p,
    decreases i - p,
{
    if p < i {
        lemma_run_len_at_least(s, p + 1, i, hex);
    }
}

proof fn lemma_digit_bounds(c: char, hex: bool)
    requires
        digit_in(c, hex) is Some,
    ensures
        0 <= digit_in(c, hex)->0 < radix(hex),
{
}

proof fn lemma_run_value_mono(s: Seq<char>, p: int, m: nat, n: nat, hex: bool)
    requires
        m <= n,
        forall|k: int| p <= k < p + n ==> digit_in(#[trigger] s[k], hex) is Some,
    ensures
        0 <= run_value(s, p, m, hex) <= run_value(s, p, n, hex),
    decreases n,
{
    if n > 0 {
        if m < n {
            lemma_run_value_mono(s, p, m, (n - 1) as nat, hex);
        } else {
            lemma_run_value_mono(s, p, (m - 1) as nat, (n - 1) as nat, hex);
        }
        lemma_digit_bounds(s[p + n - 1], hex);
        let prev = run_value(s, p, (n - 1) as nat, hex);
        assert(prev * radix(hex) >= prev) by (nonlinear_arith)
            requires
                prev >= 0,
                radix(hex) >= 1,
        ;
    }
}

proof fn lemma_groups_len(s: Seq<char>, q: int, i: nat, limit: nat, acc: Seq<int>)
    requires
        acc.len() == i,
        i <= limit,
        forall|k: int| 0 <= k < acc.len() ==> 0 <= #[trigger] acc[k] < 65536,
    ensures
        ({
            let r = read_groups(s, q, i, limit, acc);
            &&& i <= r.groups.len() <= limit
            &&& r.groups.subrange(0, i as int) == acc
            &&& forall|k: int| 0 <= k < r.groups.len() ==> 0 <= #[trigger] r.groups[k] < 65536
            &&& (r.ipv4 ==> r.groups.len() >= 2)
            &&& (!r.ipv4 && r.groups.len() < limit ==> r.groups.len() >= i)
        }),
    decreases limit - i,
{
    if i < limit {
        let v4 = if i + 1 < limit {
            v4_group(s, q, i)
        } else {
            None
        };
        match v4 {
            Some((v, q2)) => {
                lemma_read_ipv4_range(s, if i > 0 { q + 1 } else { q });
                let r = acc + seq![v / 65536, v % 65536];
                assert(r.subrange(0, i as int) =~= acc);
            },
            None => match v6_group(s, q, i) {
                Some((g, q2)) => {
                    lemma_read_number_range(s, if i > 0 { q + 1 } else { q }, true, 4, 65535, true);
                    lemma_groups_len(s, q2, i + 1, limit, acc.push(g));
                    let r = read_groups(s, q2, i + 1, limit, acc.push(g));
                    assert(r.groups.subrange(0, i as int) =~= r.groups.subrange(0, (i + 1) as int).subrange(0, i as int));
                    assert(acc.push(g).subrange(0, i as int) =~= acc);
                },
                None => {
                    assert(acc.subrange(0, i as int) =~= acc);
                },
            },
        }
    } else {
        assert(acc.subrange(0, i as int) =~= acc);
    }
}

pub(crate) proof fn lemma_read_number_range(s: Seq<char>, p: int, hex: bool, max_digits: nat, max: int, zero_prefix: bool)
    ensures
        read_number(s, p, hex, max_digits, max, zero_prefix) matches Some((v, q)) ==> 0 <= v <= max && p < q <= s.len()
            && q == p + run_len(s, p, hex),
{
    let n = run_len(s, p, hex);
    if n > 0 {
        lemma_run_len_bound(s, p, hex);
        assert forall|k: int| p <= k < p + n implies digit_in(#[trigger] s[k], hex) is Some by {
            lemma_run_len_digits(s, p, k, hex);
        }
        lemma_run_value_mono(s, p, 0, n, hex);
    }
}

pub(crate) proof fn lemma_run_len_bound(s: Seq<char>, p: int, hex: bool)
    ensures
        run_len(s, p, hex) > 0 ==> 0 <= p && p + run_len(s, p, hex) <= s.len(),
    decreases s.len() - p,
{
    if 0 <= p < s.len() && digit_in(s[p], hex) is Some {
        lemma_run_len_bound(s, p + 1, hex);
    }
}

pub(crate) proof fn lemma_run_len_digits(s: Seq<char>, p: int, k: int, hex: bool)
    requires
        p <= k < p + run_len(s, p, hex),
    ensures
        digit_in(s[k], hex) is Some,
    decreases k - p,
{
    if k > p {
        lemma_run_len_digits(s, p + 1, k, hex);
    }
}

pub(crate) proof fn lemma_read_ipv4_range(s: Seq<char>, p: int)
    ensures
        read_ipv4(s, p) matches Some((v, q)) ==> 0 <= v < 0x1_0000_0000 && p < q <= s.len(),
{
    lemma_read_number_range(s, p, false, 3, 255, false);
    if let Some((a, p1)) = read_octet(s, p) {
        lemma_read_number_range(s, p1 + 1, false, 3, 255, false);
        if let Some((b, p2)) = dot_octet(s, p1) {
            lemma_read_number_range(s, p2 + 1, false, 3, 255, false);
            if let Some((c, p3)) = dot_octet(s, p2) {
                lemma_read_number_range(s, p3 + 1, false, 3, 255, false);
                if let Some((d, p4)) = dot_octet(s, p3) {
                    assert(((a * 256 + b) * 256 + c) * 256 + d < 0x1_0000_0000) by (nonlinear_arith)
                        requires
                            0 <= a <= 255,
                            0 <= b <= 255,
                            0 <= c <= 255,
                            0 <= d <= 255,
                    ;
                }
            }
        }
    }
}

pub open spec fn pow65536(k: nat) -> int
    decreases k,
{
    if k == 0 {
        1
    } else {
        pow65536((k - 1) as nat) * 65536
    }
}

proof fn lemma_groups_value_bound(g: Seq<int>)
    requires
        forall|k: int| 0 <= k < g.len() ==> 0 <= #[trigger] g[k] < 65536,
    ensures
        0 <= groups_value(g) < pow65536(g.len()),
    decreases g.len(),
{
    if g.len() > 0 {
        let t = g.drop_last();
        assert forall|k: int| 0 <= k < t.len() implies 0 <= #[trigger] t[k] < 65536 by {
            assert(t[k] == g[k]);
        }
        lemma_groups_value_bound(t);
        let x = groups_value(t);
        let pw = pow65536(t.len());
        let last = g[g.len() - 1];
        assert(x * 65536 + last < pw * 65536) by (nonlinear_arith)
            requires
                0 <= x < pw,
                0 <= last < 65536,
        ;
        assert(x * 65536 + last >= 0) by (nonlinear_arith)
            requires
                0 <= x,
                0 <= last,
        ;
    }
}

// ---------------------------------------------------------------------------
// Executable readers
// ---------------------------------------------------------------------------
fn digit_of(c: char, hex: bool) -> (r: Option<u32>)
    ensures
        match digit_in(c, hex) {
            Some(d) => r == Some(d as u32),
            None => r is None,
        },
{
    if hex {
        if '0' <= c && c <= '9' {
            Some(c as u32 - 48)
        } else if 'a' <= c && c <= 'f' {
            Some(c as u32 - 87)
        } else if 'A' <= c && c <= 'F' {
            Some(c as u32 - 55)
        } else {
            None
        }
    } else if '0' <= c && c <= '9' {
        Some(c as u32 - 48)
    } else {
        None
    }
}

fn read_number_exec(v: &Vec<char>, p: usize, hex: bool, max_digits: usize, max: u32, zero_prefix: bool) -> (r: Option<(u32, usize)>)
    requires
        p <= v.len(),
        max <= 65535,
    ensures
        match read_number(v@, p as int, hex, max_digits as nat, max as int, zero_prefix) {
            Some((a, q)) => r == Some((a as u32, q as usize)),
            None => r is None,
        },
{
    let s = Ghost(v@);
    let rad: u64 = if hex { 16 } else { 10 };
    let mut i: usize = p;
    let mut value: u64 = 0;
    while i < v.len() && digit_of(v[i], hex).is_some()
        invariant
            p <= i <= v.len(),
            i - p <= max_digits,
            s@ == v@,
            rad == radix(hex),
            max <= 65535,
            forall|k: int| p <= k < i ==> digit_in(#[trigger] v@[k], hex) is Some,
            value == run_value(v@, p as int, (i - p) as nat, hex),
            value <= max,
        decreases v.len() - i,
    {
        let d = match digit_of(v[i], hex) {
            Some(d) => d,
            None => 0,
        };
        proof {
            lemma_digit_bounds(v@[i as int], hex);
        }
        if i - p + 1 > max_digits {
            proof {
                lemma_run_len_at_least(v@, p as int, i + 1, hex);
            }
            return None;
        }
        let nv = value * rad + d as u64;
        proof {
            assert(run_value(v@, p as int, (i + 1 - p) as nat, hex) == nv);
        }
        if nv > max as u64 {
            proof {
                let n = run_len(v@, p as int, hex);
                lemma_run_len_at_least(v@, p as int, i + 1, hex);
                lemma_run_len_bound(v@, p as int, hex);
                assert forall|k: int| p <= k < p + n implies digit_in(#[trigger] v@[k], hex) is Some by {
                    lemma_run_len_digits(v@, p as int, k, hex);
                }
                lemma_run_value_mono(v@, p as int, (i + 1 - p) as nat, n, hex);
            }
            return None;
        }
        value = nv;
        i += 1;
    }
    proof {
        if i < v.len() {
            assert(digit_in(v@[i as int], hex) is None);
        }
        lemma_run_len_exact(v@, p as int, i as int, hex);
    }
    if i == p {
        return None;
    }
    if !zero_prefix && v[p] == '0' && i - p > 1 {
        return None;
    }
    Some((value as u32, i))
}

fn read_octet_exec(v: &Vec<char>, p: usize) -> (r: Option<(u32, usize)>)
    requires
        p <= v.len(),
    ensures
        match read_octet(v@, p as int) {
            Some((a, q)) => r == Some((a as u32, q as usize)),
            None => r is None,
        },
{
    read_number_exec(v, p, false, 3, 255, false)
}

fn dot_octet_exec(v: &Vec<char>, p: usize) -> (r: Option<(u32, usize)>)
    requires
        p <= v.len(),
    ensures
        match dot_octet(v@, p as int) {
            Some((a, q)) => r == Some((a as u32, q as usize)),
            None => r is None,
        },
{
    if p < v.len() && v[p] == '.' {
        read_octet_exec(v, p + 1)
    } else {
        None
    }
}

fn read_ipv4_exec(v: &Vec<char>, p: usize) -> (r: Option<(u32, usize)>)
    requires
        p <= v.len(),
    ensures
        match read_ipv4(v@, p as int) {
            Some((a, q)) => r == Some((a as u32, q as usize)),
            None => r is None,
        },
{
    proof {
        lemma_read_ipv4_range(v@, p as int);
        lemma_read_number_range(v@, p as int, false, 3, 255, false);
    }
    let (a, p1) = match read_octet_exec(v, p) {
        Some(x) => x,
        None => return None,
    };
    proof {
        lemma_read_number_range(v@, p1 + 1, false, 3, 255, false);
    }
    let (b, p2) = match dot_octet_exec(v, p1) {
        Some(x) => x,
        None => return None,
    };
    proof {
        lemma_read_number_range(v@, p2 + 1, false, 3, 255, false);
    }
    let (c, p3) = match dot_octet_exec(v, p2) {
        Some(x) => x,
        None => return None,
    };
    proof {
        lemma_read_number_range(v@, p3 + 1, false, 3, 255, false);
    }
    let (d, p4) = match dot_octet_exec(v, p3) {
        Some(x) => x,
        None => return None,
    };
    Some((((a * 256 + b) * 256 + c) * 256 + d, p4))
}

fn v4_group_exec(v: &Vec<char>, q: usize, i: usize) -> (r: Option<(u32, usize)>)
    requires
        q <= v.len(),
    ensures
        match v4_group(v@, q as int, i as nat) {
            Some((a, q2)) => r == Some((a as u32, q2 as usize)),
            None => r is None,
        },
{
    if i > 0 {
        if q < v.len() && v[q] == ':' {
            read_ipv4_exec(v, q + 1)
        } else {
            None
        }
    } else {
        read_ipv4_exec(v, q)
    }
}

fn v6_group_exec(v: &Vec<char>, q: usize, i: usize) -> (r: Option<(u32, usize)>)
    requires
        q <= v.len(),
    ensures
        match v6_group(v@, q as int, i as nat) {
            Some((a, q2)) => r == Some((a as u32, q2 as usize)),
            None => r is None,
        },
{
    if i > 0 {
        if q < v.len() && v[q] == ':' {
            read_number_exec(v, q + 1, true, 4, 65535, true)
        } else {
            None
        }
    } else {
        read_number_exec(v, q, true, 4, 65535, true)
    }
}

pub open spec fn ints(v: Seq<u32>) -> Seq<int> {
    v.map_values(|x: u32| x as int)
}

fn read_groups_exec(v: &Vec<char>, q0: usize, limit: usize) -> (r: (Vec<u32>, usize, bool))
    requires
        q0 <= v.len(),
        limit <= 8,
    ensures
        ({
            let g = read_groups(v@, q0 as int, 0, limit as nat, Seq::empty());
            &&& ints(r.0@) == g.groups
            &&& r.1 == g.pos
            &&& r.2 == g.ipv4
            &&& r.1 <= v.len()
        }),
{
    let mut acc: Vec<u32> = Vec::new();
    let mut q = q0;
    let mut i: usize = 0;
    proof {
        assert(ints(acc@) =~= Seq::<int>::empty());
    }
    while i < limit
        invariant
            i <= limit <= 8,
            q <= v.len(),
            acc@.len() == i,
            read_groups(v@, q0 as int, 0, limit as nat, Seq::empty()) == read_groups(v@, q as int, i as nat, limit as nat, ints(acc@)),
        decreases limit - i,
    {
        if i + 1 < limit {
            proof {
                lemma_read_ipv4_range(v@, if i > 0 { q + 1 } else { q as int });
            }
            if let Some((val, q2)) = v4_group_exec(v, q, i) {
                let ghost before = acc@;
                acc.push(val / 65536);
                acc.push(val % 65536);
                proof {
                    assert(ints(acc@) =~= ints(before) + seq![val as int / 65536, val as int % 65536]);
                }
                return (acc, q2, true);
            }
        }
        proof {
            lemma_read_number_range(v@, if i > 0 { q + 1 } else { q as int }, true, 4, 65535, true);
        }
        match v6_group_exec(v, q, i) {
            Some((g, q2)) => {
                let ghost before = acc@;
                acc.push(g);
                proof {
                    assert(ints(acc@) =~= ints(before).push(g as int));
                }
                q = q2;
            },
            None => {
                return (acc, q, false);
            },
        }
        i += 1;
    }
    (acc, q, false)
}

fn groups_to_u128(g: &Vec<u32>) -> (r: u128)
    requires
        g@.len() <= 8,
        forall|k: int| 0 <= k < g@.len() ==> #[trigger] g@[k] < 65536,
    ensures
        r == groups_value(ints(g@)),
{
    let mut r: u128 = 0;
    let mut i: usize = 0;
    proof {
        assert(ints(g@).subrange(0, 0) =~= Seq::<int>::empty());
        reveal_with_fuel(pow65536, 9);
    }
    while i < g.len()
        invariant
            i <= g.len() <= 8,
            forall|k: int| 0 <= k < g@.len() ==> #[trigger] g@[k] < 65536,
            r == groups_value(ints(g@).subrange(0, i as int)),
            pow65536(8) == 0x1_0000_0000_0000_0000_0000_0000_0000_0000int,
        decreases g.len() - i,
    {
        let ghost pre = ints(g@).subrange(0, i as int);
        let ghost nxt = ints(g@).subrange(0, i + 1);
        proof {
            assert(nxt.drop_last() =~= pre);
            assert forall|k: int| 0 <= k < pre.len() implies 0 <= #[trigger] pre[k] < 65536 by {
                assert(pre[k] == g@[k] as int);
            }
            lemma_groups_value_bound(pre);
            lemma_pow_mono(i as nat, 7);
            assert(r as int * 65536 + g@[i as int] as int <= pow65536(7) * 65536) by (nonlinear_arith)
                requires
                    r < pow65536(i as nat),
                    pow65536(i as nat) <= pow65536(7),
                    g@[i as int] < 65536,
            ;
        }
        r = r * 65536 + g[i] as u128;
        i += 1;
    }
    proof {
        assert(ints(g@).subrange(0, g@.len() as int) =~= ints(g@));
    }
    r
}

proof fn lemma_pow_mono(a: nat, b: nat)
    requires
        a <= b,
    ensures
        1 <= pow65536(a) <= pow65536(b),
    decreases b,
{
    if b > 0 {
        if a < b {
            lemma_pow_mono(a, (b - 1) as nat);
        } else {
            lemma_pow_mono((a - 1) as nat, (b - 1) as nat);
        }
        let x = pow65536((b - 1) as nat);
        assert(x * 65536 >= x) by (nonlinear_arith)
            requires
                x >= 1,
        ;
    }
}

fn read_ipv6_exec(v: &Vec<char>, p: usize) -> (r: Option<(u128, usize)>)
    requires
        p <= v.len(),
    ensures
        match read_ipv6(v@, p as int) {
            Some((a, q)) => r == Some((a as u128, q as usize)) && 0 <= q <= v.len(),
            None => r is None,
        },
{
    proof {
        lemma_groups_len(v@, p as int, 0, 8, Seq::empty());
    }
    let (head, hpos, hv4) = read_groups_exec(v, p, 8);
    let ghost h = read_groups(v@, p as int, 0, 8, Seq::empty());
    if head.len() == 8 {
        proof {
            assert forall|k: int| 0 <= k < head@.len() implies #[trigger] head@[k] < 65536 by {
                assert(ints(head@)[k] == head@[k] as int);
            }
            lemma_groups_value_bound(ints(head@));
        }
        return Some((groups_to_u128(&head), hpos));
    }
    if hv4 {
        return None;
    }
    if !(hpos < v.len() && hpos + 1 < v.len() && v[hpos] == ':' && v[hpos + 1] == ':') {
        return None;
    }
    let limit = 8 - (head.len() + 1);
    proof {
        lemma_groups_len(v@, hpos + 2, 0, limit as nat, Seq::empty());
    }
    let (tail, tpos, _tv4) = read_groups_exec(v, hpos + 2, limit);
    let ghost t = read_groups(v@, hpos + 2, 0, limit as nat, Seq::empty());
    let mut all: Vec<u32> = Vec::new();
    let mut k: usize = 0;
    while k < head.len()
        invariant
            k <= head.len(),
            all@ == head@.subrange(0, k as int),
        decreases head.len() - k,
    {
        all.push(head[k]);
        proof {
            assert(head@.subrange(0, k + 1) =~= head@.subrange(0, k as int).push(head@[k as int]));
        }
        k += 1;
    }
    let zeros = 8 - head.len() - tail.len();
    let mut z: usize = 0;
    while z < zeros
        invariant
            z <= zeros,
            all@ == head@ + Seq::new(z as nat, |j: int| 0u32),
        decreases zeros - z,
    {
        proof {
            if z == 0 {
                assert(head@.subrange(0, head@.len() as int) =~= head@);
            }
        }
        all.push(0);
        proof {
            assert(head@ + Seq::new((z + 1) as nat, |j: int| 0u32) =~= (head@ + Seq::new(z as nat, |j: int| 0u32)).push(0u32));
        }
        z += 1;
    }
    proof {
        if zeros == 0 {
            assert(head@.subrange(0, head@.len() as int) =~= head@);
        }
    }
    let ghost mid = all@;
    let mut j: usize = 0;
    while j < tail.len()
        invariant
            j <= tail.len(),
            all@ == mid + tail@.subrange(0, j as int),
        decreases tail.len() - j,
    {
        all.push(tail[j]);
        proof {
            assert(mid + tail@.subrange(0, j + 1) =~= (mid + tail@.subrange(0, j as int)).push(tail@[j as int]));
        }
        j += 1;
    }
    proof {
        assert(tail@.subrange(0, tail@.len() as int) =~= tail@);
        let spec_all = h.groups + Seq::new((8 - h.groups.len() - t.groups.len()) as nat, |k: int| 0int) + t.groups;
        assert(ints(all@) =~= spec_all);
        assert forall|k: int| 0 <= k < all@.len() implies #[trigger] all@[k] < 65536 by {
            assert(ints(all@)[k] == all@[k] as int);
        }
        lemma_groups_value_bound(ints(all@));
    }
    Some((groups_to_u128(&all), tpos))
}

/// Reads an IP address from text as `IpAddr::from_str` does.
pub fn parse_ip(s: &str) -> (r: Option<IpAddress>)
    ensures
        r == ip_parse(s@),
{
    let v = to_chars(s);
    proof {
        lemma_read_ipv4_range(v@, 0);
    }
    match read_ipv4_exec(&v, 0) {
        Some((a, q)) => {
            proof {
                let (sa, sq) = read_ipv4(v@, 0)->0;
                assert(0 <= sq <= v@.len() && a == sa as u32 && q == sq as usize);
            }
            if q == v.len() {
                Some(IpAddress::V4(a))
            } else {
                None
            }
        },
        None => match read_ipv6_exec(&v, 0) {
            Some((a, q)) => {
                proof {
                    let (sa, sq) = read_ipv6(v@, 0)->0;
                    assert(0 <= sq <= v@.len() && a == sa as u128 && q == sq as usize);
                }
                if q == v.len() {
                    Some(IpAddress::V6(a))
                } else {
                    None
                }
            },
            None => None,
        },
    }
}

} // verus!
