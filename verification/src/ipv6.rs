//! Text form of IPv6 addresses (RFC 5952 style, as `Ipv6Addr`'s `Display` prints them).
use vstd::prelude::*;
use crate::text::{hex_lower, push_char, push_str};
use crate::net::{ipv4_text, ipv4_to_string};

verus! {

/// 65536 raised to `7 - k`: the weight of 16-bit group `k` (0 = most significant).
pub open spec fn group_weight(k: int) -> int {
    if k == 0 {
        0x1_0000_0000_0000_0000_0000_0000_0000
    } else if k == 1 {
        0x1_0000_0000_0000_0000_0000_0000
    } else if k == 2 {
        0x1_0000_0000_0000_0000_0000
    } else if k == 3 {
        0x1_0000_0000_0000_0000
    } else if k == 4 {
        0x1_0000_0000_0000
    } else if k == 5 {
        0x1_0000_0000
    } else if k == 6 {
        0x1_0000
    } else {
        1
    }
}

/// The eight 16-bit groups of an address, most significant first.
pub open spec fn groups(ip: u128) -> Seq<int> {
    Seq::new(8, |k: int| (ip as int / group_weight(k)) % 0x1_0000)
}

/// Lower-case hex without leading zeros (`{:x}`).
pub open spec fn hex_min(n: nat) -> Seq<char>
    decreases n,
{
    if n < 16 {
        seq![hex_lower(n as int)]
    } else {
        hex_min(n / 16).push(hex_lower((n % 16) as int))
    }
}

/// Groups written in hex, separated by `:`.
pub open spec fn groups_text(g: Seq<int>) -> Seq<char>
    decreases g.len(),
{
    if g.len() == 0 {
        Seq::empty()
    } else if g.len() == 1 {
        hex_min(g[0] as nat)
    } else {
        groups_text(g.drop_last()) + seq![':'] + hex_min(g.last() as nat)
    }
}

/// Scans groups `i..` for runs of zero groups, keeping the first longest run
/// seen so far as `(best_start, best_len)`; `(cur_start, cur_len)` is the run that
/// ends just before `i`.
pub open spec fn zero_scan(g: Seq<int>, i: int, cur_start: int, cur_len: int, best_start: int, best_len: int) -> (int, int)
    decreases g.len() - i,
{
    if i >= g.len() || i < 0 {
        (best_start, best_len)
    } else if g[i] == 0 {
        let cs = if cur_len == 0 { i } else { cur_start };
        let cl = cur_len + 1;
        if cl > best_len {
            zero_scan(g, i + 1, cs, cl, cs, cl)
        } else {
            zero_scan(g, i + 1, cs, cl, best_start, best_len)
        }
    } else {
        zero_scan(g, i + 1, 0, 0, best_start, best_len)
    }
}

/// The first longest run of zero groups: `(start, length)`.
pub open spec fn zero_run(g: Seq<int>) -> (int, int) {
    zero_scan(g, 0, 0, 0, 0, 0)
}

/// An IPv4-mapped address `::ffff:a.b.c.d`.
pub open spec fn is_v4_mapped(ip: u128) -> bool {
    let g = groups(ip);
    g[0] == 0 && g[1] == 0 && g[2] == 0 && g[3] == 0 && g[4] == 0 && g[5] == 0xffff
}

/// How an IPv6 address is displayed: IPv4-mapped addresses as `::ffff:` and the
/// dotted IPv4 form; otherwise hex groups, with the first longest run of two or
/// more zero groups written as `::`.
pub open spec fn ipv6_text(ip: u128) -> Seq<char> {
    let g = groups(ip);
    if is_v4_mapped(ip) {
        seq![':', ':', 'f', 'f', 'f', 'f', ':'] + ipv4_text((ip as int % 0x1_0000_0000) as u32)
    } else {
        let (z, l) = zero_run(g);
        if l > 1 {
            groups_text(g.subrange(0, z)) + seq![':', ':'] + groups_text(g.subrange(z + l, 8))
        } else {
            groups_text(g)
        }
    }
}

fn weight(k: usize) -> (w: u128)
    requires
        k < 8,
    ensures
        w == group_weight(k as int),
{
    if k == 0 {
        0x1_0000_0000_0000_0000_0000_0000_0000
    } else if k == 1 {
        0x1_0000_0000_0000_0000_0000_0000
    } else if k == 2 {
        0x1_0000_0000_0000_0000_0000
    } else if k == 3 {
        0x1_0000_0000_0000_0000
    } else if k == 4 {
        0x1_0000_0000_0000
    } else if k == 5 {
        0x1_0000_0000
    } else if k == 6 {
        0x1_0000
    } else {
        1
    }
}

fn groups_of(ip: u128) -> (g: Vec<u32>)
    ensures
        g.len() == 8,
        forall|k: int| 0 <= k < 8 ==> g@[k] as int == #[trigger] groups(ip)[k],
{
    let mut g: Vec<u32> = Vec::new();
    let mut k: usize = 0;
    while k < 8
        invariant
            k <= 8,
            g.len() == k,
            forall|j: int| 0 <= j < k ==> g@[j] as int == #[trigger] groups(ip)[j],
        decreases 8 - k,
    {
        let w = weight(k);
        g.push(((ip / w) % 0x1_0000) as u32);
        k += 1;
    }
    g
}

fn push_hex_min(s: &mut String, n: u32)
    ensures
        final(s)@ == old(s)@ + hex_min(n as nat),
    decreases n,
{
    if n < 16 {
        push_char(s, hex_lower_char(n));
        assert(old(s)@.push(hex_lower(n as int)) =~= old(s)@ + seq![hex_lower(n as int)]);
    } else {
        push_hex_min(s, n / 16);
        push_char(s, hex_lower_char(n % 16));
        assert(old(s)@ + hex_min((n / 16) as nat).push(hex_lower((n % 16) as int)) =~= (old(s)@
            + hex_min((n / 16) as nat)).push(hex_lower((n % 16) as int)));
    }
}

fn hex_lower_char(d: u32) -> (c: char)
    requires
        d < 16,
    ensures
        c == hex_lower(d as int),
{
    let b = d as u8;
    if b < 10 {
        (b + 48) as char
    } else {
        (b + 87) as char
    }
}

fn push_groups(s: &mut String, g: &Vec<u32>, from: usize, to: usize, Ghost(full): Ghost<Seq<int>>)
    requires
        from <= to <= g.len(),
        full.len() == g.len(),
        forall|k: int| 0 <= k < g.len() ==> g@[k] as int == full[k],
    ensures
        final(s)@ == old(s)@ + groups_text(full.subrange(from as int, to as int)),
    decreases to - from,
{
    if from == to {
        assert(full.subrange(from as int, to as int).len() == 0);
        assert(old(s)@ + Seq::<char>::empty() =~= old(s)@);
    } else if to - from == 1 {
        push_hex_min(s, g[from]);
        assert(full.subrange(from as int, to as int)[0] == full[from as int]);
    } else {
        push_groups(s, g, from, to - 1, Ghost(full));
        push_char(s, ':');
        push_hex_min(s, g[to - 1]);
        let ghost sub = full.subrange(from as int, to as int);
        assert(sub.drop_last() =~= full.subrange(from as int, to - 1));
        assert(sub.last() == full[to - 1]);
        assert(final(s)@ =~= old(s)@ + groups_text(sub));
    }
}

/// The `Display` form of an IPv6 address.
pub fn ipv6_to_string(ip: u128) -> (r: String)
    ensures
        r@ == ipv6_text(ip),
{
    let g = groups_of(ip);
    let ghost full = groups(ip);
    if g[0] == 0 && g[1] == 0 && g[2] == 0 && g[3] == 0 && g[4] == 0 && g[5] == 0xffff {
        let mut s = String::new();
        push_str(&mut s, "::ffff:");
        let t = ipv4_to_string((ip % 0x1_0000_0000) as u32);
        push_str(&mut s, t.as_str());
        proof {
            reveal_strlit("::ffff:");
            assert(s@ =~= ipv6_text(ip));
        }
        return s;
    }
    // first longest run of zero groups
    let mut cur_start: usize = 0;
    let mut cur_len: usize = 0;
    let mut best_start: usize = 0;
    let mut best_len: usize = 0;
    let mut i: usize = 0;
    while i < 8
        invariant
            i <= 8,
            g.len() == 8,
            full == groups(ip),
            forall|k: int| 0 <= k < 8 ==> g@[k] as int == full[k],
            cur_len <= i,
            cur_start + cur_len <= i,
            best_start + best_len <= 8,
            zero_run(full) == zero_scan(full, i as int, cur_start as int, cur_len as int, best_start as int, best_len as int),
        decreases 8 - i,
    {
        if g[i] == 0 {
            if cur_len == 0 {
                cur_start = i;
            }
            cur_len += 1;
            if cur_len > best_len {
                best_start = cur_start;
                best_len = cur_len;
            }
        } else {
            cur_start = 0;
            cur_len = 0;
        }
        i += 1;
    }
    let mut s = String::new();
    if best_len > 1 {
        push_groups(&mut s, &g, 0, best_start, Ghost(full));
        push_char(&mut s, ':');
        push_char(&mut s, ':');
        push_groups(&mut s, &g, best_start + best_len, 8, Ghost(full));
        proof {
            assert(s@ =~= groups_text(full.subrange(0, best_start as int)) + seq![':', ':'] + groups_text(full.subrange((best_start + best_len) as int, 8)));
        }
    } else {
        push_groups(&mut s, &g, 0, 8, Ghost(full));
        proof {
            assert(full.subrange(0, 8) =~= full);
            assert(s@ =~= groups_text(full));
        }
    }
    s
}

} // verus!
