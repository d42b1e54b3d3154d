//! The displayed form of an IP address reads back as that address: what the
//! store writes in an address column, and what the API prints, parses again.
use vstd::prelude::*;
use crate::net::{IpAddress, ipv4_text, ip_text, octet, lemma_pow2_values};
use crate::text::{decimal, digit_char};
use crate::ipv6::{groups, group_weight, hex_min, groups_text, zero_scan, zero_run, is_v4_mapped, ipv6_text};
use crate::text::hex_lower;
use crate::ipparse::{
    digit_in, run_len, run_value, read_number, read_octet, read_ipv4, ip_parse, lemma_run_len_exact,
    groups_value, dot_octet, lemma_read_number_range, read_groups, Groups, v4_group, v6_group, read_ipv6,
};

verus! {

// ---------------------------------------------------------------------------
// Digit runs
// ---------------------------------------------------------------------------
/// The value of digits copied into `s` at `p` is their value where they came from.
proof fn lemma_run_value_shift(s: Seq<char>, d: Seq<char>, p: int, n: nat, hex: bool)
    requires
        0 <= p,
        n <= d.len(),
        p + d.len() <= s.len(),
        s.subrange(p, p + d.len()) == d,
    ensures
        run_value(s, p, n, hex) == run_value(d, 0, n, hex),
    decreases n,
{
    if n > 0 {
        lemma_run_value_shift(s, d, p, (n - 1) as nat, hex);
        assert(s[p + n - 1] == d[n - 1]);
    }
}

/// Digits `d` copied into `s` at `p` and not followed by another digit read as a
/// number of `d.len()` digits with their value.
proof fn lemma_read_copied_digits(s: Seq<char>, d: Seq<char>, p: int, hex: bool)
    requires
        0 <= p,
        p + d.len() <= s.len(),
        s.subrange(p, p + d.len()) == d,
        forall|k: int| 0 <= k < d.len() ==> digit_in(#[trigger] d[k], hex) is Some,
        p + d.len() == s.len() || digit_in(s[p + d.len()], hex) is None,
    ensures
        run_len(s, p, hex) == d.len(),
        run_value(s, p, d.len(), hex) == run_value(d, 0, d.len(), hex),
{
    let l = d.len() as int;
    assert forall|k: int| p <= k < p + l implies digit_in(#[trigger] s[k], hex) is Some by {
        assert(s[k] == d[k - p]);
    }
    lemma_run_len_exact(s, p, p + l, hex);
    lemma_run_value_shift(s, d, p, d.len(), hex);
}

// ---------------------------------------------------------------------------
// Dotted decimal
// ---------------------------------------------------------------------------
proof fn lemma_decimal_small(n: nat)
    requires
        n <= 255,
    ensures
        ({
            let d = decimal(n);
            &&& 1 <= d.len() <= 3
            &&& forall|k: int| 0 <= k < d.len() ==> digit_in(#[trigger] d[k], false) is Some
            &&& run_value(d, 0, d.len(), false) == n
            &&& (d.len() > 1 ==> d[0] != '0')
        }),
{
    reveal_with_fuel(decimal, 3);
    let d = decimal(n);
    if n < 10 {
        assert(d =~= seq![digit_char(n as int)]);
        reveal_with_fuel(run_value, 2);
    } else if n < 100 {
        assert(d =~= seq![digit_char((n / 10) as int), digit_char((n % 10) as int)]);
        reveal_with_fuel(run_value, 3);
    } else {
        assert(d =~= seq![digit_char((n / 100) as int), digit_char((n / 10 % 10) as int), digit_char((n % 10) as int)]);
        reveal_with_fuel(run_value, 4);
        assert(n / 10 / 10 == n / 100);
    }
}

/// An octet written in decimal at `p`, followed by a `.` or the end, reads back.
proof fn lemma_read_octet_decimal(s: Seq<char>, p: int, n: nat)
    requires
        n <= 255,
        0 <= p,
        p + decimal(n).len() <= s.len(),
        s.subrange(p, p + decimal(n).len()) == decimal(n),
        p + decimal(n).len() == s.len() || s[p + decimal(n).len()] == '.',
    ensures
        read_octet(s, p) == Some((n as int, p + decimal(n).len())),
{
    let d = decimal(n);
    lemma_decimal_small(n);
    lemma_read_copied_digits(s, d, p, false);
    assert(s[p] == d[0]);
}

/// Dotted-decimal text of `a` ending `s` at `p` reads back as `a`.
pub(crate) proof fn lemma_read_ipv4_text(s: Seq<char>, p: int, a: u32)
    requires
        0 <= p <= s.len(),
        s.subrange(p, s.len() as int) == ipv4_text(a),
    ensures
        read_ipv4(s, p) == Some((a as int, s.len() as int)),
{
    lemma_pow2_values();
    let o0 = octet(a, 0);
    let o1 = octet(a, 1);
    let o2 = octet(a, 2);
    let o3 = octet(a, 3);
    let d0 = decimal(o0);
    let d1 = decimal(o1);
    let d2 = decimal(o2);
    let d3 = decimal(o3);
    let t = ipv4_text(a);
    assert(t =~= d0 + seq!['.'] + d1 + seq!['.'] + d2 + seq!['.'] + d3);
    let p1 = p + d0.len();
    let p2 = p1 + 1 + d1.len();
    let p3 = p2 + 1 + d2.len();
    let p4 = p3 + 1 + d3.len();
    assert(p4 == s.len());
    assert(s.subrange(p, p1) =~= t.subrange(0, d0.len() as int));
    assert(t.subrange(0, d0.len() as int) =~= d0);
    assert(s.subrange(p1 + 1, p2) =~= d1) by {
        assert forall|k: int| 0 <= k < d1.len() implies s.subrange(p1 + 1, p2)[k] == d1[k] by {
            assert(s[p1 + 1 + k] == t[d0.len() + 1 + k]);
        }
    }
    assert(s.subrange(p2 + 1, p3) =~= d2) by {
        assert forall|k: int| 0 <= k < d2.len() implies s.subrange(p2 + 1, p3)[k] == d2[k] by {
            assert(s[p2 + 1 + k] == t[d0.len() + d1.len() + 2 + k]);
        }
    }
    assert(s.subrange(p3 + 1, p4) =~= d3) by {
        assert forall|k: int| 0 <= k < d3.len() implies s.subrange(p3 + 1, p4)[k] == d3[k] by {
            assert(s[p3 + 1 + k] == t[d0.len() + d1.len() + d2.len() + 3 + k]);
        }
    }
    assert(s[p1] == t[d0.len() as int]);
    assert(s[p2] == t[(d0.len() + 1 + d1.len()) as int]);
    assert(s[p3] == t[(d0.len() + d1.len() + d2.len() + 2) as int]);
    lemma_read_octet_decimal(s, p, o0);
    lemma_read_octet_decimal(s, p1 + 1, o1);
    lemma_read_octet_decimal(s, p2 + 1, o2);
    lemma_read_octet_decimal(s, p3 + 1, o3);
    assert(((((a / 16777216) % 256) * 256 + (a / 65536) % 256) * 256 + (a / 256) % 256) * 256 + a % 256 == a)
        by (bit_vector);
    assert(a as int / 1int == a as int);
    assert(o3 == a % 256);
}

/// The displayed form of an IPv4 address reads back as that address.
pub proof fn law_ipv4_text_parses_back(a: u32)
    ensures
        ip_parse(ipv4_text(a)) == Some(IpAddress::V4(a)),
{
    let s = ipv4_text(a);
    assert(s.subrange(0, s.len() as int) =~= s);
    lemma_read_ipv4_text(s, 0, a);
}

// ---------------------------------------------------------------------------
// Groups of an IPv6 address
// ---------------------------------------------------------------------------
proof fn lemma_groups_value_step(g: Seq<int>, k: int)
    requires
        0 <= k < g.len(),
    ensures
        groups_value(g.subrange(0, k + 1)) == groups_value(g.subrange(0, k)) * 65536 + g[k],
{
    assert(g.subrange(0, k + 1).drop_last() =~= g.subrange(0, k));
}

/// Eight groups as a number.
proof fn lemma_groups_value8(g: Seq<int>)
    requires
        g.len() == 8,
    ensures
        groups_value(g) == ((((((g[0] * 65536 + g[1]) * 65536 + g[2]) * 65536 + g[3]) * 65536 + g[4]) * 65536
            + g[5]) * 65536 + g[6]) * 65536 + g[7],
{
    assert(groups_value(g.subrange(0, 0)) == 0);
    lemma_groups_value_step(g, 0);
    lemma_groups_value_step(g, 1);
    lemma_groups_value_step(g, 2);
    lemma_groups_value_step(g, 3);
    lemma_groups_value_step(g, 4);
    lemma_groups_value_step(g, 5);
    lemma_groups_value_step(g, 6);
    lemma_groups_value_step(g, 7);
    assert(g.subrange(0, 8) =~= g);
}

/// An address is the number its groups make.
proof fn lemma_groups_of_address(ip: u128)
    ensures
        groups_value(groups(ip)) == ip,
        forall|k: int| 0 <= k < 8 ==> 0 <= #[trigger] groups(ip)[k] < 65536,
{
    let g = groups(ip);
    lemma_groups_value8(g);
    assert(g[0] == (ip / 0x1_0000_0000_0000_0000_0000_0000_0000) % 0x1_0000);
    assert(g[1] == (ip / 0x1_0000_0000_0000_0000_0000_0000) % 0x1_0000);
    assert(g[2] == (ip / 0x1_0000_0000_0000_0000_0000) % 0x1_0000);
    assert(g[3] == (ip / 0x1_0000_0000_0000_0000) % 0x1_0000);
    assert(g[4] == (ip / 0x1_0000_0000_0000) % 0x1_0000);
    assert(g[5] == (ip / 0x1_0000_0000) % 0x1_0000);
    assert(g[6] == (ip / 0x1_0000) % 0x1_0000);
    assert(g[7] == (ip as int / 1int) % 0x1_0000);
    assert(ip as int / 1int == ip as int);
    assert(((((((((ip / 0x1_0000_0000_0000_0000_0000_0000_0000) % 0x1_0000) * 0x1_0000
        + (ip / 0x1_0000_0000_0000_0000_0000_0000) % 0x1_0000) * 0x1_0000
        + (ip / 0x1_0000_0000_0000_0000_0000) % 0x1_0000) * 0x1_0000
        + (ip / 0x1_0000_0000_0000_0000) % 0x1_0000) * 0x1_0000
        + (ip / 0x1_0000_0000_0000) % 0x1_0000) * 0x1_0000
        + (ip / 0x1_0000_0000) % 0x1_0000) * 0x1_0000
        + (ip / 0x1_0000) % 0x1_0000) * 0x1_0000
        + ip % 0x1_0000 == ip) by (bit_vector);
}

// ---------------------------------------------------------------------------
// Hex groups
// ---------------------------------------------------------------------------
/// Hex digit values are below 16 and their characters are no separators.
proof fn lemma_hex_digit(c: char)
    requires
        digit_in(c, true) is Some,
    ensures
        c != ':' && c != '.',
{
}

proof fn lemma_hex_lower_digit(d: int)
    requires
        0 <= d < 16,
    ensures
        digit_in(hex_lower(d), true) == Some(d),
{
}

/// A group written in hex: one to four hex digits with its value.
proof fn lemma_hex_min_small(n: nat)
    requires
        n < 65536,
    ensures
        ({
            let t = hex_min(n);
            &&& 1 <= t.len() <= 4
            &&& forall|k: int| 0 <= k < t.len() ==> digit_in(#[trigger] t[k], true) is Some
            &&& run_value(t, 0, t.len(), true) == n
        }),
{
    reveal_with_fuel(hex_min, 4);
    let t = hex_min(n);
    lemma_hex_lower_digit((n % 16) as int);
    if n < 16 {
        assert(t =~= seq![hex_lower(n as int)]);
        reveal_with_fuel(run_value, 2);
    } else if n < 256 {
        lemma_hex_lower_digit((n / 16) as int);
        assert(t =~= seq![hex_lower((n / 16) as int), hex_lower((n % 16) as int)]);
        reveal_with_fuel(run_value, 3);
    } else if n < 4096 {
        lemma_hex_lower_digit((n / 256) as int);
        lemma_hex_lower_digit((n / 16 % 16) as int);
        assert(n / 16 / 16 == n / 256);
        assert(t =~= seq![hex_lower((n / 256) as int), hex_lower((n / 16 % 16) as int), hex_lower((n % 16) as int)]);
        reveal_with_fuel(run_value, 4);
    } else {
        lemma_hex_lower_digit((n / 4096) as int);
        lemma_hex_lower_digit((n / 256 % 16) as int);
        lemma_hex_lower_digit((n / 16 % 16) as int);
        assert(n / 16 / 16 == n / 256);
        assert(n / 256 / 16 == n / 4096);
        assert(t =~= seq![
            hex_lower((n / 4096) as int),
            hex_lower((n / 256 % 16) as int),
            hex_lower((n / 16 % 16) as int),
            hex_lower((n % 16) as int),
        ]);
        reveal_with_fuel(run_value, 5);
    }
}

/// A group written in hex at `p`, not followed by a hex digit, reads back.
proof fn lemma_read_hex_group(s: Seq<char>, p: int, n: nat)
    requires
        n < 65536,
        0 <= p,
        p + hex_min(n).len() <= s.len(),
        s.subrange(p, p + hex_min(n).len()) == hex_min(n),
        p + hex_min(n).len() == s.len() || digit_in(s[p + hex_min(n).len()], true) is None,
    ensures
        read_number(s, p, true, 4, 65535, true) == Some((n as int, p + hex_min(n).len())),
{
    lemma_hex_min_small(n);
    lemma_read_copied_digits(s, hex_min(n), p, true);
}

/// Text without a `.` holds no dotted-decimal address.
proof fn lemma_no_dot_no_ipv4(s: Seq<char>, p: int)
    requires
        forall|k: int| 0 <= k < s.len() ==> s[k] != '.',
    ensures
        read_ipv4(s, p) is None,
{
    lemma_read_number_range(s, p, false, 3, 255, false);
    if let Some((a, p1)) = read_octet(s, p) {
        assert(dot_octet(s, p1) is None);
    }
}

// ---------------------------------------------------------------------------
// Runs of groups
// ---------------------------------------------------------------------------
/// Groups each written as `:` and hex, first to last.
pub open spec fn sep_text(h: Seq<int>) -> Seq<char>
    decreases h.len(),
{
    if h.len() == 0 {
        Seq::empty()
    } else {
        seq![':'] + hex_min(h[0] as nat) + sep_text(h.drop_first())
    }
}

pub open spec fn small_groups(g: Seq<int>) -> bool {
    forall|k: int| 0 <= k < g.len() ==> 0 <= #[trigger] g[k] < 65536
}

pub open spec fn no_dot(s: Seq<char>) -> bool {
    forall|k: int| 0 <= k < s.len() ==> #[trigger] s[k] != '.'
}

proof fn lemma_sep_text_last(h: Seq<int>)
    requires
        h.len() >= 1,
    ensures
        sep_text(h) == sep_text(h.drop_last()) + seq![':'] + hex_min(h.last() as nat),
    decreases h.len(),
{
    if h.len() == 1 {
        assert(sep_text(h.drop_first()) =~= Seq::<char>::empty());
        assert(sep_text(h.drop_last()) =~= Seq::<char>::empty());
        assert(h.last() == h[0]);
        assert(sep_text(h) =~= sep_text(h.drop_last()) + seq![':'] + hex_min(h.last() as nat));
    } else {
        lemma_sep_text_last(h.drop_first());
        assert(h.drop_first().drop_last() =~= h.drop_last().drop_first());
        assert(h.drop_first().last() == h.last());
        assert(h.drop_last()[0] == h[0]);
        assert(sep_text(h) =~= sep_text(h.drop_last()) + seq![':'] + hex_min(h.last() as nat));
    }
}

/// Groups text read from the front: the first group, then `:` and each of the others.
proof fn lemma_groups_text_front(g: Seq<int>)
    requires
        g.len() >= 1,
    ensures
        groups_text(g) == hex_min(g[0] as nat) + sep_text(g.drop_first()),
    decreases g.len(),
{
    if g.len() == 1 {
        assert(g.drop_first().len() == 0);
        assert(groups_text(g) =~= hex_min(g[0] as nat) + sep_text(g.drop_first()));
    } else {
        lemma_groups_text_front(g.drop_last());
        lemma_sep_text_last(g.drop_first());
        assert(g.drop_first().drop_last() =~= g.drop_last().drop_first());
        assert(g.drop_first().last() == g.last());
        assert(g.drop_last()[0] == g[0]);
        assert(groups_text(g) =~= hex_min(g[0] as nat) + sep_text(g.drop_first()));
    }
}

proof fn lemma_hex_text_no_dot(n: nat)
    requires
        n < 65536,
    ensures
        no_dot(hex_min(n)),
        forall|k: int| 0 <= k < hex_min(n).len() ==> #[trigger] hex_min(n)[k] != ':',
{
    lemma_hex_min_small(n);
    assert forall|k: int| 0 <= k < hex_min(n).len() implies #[trigger] hex_min(n)[k] != '.' && hex_min(n)[k] != ':' by {
        lemma_hex_digit(hex_min(n)[k]);
    }
}

proof fn lemma_groups_text_no_dot(g: Seq<int>)
    requires
        small_groups(g),
    ensures
        no_dot(groups_text(g)),
    decreases g.len(),
{
    if g.len() == 1 {
        lemma_hex_text_no_dot(g[0] as nat);
    } else if g.len() > 1 {
        let a = g.drop_last();
        assert(small_groups(a)) by {
            assert forall|k: int| 0 <= k < a.len() implies 0 <= #[trigger] a[k] < 65536 by {
                assert(a[k] == g[k]);
            }
        }
        lemma_groups_text_no_dot(a);
        lemma_hex_text_no_dot(g.last() as nat);
        let t = groups_text(g);
        let x = groups_text(a);
        let y = hex_min(g.last() as nat);
        assert(t =~= x + seq![':'] + y);
        assert forall|k: int| 0 <= k < t.len() implies #[trigger] t[k] != '.' by {
            if k < x.len() {
                assert(t[k] == x[k]);
            } else if k > x.len() {
                assert(t[k] == y[k - x.len() - 1]);
            }
        }
    }
}

/// Reading `:`-separated groups copied into `s` at `q` (in text without a `.`)
/// reads each of them.
proof fn lemma_read_sep_groups(s: Seq<char>, q: int, i: nat, limit: nat, acc: Seq<int>, h: Seq<int>)
    requires
        no_dot(s),
        small_groups(h),
        0 <= q,
        q + sep_text(h).len() <= s.len(),
        s.subrange(q, q + sep_text(h).len()) == sep_text(h),
        i >= 1,
        i + h.len() <= limit,
        q + sep_text(h).len() == s.len() || s[q + sep_text(h).len()] == ':',
    ensures
        read_groups(s, q, i, limit, acc) == read_groups(s, q + sep_text(h).len(), i + h.len(), limit, acc + h),
    decreases h.len(),
{
    if h.len() == 0 {
        assert(acc + h =~= acc);
    } else {
        let t = hex_min(h[0] as nat);
        let rest = h.drop_first();
        let e = q + sep_text(h).len();
        assert(sep_text(h) =~= seq![':'] + t + sep_text(rest));
        let q2 = q + 1 + t.len();
        lemma_hex_min_small(h[0] as nat);
        assert(s[q] == ':') by {
            assert(s[q] == sep_text(h)[0]);
        }
        lemma_no_dot_no_ipv4(s, q + 1);
        assert(s.subrange(q + 1, q2) =~= t) by {
            assert forall|k: int| 0 <= k < t.len() implies s.subrange(q + 1, q2)[k] == t[k] by {
                assert(s[q + 1 + k] == sep_text(h)[1 + k]);
            }
        }
        if q2 < s.len() {
            if rest.len() > 0 {
                assert(sep_text(rest) =~= seq![':'] + hex_min(rest[0] as nat) + sep_text(rest.drop_first()));
                assert(s[q2] == sep_text(h)[(1 + t.len()) as int]);
                assert(s[q2] == ':');
            } else {
                assert(q2 == e);
            }
        }
        lemma_read_hex_group(s, q + 1, h[0] as nat);
        assert(v6_group(s, q, i) == Some((h[0], q2)));
        assert(small_groups(rest)) by {
            assert forall|k: int| 0 <= k < rest.len() implies 0 <= #[trigger] rest[k] < 65536 by {
                assert(rest[k] == h[k + 1]);
            }
        }
        assert(s.subrange(q2, q2 + sep_text(rest).len()) =~= sep_text(rest)) by {
            assert forall|k: int| 0 <= k < sep_text(rest).len() implies s.subrange(q2, q2 + sep_text(rest).len())[k]
                == sep_text(rest)[k] by {
                assert(s[q2 + k] == sep_text(h)[1 + t.len() + k]);
            }
        }
        lemma_read_sep_groups(s, q2, i + 1, limit, acc.push(h[0]), rest);
        assert(acc.push(h[0]) + rest =~= acc + h);
    }
}

/// Reading groups copied into `s` at `q` (in text without a `.`) from the first
/// one on reads each of them.
proof fn lemma_read_text_groups(s: Seq<char>, q: int, limit: nat, g: Seq<int>)
    requires
        no_dot(s),
        small_groups(g),
        1 <= g.len() <= limit,
        0 <= q,
        q + groups_text(g).len() <= s.len(),
        s.subrange(q, q + groups_text(g).len()) == groups_text(g),
        q + groups_text(g).len() == s.len() || s[q + groups_text(g).len()] == ':',
    ensures
        read_groups(s, q, 0, limit, Seq::empty()) == read_groups(s, q + groups_text(g).len(), g.len(), limit, g),
{
    lemma_groups_text_front(g);
    let t = hex_min(g[0] as nat);
    let rest = g.drop_first();
    let q2 = q + t.len();
    lemma_hex_min_small(g[0] as nat);
    lemma_no_dot_no_ipv4(s, q);
    assert(s.subrange(q, q2) =~= t) by {
        assert forall|k: int| 0 <= k < t.len() implies s.subrange(q, q2)[k] == t[k] by {
            assert(s[q + k] == groups_text(g)[k]);
        }
    }
    if q2 < s.len() {
        if rest.len() > 0 {
            assert(sep_text(rest) =~= seq![':'] + hex_min(rest[0] as nat) + sep_text(rest.drop_first()));
            assert(s[q2] == groups_text(g)[t.len() as int]);
        }
    }
    lemma_read_hex_group(s, q, g[0] as nat);
    assert(v6_group(s, q, 0) == Some((g[0], q2)));
    assert(small_groups(rest)) by {
        assert forall|k: int| 0 <= k < rest.len() implies 0 <= #[trigger] rest[k] < 65536 by {
            assert(rest[k] == g[k + 1]);
        }
    }
    assert(s.subrange(q2, q2 + sep_text(rest).len()) =~= sep_text(rest)) by {
        assert forall|k: int| 0 <= k < sep_text(rest).len() implies s.subrange(q2, q2 + sep_text(rest).len())[k]
            == sep_text(rest)[k] by {
            assert(s[q2 + k] == groups_text(g)[t.len() + k]);
        }
    }
    assert(Seq::<int>::empty().push(g[0]) =~= seq![g[0]]);
    lemma_read_sep_groups(s, q2, 1, limit, seq![g[0]], rest);
    assert(seq![g[0]] + rest =~= g);
}

// ---------------------------------------------------------------------------
// The run of zero groups written as `::`
// ---------------------------------------------------------------------------
proof fn lemma_zero_scan(g: Seq<int>, i: int, cs: int, cl: int, bs: int, bl: int)
    requires
        0 <= i <= g.len(),
        0 <= cl,
        cl > 0 ==> 0 <= cs && cs + cl == i,
        forall|k: int| cs <= k < cs + cl ==> #[trigger] g[k] == 0,
        0 <= bs,
        0 <= bl,
        bs + bl <= g.len(),
        forall|k: int| bs <= k < bs + bl ==> #[trigger] g[k] == 0,
    ensures
        ({
            let (z, l) = zero_scan(g, i, cs, cl, bs, bl);
            &&& 0 <= z
            &&& 0 <= l
            &&& z + l <= g.len()
            &&& forall|k: int| z <= k < z + l ==> #[trigger] g[k] == 0
        }),
    decreases g.len() - i,
{
    if i < g.len() {
        if g[i] == 0 {
            let ncs = if cl == 0 { i } else { cs };
            let ncl = cl + 1;
            assert forall|k: int| ncs <= k < ncs + ncl implies #[trigger] g[k] == 0 by {
                if k < i {
                    assert(cs <= k < cs + cl);
                }
            }
            if ncl > bl {
                lemma_zero_scan(g, i + 1, ncs, ncl, ncs, ncl);
            } else {
                lemma_zero_scan(g, i + 1, ncs, ncl, bs, bl);
            }
        } else {
            lemma_zero_scan(g, i + 1, 0, 0, bs, bl);
        }
    }
}

proof fn lemma_zero_run(g: Seq<int>)
    ensures
        ({
            let (z, l) = zero_run(g);
            &&& 0 <= z
            &&& 0 <= l
            &&& z + l <= g.len()
            &&& forall|k: int| z <= k < z + l ==> #[trigger] g[k] == 0
        }),
{
    lemma_zero_scan(g, 0, 0, 0, 0, 0);
}

proof fn lemma_small_subrange(g: Seq<int>, a: int, b: int)
    requires
        small_groups(g),
        0 <= a <= b <= g.len(),
    ensures
        small_groups(g.subrange(a, b)),
{
    assert forall|k: int| 0 <= k < b - a implies 0 <= #[trigger] g.subrange(a, b)[k] < 65536 by {
        assert(g.subrange(a, b)[k] == g[a + k]);
    }
}

/// Reading groups stops at a `::` or at the end of the text.
proof fn lemma_read_groups_stop(s: Seq<char>, e: int, m: nat, limit: nat, g: Seq<int>)
    requires
        no_dot(s),
        0 <= e <= s.len(),
        m < limit,
        e == s.len() || (e + 1 < s.len() && s[e] == ':' && s[e + 1] == ':'),
    ensures
        read_groups(s, e, m, limit, g) == (Groups { groups: g, pos: e, ipv4: false }),
{
    lemma_no_dot_no_ipv4(s, e);
    lemma_no_dot_no_ipv4(s, e + 1);
    if m == 0 && e < s.len() {
        assert(run_len(s, e, true) == 0);
    }
    if e + 1 < s.len() {
        assert(run_len(s, e + 1, true) == 0);
    }
    assert(v6_group(s, e, m) is None);
}

/// The eight groups with the zero run `z..z + l` put back.
proof fn lemma_zero_run_restored(g: Seq<int>, z: int, l: int)
    requires
        g.len() == 8,
        0 <= z,
        0 <= l,
        z + l <= 8,
        forall|k: int| z <= k < z + l ==> #[trigger] g[k] == 0,
    ensures
        g.subrange(0, z) + Seq::new(l as nat, |k: int| 0int) + g.subrange(z + l, 8) == g,
{
    let all = g.subrange(0, z) + Seq::new(l as nat, |k: int| 0int) + g.subrange(z + l, 8);
    assert forall|k: int| 0 <= k < 8 implies all[k] == g[k] by {
        if z <= k < z + l {
            assert(g[k] == 0);
        }
    }
    assert(all =~= g);
}

// ---------------------------------------------------------------------------
// IPv6 text reads back
// ---------------------------------------------------------------------------
/// Four `f`s at 2 followed by `:` read as the group `ffff`.
proof fn lemma_ffff_group(s: Seq<char>)
    requires
        s.len() > 6,
        s[2] == 'f' && s[3] == 'f' && s[4] == 'f' && s[5] == 'f' && s[6] == ':',
    ensures
        v6_group(s, 2, 0) == Some((65535int, 6int)),
{
    assert forall|k: int| 2 <= k < 6 implies digit_in(#[trigger] s[k], true) is Some by {}
    lemma_run_len_exact(s, 2, 6, true);
    reveal_with_fuel(run_value, 5);
    assert(run_value(s, 2, 4, true) == 65535);
}

/// `::ffff:` and the dotted form of `lo` read as the groups `ffff`, `lo / 65536`,
/// `lo % 65536` after the `::`.
proof fn lemma_mapped_text(s: Seq<char>, lo: u32)
    requires
        s == seq![':', ':', 'f', 'f', 'f', 'f', ':'] + ipv4_text(lo),
    ensures
        read_ipv4(s, 0) is None,
        read_groups(s, 0, 0, 8, Seq::empty()) == (Groups { groups: Seq::<int>::empty(), pos: 0, ipv4: false }),
        read_groups(s, 2, 0, 7, Seq::empty()) == (Groups {
            groups: seq![65535int, lo as int / 65536, lo as int % 65536],
            pos: s.len() as int,
            ipv4: true,
        }),
{
    assert(s[0] == ':' && s[1] == ':' && s[2] == 'f' && s[3] == 'f' && s[4] == 'f' && s[5] == 'f' && s[6] == ':');
    assert(run_len(s, 0, false) == 0);
    assert(run_len(s, 0, true) == 0);
    assert(run_len(s, 2, false) == 0);
    assert(read_ipv4(s, 2) is None);
    lemma_ffff_group(s);
    assert(s.subrange(7, s.len() as int) =~= ipv4_text(lo));
    lemma_read_ipv4_text(s, 7, lo);
    assert(v4_group(s, 6, 1) == Some((lo as int, s.len() as int)));
    assert(Seq::<int>::empty().push(65535int) =~= seq![65535int]);
    assert(seq![65535int] + seq![lo as int / 65536, lo as int % 65536] =~= seq![65535int, lo as int / 65536, lo
        as int % 65536]);
    assert(read_groups(s, 6, 1, 7, seq![65535int]) == (Groups {
        groups: seq![65535int, lo as int / 65536, lo as int % 65536],
        pos: s.len() as int,
        ipv4: true,
    }));
    assert(read_groups(s, 2, 0, 7, Seq::empty()) == read_groups(s, 6, 1, 7, seq![65535int]));
}

proof fn lemma_ipv6_mapped(ip: u128)
    requires
        is_v4_mapped(ip),
    ensures
        ip_parse(ipv6_text(ip)) == Some(IpAddress::V6(ip)),
{
    let g = groups(ip);
    lemma_groups_of_address(ip);
    lemma_groups_value8(g);
    let lo = (ip as int % 0x1_0000_0000) as u32;
    assert(ip % 0x1_0000_0000 == ((ip / 0x1_0000) % 0x1_0000) * 0x1_0000 + ip % 0x1_0000) by (bit_vector);
    assert(g[6] == (ip / 0x1_0000) % 0x1_0000);
    assert(g[7] == (ip as int / 1int) % 0x1_0000);
    assert(ip as int / 1int == ip as int);
    assert(lo == g[6] * 65536 + g[7]);
    let s = ipv6_text(ip);
    lemma_mapped_text(s, lo);
    let all = Seq::<int>::empty() + Seq::new(5, |k: int| 0int) + seq![65535int, lo as int / 65536, lo as int % 65536];
    assert(all =~= seq![0int, 0int, 0int, 0int, 0int, 65535int, lo as int / 65536, lo as int % 65536]);
    lemma_groups_value8(all);
    assert(lo as int / 65536 * 65536 + lo as int % 65536 == lo as int);
    assert(read_ipv6(s, 0) == Some((ip as int, s.len() as int)));
}

proof fn lemma_ipv6_uncompressed(ip: u128)
    requires
        !is_v4_mapped(ip),
        zero_run(groups(ip)).1 <= 1,
    ensures
        ip_parse(ipv6_text(ip)) == Some(IpAddress::V6(ip)),
{
    let g = groups(ip);
    lemma_groups_of_address(ip);
    assert(small_groups(g));
    let s = ipv6_text(ip);
    assert(s == groups_text(g));
    lemma_groups_text_no_dot(g);
    lemma_no_dot_no_ipv4(s, 0);
    assert(s.subrange(0, s.len() as int) =~= s);
    if s.len() > 0 {
        assert(s[0] != '.');
    }
    lemma_read_text_groups(s, 0, 8, g);
    assert(read_ipv6(s, 0) == Some((ip as int, s.len() as int)));
}

proof fn lemma_ipv6_compressed(ip: u128)
    requires
        !is_v4_mapped(ip),
        zero_run(groups(ip)).1 > 1,
    ensures
        ip_parse(ipv6_text(ip)) == Some(IpAddress::V6(ip)),
{
    let g = groups(ip);
    lemma_groups_of_address(ip);
    assert(small_groups(g));
    lemma_zero_run(g);
    let (z, l) = zero_run(g);
    let head = g.subrange(0, z);
    let tail = g.subrange(z + l, 8);
    lemma_small_subrange(g, 0, z);
    lemma_small_subrange(g, z + l, 8);
    let a = groups_text(head);
    let b = groups_text(tail);
    let s = ipv6_text(ip);
    assert(s == a + seq![':', ':'] + b);
    let n = a.len() as int;
    lemma_groups_text_no_dot(head);
    lemma_groups_text_no_dot(tail);
    assert(no_dot(s)) by {
        assert forall|k: int| 0 <= k < s.len() implies #[trigger] s[k] != '.' by {
            if k < n {
                assert(s[k] == a[k]);
            } else if k >= n + 2 {
                assert(s[k] == b[k - n - 2]);
            }
        }
    }
    assert(s[n] == ':' && s[n + 1] == ':');
    lemma_no_dot_no_ipv4(s, 0);
    // the groups before the `::`
    let h = read_groups(s, 0, 0, 8, Seq::empty());
    if z > 0 {
        assert(s.subrange(0, n) =~= a);
        lemma_read_text_groups(s, 0, 8, head);
        lemma_read_groups_stop(s, n, z as nat, 8, head);
    } else {
        assert(head =~= Seq::<int>::empty());
        lemma_read_groups_stop(s, 0, 0, 8, Seq::empty());
    }
    assert(h == Groups { groups: head, pos: n, ipv4: false });
    // the groups after it
    let limit = (8 - (z + 1)) as nat;
    let t = read_groups(s, n + 2, 0, limit, Seq::empty());
    if z + l < 8 {
        assert(s.subrange(n + 2, n + 2 + b.len()) =~= b);
        lemma_read_text_groups(s, n + 2, limit, tail);
        lemma_read_groups_stop(s, s.len() as int, tail.len(), limit, tail);
    } else {
        assert(tail =~= Seq::<int>::empty());
        lemma_read_groups_stop(s, s.len() as int, 0, limit, Seq::empty());
    }
    assert(t == Groups { groups: tail, pos: s.len() as int, ipv4: false });
    lemma_zero_run_restored(g, z, l);
    assert((8 - h.groups.len() - t.groups.len()) as nat == l as nat);
    assert(read_ipv6(s, 0) == Some((ip as int, s.len() as int)));
}

/// The displayed form of an IPv6 address reads back as that address.
pub proof fn law_ipv6_text_parses_back(ip: u128)
    ensures
        ip_parse(ipv6_text(ip)) == Some(IpAddress::V6(ip)),
{
    if is_v4_mapped(ip) {
        lemma_ipv6_mapped(ip);
    } else if zero_run(groups(ip)).1 > 1 {
        lemma_ipv6_compressed(ip);
    } else {
        lemma_ipv6_uncompressed(ip);
    }
}

/// The displayed form of any IP address reads back as that address.
pub proof fn law_ip_text_parses_back(ip: IpAddress)
    ensures
        ip_parse(ip_text(ip)) == Some(ip),
{
    match ip {
        IpAddress::V4(a) => law_ipv4_text_parses_back(a),
        IpAddress::V6(a) => law_ipv6_text_parses_back(a),
    }
}

} // verus!
