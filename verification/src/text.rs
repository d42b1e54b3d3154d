//! Character-level text helpers shared by the formatting and parsing code.
//!
//! Strings are reasoned about through their `Seq<char>` views.
use vstd::prelude::*;

verus! {

/// The Unicode `White_Space` property, which is what `char::is_whitespace` tests.
pub open spec fn is_ws(c: char) -> bool {
    ||| ('\u{9}' <= c && c <= '\u{d}')
    ||| c == ' '
    ||| c == '\u{85}'
    ||| c == '\u{a0}'
    ||| c == '\u{1680}'
    ||| ('\u{2000}' <= c && c <= '\u{200a}')
    ||| c == '\u{2028}'
    ||| c == '\u{2029}'
    ||| c == '\u{202f}'
    ||| c == '\u{205f}'
    ||| c == '\u{3000}'
}

pub fn is_whitespace(c: char) -> (r: bool)
    ensures
        r == is_ws(c),
{
    ('\u{9}' <= c && c <= '\u{d}') || c == ' ' || c == '\u{85}' || c == '\u{a0}' || c
        == '\u{1680}' || ('\u{2000}' <= c && c <= '\u{200a}') || c == '\u{2028}' || c
        == '\u{2029}' || c == '\u{202f}' || c == '\u{205f}' || c == '\u{3000}'
}

/// Appends one character to a string (`String::push`).
#[verifier::external_body]
pub(crate) fn push_char(s: &mut String, c: char)
    ensures
        final(s)@ == old(s)@.push(c),
{
    s.push(c);
}

/// The characters of a string slice, in order.
pub fn to_chars(s: &str) -> (v: Vec<char>)
    ensures
        v@ == s@,
{
    let mut v: Vec<char> = Vec::new();
    for c in it: s.chars()
        invariant
            it.seq() == s@,
            v@ == s@.take(it.index() as int),
    {
        v.push(c);
        proof {
            assert(s@.take(it.index() + 1) =~= s@.take(it.index() as int).push(c));
        }
    }
    assert(v@ =~= s@);
    v
}

/// Builds a string from characters `v[from..to]`.
pub fn string_from_range(v: &Vec<char>, from: usize, to: usize) -> (s: String)
    requires
        from <= to <= v.len(),
    ensures
        s@ == v@.subrange(from as int, to as int),
{
    let mut s = String::new();
    let mut i = from;
    while i < to
        invariant
            from <= i <= to <= v.len(),
            s@ == v@.subrange(from as int, i as int),
        decreases to - i,
    {
        push_char(&mut s, v[i]);
        proof {
            assert(v@.subrange(from as int, i + 1) =~= v@.subrange(from as int, i as int).push(
                v@[i as int],
            ));
        }
        i += 1;
    }
    s
}

/// Builds a string from all of `v`.
pub fn string_from_chars(v: &Vec<char>) -> (s: String)
    ensures
        s@ == v@,
{
    let s = string_from_range(v, 0, v.len());
    proof {
        assert(v@.subrange(0, v@.len() as int) =~= v@);
    }
    s
}

/// `s` with every character of `t` appended.
pub fn push_str(s: &mut String, t: &str)
    ensures
        final(s)@ == old(s)@ + t@,
{
    s.append(t);
}

// ---------------------------------------------------------------------------
// Searching
// ---------------------------------------------------------------------------
/// `needle` occurs in `hay` starting at position `i`.
pub open spec fn occurs_at(hay: Seq<char>, needle: Seq<char>, i: int) -> bool {
    0 <= i && i + needle.len() <= hay.len() && hay.subrange(i, i + needle.len()) == needle
}

/// `needle` occurs somewhere in `hay` (`str::contains` with a string pattern).
pub open spec fn seq_contains(hay: Seq<char>, needle: Seq<char>) -> bool {
    exists|i: int| occurs_at(hay, needle, i)
}

pub fn matches_at(hay: &Vec<char>, needle: &Vec<char>, i: usize) -> (r: bool)
    requires
        i <= hay.len(),
    ensures
        r == occurs_at(hay@, needle@, i as int),
{
    if needle.len() > hay.len() - i {
        return false;
    }
    let mut j: usize = 0;
    while j < needle.len()
        invariant
            i + needle.len() <= hay.len(),
            j <= needle.len(),
            forall|k: int| 0 <= k < j ==> hay@[i + k] == needle@[k],
        decreases needle.len() - j,
    {
        if hay[i + j] != needle[j] {
            proof {
                assert(hay@.subrange(i as int, i + needle.len())[j as int] != needle@[j as int]);
            }
            return false;
        }
        j += 1;
    }
    proof {
        assert(hay@.subrange(i as int, i + needle@.len()) =~= needle@);
    }
    true
}

pub fn chars_contain(hay: &Vec<char>, needle: &Vec<char>) -> (r: bool)
    ensures
        r == seq_contains(hay@, needle@),
{
    if needle.len() == 0 {
        assert(hay@.subrange(0, 0) =~= needle@);
        assert(occurs_at(hay@, needle@, 0));
        return true;
    }
    if needle.len() > hay.len() {
        return false;
    }
    let last = hay.len() - needle.len();
    let mut i: usize = 0;
    while i <= last
        invariant
            last == hay.len() - needle.len(),
            needle.len() > 0,
            i <= last + 1,
            forall|k: int| 0 <= k < i ==> !occurs_at(hay@, needle@, k),
        decreases last + 1 - i,
    {
        if matches_at(hay, needle, i) {
            return true;
        }
        i += 1;
    }
    false
}

/// `str::contains` for a string pattern.
pub fn str_contains(hay: &str, needle: &str) -> (r: bool)
    ensures
        r == seq_contains(hay@, needle@),
{
    let h = to_chars(hay);
    let n = to_chars(needle);
    chars_contain(&h, &n)
}

/// `needle` is a prefix of `s`.
pub open spec fn has_prefix(s: Seq<char>, p: Seq<char>) -> bool {
    p.len() <= s.len() && s.subrange(0, p.len() as int) == p
}

/// `str::strip_prefix`.
pub fn strip_prefix(s: &str, p: &str) -> (r: Option<String>)
    ensures
        r is Some <==> has_prefix(s@, p@),
        r is Some ==> r->0@ == s@.subrange(p@.len() as int, s@.len() as int),
{
    let sv = to_chars(s);
    let pv = to_chars(p);
    if matches_at(&sv, &pv, 0) {
        proof {
            assert(sv@.subrange(0, pv@.len() as int) == pv@);
        }
        Some(string_from_range(&sv, pv.len(), sv.len()))
    } else {
        None
    }
}

// ---------------------------------------------------------------------------
// Trimming
// ---------------------------------------------------------------------------
/// Index of the first character of `s` that is not whitespace (or `s.len()`).
pub open spec fn ws_start(s: Seq<char>) -> int
    decreases s.len(),
{
    if s.len() == 0 {
        0
    } else if is_ws(s[0]) {
        1 + ws_start(s.drop_first())
    } else {
        0
    }
}

/// Index one past the last character of `s` that is not whitespace (or `0`).
pub open spec fn ws_end(s: Seq<char>) -> int
    decreases s.len(),
{
    if s.len() == 0 {
        0
    } else if is_ws(s.last()) {
        ws_end(s.drop_last())
    } else {
        s.len() as int
    }
}

/// `str::trim`: `s` without leading and trailing whitespace.
pub open spec fn trim(s: Seq<char>) -> Seq<char> {
    let e = ws_end(s);
    let t = s.subrange(0, e);
    t.subrange(ws_start(t), t.len() as int)
}

pub proof fn lemma_ws_start(s: Seq<char>)
    ensures
        0 <= ws_start(s) <= s.len(),
        forall|k: int| 0 <= k < ws_start(s) ==> is_ws(s[k]),
        ws_start(s) < s.len() ==> !is_ws(s[ws_start(s)]),
    decreases s.len(),
{
    if s.len() > 0 && is_ws(s[0]) {
        lemma_ws_start(s.drop_first());
        assert forall|k: int| 0 <= k < ws_start(s) implies is_ws(s[k]) by {
            if k > 0 {
                assert(s[k] == s.drop_first()[k - 1]);
            }
        }
    }
}

pub proof fn lemma_ws_end(s: Seq<char>)
    ensures
        0 <= ws_end(s) <= s.len(),
        forall|k: int| ws_end(s) <= k < s.len() ==> is_ws(s[k]),
        ws_end(s) > 0 ==> !is_ws(s[ws_end(s) - 1]),
    decreases s.len(),
{
    if s.len() > 0 && is_ws(s.last()) {
        lemma_ws_end(s.drop_last());
        assert forall|k: int| ws_end(s) <= k < s.len() implies is_ws(s[k]) by {
            if k < s.len() - 1 {
                assert(s[k] == s.drop_last()[k]);
            }
        }
    }
}

fn find_ws_end(v: &Vec<char>, hi: usize) -> (e: usize)
    requires
        hi <= v.len(),
    ensures
        e as int == ws_end(v@.subrange(0, hi as int)),
    decreases hi,
{
    proof {
        let s = v@.subrange(0, hi as int);
        if hi > 0 {
            assert(s.drop_last() =~= v@.subrange(0, hi - 1));
        }
    }
    if hi == 0 {
        0
    } else if is_whitespace(v[hi - 1]) {
        find_ws_end(v, hi - 1)
    } else {
        hi
    }
}

fn find_ws_start(v: &Vec<char>, lo: usize, hi: usize) -> (b: usize)
    requires
        lo <= hi <= v.len(),
    ensures
        b - lo == ws_start(v@.subrange(lo as int, hi as int)),
        lo <= b <= hi,
    decreases hi - lo,
{
    proof {
        let s = v@.subrange(lo as int, hi as int);
        if lo < hi {
            assert(s.drop_first() =~= v@.subrange(lo + 1, hi as int));
        }
        lemma_ws_start(s);
    }
    if lo == hi {
        lo
    } else if is_whitespace(v[lo]) {
        find_ws_start(v, lo + 1, hi)
    } else {
        lo
    }
}

/// `str::trim`.
pub fn trim_str(s: &str) -> (r: String)
    ensures
        r@ == trim(s@),
{
    let v = to_chars(s);
    let e = find_ws_end(&v, v.len());
    proof {
        assert(v@.subrange(0, v@.len() as int) =~= v@);
        lemma_ws_end(v@);
    }
    let b = find_ws_start(&v, 0, e);
    proof {
        let t = s@.subrange(0, e as int);
        assert(t =~= v@.subrange(0, e as int));
        assert(t.subrange(ws_start(t), t.len() as int) =~= v@.subrange(b as int, e as int));
    }
    string_from_range(&v, b, e)
}

/// `s.trim().is_empty()`: `s` holds nothing but whitespace.
pub open spec fn is_blank(s: Seq<char>) -> bool {
    forall|k: int| 0 <= k < s.len() ==> is_ws(s[k])
}

pub proof fn lemma_trim_empty_iff_blank(s: Seq<char>)
    ensures
        (trim(s).len() == 0) <==> is_blank(s),
{
    lemma_ws_end(s);
    let t = s.subrange(0, ws_end(s));
    lemma_ws_start(t);
    if trim(s).len() == 0 {
        assert forall|k: int| 0 <= k < s.len() implies is_ws(s[k]) by {
            if k < ws_end(s) {
                assert(t[k] == s[k]);
            }
        }
    }
    if is_blank(s) && ws_end(s) > 0 {
        assert(is_ws(s[ws_end(s) - 1]));
    }
}

pub fn is_blank_str(s: &str) -> (r: bool)
    ensures
        r == is_blank(s@),
{
    let t = trim_str(s);
    proof {
        lemma_trim_empty_iff_blank(s@);
    }
    t.as_str().is_empty()
}

/// Number of trailing occurrences of `c` at the end of `s` (`trim_end_matches(c)`).
pub open spec fn trailing_run(s: Seq<char>, c: char) -> int
    decreases s.len(),
{
    if s.len() == 0 {
        0
    } else if s.last() == c {
        1 + trailing_run(s.drop_last(), c)
    } else {
        0
    }
}

/// `str::trim_end_matches` for a single character.
pub open spec fn trim_end_char(s: Seq<char>, c: char) -> Seq<char> {
    s.subrange(0, s.len() - trailing_run(s, c))
}

pub proof fn lemma_trailing_run(s: Seq<char>, c: char)
    ensures
        0 <= trailing_run(s, c) <= s.len(),
    decreases s.len(),
{
    if s.len() > 0 && s.last() == c {
        lemma_trailing_run(s.drop_last(), c);
    }
}

pub fn trim_end_matches_char(s: &str, c: char) -> (r: String)
    ensures
        r@ == trim_end_char(s@, c),
{
    let v = to_chars(s);
    let mut e = v.len();
    proof {
        assert(v@.subrange(0, e as int) =~= v@);
        lemma_trailing_run(v@, c);
    }
    while e > 0 && v[e - 1] == c
        invariant
            e <= v.len(),
            v@ == s@,
            trailing_run(s@, c) == (v.len() - e) + trailing_run(v@.subrange(0, e as int), c),
        decreases e,
    {
        proof {
            assert(v@.subrange(0, e as int).drop_last() =~= v@.subrange(0, e - 1));
        }
        e -= 1;
    }
    proof {
        if e > 0 {
            assert(v@.subrange(0, e as int).last() == v@[e - 1]);
        }
    }
    string_from_range(&v, 0, e)
}

/// `str::trim_start_matches` for a string pattern: strips as many leading copies of
/// `p` as there are (`p` is non-empty).
pub open spec fn trim_start_seq(s: Seq<char>, p: Seq<char>) -> Seq<char>
    recommends
        p.len() > 0,
    decreases s.len(),
{
    if p.len() > 0 && has_prefix(s, p) {
        trim_start_seq(s.subrange(p.len() as int, s.len() as int), p)
    } else {
        s
    }
}

pub fn trim_start_matches_str(s: &str, p: &str) -> (r: String)
    requires
        p@.len() > 0,
    ensures
        r@ == trim_start_seq(s@, p@),
{
    let v = to_chars(s);
    let pv = to_chars(p);
    let mut b: usize = 0;
    proof {
        assert(v@.subrange(0, v@.len() as int) =~= v@);
    }
    while b <= v.len() && matches_at(&v, &pv, b)
        invariant
            b <= v.len(),
            pv@ == p@,
            v@ == s@,
            pv@.len() > 0,
            trim_start_seq(s@, p@) == trim_start_seq(v@.subrange(b as int, v@.len() as int), p@),
        decreases v.len() - b,
    {
        proof {
            let rest = v@.subrange(b as int, v@.len() as int);
            assert(rest.subrange(0, pv@.len() as int) =~= v@.subrange(b as int, b + pv@.len()));
            assert(rest.subrange(pv@.len() as int, rest.len() as int) =~= v@.subrange(
                b + pv@.len(),
                v@.len() as int,
            ));
        }
        b = b + pv.len();
    }
    proof {
        let rest = v@.subrange(b as int, v@.len() as int);
        if has_prefix(rest, p@) {
            assert(v@.subrange(b as int, b + pv@.len()) =~= rest.subrange(0, pv@.len() as int));
        }
    }
    string_from_range(&v, b, v.len())
}

// ---------------------------------------------------------------------------
// Numbers
// ---------------------------------------------------------------------------
/// The ASCII digit for `d < 10`.
pub open spec fn digit_char(d: int) -> char {
    (d + 48) as char
}

/// Decimal representation of `n` (what `Display` prints for an unsigned integer).
pub open spec fn decimal(n: nat) -> Seq<char>
    decreases n,
{
    if n < 10 {
        seq![digit_char(n as int)]
    } else {
        decimal(n / 10).push(digit_char((n % 10) as int))
    }
}

fn digit(d: u64) -> (c: char)
    requires
        d < 10,
    ensures
        c == digit_char(d as int),
{
    if d == 0 { '0' }
    else if d == 1 { '1' }
    else if d == 2 { '2' }
    else if d == 3 { '3' }
    else if d == 4 { '4' }
    else if d == 5 { '5' }
    else if d == 6 { '6' }
    else if d == 7 { '7' }
    else if d == 8 { '8' }
    else { '9' }
}

fn push_decimal(s: &mut String, n: u64)
    ensures
        final(s)@ == old(s)@ + decimal(n as nat),
    decreases n,
{
    if n < 10 {
        push_char(s, digit(n));
        proof {
            assert(old(s)@.push(digit_char(n as int)) =~= old(s)@ + seq![digit_char(n as int)]);
        }
    } else {
        push_decimal(s, n / 10);
        push_char(s, digit(n % 10));
        proof {
            assert(old(s)@ + decimal((n / 10) as nat).push(digit_char((n % 10) as int)) =~= (old(
                s,
            )@ + decimal((n / 10) as nat)).push(digit_char((n % 10) as int)));
        }
    }
}

/// `n.to_string()` for an unsigned integer.
pub fn u64_to_string(n: u64) -> (s: String)
    ensures
        s@ == decimal(n as nat),
{
    let mut s = String::new();
    push_decimal(&mut s, n);
    proof {
        assert(Seq::<char>::empty() + decimal(n as nat) =~= decimal(n as nat));
    }
    s
}

/// Appends the decimal form of `n`.
pub fn append_decimal(s: &mut String, n: u64)
    ensures
        final(s)@ == old(s)@ + decimal(n as nat),
{
    push_decimal(s, n);
}

/// Upper-case hex digit for `d < 16`.
pub open spec fn hex_upper(d: int) -> char {
    if d < 10 {
        (d + 48) as char
    } else {
        (d + 55) as char
    }
}

/// Lower-case hex digit for `d < 16`.
pub open spec fn hex_lower(d: int) -> char {
    if d < 10 {
        (d + 48) as char
    } else {
        (d + 87) as char
    }
}

/// Value of a hex digit, if `c` is one.
pub open spec fn hex_value(c: char) -> Option<int> {
    if '0' <= c && c <= '9' {
        Some(c as int - 48)
    } else if 'a' <= c && c <= 'f' {
        Some(c as int - 87)
    } else if 'A' <= c && c <= 'F' {
        Some(c as int - 55)
    } else {
        None
    }
}

pub fn hex_digit_value(c: char) -> (r: Option<u8>)
    ensures
        r is Some <==> hex_value(c) is Some,
        r is Some ==> r->0 as int == hex_value(c)->0,
{
    if '0' <= c && c <= '9' {
        Some((c as u32 - 48) as u8)
    } else if 'a' <= c && c <= 'f' {
        Some((c as u32 - 87) as u8)
    } else if 'A' <= c && c <= 'F' {
        Some((c as u32 - 55) as u8)
    } else {
        None
    }
}

pub fn hex_upper_char(d: u8) -> (c: char)
    requires
        d < 16,
    ensures
        c == hex_upper(d as int),
{
    if d < 10 {
        (d + 48) as char
    } else {
        (d + 55) as char
    }
}

/// Value of a run of hex digits (most significant first).
pub open spec fn hex_digits_value(s: Seq<char>) -> int
    decreases s.len(),
{
    if s.len() == 0 {
        0
    } else {
        hex_digits_value(s.drop_last()) * 16 + hex_value(s.last())->0
    }
}

pub open spec fn all_hex(s: Seq<char>) -> bool {
    forall|k: int| 0 <= k < s.len() ==> hex_value(#[trigger] s[k]) is Some
}

/// `u32::from_str_radix(s, 16)`: an optional `+` followed by at least one hex
/// digit, whose value fits in a `u32`.
pub open spec fn parse_hex_u32_spec(s: Seq<char>) -> Option<u32> {
    let d = if s.len() > 0 && s[0] == '+' {
        s.drop_first()
    } else {
        s
    };
    if d.len() > 0 && all_hex(d) && hex_digits_value(d) <= u32::MAX {
        Some(hex_digits_value(d) as u32)
    } else {
        None
    }
}

pub proof fn lemma_hex_value_nonneg(s: Seq<char>)
    requires
        all_hex(s),
    ensures
        hex_digits_value(s) >= 0,
        s.len() > 0 ==> hex_digits_value(s) >= hex_digits_value(s.drop_last()),
    decreases s.len(),
{
    if s.len() > 0 {
        assert(all_hex(s.drop_last())) by {
            assert forall|k: int| 0 <= k < s.drop_last().len() implies hex_value(
                #[trigger] s.drop_last()[k],
            ) is Some by {
                assert(s.drop_last()[k] == s[k]);
            }
        }
        assert(hex_value(s[s.len() - 1]) is Some);
        lemma_hex_value_nonneg(s.drop_last());
    }
}

pub fn parse_hex_u32(s: &str) -> (r: Option<u32>)
    ensures
        r == parse_hex_u32_spec(s@),
{
    let v = to_chars(s);
    let start: usize = if v.len() > 0 && v[0] == '+' {
        1
    } else {
        0
    };
    let ghost d = v@.subrange(start as int, v@.len() as int);
    proof {
        if start == 1 {
            assert(d =~= s@.drop_first());
        } else {
            assert(d =~= s@);
        }
    }
    if start == v.len() {
        return None;
    }
    let mut acc: u64 = 0;
    let mut i = start;
    while i < v.len()
        invariant
            start <= i <= v.len(),
            start < v.len(),
            v@ == s@,
            d == v@.subrange(start as int, v@.len() as int),
            d == (if s@.len() > 0 && s@[0] == '+' { s@.drop_first() } else { s@ }),
            all_hex(v@.subrange(start as int, i as int)),
            acc as int == hex_digits_value(v@.subrange(start as int, i as int)),
            acc <= u32::MAX,
        decreases v.len() - i,
    {
        let h = hex_digit_value(v[i]);
        let ghost pre = v@.subrange(start as int, i as int);
        let ghost nxt = v@.subrange(start as int, i + 1);
        proof {
            assert(nxt.drop_last() =~= pre);
            assert(nxt.last() == v@[i as int]);
        }
        match h {
            None => {
                proof {
                    assert(d[i - start] == v@[i as int]);
                    assert(hex_value(d[i - start]) is None);
                    assert(!all_hex(d));
                }
                return None;
            },
            Some(x) => {
                proof {
                    assert forall|k: int| 0 <= k < nxt.len() implies hex_value(
                        #[trigger] nxt[k],
                    ) is Some by {
                        if k < pre.len() {
                            assert(nxt[k] == pre[k]);
                        }
                    }
                }
                let next = acc * 16 + x as u64;
                if next > 0xffff_ffff {
                    proof {
                        // every longer prefix is at least as large
                        assert forall|j: int| i + 1 <= j <= v@.len() implies hex_digits_value(
                            #[trigger] v@.subrange(start as int, j),
                        ) > u32::MAX || !all_hex(v@.subrange(start as int, j)) by {
                            if all_hex(v@.subrange(start as int, j)) {
                                lemma_prefix_monotone(v@, start as int, i + 1, j);
                            }
                        }
                        assert(v@.subrange(start as int, v@.len() as int) == d);
                        assert(hex_digits_value(d) > u32::MAX || !all_hex(d));
                    }
                    return None;
                }
                acc = next;
            },
        }
        i += 1;
    }
    proof {
        assert(v@.subrange(start as int, v@.len() as int) == d);
    }
    Some(acc as u32)
}

proof fn lemma_prefix_monotone(v: Seq<char>, start: int, i: int, j: int)
    requires
        0 <= start <= i <= j <= v.len(),
        all_hex(v.subrange(start, j)),
    ensures
        hex_digits_value(v.subrange(start, i)) <= hex_digits_value(v.subrange(start, j)),
    decreases j - i,
{
    if j > i {
        let a = v.subrange(start, j);
        assert(a.drop_last() =~= v.subrange(start, j - 1));
        assert(all_hex(v.subrange(start, j - 1))) by {
            assert forall|k: int| 0 <= k < j - 1 - start implies hex_value(
                #[trigger] v.subrange(start, j - 1)[k],
            ) is Some by {
                assert(v.subrange(start, j - 1)[k] == a[k]);
            }
        }
        lemma_hex_value_nonneg(a);
        lemma_prefix_monotone(v, start, i, j - 1);
    }
}

// ---------------------------------------------------------------------------
// Case mapping and joining
// ---------------------------------------------------------------------------
/// What `str::to_lowercase` returns for a string (full Unicode lower-casing).
pub uninterp spec fn lowercase(s: Seq<char>) -> Seq<char>;

/// `str::to_lowercase`; the result is named by `lowercase`.
#[verifier::external_body]
pub(crate) fn to_lowercase(s: &str) -> (r: String)
    ensures
        r@ == lowercase(s@),
{
    s.to_lowercase()
}

/// What `char::to_uppercase` yields for a character (one or more characters).
pub uninterp spec fn uppercase_char(c: char) -> Seq<char>;

/// `char::to_uppercase`, collected into a string; the result is named by
/// `uppercase_char`.
#[verifier::external_body]
pub(crate) fn char_to_uppercase(c: char) -> (r: String)
    ensures
        r@ == uppercase_char(c),
{
    c.to_uppercase().collect()
}

/// `parts` joined with `sep` between consecutive elements (`[T]::join`).
pub open spec fn join(parts: Seq<Seq<char>>, sep: Seq<char>) -> Seq<char>
    decreases parts.len(),
{
    if parts.len() == 0 {
        Seq::empty()
    } else if parts.len() == 1 {
        parts[0]
    } else {
        join(parts.drop_last(), sep) + sep + parts.last()
    }
}

pub fn join_strings(parts: &Vec<String>, sep: &str) -> (r: String)
    ensures
        r@ == join(parts@.map_values(|p: String| p@), sep@),
{
    let ghost views = parts@.map_values(|p: String| p@);
    let mut r = String::new();
    let mut i: usize = 0;
    while i < parts.len()
        invariant
            i <= parts.len(),
            views == parts@.map_values(|p: String| p@),
            r@ == join(views.take(i as int), sep@),
        decreases parts.len() - i,
    {
        if i > 0 {
            r.append(sep);
        }
        r.append(parts[i].as_str());
        proof {
            assert(views.take(i + 1).drop_last() =~= views.take(i as int));
            if i == 0 {
                assert(views.take(1).len() == 1);
                assert(r@ =~= views.take(1)[0]);
            }
        }
        i += 1;
    }
    proof {
        assert(views.take(parts.len() as int) =~= views);
    }
    r
}

} // verus!

verus! {

// ---------------------------------------------------------------------------
// Splitting
// ---------------------------------------------------------------------------
/// `str::split` on a character: the pieces between occurrences of `c` (there is
/// always at least one piece).
pub open spec fn split_on(s: Seq<char>, c: char) -> Seq<Seq<char>>
    decreases s.len(),
{
    if s.len() == 0 {
        seq![Seq::empty()]
    } else {
        let rest = split_on(s.drop_last(), c);
        if s.last() == c {
            rest.push(Seq::empty())
        } else {
            rest.update(rest.len() - 1, rest.last().push(s.last()))
        }
    }
}

pub proof fn lemma_split_on_len(s: Seq<char>, c: char)
    ensures
        split_on(s, c).len() >= 1,
    decreases s.len(),
{
    if s.len() > 0 {
        lemma_split_on_len(s.drop_last(), c);
    }
}

/// `str::split` on a character, as character vectors.
pub fn split_chars(v: &Vec<char>, c: char) -> (r: Vec<Vec<char>>)
    ensures
        r@.map_values(|p: Vec<char>| p@) == split_on(v@, c),
{
    let mut r: Vec<Vec<char>> = Vec::new();
    r.push(Vec::new());
    let mut i: usize = 0;
    proof {
        assert(v@.subrange(0, 0) =~= Seq::<char>::empty());
        assert(r@.map_values(|p: Vec<char>| p@) =~= seq![Seq::<char>::empty()]);
    }
    while i < v.len()
        invariant
            i <= v.len(),
            r.len() >= 1,
            r@.map_values(|p: Vec<char>| p@) == split_on(v@.subrange(0, i as int), c),
        decreases v.len() - i,
    {
        let ghost before = r@.map_values(|p: Vec<char>| p@);
        let ch = v[i];
        proof {
            assert(v@.subrange(0, i + 1).drop_last() =~= v@.subrange(0, i as int));
            assert(v@.subrange(0, i + 1).last() == ch);
        }
        if ch == c {
            r.push(Vec::new());
            proof {
                assert(r@.map_values(|p: Vec<char>| p@) =~= before.push(Seq::empty()));
            }
        } else {
            let last = r.len() - 1;
            let mut piece = r.pop().unwrap();
            piece.push(ch);
            r.push(piece);
            proof {
                assert(r@.map_values(|p: Vec<char>| p@) =~= before.update(
                    before.len() - 1,
                    before.last().push(ch),
                ));
            }
        }
        i += 1;
    }
    proof {
        assert(v@.subrange(0, v@.len() as int) =~= v@);
    }
    r
}

/// `str::split_whitespace`: the maximal runs of non-whitespace characters.
pub open spec fn words(s: Seq<char>) -> Seq<Seq<char>>
    decreases s.len(),
{
    if s.len() == 0 {
        Seq::empty()
    } else {
        let w = words(s.drop_last());
        let c = s.last();
        if is_ws(c) {
            w
        } else if s.len() >= 2 && !is_ws(s[s.len() - 2]) {
            w.update(w.len() - 1, w.last().push(c))
        } else {
            w.push(seq![c])
        }
    }
}

pub proof fn lemma_words_nonempty_tail(s: Seq<char>)
    requires
        s.len() > 0,
        !is_ws(s.last()),
    ensures
        words(s).len() >= 1,
    decreases s.len(),
{
    if s.len() >= 2 && !is_ws(s[s.len() - 2]) {
        assert(s.drop_last().last() == s[s.len() - 2]);
        lemma_words_nonempty_tail(s.drop_last());
    }
}

/// `str::split_whitespace`, as strings.
pub fn split_whitespace(s: &str) -> (r: Vec<String>)
    ensures
        r@.map_values(|p: String| p@) == words(s@),
{
    let v = to_chars(s);
    let mut r: Vec<Vec<char>> = Vec::new();
    let mut i: usize = 0;
    while i < v.len()
        invariant
            i <= v.len(),
            v@ == s@,
            r@.map_values(|p: Vec<char>| p@) == words(v@.subrange(0, i as int)),
        decreases v.len() - i,
    {
        let ghost before = r@.map_values(|p: Vec<char>| p@);
        let ch = v[i];
        let ghost pre = v@.subrange(0, i as int);
        let ghost cur = v@.subrange(0, i + 1);
        proof {
            assert(cur.drop_last() =~= pre);
            assert(cur.last() == ch);
            if i >= 1 {
                assert(cur[cur.len() - 2] == v@[i - 1]);
                assert(pre.last() == v@[i - 1]);
            }
        }
        if is_whitespace(ch) {
        } else if i >= 1 && !is_whitespace(v[i - 1]) {
            proof {
                lemma_words_nonempty_tail(pre);
            }
            let mut piece = r.pop().unwrap();
            piece.push(ch);
            r.push(piece);
            proof {
                assert(r@.map_values(|p: Vec<char>| p@) =~= before.update(
                    before.len() - 1,
                    before.last().push(ch),
                ));
            }
        } else {
            let mut piece: Vec<char> = Vec::new();
            piece.push(ch);
            r.push(piece);
            proof {
                assert(piece@ =~= seq![ch]);
                assert(r@.map_values(|p: Vec<char>| p@) =~= before.push(seq![ch]));
            }
        }
        i += 1;
    }
    proof {
        assert(v@.subrange(0, v@.len() as int) =~= v@);
    }
    let mut out: Vec<String> = Vec::new();
    let mut k: usize = 0;
    while k < r.len()
        invariant
            k <= r.len(),
            r@.map_values(|p: Vec<char>| p@) == words(s@),
            out.len() == k,
            out@.map_values(|p: String| p@) == r@.map_values(|p: Vec<char>| p@).take(k as int),
        decreases r.len() - k,
    {
        let piece = string_from_chars(&r[k]);
        let ghost old_out = out@;
        out.push(piece);
        proof {
            let a = out@.map_values(|p: String| p@);
            let b = r@.map_values(|p: Vec<char>| p@).take(k + 1);
            assert(a.len() == b.len());
            assert forall|j: int| 0 <= j < a.len() implies a[j] == b[j] by {
                if j < k {
                    assert(a[j] == old_out.map_values(|p: String| p@)[j]);
                } else {
                    assert(out@[j] == piece);
                }
            }
            assert(a =~= b);
        }
        k += 1;
    }
    proof {
        assert(r@.map_values(|p: Vec<char>| p@).take(r.len() as int) =~= r@.map_values(
            |p: Vec<char>| p@,
        ));
    }
    out
}

/// A line without one trailing carriage return.
pub open spec fn strip_cr(l: Seq<char>) -> Seq<char> {
    if l.len() > 0 && l.last() == '\r' {
        l.drop_last()
    } else {
        l
    }
}

/// `str::lines`: pieces between `\n`, without a final empty piece, each without a
/// trailing `\r`.
pub open spec fn lines(s: Seq<char>) -> Seq<Seq<char>> {
    let p = split_on(s, '\n');
    let q = if p.last().len() == 0 {
        p.drop_last()
    } else {
        p
    };
    q.map_values(|l: Seq<char>| strip_cr(l))
}

/// `str::lines`, as strings.
pub fn split_lines(s: &str) -> (r: Vec<String>)
    ensures
        r@.map_values(|p: String| p@) == lines(s@),
{
    let v = to_chars(s);
    let parts = split_chars(&v, '\n');
    proof {
        lemma_split_on_len(v@, '\n');
    }
    let ghost pv = parts@.map_values(|p: Vec<char>| p@);
    let n = if parts[parts.len() - 1].len() == 0 {
        parts.len() - 1
    } else {
        parts.len()
    };
    let ghost q = pv.take(n as int);
    proof {
        assert(pv.last() == parts@[parts.len() - 1]@);
        if n < parts.len() {
            assert(q =~= pv.drop_last());
        } else {
            assert(q =~= pv);
        }
    }
    let mut out: Vec<String> = Vec::new();
    let mut k: usize = 0;
    while k < n
        invariant
            k <= n <= parts.len(),
            pv == parts@.map_values(|p: Vec<char>| p@),
            q == pv.take(n as int),
            out.len() == k,
            out@.map_values(|p: String| p@) == q.take(k as int).map_values(
                |l: Seq<char>| strip_cr(l),
            ),
        decreases n - k,
    {
        let piece = &parts[k];
        let end = if piece.len() > 0 && piece[piece.len() - 1] == '\r' {
            piece.len() - 1
        } else {
            piece.len()
        };
        let line = string_from_range(piece, 0, end);
        proof {
            assert(q[k as int] == piece@);
            if end < piece.len() {
                assert(piece@.subrange(0, end as int) =~= piece@.drop_last());
            } else {
                assert(piece@.subrange(0, end as int) =~= piece@);
            }
        }
        let ghost old_out = out@;
        out.push(line);
        proof {
            let a = out@.map_values(|p: String| p@);
            let b = q.take(k + 1).map_values(|l: Seq<char>| strip_cr(l));
            assert(a.len() == b.len());
            assert forall|j: int| 0 <= j < a.len() implies a[j] == b[j] by {
                if j < k {
                    assert(a[j] == old_out.map_values(|p: String| p@)[j]);
                } else {
                    assert(out@[j] == line);
                }
            }
            assert(a =~= b);
        }
        k += 1;
    }
    proof {
        assert(q.take(n as int) =~= q);
    }
    out
}

} // verus!
