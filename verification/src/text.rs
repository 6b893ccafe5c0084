//! Small text codecs used by the proxy: decimal octets, dotted IPv4
//! literals and hexadecimal byte strings.
use vstd::prelude::*;

use crate::bindings::push_char;

verus! {

/// The character of a decimal digit `d` (0..=9).
pub open spec fn digit_char(d: int) -> char {
    (d + 48) as char
}

pub open spec fn is_digit(c: char) -> bool {
    '0' <= c && c <= '9'
}

pub open spec fn digit_value(c: char) -> int {
    c as int - 48
}

/// Decimal text of an octet, without leading zeros.
pub open spec fn decimal_text(n: u8) -> Seq<char> {
    let m = n as int;
    if m < 10 {
        seq![digit_char(m)]
    } else if m < 100 {
        seq![digit_char(m / 10), digit_char(m % 10)]
    } else {
        seq![digit_char(m / 100), digit_char((m / 10) % 10), digit_char(m % 10)]
    }
}

/// Dotted-decimal text of an IPv4 address, `a.b.c.d`.
pub open spec fn ipv4_text(o: Seq<u8>) -> Seq<char> {
    decimal_text(o[0]) + seq!['.'] + decimal_text(o[1]) + seq!['.'] + decimal_text(o[2]) + seq!['.']
        + decimal_text(o[3])
}

pub open spec fn all_digits(g: Seq<char>) -> bool {
    forall|i: int| 0 <= i < g.len() ==> is_digit(#[trigger] g[i])
}

/// Numeric value of a run of decimal digits.
pub open spec fn digits_value(g: Seq<char>) -> int
    decreases g.len(),
{
    if g.len() == 0 {
        0
    } else {
        digits_value(g.drop_last()) * 10 + digit_value(g.last())
    }
}

/// One group of an IPv4 literal: one to three digits, no leading zero,
/// value at most 255.
pub open spec fn parse_group(g: Seq<char>) -> Option<u8> {
    if 1 <= g.len() <= 3 && all_digits(g) && (g.len() == 1 || g[0] != '0') && digits_value(g)
        <= 255 {
        Some(digits_value(g) as u8)
    } else {
        None
    }
}

proof fn lemma_digit_char(d: int)
    requires
        0 <= d < 10,
    ensures
        is_digit(digit_char(d)),
        digit_value(digit_char(d)) == d,
        digit_char(d) == '0' <==> d == 0,
{
}

proof fn lemma_digits_value_push(s: Seq<char>, c: char)
    ensures
        digits_value(s.push(c)) == digits_value(s) * 10 + digit_value(c),
{
    assert(s.push(c).drop_last() =~= s);
}

proof fn lemma_digits_value_small(a: char, b: char, c: char)
    ensures
        digits_value(seq![a]) == digit_value(a),
        digits_value(seq![a, b]) == digit_value(a) * 10 + digit_value(b),
        digits_value(seq![a, b, c]) == (digit_value(a) * 10 + digit_value(b)) * 10 + digit_value(
            c,
        ),
{
    let e = Seq::<char>::empty();
    assert(digits_value(e) == 0);
    lemma_digits_value_push(e, a);
    assert(e.push(a) =~= seq![a]);
    lemma_digits_value_push(seq![a], b);
    assert(seq![a].push(b) =~= seq![a, b]);
    lemma_digits_value_push(seq![a, b], c);
    assert(seq![a, b].push(c) =~= seq![a, b, c]);
}

/// Every octet's decimal text is a valid group with that value.
pub proof fn lemma_decimal_text_parses(n: u8)
    ensures
        parse_group(decimal_text(n)) == Some(n),
        all_digits(decimal_text(n)),
        1 <= decimal_text(n).len() <= 3,
{
    let m = n as int;
    if m < 10 {
        lemma_digit_char(m);
        lemma_digits_value_small(digit_char(m), '0', '0');
    } else if m < 100 {
        lemma_digit_char(m / 10);
        lemma_digit_char(m % 10);
        lemma_digits_value_small(digit_char(m / 10), digit_char(m % 10), '0');
    } else {
        lemma_digit_char(m / 100);
        lemma_digit_char((m / 10) % 10);
        lemma_digit_char(m % 10);
        lemma_digits_value_small(digit_char(m / 100), digit_char((m / 10) % 10), digit_char(m % 10));
    }
}

/// A valid group is exactly the decimal text of its value.
pub proof fn lemma_group_is_decimal_text(g: Seq<char>)
    requires
        parse_group(g) is Some,
    ensures
        g =~= decimal_text(parse_group(g)->0),
{
    let n = parse_group(g)->0;
    let m = n as int;
    assert(is_digit(g[0]));
    if g.len() == 1 {
        assert(g =~= seq![g[0]]);
        lemma_digits_value_small(g[0], '0', '0');
        assert(g[0] == digit_char(m));
    } else if g.len() == 2 {
        assert(is_digit(g[1]));
        assert(g =~= seq![g[0], g[1]]);
        lemma_digits_value_small(g[0], g[1], '0');
        let d0 = digit_value(g[0]);
        let d1 = digit_value(g[1]);
        assert(m == d0 * 10 + d1);
        assert(m / 10 == d0 && m % 10 == d1);
        assert(g[0] == digit_char(m / 10));
        assert(g[1] == digit_char(m % 10));
    } else {
        assert(is_digit(g[1]));
        assert(is_digit(g[2]));
        assert(g =~= seq![g[0], g[1], g[2]]);
        lemma_digits_value_small(g[0], g[1], g[2]);
        let d0 = digit_value(g[0]);
        let d1 = digit_value(g[1]);
        let d2 = digit_value(g[2]);
        assert(m == (d0 * 10 + d1) * 10 + d2);
        assert(m / 100 == d0 && (m / 10) % 10 == d1 && m % 10 == d2);
        assert(g[0] == digit_char(m / 100));
        assert(g[1] == digit_char((m / 10) % 10));
        assert(g[2] == digit_char(m % 10));
    }
}

/// Appends the decimal text of `n` to `s`.
pub fn push_decimal(s: &mut String, n: u8)
    ensures
        final(s)@ == old(s)@ + decimal_text(n),
{
    if n < 10 {
        push_char(s, (n + 48) as char);
    } else if n < 100 {
        push_char(s, (n / 10 + 48) as char);
        push_char(s, (n % 10 + 48) as char);
    } else {
        push_char(s, (n / 100 + 48) as char);
        push_char(s, ((n / 10) % 10 + 48) as char);
        push_char(s, (n % 10 + 48) as char);
    }
    assert(s@ =~= old(s)@ + decimal_text(n));
}

/// Formats an IPv4 address as `a.b.c.d`.
pub fn format_ipv4(o: &[u8; 4]) -> (s: String)
    ensures
        s@ == ipv4_text(o@),
{
    let mut s = String::new();
    push_decimal(&mut s, o[0]);
    push_char(&mut s, '.');
    push_decimal(&mut s, o[1]);
    push_char(&mut s, '.');
    push_decimal(&mut s, o[2]);
    push_char(&mut s, '.');
    push_decimal(&mut s, o[3]);
    assert(s@ =~= ipv4_text(o@));
    s
}

/// `s` holds, at `pos`, the decimal text of `v` followed by the end of `s`
/// or by a character that is not a digit.
pub open spec fn group_at(s: Seq<char>, pos: int, v: u8) -> bool {
    let l = decimal_text(v).len() as int;
    &&& 0 <= pos
    &&& pos + l <= s.len()
    &&& s.subrange(pos, pos + l) == decimal_text(v)
    &&& (pos + l == s.len() || !is_digit(s[pos + l]))
}

/// `s` is the dotted-decimal text of the four octets `o`.
pub open spec fn is_ipv4_text_of(s: Seq<char>, o: Seq<u8>) -> bool {
    o.len() == 4 && s == ipv4_text(o)
}

proof fn lemma_group_at_unique(s: Seq<char>, pos: int, v1: u8, v2: u8)
    requires
        group_at(s, pos, v1),
        group_at(s, pos, v2),
    ensures
        v1 == v2,
{
    lemma_decimal_text_parses(v1);
    lemma_decimal_text_parses(v2);
    let l1 = decimal_text(v1).len() as int;
    let l2 = decimal_text(v2).len() as int;
    if l1 < l2 {
        assert(s.subrange(pos, pos + l2)[l1] == s[pos + l1]);
        assert(is_digit(decimal_text(v2)[l1]));
    } else if l2 < l1 {
        assert(s.subrange(pos, pos + l1)[l2] == s[pos + l2]);
        assert(is_digit(decimal_text(v1)[l2]));
    }
    assert(decimal_text(v1) == decimal_text(v2));
}

/// Reads one IPv4 group at `pos`: a maximal run of at most three digits
/// that forms a valid group.
fn read_group(s: &str, pos: usize) -> (r: Option<(u8, usize)>)
    requires
        pos <= s@.len(),
    ensures
        match r {
            Some((v, end)) => group_at(s@, pos as int, v) && end == pos + decimal_text(v).len(),
            None => forall|v: u8| !group_at(s@, pos as int, v),
        },
{
    let n = s.unicode_len();
    let mut end = pos;
    let mut value: u32 = 0;
    while end < n && end - pos < 4
        invariant
            n == s@.len(),
            pos <= end <= n,
            end - pos <= 4,
            all_digits(s@.subrange(pos as int, end as int)),
            value == digits_value(s@.subrange(pos as int, end as int)),
            value <= 9999,
            end - pos <= 3 ==> value <= 999,
            end - pos <= 2 ==> value <= 99,
            end - pos <= 1 ==> value <= 9,
            end == pos ==> value == 0,
        ensures
            pos <= end <= n,
            end - pos <= 4,
            all_digits(s@.subrange(pos as int, end as int)),
            value == digits_value(s@.subrange(pos as int, end as int)),
            end == n || end - pos == 4 || !is_digit(s@[end as int]),
        decreases n - end,
    {
        let c = s.get_char(end);
        if !('0' <= c && c <= '9') {
            break ;
        }
        proof {
            let old_run = s@.subrange(pos as int, end as int);
            assert(s@.subrange(pos as int, end + 1) =~= old_run.push(c));
            lemma_digits_value_push(old_run, c);
        }
        value = value * 10 + (c as u32 - 48);
        end = end + 1;
    }
    let ghost run = s@.subrange(pos as int, end as int);
    let k = end - pos;
    let ok = k >= 1 && k <= 3 && (k == 1 || s.get_char(pos) != '0') && value <= 255;
    if ok {
        proof {
            assert(run[0] == s@[pos as int]);
            assert(parse_group(run) == Some(value as u8));
            lemma_group_is_decimal_text(run);
            lemma_decimal_text_parses(value as u8);
        }
        Some((value as u8, end))
    } else {
        proof {
            assert forall|v: u8| !group_at(s@, pos as int, v) by {
                if group_at(s@, pos as int, v) {
                    lemma_decimal_text_parses(v);
                    let t = decimal_text(v);
                    let l = t.len() as int;
                    if end < pos + l {
                        assert(s@.subrange(pos as int, pos + l)[end - pos] == s@[end as int]);
                        assert(is_digit(t[end - pos]));
                    } else if end > pos + l {
                        assert(run[l] == s@[pos + l]);
                        assert(is_digit(run[l]));
                    }
                    assert(run == t);
                    assert(run[0] == s@[pos as int]);
                }
            }
        }
        None
    }
}

proof fn lemma_ipv4_text_layout(o: Seq<u8>)
    requires
        o.len() == 4,
    ensures
        ({
            let s = ipv4_text(o);
            let p1 = decimal_text(o[0]).len() as int;
            let p2 = p1 + 1 + decimal_text(o[1]).len();
            let p3 = p2 + 1 + decimal_text(o[2]).len();
            &&& group_at(s, 0, o[0])
            &&& s[p1] == '.'
            &&& group_at(s, p1 + 1, o[1])
            &&& s[p2] == '.'
            &&& group_at(s, p2 + 1, o[2])
            &&& s[p3] == '.'
            &&& group_at(s, p3 + 1, o[3])
            &&& p3 + 1 + decimal_text(o[3]).len() == s.len()
        }),
{
    let s = ipv4_text(o);
    let d0 = decimal_text(o[0]);
    let d1 = decimal_text(o[1]);
    let d2 = decimal_text(o[2]);
    let d3 = decimal_text(o[3]);
    let p1 = d0.len() as int;
    let p2 = p1 + 1 + d1.len();
    let p3 = p2 + 1 + d2.len();
    assert(s.subrange(0, p1) =~= d0);
    assert(s.subrange(p1 + 1, p2) =~= d1);
    assert(s.subrange(p2 + 1, p3) =~= d2);
    assert(s.subrange(p3 + 1, s.len() as int) =~= d3);
    assert(s[p1] == '.');
    assert(s[p2] == '.');
    assert(s[p3] == '.');
}

/// Different addresses have different dotted-decimal texts.
pub proof fn lemma_ipv4_text_injective(o1: Seq<u8>, o2: Seq<u8>)
    requires
        o1.len() == 4,
        o2.len() == 4,
        ipv4_text(o1) == ipv4_text(o2),
    ensures
        o1 == o2,
{
    let s = ipv4_text(o1);
    lemma_ipv4_text_layout(o1);
    lemma_ipv4_text_layout(o2);
    lemma_group_at_unique(s, 0, o1[0], o2[0]);
    let p1 = decimal_text(o1[0]).len() as int;
    lemma_group_at_unique(s, p1 + 1, o1[1], o2[1]);
    let p2 = p1 + 1 + decimal_text(o1[1]).len();
    lemma_group_at_unique(s, p2 + 1, o1[2], o2[2]);
    let p3 = p2 + 1 + decimal_text(o1[2]).len();
    lemma_group_at_unique(s, p3 + 1, o1[3], o2[3]);
    assert(o1 =~= o2);
}

/// Parses a dotted-decimal IPv4 literal: exactly four groups of one to three
/// digits without leading zeros, each at most 255, separated by dots.
/// It succeeds exactly on the texts that `format_ipv4` produces.
pub fn parse_ipv4(s: &str) -> (r: Option<[u8; 4]>)
    ensures
        match r {
            Some(o) => is_ipv4_text_of(s@, o@),
            None => forall|o: Seq<u8>| !is_ipv4_text_of(s@, o),
        },
{
    let n = s.unicode_len();
    let r0 = read_group(s, 0);
    let (a, e1) = match r0 {
        Some(x) => x,
        None => {
            proof {
                assert forall|o: Seq<u8>| !is_ipv4_text_of(s@, o) by {
                    if is_ipv4_text_of(s@, o) {
                        lemma_ipv4_text_layout(o);
                    }
                }
            }
            return None;
        },
    };
    if e1 >= n || s.get_char(e1) != '.' {
        proof {
            assert forall|o: Seq<u8>| !is_ipv4_text_of(s@, o) by {
                if is_ipv4_text_of(s@, o) {
                    lemma_ipv4_text_layout(o);
                    lemma_group_at_unique(s@, 0, a, o[0]);
                }
            }
        }
        return None;
    }
    let r1 = read_group(s, e1 + 1);
    let (b, e2) = match r1 {
        Some(x) => x,
        None => {
            proof {
                assert forall|o: Seq<u8>| !is_ipv4_text_of(s@, o) by {
                    if is_ipv4_text_of(s@, o) {
                        lemma_ipv4_text_layout(o);
                        lemma_group_at_unique(s@, 0, a, o[0]);
                    }
                }
            }
            return None;
        },
    };
    if e2 >= n || s.get_char(e2) != '.' {
        proof {
            assert forall|o: Seq<u8>| !is_ipv4_text_of(s@, o) by {
                if is_ipv4_text_of(s@, o) {
                    lemma_ipv4_text_layout(o);
                    lemma_group_at_unique(s@, 0, a, o[0]);
                    lemma_group_at_unique(s@, e1 + 1, b, o[1]);
                }
            }
        }
        return None;
    }
    let r2 = read_group(s, e2 + 1);
    let (c, e3) = match r2 {
        Some(x) => x,
        None => {
            proof {
                assert forall|o: Seq<u8>| !is_ipv4_text_of(s@, o) by {
                    if is_ipv4_text_of(s@, o) {
                        lemma_ipv4_text_layout(o);
                        lemma_group_at_unique(s@, 0, a, o[0]);
                        lemma_group_at_unique(s@, e1 + 1, b, o[1]);
                    }
                }
            }
            return None;
        },
    };
    if e3 >= n || s.get_char(e3) != '.' {
        proof {
            assert forall|o: Seq<u8>| !is_ipv4_text_of(s@, o) by {
                if is_ipv4_text_of(s@, o) {
                    lemma_ipv4_text_layout(o);
                    lemma_group_at_unique(s@, 0, a, o[0]);
                    lemma_group_at_unique(s@, e1 + 1, b, o[1]);
                    lemma_group_at_unique(s@, e2 + 1, c, o[2]);
                }
            }
        }
        return None;
    }
    let r3 = read_group(s, e3 + 1);
    let (d, e4) = match r3 {
        Some(x) => x,
        None => {
            proof {
                assert forall|o: Seq<u8>| !is_ipv4_text_of(s@, o) by {
                    if is_ipv4_text_of(s@, o) {
                        lemma_ipv4_text_layout(o);
                        lemma_group_at_unique(s@, 0, a, o[0]);
                        lemma_group_at_unique(s@, e1 + 1, b, o[1]);
                        lemma_group_at_unique(s@, e2 + 1, c, o[2]);
                    }
                }
            }
            return None;
        },
    };
    if e4 != n {
        proof {
            assert forall|o: Seq<u8>| !is_ipv4_text_of(s@, o) by {
                if is_ipv4_text_of(s@, o) {
                    lemma_ipv4_text_layout(o);
                    lemma_group_at_unique(s@, 0, a, o[0]);
                    lemma_group_at_unique(s@, e1 + 1, b, o[1]);
                    lemma_group_at_unique(s@, e2 + 1, c, o[2]);
                    lemma_group_at_unique(s@, e3 + 1, d, o[3]);
                }
            }
        }
        return None;
    }
    let o = [a, b, c, d];
    proof {
        let t = ipv4_text(o@);
        assert(s@ =~= s@.subrange(0, e1 as int) + seq!['.'] + s@.subrange(e1 + 1, e2 as int)
            + seq!['.'] + s@.subrange(e2 + 1, e3 as int) + seq!['.'] + s@.subrange(
            e3 + 1,
            e4 as int,
        ));
        assert(s@ =~= t);
    }
    Some(o)
}

/// Decimal text of a natural number, without leading zeros.
pub open spec fn nat_decimal_text(n: nat) -> Seq<char>
    decreases n,
{
    if n < 10 {
        seq![digit_char(n as int)]
    } else {
        nat_decimal_text(n / 10).push(digit_char((n % 10) as int))
    }
}

/// Appends the decimal text of `n`.
pub fn push_decimal_usize(s: &mut String, n: usize)
    ensures
        final(s)@ == old(s)@ + nat_decimal_text(n as nat),
    decreases n,
{
    if n >= 10 {
        push_decimal_usize(s, n / 10);
    }
    push_char(s, ((n % 10) as u8 + 48) as char);
    assert(s@ =~= old(s)@ + nat_decimal_text(n as nat));
}

/// Lower-case hexadecimal digit of `d` (0..=15).
pub open spec fn hex_digit(d: int) -> char {
    if d < 10 {
        (d + 48) as char
    } else {
        (d + 87) as char
    }
}

/// Lower-case hexadecimal text of a byte string, two digits per byte,
/// high nibble first.
pub open spec fn hex_text(b: Seq<u8>) -> Seq<char> {
    Seq::new(
        2 * b.len(),
        |i: int|
            if i % 2 == 0 {
                hex_digit((b[i / 2] / 16) as int)
            } else {
                hex_digit((b[i / 2] % 16) as int)
            },
    )
}

pub open spec fn is_hex_digit(c: char) -> bool {
    ('0' <= c && c <= '9') || ('a' <= c && c <= 'f') || ('A' <= c && c <= 'F')
}

/// Value of a hexadecimal digit of either case.
pub open spec fn hex_digit_value(c: char) -> int {
    if '0' <= c && c <= '9' {
        c as int - 48
    } else if 'a' <= c && c <= 'f' {
        c as int - 87
    } else {
        c as int - 55
    }
}

/// The bytes that a hexadecimal text stands for: an even number of
/// hexadecimal digits of either case, two per byte, high nibble first.
pub open spec fn hex_decoded(s: Seq<char>) -> Option<Seq<u8>> {
    if s.len() % 2 == 0 && (forall|i: int| 0 <= i < s.len() ==> is_hex_digit(#[trigger] s[i])) {
        Some(
            Seq::new(
                s.len() / 2,
                |i: int| (hex_digit_value(s[2 * i]) * 16 + hex_digit_value(s[2 * i + 1])) as u8,
            ),
        )
    } else {
        None
    }
}

fn hex_digit_char(d: u8) -> (c: char)
    requires
        d < 16,
    ensures
        c == hex_digit(d as int),
{
    if d < 10 {
        (d + 48) as char
    } else {
        (d + 87) as char
    }
}

/// Hexadecimal text of a byte as `{:#x}` writes it: `0x`, then lower-case
/// digits without leading zeros.
pub open spec fn prefixed_hex_text(b: u8) -> Seq<char> {
    if b < 16 {
        seq!['0', 'x', hex_digit(b as int)]
    } else {
        seq!['0', 'x', hex_digit((b / 16) as int), hex_digit((b % 16) as int)]
    }
}

/// Appends the `0x`-prefixed hexadecimal text of `b`.
pub fn push_prefixed_hex(s: &mut String, b: u8)
    ensures
        final(s)@ == old(s)@ + prefixed_hex_text(b),
{
    push_char(s, '0');
    push_char(s, 'x');
    if b >= 16 {
        push_char(s, hex_digit_char(b / 16));
    }
    push_char(s, hex_digit_char(b % 16));
    assert(s@ =~= old(s)@ + prefixed_hex_text(b));
}

/// Encodes bytes as lower-case hexadecimal text.
pub fn hex_encode(bytes: &[u8]) -> (s: String)
    requires
        bytes@.len() <= usize::MAX / 2,
    ensures
        s@ == hex_text(bytes@),
{
    let mut s = String::new();
    let mut i: usize = 0;
    while i < bytes.len()
        invariant
            i <= bytes@.len(),
            s@ =~= hex_text(bytes@.subrange(0, i as int)),
        decreases bytes@.len() - i,
    {
        let b = bytes[i];
        push_char(&mut s, hex_digit_char(b / 16));
        push_char(&mut s, hex_digit_char(b % 16));
        i = i + 1;
        proof {
            assert(s@ =~= hex_text(bytes@.subrange(0, i as int)));
        }
    }
    assert(bytes@.subrange(0, bytes@.len() as int) =~= bytes@);
    s
}

fn hex_value(c: char) -> (r: Option<u8>)
    ensures
        match r {
            Some(v) => is_hex_digit(c) && v == hex_digit_value(c) && v < 16,
            None => !is_hex_digit(c),
        },
{
    if '0' <= c && c <= '9' {
        Some((c as u32 - 48) as u8)
    } else if 'a' <= c && c <= 'f' {
        Some((c as u32 - 87) as u8)
    } else if 'A' <= c && c <= 'F' {
        Some((c as u32 - 55) as u8)
    } else {
        None
    }
}

/// Decodes hexadecimal text of either case; `None` for an odd length or
/// any character that is not a hexadecimal digit.
pub fn hex_decode(s: &str) -> (r: Option<Vec<u8>>)
    ensures
        match r {
            Some(v) => hex_decoded(s@) == Some(v@),
            None => hex_decoded(s@) is None,
        },
{
    let n = s.unicode_len();
    if n % 2 != 0 {
        return None;
    }
    let mut out: Vec<u8> = Vec::new();
    let mut i: usize = 0;
    while i < n / 2
        invariant
            n == s@.len(),
            n % 2 == 0,
            i <= n / 2,
            out@.len() == i,
            forall|j: int| 0 <= j < 2 * i ==> is_hex_digit(#[trigger] s@[j]),
            forall|j: int|
                0 <= j < i ==> #[trigger] out@[j] == (hex_digit_value(s@[2 * j]) * 16
                    + hex_digit_value(s@[2 * j + 1])) as u8,
        decreases n / 2 - i,
    {
        let hi = match hex_value(s.get_char(2 * i)) {
            Some(v) => v,
            None => {
                return None;
            },
        };
        let lo = match hex_value(s.get_char(2 * i + 1)) {
            Some(v) => v,
            None => {
                return None;
            },
        };
        out.push(hi * 16 + lo);
        i = i + 1;
    }
    proof {
        let expected = hex_decoded(s@);
        assert(expected is Some);
        assert(out@ =~= expected->0);
    }
    Some(out)
}

/// Decoding the hexadecimal text of any byte string gives those bytes back.
pub proof fn lemma_hex_roundtrip(b: Seq<u8>)
    ensures
        hex_decoded(hex_text(b)) == Some(b),
{
    let t = hex_text(b);
    assert forall|i: int| 0 <= i < t.len() implies is_hex_digit(#[trigger] t[i]) by {
        let x = b[i / 2];
    }
    let d = hex_decoded(t)->0;
    assert forall|i: int| 0 <= i < b.len() implies d[i] == b[i] by {
        assert((2 * i) / 2 == i);
        assert((2 * i + 1) / 2 == i);
        assert((2 * i) % 2 == 0);
        assert((2 * i + 1) % 2 == 1);
        assert(hex_digit_value(t[2 * i]) == b[i] / 16);
        assert(hex_digit_value(t[2 * i + 1]) == b[i] % 16);
    }
    assert(d =~= b);
}

} // verus!
