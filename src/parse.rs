//! Text forms of addresses: IPv4 and IPv6 literals, socket addresses and ports.
//!
//! Each parser reads a sequence of characters. The spec functions describe the grammar as a
//! greedy reader over positions, and each executable parser returns exactly what they give.

use vstd::prelude::*;
use crate::ip::{Ipv4Addr, Ipv6Addr, SocketAddr, SocketAddrV4, SocketAddrV6, SocketAddrModel};

verus! {

/// Whether `c` is a digit in base `radix` (10 or 16); hexadecimal digits take either case.
pub open spec fn is_digit(c: char, radix: nat) -> bool {
    ('0' <= c && c <= '9') || (radix == 16 && (('a' <= c && c <= 'f') || ('A' <= c && c <= 'F')))
}

/// The value of a digit character.
pub open spec fn digit_value(c: char) -> nat {
    if '0' <= c && c <= '9' {
        (c as u32 - '0' as u32) as nat
    } else if 'a' <= c && c <= 'f' {
        (c as u32 - 'a' as u32 + 10) as nat
    } else {
        (c as u32 - 'A' as u32 + 10) as nat
    }
}

/// The position where the run of digits that starts at `pos` ends.
pub open spec fn digits_end(s: Seq<char>, pos: int, radix: nat) -> int
    decreases s.len() - pos,
{
    if 0 <= pos < s.len() && is_digit(s[pos], radix) {
        digits_end(s, pos + 1, radix)
    } else {
        pos
    }
}

/// The number that the characters `s[from..to]` write in base `radix`.
pub open spec fn digits_value(s: Seq<char>, from: int, to: int, radix: nat) -> nat
    decreases to - from,
{
    if to <= from {
        0
    } else {
        digits_value(s, from, to - 1, radix) * radix + digit_value(s[to - 1])
    }
}

/// Reads the run of digits at `pos`: at least one digit, at most `max_digits` where that is not
/// zero, no leading zero before more digits unless `zero_prefix`, and a value below `bound`.
/// Gives the value and the position after the digits.
pub open spec fn read_number(
    s: Seq<char>,
    pos: int,
    radix: nat,
    max_digits: nat,
    zero_prefix: bool,
    bound: nat,
) -> Option<(nat, int)> {
    let end = digits_end(s, pos, radix);
    let n = end - pos;
    let v = digits_value(s, pos, end, radix);
    if n <= 0 {
        None
    } else if max_digits > 0 && n > max_digits {
        None
    } else if !zero_prefix && s[pos] == '0' && n > 1 {
        None
    } else if v >= bound {
        None
    } else {
        Some((v, end))
    }
}

proof fn lemma_digits_end(s: Seq<char>, pos: int, i: int, radix: nat)
    requires
        0 <= pos <= i <= s.len(),
        forall|k: int| pos <= k < i ==> is_digit(s[k], radix),
        i == s.len() || !is_digit(s[i], radix),
    ensures
        digits_end(s, pos, radix) == i,
    decreases i - pos,
{
    if pos < i {
        lemma_digits_end(s, pos + 1, i, radix);
    }
}

pub proof fn lemma_digits_end_run(s: Seq<char>, pos: int, radix: nat)
    requires
        0 <= pos <= s.len(),
    ensures
        pos <= digits_end(s, pos, radix) <= s.len(),
        forall|k: int| pos <= k < digits_end(s, pos, radix) ==> is_digit(s[k], radix),
        digits_end(s, pos, radix) == s.len() || !is_digit(s[digits_end(s, pos, radix)], radix),
    decreases s.len() - pos,
{
    if pos < s.len() && is_digit(s[pos], radix) {
        lemma_digits_end_run(s, pos + 1, radix);
    }
}

proof fn lemma_digits_value_monotone(s: Seq<char>, from: int, a: int, b: int, radix: nat)
    requires
        from <= a <= b,
        radix >= 1,
    ensures
        digits_value(s, from, a, radix) <= digits_value(s, from, b, radix),
    decreases b - a,
{
    if a < b {
        lemma_digits_value_monotone(s, from, a, b - 1, radix);
        let v = digits_value(s, from, b - 1, radix);
        assert(v * radix >= v) by (nonlinear_arith)
            requires
                radix >= 1,
        ;
    }
}

fn is_digit_exec(c: char, radix: u32) -> (r: bool)
    requires
        radix == 10 || radix == 16,
    ensures
        r == is_digit(c, radix as nat),
{
    ('0' <= c && c <= '9') || (radix == 16 && (('a' <= c && c <= 'f') || ('A' <= c && c <= 'F')))
}

fn digit_value_exec(c: char) -> (r: u32)
    requires
        is_digit(c, 16),
    ensures
        r as nat == digit_value(c),
        r < 16,
        '0' <= c <= '9' ==> r < 10,
{
    if '0' <= c && c <= '9' {
        c as u32 - '0' as u32
    } else if 'a' <= c && c <= 'f' {
        c as u32 - 'a' as u32 + 10
    } else {
        c as u32 - 'A' as u32 + 10
    }
}

/// Reads a number at `pos`, as `read_number` describes.
pub fn read_number_at(
    s: &Vec<char>,
    pos: usize,
    radix: u32,
    max_digits: usize,
    zero_prefix: bool,
    bound: u64,
) -> (r: Option<(u64, usize)>)
    requires
        pos <= s@.len(),
        radix == 10 || radix == 16,
        1 <= bound <= 0x1_0000_0000,
    ensures
        match read_number(s@, pos as int, radix as nat, max_digits as nat, zero_prefix, bound as nat) {
            Some((v, e)) => r matches Some((rv, re)) && rv == v && re == e,
            None => r is None,
        },
        r matches Some((v, e)) ==> pos < e <= s@.len() && v < bound,
{
    let ghost sv = s@;
    let mut i: usize = pos;
    let mut val: u64 = 0;
    while i < s.len() && is_digit_exec(s[i], radix)
        invariant
            pos <= i <= s@.len(),
            radix == 10 || radix == 16,
            1 <= bound <= 0x1_0000_0000,
            sv == s@,
            forall|k: int| pos <= k < i ==> is_digit(s@[k], radix as nat),
            val as nat == digits_value(s@, pos as int, i as int, radix as nat),
            val < bound,
            max_digits > 0 ==> i - pos <= max_digits,
        decreases s@.len() - i,
    {
        let d = digit_value_exec(s[i]);
        assert(val * (radix as u64) <= 0x1_0000_0000 * 16) by (nonlinear_arith)
            requires
                val < 0x1_0000_0000,
                radix <= 16,
        ;
        let nv: u64 = val * (radix as u64) + d as u64;
        assert(digits_value(s@, pos as int, i + 1, radix as nat) == nv as nat);
        if nv >= bound || (max_digits > 0 && i + 1 - pos > max_digits) {
            proof {
                let end = digits_end(s@, pos as int, radix as nat);
                lemma_digits_end_run(s@, pos as int, radix as nat);
                assert(end >= i + 1);
                lemma_digits_value_monotone(s@, pos as int, i + 1, end, radix as nat);
            }
            return None;
        }
        val = nv;
        i = i + 1;
    }
    proof {
        lemma_digits_end(s@, pos as int, i as int, radix as nat);
    }
    if i == pos {
        None
    } else if !zero_prefix && s[pos] == '0' && i - pos > 1 {
        None
    } else {
        Some((val, i))
    }
}

/// The character of a decimal digit.
pub open spec fn digit_char(d: nat) -> char {
    if d == 0 {
        '0'
    } else if d == 1 {
        '1'
    } else if d == 2 {
        '2'
    } else if d == 3 {
        '3'
    } else if d == 4 {
        '4'
    } else if d == 5 {
        '5'
    } else if d == 6 {
        '6'
    } else if d == 7 {
        '7'
    } else if d == 8 {
        '8'
    } else {
        '9'
    }
}

/// The decimal digits of `n`, without leading zeros.
pub open spec fn decimal(n: nat) -> Seq<char>
    decreases n,
{
    if n < 10 {
        seq![digit_char(n)]
    } else {
        decimal(n / 10) + seq![digit_char(n % 10)]
    }
}

/// The dotted decimal text of an IPv4 address.
pub open spec fn ipv4_text(o: Seq<u8>) -> Seq<char> {
    decimal(o[0] as nat) + seq!['.'] + decimal(o[1] as nat) + seq!['.'] + decimal(o[2] as nat)
        + seq!['.'] + decimal(o[3] as nat)
}

/// Reads the separator `sep` at `pos` and then a number, as `read_number` describes.
pub open spec fn read_sep_number(
    s: Seq<char>,
    pos: int,
    sep: char,
    radix: nat,
    max_digits: nat,
    zero_prefix: bool,
    bound: nat,
) -> Option<(nat, int)> {
    if 0 <= pos < s.len() && s[pos] == sep {
        read_number(s, pos + 1, radix, max_digits, zero_prefix, bound)
    } else {
        None
    }
}

fn read_sep_number_at(
    s: &Vec<char>,
    pos: usize,
    sep: char,
    radix: u32,
    max_digits: usize,
    zero_prefix: bool,
    bound: u64,
) -> (r: Option<(u64, usize)>)
    requires
        pos <= s@.len(),
        radix == 10 || radix == 16,
        1 <= bound <= 0x1_0000_0000,
    ensures
        match read_sep_number(
            s@,
            pos as int,
            sep,
            radix as nat,
            max_digits as nat,
            zero_prefix,
            bound as nat,
        ) {
            Some((v, e)) => r matches Some((rv, re)) && rv == v && re == e,
            None => r is None,
        },
        r matches Some((v, e)) ==> pos < e <= s@.len() && v < bound,
{
    if pos < s.len() && s[pos] == sep {
        read_number_at(s, pos + 1, radix, max_digits, zero_prefix, bound)
    } else {
        None
    }
}

/// Reads one decimal octet of a dotted IPv4 address: one to three digits, no leading zero,
/// at most 255; every octet but the first follows a dot.
pub open spec fn read_octet(s: Seq<char>, pos: int, first: bool) -> Option<(nat, int)> {
    if first {
        read_number(s, pos, 10, 3, false, 256)
    } else {
        read_sep_number(s, pos, '.', 10, 3, false, 256)
    }
}

/// Reads a dotted IPv4 address at `pos`: its octets and the position after it.
pub open spec fn read_ipv4(s: Seq<char>, pos: int) -> Option<(Seq<u8>, int)> {
    match read_octet(s, pos, true) {
        None => None,
        Some((a, p1)) => match read_octet(s, p1, false) {
            None => None,
            Some((b, p2)) => match read_octet(s, p2, false) {
                None => None,
                Some((c, p3)) => match read_octet(s, p3, false) {
                    None => None,
                    Some((d, p4)) => Some((seq![a as u8, b as u8, c as u8, d as u8], p4)),
                },
            },
        },
    }
}

/// The IPv4 address that the whole of `s` writes, if it writes one.
pub open spec fn parse_ipv4(s: Seq<char>) -> Option<Seq<u8>> {
    match read_ipv4(s, 0) {
        Some((o, e)) => if e == s.len() {
            Some(o)
        } else {
            None
        },
        None => None,
    }
}

fn read_octet_at(s: &Vec<char>, pos: usize, first: bool) -> (r: Option<(u8, usize)>)
    requires
        pos <= s@.len(),
    ensures
        match read_octet(s@, pos as int, first) {
            Some((v, e)) => r matches Some((rv, re)) && rv == v && re == e,
            None => r is None,
        },
        r matches Some((v, e)) ==> pos < e <= s@.len(),
{
    let n = if first {
        read_number_at(s, pos, 10, 3, false, 256)
    } else {
        read_sep_number_at(s, pos, '.', 10, 3, false, 256)
    };
    match n {
        Some((v, e)) => Some((v as u8, e)),
        None => None,
    }
}

fn read_ipv4_at(s: &Vec<char>, pos: usize) -> (r: Option<(Ipv4Addr, usize)>)
    requires
        pos <= s@.len(),
    ensures
        match read_ipv4(s@, pos as int) {
            Some((o, e)) => r matches Some((a, re)) && a@ == o && re == e,
            None => r is None,
        },
        r matches Some((a, e)) ==> pos < e <= s@.len(),
{
    let (a, p1) = match read_octet_at(s, pos, true) {
        Some(x) => x,
        None => return None,
    };
    let (b, p2) = match read_octet_at(s, p1, false) {
        Some(x) => x,
        None => return None,
    };
    let (c, p3) = match read_octet_at(s, p2, false) {
        Some(x) => x,
        None => return None,
    };
    let (d, p4) = match read_octet_at(s, p3, false) {
        Some(x) => x,
        None => return None,
    };
    Some((Ipv4Addr::new(a, b, c, d), p4))
}

/// Parses the whole of `s` as a dotted IPv4 address.
pub fn parse_ipv4_addr(s: &Vec<char>) -> (r: Option<Ipv4Addr>)
    ensures
        match parse_ipv4(s@) {
            Some(o) => r matches Some(a) && a@ == o,
            None => r is None,
        },
{
    match read_ipv4_at(s, 0) {
        Some((a, e)) => if e == s.len() {
            Some(a)
        } else {
            None
        },
        None => None,
    }
}

/// The two 16-bit segments that the four octets of an embedded IPv4 address fill.
pub open spec fn ipv4_as_segments(o: Seq<u8>) -> Seq<u16> {
    seq![(o[0] as nat * 256 + o[1] as nat) as u16, (o[2] as nat * 256 + o[3] as nat) as u16]
}

/// Reads colon-separated IPv6 groups at `pos`, the `i`-th of at most `limit`: one to four hex
/// digits each, and where two groups are still free, a dotted IPv4 address may end the run.
/// Gives the groups read, whether an IPv4 address ended them, and the position after them.
pub open spec fn read_groups(s: Seq<char>, pos: int, i: int, limit: int) -> (Seq<u16>, bool, int)
    decreases limit - i,
{
    if i >= limit {
        (seq![], false, pos)
    } else if i > 0 && !(0 <= pos < s.len() && s[pos] == ':') {
        (seq![], false, pos)
    } else {
        let start = if i > 0 {
            pos + 1
        } else {
            pos
        };
        if i < limit - 1 && read_ipv4(s, start) is Some {
            let (o, e) = read_ipv4(s, start).unwrap();
            (ipv4_as_segments(o), true, e)
        } else {
            match read_number(s, start, 16, 4, true, 65536) {
                None => (seq![], false, pos),
                Some((g, e)) => {
                    let rest = read_groups(s, e, i + 1, limit);
                    (seq![g as u16] + rest.0, rest.1, rest.2)
                },
            }
        }
    }
}

/// Reads an IPv6 address at `pos`: eight groups, or a run of groups, `::`, and a run of groups
/// that together leave at least one group to the zeros that `::` stands for. An embedded IPv4
/// address may end the last run only.
pub open spec fn read_ipv6(s: Seq<char>, pos: int) -> Option<(Seq<u16>, int)> {
    let (head, head_v4, p1) = read_groups(s, pos, 0, 8);
    if head.len() == 8 {
        Some((head, p1))
    } else if head_v4 {
        None
    } else if 0 <= p1 && p1 + 1 < s.len() && s[p1] == ':' && s[p1 + 1] == ':' {
        let (tail, _, p2) = read_groups(s, p1 + 2, 0, 7 - head.len());
        Some((head + Seq::new((8 - head.len() - tail.len()) as nat, |k: int| 0u16) + tail, p2))
    } else {
        None
    }
}

/// The IPv6 address that the whole of `s` writes, if it writes one.
pub open spec fn parse_ipv6(s: Seq<char>) -> Option<Seq<u16>> {
    match read_ipv6(s, 0) {
        Some((g, e)) => if e == s.len() {
            Some(g)
        } else {
            None
        },
        None => None,
    }
}

fn read_groups_at(s: &Vec<char>, pos: usize, i: usize, limit: usize) -> (r: (Vec<u16>, bool, usize))
    requires
        pos <= s@.len(),
        i <= limit <= 8,
    ensures
        r.0@ == read_groups(s@, pos as int, i as int, limit as int).0,
        r.1 == read_groups(s@, pos as int, i as int, limit as int).1,
        r.2 == read_groups(s@, pos as int, i as int, limit as int).2,
        r.0@.len() <= limit - i,
        pos <= r.2 <= s@.len(),
    decreases limit - i,
{
    if i >= limit {
        return (Vec::new(), false, pos);
    }
    if i > 0 && !(pos < s.len() && s[pos] == ':') {
        return (Vec::new(), false, pos);
    }
    let start = if i > 0 {
        pos + 1
    } else {
        pos
    };
    if i + 1 < limit {
        if let Some((a, e)) = read_ipv4_at(s, start) {
            let o = a.octets();
            let mut v: Vec<u16> = Vec::new();
            v.push(o[0] as u16 * 256 + o[1] as u16);
            v.push(o[2] as u16 * 256 + o[3] as u16);
            assert(v@ =~= ipv4_as_segments(a@));
            return (v, true, e);
        }
    }
    match read_number_at(s, start, 16, 4, true, 65536) {
        None => (Vec::new(), false, pos),
        Some((g, e)) => {
            let (rest, v4, end) = read_groups_at(s, e, i + 1, limit);
            let mut v: Vec<u16> = Vec::new();
            v.push(g as u16);
            let mut k: usize = 0;
            while k < rest.len()
                invariant
                    k <= rest@.len(),
                    v@ =~= seq![g as u16] + rest@.subrange(0, k as int),
                decreases rest@.len() - k,
            {
                v.push(rest[k]);
                k = k + 1;
                assert(v@ =~= seq![g as u16] + rest@.subrange(0, k as int));
            }
            assert(rest@.subrange(0, rest@.len() as int) =~= rest@);
            (v, v4, end)
        },
    }
}

fn read_ipv6_at(s: &Vec<char>, pos: usize) -> (r: Option<(Ipv6Addr, usize)>)
    requires
        pos <= s@.len(),
    ensures
        match read_ipv6(s@, pos as int) {
            Some((g, e)) => r matches Some((a, re)) && a@ == g && re == e,
            None => r is None,
        },
        r matches Some((a, e)) ==> pos <= e <= s@.len(),
{
    let (head, head_v4, p1) = read_groups_at(s, pos, 0, 8);
    let mut g: Vec<u16> = Vec::new();
    let end;
    if head.len() == 8 {
        g = head;
        end = p1;
    } else if head_v4 {
        return None;
    } else if p1 < s.len() && s.len() - p1 >= 2 && s[p1] == ':' && s[p1 + 1] == ':' {
        let (tail, _, p2) = read_groups_at(s, p1 + 2, 0, 7 - head.len());
        let zeros: usize = 8 - head.len() - tail.len();
        let mut k: usize = 0;
        while k < head.len()
            invariant
                k <= head@.len(),
                g@ =~= head@.subrange(0, k as int),
            decreases head@.len() - k,
        {
            g.push(head[k]);
            k = k + 1;
            assert(g@ =~= head@.subrange(0, k as int));
        }
        k = 0;
        while k < zeros
            invariant
                k <= zeros,
                g@ =~= head@ + Seq::new(k as nat, |j: int| 0u16),
            decreases zeros - k,
        {
            g.push(0);
            k = k + 1;
            assert(g@ =~= head@ + Seq::new(k as nat, |j: int| 0u16));
        }
        k = 0;
        while k < tail.len()
            invariant
                k <= tail@.len(),
                g@ =~= head@ + Seq::new(zeros as nat, |j: int| 0u16) + tail@.subrange(0, k as int),
            decreases tail@.len() - k,
        {
            g.push(tail[k]);
            k = k + 1;
            assert(g@ =~= head@ + Seq::new(zeros as nat, |j: int| 0u16) + tail@.subrange(
                0,
                k as int,
            ));
        }
        assert(tail@.subrange(0, tail@.len() as int) =~= tail@);
        end = p2;
    } else {
        return None;
    }
    let a = Ipv6Addr::new(g[0], g[1], g[2], g[3], g[4], g[5], g[6], g[7]);
    assert(a@ =~= g@);
    Some((a, end))
}

/// Parses the whole of `s` as an IPv6 address.
pub fn parse_ipv6_addr(s: &Vec<char>) -> (r: Option<Ipv6Addr>)
    ensures
        match parse_ipv6(s@) {
            Some(g) => r matches Some(a) && a@ == g,
            None => r is None,
        },
{
    match read_ipv6_at(s, 0) {
        Some((a, e)) => if e == s.len() {
            Some(a)
        } else {
            None
        },
        None => None,
    }
}

/// Reads `:` and a decimal port at `pos`; leading zeros are allowed.
pub open spec fn read_port(s: Seq<char>, pos: int) -> Option<(nat, int)> {
    read_sep_number(s, pos, ':', 10, 0, true, 65536)
}

/// Reads `%` and a decimal scope id at `pos`.
pub open spec fn read_scope_id(s: Seq<char>, pos: int) -> Option<(nat, int)> {
    read_sep_number(s, pos, '%', 10, 0, true, 0x1_0000_0000)
}

/// Reads `a.b.c.d:port` at `pos`.
pub open spec fn read_socket_v4(s: Seq<char>, pos: int) -> Option<(SocketAddrModel, int)> {
    match read_ipv4(s, pos) {
        None => None,
        Some((o, p1)) => match read_port(s, p1) {
            None => None,
            Some((port, p2)) => Some((SocketAddrModel::V4(o, port as u16), p2)),
        },
    }
}

/// Reads `[v6]:port` or `[v6%scope]:port` at `pos`; the flow label is zero.
pub open spec fn read_socket_v6(s: Seq<char>, pos: int) -> Option<(SocketAddrModel, int)> {
    if 0 <= pos < s.len() && s[pos] == '[' {
        match read_ipv6(s, pos + 1) {
            None => None,
            Some((g, p1)) => {
                let (scope, p2) = match read_scope_id(s, p1) {
                    Some((v, e)) => (v, e),
                    None => (0, p1),
                };
                if 0 <= p2 < s.len() && s[p2] == ']' {
                    match read_port(s, p2 + 1) {
                        None => None,
                        Some((port, p3)) => Some(
                            (SocketAddrModel::V6(g, port as u16, 0, scope as u32), p3),
                        ),
                    }
                } else {
                    None
                }
            },
        }
    } else {
        None
    }
}

/// The socket address that the whole of `s` writes, if it writes one. The IPv4 form is read
/// first; the IPv6 form only where the IPv4 form cannot be read at all.
pub open spec fn parse_socket_addr(s: Seq<char>) -> Option<SocketAddrModel> {
    match read_socket_v4(s, 0) {
        Some((a, e)) => if e == s.len() {
            Some(a)
        } else {
            None
        },
        None => match read_socket_v6(s, 0) {
            Some((a, e)) => if e == s.len() {
                Some(a)
            } else {
                None
            },
            None => None,
        },
    }
}

fn read_socket_v4_at(s: &Vec<char>, pos: usize) -> (r: Option<(SocketAddrV4, usize)>)
    requires
        pos <= s@.len(),
    ensures
        match read_socket_v4(s@, pos as int) {
            Some((m, e)) => r matches Some((a, re)) && a@ == m && re == e,
            None => r is None,
        },
        r matches Some((a, e)) ==> e <= s@.len(),
{
    let (ip, p1) = match read_ipv4_at(s, pos) {
        Some(x) => x,
        None => return None,
    };
    match read_sep_number_at(s, p1, ':', 10, 0, true, 65536) {
        None => None,
        Some((port, p2)) => Some((SocketAddrV4::new(ip, port as u16), p2)),
    }
}

fn read_socket_v6_at(s: &Vec<char>, pos: usize) -> (r: Option<(SocketAddrV6, usize)>)
    requires
        pos <= s@.len(),
    ensures
        match read_socket_v6(s@, pos as int) {
            Some((m, e)) => r matches Some((a, re)) && a@ == m && re == e,
            None => r is None,
        },
        r matches Some((a, e)) ==> e <= s@.len(),
{
    if !(pos < s.len() && s[pos] == '[') {
        return None;
    }
    let (ip, p1) = match read_ipv6_at(s, pos + 1) {
        Some(x) => x,
        None => return None,
    };
    let (scope, p2) = match read_sep_number_at(s, p1, '%', 10, 0, true, 0x1_0000_0000) {
        Some((v, e)) => (v, e),
        None => (0, p1),
    };
    if !(p2 < s.len() && s[p2] == ']') {
        return None;
    }
    match read_sep_number_at(s, p2 + 1, ':', 10, 0, true, 65536) {
        None => None,
        Some((port, p3)) => Some((SocketAddrV6::new(ip, port as u16, 0, scope as u32), p3)),
    }
}

/// Parses the whole of `s` as a socket address.
pub fn parse_socket_addr_text(s: &Vec<char>) -> (r: Option<SocketAddr>)
    ensures
        match parse_socket_addr(s@) {
            Some(m) => r matches Some(a) && a@ == m,
            None => r is None,
        },
{
    match read_socket_v4_at(s, 0) {
        Some((a, e)) => {
            if e == s.len() {
                Some(SocketAddr::V4(a))
            } else {
                None
            }
        },
        None => match read_socket_v6_at(s, 0) {
            Some((a, e)) => {
                if e == s.len() {
                    Some(SocketAddr::V6(a))
                } else {
                    None
                }
            },
            None => None,
        },
    }
}

/// The port that the whole of `t` writes as an unsigned 16-bit number: an optional `+`, then
/// one or more decimal digits, with a value below 65536.
pub open spec fn parse_u16(t: Seq<char>) -> Option<u16> {
    let start: int = if t.len() > 0 && t[0] == '+' {
        1
    } else {
        0
    };
    match read_number(t, start, 10, 0, true, 65536) {
        Some((v, e)) => if e == t.len() {
            Some(v as u16)
        } else {
            None
        },
        None => None,
    }
}

/// Parses the whole of `t` as an unsigned 16-bit number.
pub fn parse_u16_text(t: &Vec<char>) -> (r: Option<u16>)
    ensures
        r == parse_u16(t@),
{
    let start: usize = if t.len() > 0 && t[0] == '+' {
        1
    } else {
        0
    };
    match read_number_at(t, start, 10, 0, true, 65536) {
        Some((v, e)) => if e == t.len() {
            Some(v as u16)
        } else {
            None
        },
        None => None,
    }
}

} // verus!
