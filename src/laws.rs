//! Laws of resolution, stated over the specifications that the resolvers meet.

use vstd::prelude::*;
use crate::ip::{IpAddr, SocketAddr, SocketAddrModel, endpoint_of};
use crate::parse::{
    decimal, digit_char, digit_value, digits_end, digits_value, ipv4_text, is_digit,
    lemma_digits_end_run, parse_ipv4, parse_ipv6, parse_socket_addr, parse_u16, read_groups,
    read_ipv4, read_number, read_octet, read_socket_v4,
};
use crate::resolve::{
    ResolveError, host_part, host_port_text_ok, last_colon, port_part, resolve_host_port,
    resolve_list, resolve_text,
};

verus! {

/// Text that is a whole socket address resolves to exactly that address, whatever the DNS
/// table holds.
pub proof fn lemma_socket_text_resolves_to_itself(s: Seq<char>, dns: Map<Seq<char>, IpAddr>)
    requires
        parse_socket_addr(s) is Some,
    ensures
        host_port_text_ok(s),
        resolve_text(s, dns) == Ok::<Seq<SocketAddrModel>, ResolveError>(
            seq![parse_socket_addr(s).unwrap()],
        ),
{
}

proof fn lemma_decimal_shape(n: nat)
    ensures
        decimal(n).len() >= 1,
        n < 10 ==> decimal(n).len() == 1,
        n < 100 ==> decimal(n).len() <= 2,
        n < 1000 ==> decimal(n).len() <= 3,
        decimal(n)[0] == '0' ==> n == 0,
        forall|k: int| 0 <= k < decimal(n).len() ==> is_digit(#[trigger] decimal(n)[k], 10),
    decreases n,
{
    if n >= 10 {
        lemma_decimal_shape(n / 10);
    }
}

proof fn lemma_decimal_reads_back(s: Seq<char>, pos: int, n: nat)
    requires
        0 <= pos,
        pos + decimal(n).len() <= s.len(),
        s.subrange(pos, pos + decimal(n).len()) == decimal(n),
    ensures
        digits_value(s, pos, pos + decimal(n).len(), 10) == n,
        forall|k: int| pos <= k < pos + decimal(n).len() ==> is_digit(#[trigger] s[k], 10),
    decreases n,
{
    lemma_decimal_shape(n);
    let len = decimal(n).len() as int;
    assert forall|k: int| pos <= k < pos + len implies is_digit(#[trigger] s[k], 10) by {
        assert(s[k] == s.subrange(pos, pos + len)[k - pos]);
    }
    if n >= 10 {
        let m = decimal(n / 10).len() as int;
        assert(m == len - 1);
        assert(decimal(n).subrange(0, m) =~= decimal(n / 10));
        assert(s.subrange(pos, pos + m) =~= s.subrange(pos, pos + len).subrange(0, m));
        lemma_decimal_reads_back(s, pos, n / 10);
        assert(s[pos + len - 1] == s.subrange(pos, pos + len)[len - 1]);
        assert(s[pos + len - 1] == digit_char(n % 10));
        assert(digit_value(digit_char(n % 10)) == n % 10);
        assert(digits_value(s, pos, pos + len, 10) == digits_value(s, pos, pos + m, 10) * 10
            + digit_value(s[pos + len - 1]));
        assert(n == (n / 10) * 10 + n % 10);
    } else {
        assert(s[pos] == s.subrange(pos, pos + len)[0]);
        assert(digit_value(digit_char(n)) == n);
        assert(digits_value(s, pos, pos, 10) == 0);
        assert(digits_value(s, pos, pos + 1, 10) == digits_value(s, pos, pos, 10) * 10 + digit_value(
            s[pos],
        ));
    }
}

proof fn lemma_read_decimal(s: Seq<char>, pos: int, n: nat, max_digits: nat, zero_prefix: bool, bound: nat)
    requires
        0 <= pos,
        pos + decimal(n).len() <= s.len(),
        s.subrange(pos, pos + decimal(n).len()) == decimal(n),
        pos + decimal(n).len() == s.len() || !is_digit(s[pos + decimal(n).len()], 10),
        max_digits == 0 || decimal(n).len() <= max_digits,
        n < bound,
    ensures
        read_number(s, pos, 10, max_digits, zero_prefix, bound) == Some((n, pos + decimal(n).len())),
{
    let end = pos + decimal(n).len();
    lemma_decimal_shape(n);
    lemma_decimal_reads_back(s, pos, n);
    lemma_digits_end_run(s, pos, 10);
    let e = digits_end(s, pos, 10);
    if e < end {
        assert(is_digit(s[e], 10));
    }
    if e > end {
        assert(is_digit(s[end], 10));
    }
    assert(s[pos] == decimal(n)[0]);
}

proof fn lemma_read_octet_text(s: Seq<char>, pos: int, n: nat, first: bool)
    requires
        0 <= pos,
        pos + decimal(n).len() <= s.len(),
        s.subrange(pos, pos + decimal(n).len()) == decimal(n),
        pos + decimal(n).len() == s.len() || !is_digit(s[pos + decimal(n).len()], 10),
        n < 256,
        !first ==> 1 <= pos && s[pos - 1] == '.',
    ensures
        read_octet(s, if first {
            pos
        } else {
            pos - 1
        }, first) == Some((n, pos + decimal(n).len())),
{
    lemma_decimal_shape(n);
    lemma_read_decimal(s, pos, n, 3, false, 256);
}

#[verifier::rlimit(100)]
proof fn lemma_read_ipv4_text(o: Seq<u8>, rest: Seq<char>)
    requires
        o.len() == 4,
        rest.len() == 0 || !is_digit(rest[0], 10),
    ensures
        read_ipv4(ipv4_text(o) + rest, 0) == Some((o, ipv4_text(o).len() as int)),
{
    let d0 = decimal(o[0] as nat);
    let d1 = decimal(o[1] as nat);
    let d2 = decimal(o[2] as nat);
    let d3 = decimal(o[3] as nat);
    let s = ipv4_text(o) + rest;
    lemma_decimal_shape(o[0] as nat);
    lemma_decimal_shape(o[1] as nat);
    lemma_decimal_shape(o[2] as nat);
    lemma_decimal_shape(o[3] as nat);
    let p1 = d0.len() as int;
    let p2 = p1 + 1 + d1.len();
    let p3 = p2 + 1 + d2.len();
    let p4 = p3 + 1 + d3.len();
    assert(s =~= d0 + seq!['.'] + d1 + seq!['.'] + d2 + seq!['.'] + d3 + rest);
    assert(s.subrange(0, p1) =~= d0);
    assert(s.subrange(p1 + 1, p2) =~= d1);
    assert(s.subrange(p2 + 1, p3) =~= d2);
    assert(s.subrange(p3 + 1, p4) =~= d3);
    assert(s[p1] == '.' && s[p2] == '.' && s[p3] == '.');
    assert(p4 == s.len() || s[p4] == rest[0]);
    lemma_read_octet_text(s, 0, o[0] as nat, true);
    lemma_read_octet_text(s, p1 + 1, o[1] as nat, false);
    lemma_read_octet_text(s, p2 + 1, o[2] as nat, false);
    lemma_read_octet_text(s, p3 + 1, o[3] as nat, false);
    assert(seq![o[0] as nat as u8, o[1] as nat as u8, o[2] as nat as u8, o[3] as nat as u8] =~= o);
}

/// The dotted decimal text of any IPv4 address, followed by `:` and the decimal text of any
/// port, is that socket address, and resolves to exactly it against any DNS table.
#[verifier::rlimit(100)]
pub proof fn lemma_ipv4_text_with_port_resolves(o: Seq<u8>, port: u16, dns: Map<Seq<char>, IpAddr>)
    requires
        o.len() == 4,
    ensures
        parse_socket_addr(ipv4_text(o) + seq![':'] + decimal(port as nat)) == Some(
            SocketAddrModel::V4(o, port),
        ),
        host_port_text_ok(ipv4_text(o) + seq![':'] + decimal(port as nat)),
        resolve_text(ipv4_text(o) + seq![':'] + decimal(port as nat), dns) == Ok::<
            Seq<SocketAddrModel>,
            ResolveError,
        >(seq![SocketAddrModel::V4(o, port)]),
{
    let dp = decimal(port as nat);
    let rest = seq![':'] + dp;
    let s = ipv4_text(o) + seq![':'] + dp;
    assert(s =~= ipv4_text(o) + rest);
    lemma_read_ipv4_text(o, rest);
    let p4 = ipv4_text(o).len() as int;
    lemma_decimal_shape(port as nat);
    assert(s[p4] == ':');
    assert(s.subrange(p4 + 1, s.len() as int) =~= dp);
    lemma_read_decimal(s, p4 + 1, port as nat, 0, true, 65536);
    assert(read_socket_v4(s, 0) == Some((SocketAddrModel::V4(o, port), s.len() as int)));
}

/// The decimal text of any port reads back as that port.
pub proof fn lemma_decimal_port_text(port: u16)
    ensures
        parse_u16(decimal(port as nat)) == Some(port),
{
    let t = decimal(port as nat);
    lemma_decimal_shape(port as nat);
    assert(t.subrange(0, t.len() as int) =~= t);
    lemma_read_decimal(t, 0, port as nat, 0, true, 65536);
    assert(is_digit(t[0], 10));
}

/// No text is both an IPv4 literal and an IPv6 literal.
pub proof fn lemma_literal_families_disjoint(host: Seq<char>)
    ensures
        !(parse_ipv4(host) is Some && parse_ipv6(host) is Some),
{
    if parse_ipv4(host) is Some {
        assert(read_groups(host, 0, 0, 8).1);
        assert(read_groups(host, 0, 0, 8).0.len() == 2);
    }
}

/// A host that is an IPv4 literal resolves, with any port, to exactly that address and port; a
/// host that is an IPv6 literal to that address and port, with zero flow label and scope id.
pub proof fn lemma_literal_host_resolves_to_itself(
    host: Seq<char>,
    port: u16,
    dns: Map<Seq<char>, IpAddr>,
)
    ensures
        parse_ipv4(host) is Some ==> resolve_host_port(host, port, dns) == Ok::<
            Seq<SocketAddrModel>,
            ResolveError,
        >(seq![SocketAddrModel::V4(parse_ipv4(host).unwrap(), port)]),
        parse_ipv6(host) is Some ==> resolve_host_port(host, port, dns) == Ok::<
            Seq<SocketAddrModel>,
            ResolveError,
        >(seq![SocketAddrModel::V6(parse_ipv6(host).unwrap(), port, 0, 0)]),
{
    lemma_literal_families_disjoint(host);
}

proof fn lemma_u16_text_has_no_colon(t: Seq<char>)
    requires
        parse_u16(t) is Some,
    ensures
        forall|k: int| 0 <= k < t.len() ==> t[k] != ':',
{
    let start: int = if t.len() > 0 && t[0] == '+' {
        1
    } else {
        0
    };
    lemma_digits_end_run(t, start, 10);
    assert forall|k: int| 0 <= k < t.len() implies t[k] != ':' by {
        if k >= start {
            assert(is_digit(t[k], 10));
        }
    }
}

proof fn lemma_last_colon_before_suffix(name: Seq<char>, t: Seq<char>)
    requires
        forall|k: int| 0 <= k < t.len() ==> t[k] != ':',
    ensures
        last_colon(name + seq![':'] + t) == name.len(),
    decreases t.len(),
{
    let s = name + seq![':'] + t;
    if t.len() > 0 {
        assert(s.drop_last() =~= name + seq![':'] + t.drop_last());
        lemma_last_colon_before_suffix(name, t.drop_last());
    }
}

/// A name that the DNS table holds, written with a port after a `:`, resolves to exactly the
/// address that the table gives it, with that port. This holds where the name is no literal
/// address and the text as a whole is no socket address, for literals come first.
pub proof fn lemma_registered_name_resolves(
    name: Seq<char>,
    port_text: Seq<char>,
    port: u16,
    dns: Map<Seq<char>, IpAddr>,
)
    requires
        dns.contains_key(name),
        parse_u16(port_text) == Some(port),
        parse_ipv4(name) is None,
        parse_ipv6(name) is None,
        parse_socket_addr(name + seq![':'] + port_text) is None,
    ensures
        host_port_text_ok(name + seq![':'] + port_text),
        resolve_text(name + seq![':'] + port_text, dns) == Ok::<Seq<SocketAddrModel>, ResolveError>(
            seq![endpoint_of(dns[name]@, port)],
        ),
{
    let s = name + seq![':'] + port_text;
    lemma_u16_text_has_no_colon(port_text);
    lemma_last_colon_before_suffix(name, port_text);
    assert(host_part(s) =~= name);
    assert(port_part(s) =~= port_text);
}

/// A host that is no literal address and that the DNS table does not hold resolves to an
/// error, and to no address.
pub proof fn lemma_unknown_host_fails(host: Seq<char>, port: u16, dns: Map<Seq<char>, IpAddr>)
    requires
        parse_ipv4(host) is None,
        parse_ipv6(host) is None,
        !dns.contains_key(host),
    ensures
        resolve_host_port(host, port, dns) == Err::<Seq<SocketAddrModel>, ResolveError>(
            ResolveError::UnresolvableHost,
        ),
{
}

/// `host:port` text whose host is no literal address and is not in the DNS table resolves to
/// an error, where the text as a whole is no socket address.
pub proof fn lemma_unknown_host_text_fails(s: Seq<char>, dns: Map<Seq<char>, IpAddr>)
    requires
        host_port_text_ok(s),
        parse_socket_addr(s) is None,
        parse_ipv4(host_part(s)) is None,
        parse_ipv6(host_part(s)) is None,
        !dns.contains_key(host_part(s)),
    ensures
        resolve_text(s, dns) == Err::<Seq<SocketAddrModel>, ResolveError>(
            ResolveError::UnresolvableHost,
        ),
{
}

/// A literal address never reaches the DNS table: with a literal host, or as a whole socket
/// address, the outcome is the same against any two tables, so also after any name, the
/// literal's own text included, is registered.
pub proof fn lemma_literal_ignores_dns(
    host: Seq<char>,
    port: u16,
    s: Seq<char>,
    dns1: Map<Seq<char>, IpAddr>,
    dns2: Map<Seq<char>, IpAddr>,
)
    ensures
        parse_ipv4(host) is Some || parse_ipv6(host) is Some ==> resolve_host_port(host, port, dns1)
            == resolve_host_port(host, port, dns2),
        parse_socket_addr(s) is Some ==> resolve_text(s, dns1) == resolve_text(s, dns2),
        host_port_text_ok(s) && (parse_ipv4(host_part(s)) is Some || parse_ipv6(host_part(s)) is Some)
            ==> resolve_text(s, dns1) == resolve_text(s, dns2),
{
}

/// A list of N socket addresses resolves to exactly N addresses, the same ones in the same
/// order.
pub proof fn lemma_list_keeps_order(addrs: Seq<SocketAddr>)
    ensures
        resolve_list(addrs) is Ok,
        resolve_list(addrs)->Ok_0.len() == addrs.len(),
        forall|i: int| 0 <= i < addrs.len() ==> resolve_list(addrs)->Ok_0[i] == addrs[i]@,
{
}

} // verus!
