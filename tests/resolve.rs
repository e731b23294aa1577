use addr_resolve::{
    lookup_host, to_socket_addrs, DnsTable, ErrorKind, IpAddr, Ipv4Addr, Ipv6Addr, OneOrMore,
    ResolveError, SocketAddr, SocketAddrV4, SocketAddrV6, ToSocketAddrs,
};

fn v4(a: u8, b: u8, c: u8, d: u8, port: u16) -> SocketAddr {
    SocketAddr::from_ip_port(IpAddr::V4(Ipv4Addr::new(a, b, c, d)), port)
}

fn first(r: Result<OneOrMore, ResolveError>) -> SocketAddr {
    r.unwrap().next().unwrap()
}

fn all(mut it: OneOrMore) -> Vec<SocketAddr> {
    let mut out = Vec::new();
    while let Some(a) = it.next() {
        out.push(a);
    }
    out
}

#[test]
fn localhost() {
    let dns = DnsTable::new();
    assert_eq!(
        first(lookup_host("localhost:1", &dns)),
        SocketAddr::from_ip_port(IpAddr::V4(Ipv4Addr::localhost()), 1)
    );
    assert_eq!(
        first(lookup_host(("localhost", 1), &dns)),
        SocketAddr::from_ip_port(IpAddr::V4(Ipv4Addr::localhost()), 1)
    );
}

#[test]
fn dns() {
    let mut dns = DnsTable::new();
    dns.add_dns_record("madsim.io", IpAddr::V4(Ipv4Addr::new(8, 8, 8, 8)));
    assert_eq!(first(lookup_host("madsim.io:1", &dns)), v4(8, 8, 8, 8, 1));
    assert!(lookup_host(("mad.io", 1), &dns).is_err());
}

#[test]
fn unregistered_text_host_is_invalid_input() {
    let mut dns = DnsTable::new();
    dns.add_dns_record("madsim.io", IpAddr::V4(Ipv4Addr::new(8, 8, 8, 8)));
    let e = lookup_host("mad.io:1", &dns).unwrap_err();
    assert_eq!(e, ResolveError::UnresolvableHost);
    assert_eq!(e.kind(), ErrorKind::InvalidInput);
}

#[test]
fn literal_wins_over_registered_name() {
    let mut dns = DnsTable::new();
    dns.add_dns_record("127.0.0.1", IpAddr::V4(Ipv4Addr::new(8, 8, 8, 8)));
    assert_eq!(first(lookup_host("127.0.0.1:1", &dns)), v4(127, 0, 0, 1, 1));
    assert_eq!(first(lookup_host(("127.0.0.1", 1), &dns)), v4(127, 0, 0, 1, 1));
    dns.add_dns_record("::1", IpAddr::V4(Ipv4Addr::new(8, 8, 8, 8)));
    let one = IpAddr::V6(Ipv6Addr::new(0, 0, 0, 0, 0, 0, 0, 1));
    assert_eq!(first(lookup_host(("::1", 7), &dns)), SocketAddr::from_ip_port(one, 7));
}

#[test]
fn literal_text_needs_no_table() {
    let dns = DnsTable::empty();
    assert_eq!(first(lookup_host("127.0.0.1:1", &dns)), v4(127, 0, 0, 1, 1));
    assert_eq!(first(lookup_host("10.0.0.255:65535", &dns)), v4(10, 0, 0, 255, 65535));
    assert!(lookup_host("localhost:1", &dns).is_err());
}

#[test]
fn bracketed_ipv6_with_scope() {
    let dns = DnsTable::empty();
    let a = first(lookup_host("[fe80::1%3]:8080", &dns));
    let ip = Ipv6Addr::new(0xfe80, 0, 0, 0, 0, 0, 0, 1);
    assert_eq!(a, SocketAddr::V6(SocketAddrV6::new(ip, 8080, 0, 3)));
    let b = first(lookup_host("[::1]:80", &dns));
    let one = Ipv6Addr::new(0, 0, 0, 0, 0, 0, 0, 1);
    assert_eq!(b, SocketAddr::V6(SocketAddrV6::new(one, 80, 0, 0)));
}

#[test]
fn ipv6_forms_as_host() {
    let dns = DnsTable::empty();
    let full = first(lookup_host(("1:2:3:4:5:6:7:8", 9), &dns));
    assert_eq!(full, SocketAddr::V6(SocketAddrV6::new(Ipv6Addr::new(1, 2, 3, 4, 5, 6, 7, 8), 9, 0, 0)));
    let mapped = first(lookup_host(("::ffff:1.2.3.4", 9), &dns));
    let m = Ipv6Addr::new(0, 0, 0, 0, 0, 0xffff, 0x0102, 0x0304);
    assert_eq!(mapped, SocketAddr::V6(SocketAddrV6::new(m, 9, 0, 0)));
    let trailing = first(lookup_host(("1:2:3:4:5:6:7::", 9), &dns));
    let t = Ipv6Addr::new(1, 2, 3, 4, 5, 6, 7, 0);
    assert_eq!(trailing, SocketAddr::V6(SocketAddrV6::new(t, 9, 0, 0)));
    let upper = first(lookup_host(("ABCD::00ef", 9), &dns));
    let u = Ipv6Addr::new(0xabcd, 0, 0, 0, 0, 0, 0, 0xef);
    assert_eq!(upper, SocketAddr::V6(SocketAddrV6::new(u, 9, 0, 0)));
}

#[test]
fn malformed_literals_go_to_the_table() {
    let dns = DnsTable::empty();
    for host in ["01.2.3.4", "256.1.1.1", "1.2.3", "1.2.3.4.5", "12345::1", "1::2::3", "::1.2.3.4:5", ""] {
        assert_eq!(lookup_host((host, 1), &dns).unwrap_err(), ResolveError::UnresolvableHost);
    }
    let mut dns = DnsTable::empty();
    dns.add_dns_record("01.2.3.4", IpAddr::V4(Ipv4Addr::new(9, 9, 9, 9)));
    assert_eq!(first(lookup_host(("01.2.3.4", 2), &dns)), v4(9, 9, 9, 9, 2));
}

#[test]
fn port_text_after_last_colon() {
    let mut dns = DnsTable::empty();
    dns.add_dns_record("a:b", IpAddr::V4(Ipv4Addr::new(1, 1, 1, 1)));
    dns.add_dns_record("host", IpAddr::V4(Ipv4Addr::new(2, 2, 2, 2)));
    assert_eq!(first(lookup_host("a:b:5", &dns)), v4(1, 1, 1, 1, 5));
    assert_eq!(first(lookup_host("host:+7", &dns)), v4(2, 2, 2, 2, 7));
    assert_eq!(first(lookup_host("host:007", &dns)), v4(2, 2, 2, 2, 7));
}

#[test]
fn check_input_rejects_missing_or_bad_port() {
    assert!("host:1".check_input());
    assert!("1.2.3.4:0".check_input());
    assert!("[::1]:1".check_input());
    assert!(!"host".check_input());
    assert!(!"host:".check_input());
    assert!(!"host:+".check_input());
    assert!(!"host:65536".check_input());
    assert!(!"host:-1".check_input());
    assert!(!String::from("host:x1").check_input());
    assert!(("anything", 1).check_input());
}

#[test]
fn table_replaces_a_name() {
    let mut dns = DnsTable::empty();
    assert_eq!(dns.lookup_host_ip("x"), None);
    dns.add_dns_record("x", IpAddr::V4(Ipv4Addr::new(1, 2, 3, 4)));
    dns.add_dns_record("x", IpAddr::V4(Ipv4Addr::new(4, 3, 2, 1)));
    assert_eq!(dns.lookup_host_ip("x"), Some(IpAddr::V4(Ipv4Addr::new(4, 3, 2, 1))));
    assert_eq!(DnsTable::new().lookup_host_ip("localhost"), Some(IpAddr::V4(Ipv4Addr::localhost())));
}

#[test]
fn list_keeps_length_and_order() {
    let dns = DnsTable::empty();
    let addrs = vec![v4(1, 1, 1, 1, 1), v4(2, 2, 2, 2, 2), v4(1, 1, 1, 1, 1)];
    let it = lookup_host(addrs.clone(), &dns).unwrap();
    assert_eq!(it.size_hint(), (3, Some(3)));
    assert_eq!(all(it), addrs);
    let it = lookup_host(&addrs[..], &dns).unwrap();
    assert_eq!(all(it), addrs);
    let empty: Vec<SocketAddr> = Vec::new();
    let it = lookup_host(empty, &dns).unwrap();
    assert_eq!(it.size_hint(), (0, Some(0)));
}

#[test]
fn address_shapes_resolve_to_one() {
    let dns = DnsTable::empty();
    let ip6 = Ipv6Addr::new(1, 0, 0, 0, 0, 0, 0, 2);
    let sa4 = SocketAddrV4::new(Ipv4Addr::new(5, 6, 7, 8), 9);
    let sa6 = SocketAddrV6::new(ip6, 9, 4, 5);
    assert_eq!(all(lookup_host(sa4, &dns).unwrap()), vec![SocketAddr::V4(sa4)]);
    assert_eq!(all(lookup_host(sa6, &dns).unwrap()), vec![SocketAddr::V6(sa6)]);
    assert_eq!(all(lookup_host(SocketAddr::V4(sa4), &dns).unwrap()), vec![SocketAddr::V4(sa4)]);
    assert_eq!(all(lookup_host((Ipv4Addr::new(5, 6, 7, 8), 9), &dns).unwrap()), vec![SocketAddr::V4(sa4)]);
    assert_eq!(
        all(lookup_host((ip6, 9), &dns).unwrap()),
        vec![SocketAddr::V6(SocketAddrV6::new(ip6, 9, 0, 0))]
    );
    assert_eq!(
        all(lookup_host((IpAddr::V6(ip6), 3), &dns).unwrap()),
        vec![SocketAddr::V6(SocketAddrV6::new(ip6, 3, 0, 0))]
    );
}

#[test]
fn owned_strings_resolve_like_borrowed() {
    let mut dns = DnsTable::empty();
    dns.add_dns_record("svc", IpAddr::V4(Ipv4Addr::new(3, 3, 3, 3)));
    assert_eq!(first(lookup_host(String::from("svc:4"), &dns)), v4(3, 3, 3, 3, 4));
    assert_eq!(first(lookup_host((String::from("svc"), 4), &dns)), v4(3, 3, 3, 3, 4));
}

#[test]
fn outcome_is_ready_and_taken_once() {
    let dns = DnsTable::empty();
    let mut f = to_socket_addrs("1.2.3.4:5", &dns);
    let mut it = f.poll().unwrap();
    assert_eq!(it.size_hint(), (1, Some(1)));
    assert_eq!(it.next(), Some(v4(1, 2, 3, 4, 5)));
    assert_eq!(it.next(), None);
    assert_eq!(it.size_hint(), (0, Some(0)));
    let mut g = to_socket_addrs(("nowhere", 5), &dns);
    assert_eq!(g.poll().unwrap_err(), ResolveError::UnresolvableHost);
}

#[test]
fn registered_unregistered_and_literal_names() {
    let mut dns = DnsTable::empty();
    dns.add_dns_record("madsim.io", IpAddr::V4(Ipv4Addr::new(8, 8, 8, 8)));
    dns.add_dns_record("127.0.0.1", IpAddr::V4(Ipv4Addr::new(9, 9, 9, 9)));
    assert_eq!(first(lookup_host("madsim.io:1", &dns)), v4(8, 8, 8, 8, 1));
    assert_eq!(lookup_host("mad.io:1", &dns).unwrap_err(), ResolveError::UnresolvableHost);
    assert_eq!(first(lookup_host("127.0.0.1:1", &dns)), v4(127, 0, 0, 1, 1));
}

#[test]
fn one_address_for_each_literal_text() {
    let dns = DnsTable::empty();
    let it = lookup_host("192.168.1.20:443", &dns).unwrap();
    assert_eq!(all(it), vec![v4(192, 168, 1, 20, 443)]);
    let it = lookup_host("[2001:db8::8:800:200c:417a]:0", &dns).unwrap();
    let ip = Ipv6Addr::new(0x2001, 0xdb8, 0, 0, 0x8, 0x800, 0x200c, 0x417a);
    assert_eq!(all(it), vec![SocketAddr::V6(SocketAddrV6::new(ip, 0, 0, 0))]);
}
