//! Resolution of the accepted address descriptions into sequences of socket addresses.
//!
//! Resolution never waits: every description is either a literal address or a name that the
//! DNS table knows at the time of the call. The outcome is handed out through `MaybeReady`, which
//! is ready from the start, so that callers can treat it like any other pending result.

use vstd::prelude::*;
use crate::dns::{DnsTable, chars_of};
use crate::ip::{
    IpAddr, Ipv4Addr, Ipv6Addr, SocketAddr, SocketAddrModel, SocketAddrV4, SocketAddrV6,
    endpoint_of,
};
use crate::parse::{
    parse_ipv4, parse_ipv4_addr, parse_ipv6, parse_ipv6_addr, parse_socket_addr,
    parse_socket_addr_text, parse_u16, parse_u16_text,
};

verus! {

/// The class of a resolution error.
#[derive(Clone, Copy, Debug, PartialEq, Eq, Structural)]
pub enum ErrorKind {
    InvalidInput,
}

/// Why a description could not be resolved.
#[derive(Clone, Copy, Debug, PartialEq, Eq, Structural)]
pub enum ResolveError {
    /// The host is neither a literal address nor a name in the DNS table.
    UnresolvableHost,
}

impl ResolveError {
    pub fn kind(&self) -> (r: ErrorKind)
        ensures
            r == ErrorKind::InvalidInput,
    {
        ErrorKind::InvalidInput
    }
}

/// What resolving a description gives: the addresses in order, or an error.
pub type Resolution = Result<Seq<SocketAddrModel>, ResolveError>;

/// The resolved addresses that remain to be taken, in order.
#[derive(Debug)]
pub enum OneOrMore {
    /// At most one address.
    One(Option<SocketAddr>),
    /// Any number of addresses; the first is taken next.
    More(Vec<SocketAddr>),
}

impl View for OneOrMore {
    type V = Seq<SocketAddrModel>;

    open spec fn view(&self) -> Seq<SocketAddrModel> {
        match self {
            OneOrMore::One(None) => seq![],
            OneOrMore::One(Some(a)) => seq![a@],
            OneOrMore::More(v) => v@.map_values(|a: SocketAddr| a@),
        }
    }
}

impl OneOrMore {
    /// Takes the next address, if one remains.
    pub fn next(&mut self) -> (r: Option<SocketAddr>)
        ensures
            old(self)@.len() == 0 ==> r is None && final(self)@ == old(self)@,
            old(self)@.len() > 0 ==> (r matches Some(a) && a@ == old(self)@[0] && final(self)@
                == old(self)@.drop_first()),
    {
        match self {
            OneOrMore::One(o) => {
                let r = *o;
                *o = None;
                proof {
                    assert(final(self)@ =~= old(self)@.drop_first() || r is None);
                }
                r
            },
            OneOrMore::More(v) => {
                if v.len() == 0 {
                    None
                } else {
                    let a = v.remove(0);
                    assert(v@.map_values(|a: SocketAddr| a@) =~= old(self)@.drop_first());
                    Some(a)
                }
            },
        }
    }

    /// How many addresses remain: the exact count as both bounds.
    pub fn size_hint(&self) -> (r: (usize, Option<usize>))
        ensures
            r.0 == self@.len(),
            r.1 == Some(r.0),
    {
        let n: usize = match self {
            OneOrMore::One(None) => 0,
            OneOrMore::One(Some(_)) => 1,
            OneOrMore::More(v) => v.len(),
        };
        (n, Some(n))
    }
}

#[derive(Debug)]
enum State {
    Ready(Option<OneOrMore>),
    Failed(Option<ResolveError>),
}

/// An outcome of resolution that is ready from the start and is taken once.
#[derive(Debug)]
pub struct MaybeReady(State);

impl View for MaybeReady {
    /// The outcome, or `None` once it has been taken.
    type V = Option<Resolution>;

    closed spec fn view(&self) -> Option<Resolution> {
        match self.0 {
            State::Ready(Some(it)) => Some(Ok(it@)),
            State::Failed(Some(e)) => Some(Err(e)),
            _ => None,
        }
    }
}

/// Whether `r` hands out the outcome `o`.
pub open spec fn delivers(r: Result<OneOrMore, ResolveError>, o: Resolution) -> bool {
    match o {
        Ok(addrs) => r matches Ok(it) && it@ == addrs,
        Err(e) => r == Err::<OneOrMore, ResolveError>(e),
    }
}

impl MaybeReady {
    fn ready(addrs: OneOrMore) -> (r: MaybeReady)
        ensures
            r@ == Some(Ok::<Seq<SocketAddrModel>, ResolveError>(addrs@)),
    {
        MaybeReady(State::Ready(Some(addrs)))
    }

    fn ready_one(a: SocketAddr) -> (r: MaybeReady)
        ensures
            r@ == Some(Ok::<Seq<SocketAddrModel>, ResolveError>(seq![a@])),
    {
        MaybeReady::ready(OneOrMore::One(Some(a)))
    }

    fn failed(e: ResolveError) -> (r: MaybeReady)
        ensures
            r@ == Some(Err::<Seq<SocketAddrModel>, ResolveError>(e)),
    {
        MaybeReady(State::Failed(Some(e)))
    }

    /// Takes the outcome. It is there on the first call; a second call is a caller error.
    pub fn poll(&mut self) -> (r: Result<OneOrMore, ResolveError>)
        requires
            old(self)@ is Some,
        ensures
            delivers(r, old(self)@.unwrap()),
            final(self)@ is None,
    {
        match &mut self.0 {
            State::Ready(i) => {
                let it = i.take();
                match it {
                    Some(it) => Ok(it),
                    None => Ok(OneOrMore::One(None)),
                }
            },
            State::Failed(e) => {
                let e2 = e.take();
                match e2 {
                    Some(e2) => Err(e2),
                    None => Err(ResolveError::UnresolvableHost),
                }
            },
        }
    }
}

/// The position of the last `:` in `s`, or -1 where there is none.
pub open spec fn last_colon(s: Seq<char>) -> int
    decreases s.len(),
{
    if s.len() == 0 {
        -1
    } else if s.last() == ':' {
        s.len() - 1
    } else {
        last_colon(s.drop_last())
    }
}

/// Resolving a host with a port: an IPv4 literal first, then an IPv6 literal, then the DNS
/// table; a host that is none of these is an error.
pub open spec fn resolve_host_port(host: Seq<char>, port: u16, dns: Map<Seq<char>, IpAddr>) -> Resolution {
    match parse_ipv4(host) {
        Some(o) => Ok(seq![SocketAddrModel::V4(o, port)]),
        None => match parse_ipv6(host) {
            Some(g) => Ok(seq![SocketAddrModel::V6(g, port, 0, 0)]),
            None => if dns.contains_key(host) {
                Ok(seq![endpoint_of(dns[host]@, port)])
            } else {
                Err(ResolveError::UnresolvableHost)
            },
        },
    }
}

/// The host before the last `:` of `s`.
pub open spec fn host_part(s: Seq<char>) -> Seq<char> {
    s.subrange(0, last_colon(s))
}

/// The port text after the last `:` of `s`.
pub open spec fn port_part(s: Seq<char>) -> Seq<char> {
    s.subrange(last_colon(s) + 1, s.len() as int)
}

/// Whether `s` can be resolved as `host:port` text: it is a socket address, or it has a `:`
/// with a valid port after the last one. Anything else is a caller bug.
pub open spec fn host_port_text_ok(s: Seq<char>) -> bool {
    parse_socket_addr(s) is Some || (last_colon(s) >= 0 && parse_u16(port_part(s)) is Some)
}

/// Resolving `host:port` text: a whole socket address first, else the host before the last
/// `:` with the port after it.
pub open spec fn resolve_text(s: Seq<char>, dns: Map<Seq<char>, IpAddr>) -> Resolution {
    match parse_socket_addr(s) {
        Some(a) => Ok(seq![a]),
        None => resolve_host_port(host_part(s), parse_u16(port_part(s)).unwrap(), dns),
    }
}

fn resolve_host_port_chars(host: &Vec<char>, port: u16, dns: &DnsTable) -> (r: MaybeReady)
    requires
        dns.wf(),
    ensures
        r@ == Some(resolve_host_port(host@, port, dns@)),
{
    if let Some(a) = parse_ipv4_addr(host) {
        return MaybeReady::ready_one(SocketAddr::V4(SocketAddrV4::new(a, port)));
    }
    if let Some(a) = parse_ipv6_addr(host) {
        return MaybeReady::ready_one(SocketAddr::V6(SocketAddrV6::new(a, port, 0, 0)));
    }
    if let Some(ip) = dns.lookup_chars(host) {
        return MaybeReady::ready_one(SocketAddr::from_ip_port(ip, port));
    }
    MaybeReady::failed(ResolveError::UnresolvableHost)
}

fn find_last_colon(s: &Vec<char>) -> (r: Option<usize>)
    ensures
        match r {
            Some(i) => i == last_colon(s@),
            None => last_colon(s@) == -1,
        },
        r matches Some(i) ==> i < s@.len(),
{
    let mut i: usize = s.len();
    assert(s@.subrange(0, i as int) =~= s@);
    while i > 0
        invariant
            i <= s@.len(),
            last_colon(s@) == last_colon(s@.subrange(0, i as int)),
        decreases i,
    {
        assert(s@.subrange(0, i as int).drop_last() =~= s@.subrange(0, i - 1));
        if s[i - 1] == ':' {
            return Some(i - 1);
        }
        i = i - 1;
    }
    None
}

fn copy_range(s: &Vec<char>, from: usize, to: usize) -> (r: Vec<char>)
    requires
        from <= to <= s@.len(),
    ensures
        r@ == s@.subrange(from as int, to as int),
{
    let mut r: Vec<char> = Vec::new();
    let mut i: usize = from;
    while i < to
        invariant
            from <= i <= to <= s@.len(),
            r@ == s@.subrange(from as int, i as int),
        decreases to - i,
    {
        r.push(s[i]);
        i = i + 1;
        assert(r@ =~= s@.subrange(from as int, i as int));
    }
    r
}

/// Whether `s` is `host:port` text that can be resolved without a caller bug.
pub fn host_port_text_check(s: &Vec<char>) -> (r: bool)
    ensures
        r == host_port_text_ok(s@),
{
    if parse_socket_addr_text(s).is_some() {
        return true;
    }
    match find_last_colon(s) {
        None => false,
        Some(i) => {
            let n = s.len();
            let port = copy_range(s, i + 1, n);
            parse_u16_text(&port).is_some()
        },
    }
}

fn resolve_text_chars(s: &Vec<char>, dns: &DnsTable) -> (r: MaybeReady)
    requires
        dns.wf(),
        host_port_text_ok(s@),
    ensures
        r@ == Some(resolve_text(s@, dns@)),
{
    if let Some(a) = parse_socket_addr_text(s) {
        return MaybeReady::ready_one(a);
    }
    let i = match find_last_colon(s) {
        Some(i) => i,
        None => {
            return MaybeReady::failed(ResolveError::UnresolvableHost);
        },
    };
    let host = copy_range(s, 0, i);
    let n = s.len();
    let port_text = copy_range(s, i + 1, n);
    match parse_u16_text(&port_text) {
        Some(port) => resolve_host_port_chars(&host, port, dns),
        None => MaybeReady::failed(ResolveError::UnresolvableHost),
    }
}

/// A token that only this crate can make, so that only it calls `to_socket_addrs` on a
/// description; callers go through the free functions.
pub struct Internal {
    sealed: (),
}

/// The descriptions of endpoints that resolution accepts: socket addresses, IP addresses with a
/// port, lists of socket addresses, `host:port` text, and a host with a port. The set is closed.
pub trait ToSocketAddrs {
    /// Whether resolving this description is no caller bug.
    spec fn input_ok(&self) -> bool;

    /// What resolving this description gives against a DNS table.
    spec fn resolution(&self, dns: Map<Seq<char>, IpAddr>) -> Resolution;

    /// Tells whether resolving this description is no caller bug.
    fn check_input(&self) -> (r: bool)
        ensures
            r == self.input_ok(),
    ;

    /// Builds the outcome of resolving this description.
    fn to_socket_addrs(&self, dns: &DnsTable, internal: Internal) -> (r: MaybeReady)
        requires
            self.input_ok(),
            dns.wf(),
        ensures
            r@ == Some(self.resolution(dns@)),
    ;
}

impl ToSocketAddrs for SocketAddr {
    open spec fn input_ok(&self) -> bool {
        true
    }

    open spec fn resolution(&self, dns: Map<Seq<char>, IpAddr>) -> Resolution {
        Ok(seq![self@])
    }

    fn check_input(&self) -> (r: bool) {
        true
    }

    fn to_socket_addrs(&self, dns: &DnsTable, internal: Internal) -> (r: MaybeReady) {
        MaybeReady::ready_one(*self)
    }
}

impl ToSocketAddrs for SocketAddrV4 {
    open spec fn input_ok(&self) -> bool {
        true
    }

    open spec fn resolution(&self, dns: Map<Seq<char>, IpAddr>) -> Resolution {
        Ok(seq![self@])
    }

    fn check_input(&self) -> (r: bool) {
        true
    }

    fn to_socket_addrs(&self, dns: &DnsTable, internal: Internal) -> (r: MaybeReady) {
        SocketAddr::V4(*self).to_socket_addrs(dns, internal)
    }
}

impl ToSocketAddrs for SocketAddrV6 {
    open spec fn input_ok(&self) -> bool {
        true
    }

    open spec fn resolution(&self, dns: Map<Seq<char>, IpAddr>) -> Resolution {
        Ok(seq![self@])
    }

    fn check_input(&self) -> (r: bool) {
        true
    }

    fn to_socket_addrs(&self, dns: &DnsTable, internal: Internal) -> (r: MaybeReady) {
        SocketAddr::V6(*self).to_socket_addrs(dns, internal)
    }
}

impl ToSocketAddrs for (IpAddr, u16) {
    open spec fn input_ok(&self) -> bool {
        true
    }

    open spec fn resolution(&self, dns: Map<Seq<char>, IpAddr>) -> Resolution {
        Ok(seq![endpoint_of(self.0@, self.1)])
    }

    fn check_input(&self) -> (r: bool) {
        true
    }

    fn to_socket_addrs(&self, dns: &DnsTable, internal: Internal) -> (r: MaybeReady) {
        MaybeReady::ready_one(SocketAddr::from_ip_port(self.0, self.1))
    }
}

impl ToSocketAddrs for (Ipv4Addr, u16) {
    open spec fn input_ok(&self) -> bool {
        true
    }

    open spec fn resolution(&self, dns: Map<Seq<char>, IpAddr>) -> Resolution {
        Ok(seq![SocketAddrModel::V4(self.0@, self.1)])
    }

    fn check_input(&self) -> (r: bool) {
        true
    }

    fn to_socket_addrs(&self, dns: &DnsTable, internal: Internal) -> (r: MaybeReady) {
        SocketAddrV4::new(self.0, self.1).to_socket_addrs(dns, internal)
    }
}

impl ToSocketAddrs for (Ipv6Addr, u16) {
    open spec fn input_ok(&self) -> bool {
        true
    }

    open spec fn resolution(&self, dns: Map<Seq<char>, IpAddr>) -> Resolution {
        Ok(seq![SocketAddrModel::V6(self.0@, self.1, 0, 0)])
    }

    fn check_input(&self) -> (r: bool) {
        true
    }

    fn to_socket_addrs(&self, dns: &DnsTable, internal: Internal) -> (r: MaybeReady) {
        SocketAddrV6::new(self.0, self.1, 0, 0).to_socket_addrs(dns, internal)
    }
}

/// Resolving a list of socket addresses: the same addresses, in the same order.
pub open spec fn resolve_list(addrs: Seq<SocketAddr>) -> Resolution {
    Ok(addrs.map_values(|a: SocketAddr| a@))
}

fn copy_addrs(addrs: &[SocketAddr]) -> (r: Vec<SocketAddr>)
    ensures
        r@ == addrs@,
{
    let mut r: Vec<SocketAddr> = Vec::new();
    let mut i: usize = 0;
    while i < addrs.len()
        invariant
            i <= addrs@.len(),
            r@ == addrs@.subrange(0, i as int),
        decreases addrs@.len() - i,
    {
        r.push(addrs[i]);
        i = i + 1;
        assert(r@ =~= addrs@.subrange(0, i as int));
    }
    assert(addrs@.subrange(0, addrs@.len() as int) =~= addrs@);
    r
}

impl<'a> ToSocketAddrs for &'a [SocketAddr] {
    open spec fn input_ok(&self) -> bool {
        true
    }

    open spec fn resolution(&self, dns: Map<Seq<char>, IpAddr>) -> Resolution {
        resolve_list(self@)
    }

    fn check_input(&self) -> (r: bool) {
        true
    }

    fn to_socket_addrs(&self, dns: &DnsTable, internal: Internal) -> (r: MaybeReady) {
        MaybeReady::ready(OneOrMore::More(copy_addrs(*self)))
    }
}

impl ToSocketAddrs for Vec<SocketAddr> {
    open spec fn input_ok(&self) -> bool {
        true
    }

    open spec fn resolution(&self, dns: Map<Seq<char>, IpAddr>) -> Resolution {
        resolve_list(self@)
    }

    fn check_input(&self) -> (r: bool) {
        true
    }

    fn to_socket_addrs(&self, dns: &DnsTable, internal: Internal) -> (r: MaybeReady) {
        MaybeReady::ready(OneOrMore::More(copy_addrs(self.as_slice())))
    }
}

impl<'a> ToSocketAddrs for &'a str {
    open spec fn input_ok(&self) -> bool {
        host_port_text_ok(self@)
    }

    open spec fn resolution(&self, dns: Map<Seq<char>, IpAddr>) -> Resolution {
        resolve_text(self@, dns)
    }

    fn check_input(&self) -> (r: bool) {
        host_port_text_check(&chars_of(*self))
    }

    fn to_socket_addrs(&self, dns: &DnsTable, internal: Internal) -> (r: MaybeReady) {
        resolve_text_chars(&chars_of(*self), dns)
    }
}

impl ToSocketAddrs for String {
    open spec fn input_ok(&self) -> bool {
        host_port_text_ok(self@)
    }

    open spec fn resolution(&self, dns: Map<Seq<char>, IpAddr>) -> Resolution {
        resolve_text(self@, dns)
    }

    fn check_input(&self) -> (r: bool) {
        self.as_str().check_input()
    }

    fn to_socket_addrs(&self, dns: &DnsTable, internal: Internal) -> (r: MaybeReady) {
        self.as_str().to_socket_addrs(dns, internal)
    }
}

impl<'a> ToSocketAddrs for (&'a str, u16) {
    open spec fn input_ok(&self) -> bool {
        true
    }

    open spec fn resolution(&self, dns: Map<Seq<char>, IpAddr>) -> Resolution {
        resolve_host_port(self.0@, self.1, dns)
    }

    fn check_input(&self) -> (r: bool) {
        true
    }

    fn to_socket_addrs(&self, dns: &DnsTable, internal: Internal) -> (r: MaybeReady) {
        resolve_host_port_chars(&chars_of(self.0), self.1, dns)
    }
}

impl ToSocketAddrs for (String, u16) {
    open spec fn input_ok(&self) -> bool {
        true
    }

    open spec fn resolution(&self, dns: Map<Seq<char>, IpAddr>) -> Resolution {
        resolve_host_port(self.0@, self.1, dns)
    }

    fn check_input(&self) -> (r: bool) {
        true
    }

    fn to_socket_addrs(&self, dns: &DnsTable, internal: Internal) -> (r: MaybeReady) {
        (self.0.as_str(), self.1).to_socket_addrs(dns, internal)
    }
}

/// Builds the outcome of resolving `arg` against `dns`; it is ready at once.
pub fn to_socket_addrs<T: ToSocketAddrs>(arg: T, dns: &DnsTable) -> (r: MaybeReady)
    requires
        arg.input_ok(),
        dns.wf(),
    ensures
        r@ == Some(arg.resolution(dns@)),
{
    arg.to_socket_addrs(dns, Internal { sealed: () })
}

/// Resolves `host` against `dns`: the addresses it stands for, in order, or why it stands for
/// none.
pub fn lookup_host<T: ToSocketAddrs>(host: T, dns: &DnsTable) -> (r: Result<OneOrMore, ResolveError>)
    requires
        host.input_ok(),
        dns.wf(),
    ensures
        delivers(r, host.resolution(dns@)),
{
    let mut f = to_socket_addrs(host, dns);
    f.poll()
}

} // verus!
