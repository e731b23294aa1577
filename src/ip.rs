//! Plain-value models of IP addresses and socket addresses.

use vstd::prelude::*;

verus! {

/// An IPv4 address, held as its four octets in network order.
#[derive(Clone, Copy, Debug, PartialEq, Eq, Hash)]
pub struct Ipv4Addr {
    pub octets: [u8; 4],
}

/// An IPv6 address, held as its eight 16-bit segments in network order.
#[derive(Clone, Copy, Debug, PartialEq, Eq, Hash)]
pub struct Ipv6Addr {
    pub segments: [u16; 8],
}

/// An IP address of either family.
#[derive(Clone, Copy, Debug, PartialEq, Eq, Hash)]
pub enum IpAddr {
    V4(Ipv4Addr),
    V6(Ipv6Addr),
}

/// An IPv4 address together with a port.
#[derive(Clone, Copy, Debug, PartialEq, Eq, Hash)]
pub struct SocketAddrV4 {
    pub ip: Ipv4Addr,
    pub port: u16,
}

/// An IPv6 address together with a port, a flow label and a scope id.
#[derive(Clone, Copy, Debug, PartialEq, Eq, Hash)]
pub struct SocketAddrV6 {
    pub ip: Ipv6Addr,
    pub port: u16,
    pub flowinfo: u32,
    pub scope_id: u32,
}

/// A resolved endpoint: an IP address of either family with a port.
#[derive(Clone, Copy, Debug, PartialEq, Eq, Hash)]
pub enum SocketAddr {
    V4(SocketAddrV4),
    V6(SocketAddrV6),
}

/// What an IP address stands for: its octets or its segments.
pub enum IpModel {
    V4(Seq<u8>),
    V6(Seq<u16>),
}

/// What a socket address stands for.
pub enum SocketAddrModel {
    /// Octets and port.
    V4(Seq<u8>, u16),
    /// Segments, port, flow label and scope id.
    V6(Seq<u16>, u16, u32, u32),
}

/// The endpoint that an IP address and a port make together; an IPv6 address gets a zero flow
/// label and scope id.
pub open spec fn endpoint_of(ip: IpModel, port: u16) -> SocketAddrModel {
    match ip {
        IpModel::V4(o) => SocketAddrModel::V4(o, port),
        IpModel::V6(g) => SocketAddrModel::V6(g, port, 0, 0),
    }
}

impl View for Ipv4Addr {
    type V = Seq<u8>;

    open spec fn view(&self) -> Seq<u8> {
        self.octets@
    }
}

impl View for Ipv6Addr {
    type V = Seq<u16>;

    open spec fn view(&self) -> Seq<u16> {
        self.segments@
    }
}

impl View for IpAddr {
    type V = IpModel;

    open spec fn view(&self) -> IpModel {
        match self {
            IpAddr::V4(a) => IpModel::V4(a@),
            IpAddr::V6(a) => IpModel::V6(a@),
        }
    }
}

impl View for SocketAddrV4 {
    type V = SocketAddrModel;

    open spec fn view(&self) -> SocketAddrModel {
        SocketAddrModel::V4(self.ip@, self.port)
    }
}

impl View for SocketAddrV6 {
    type V = SocketAddrModel;

    open spec fn view(&self) -> SocketAddrModel {
        SocketAddrModel::V6(self.ip@, self.port, self.flowinfo, self.scope_id)
    }
}

impl View for SocketAddr {
    type V = SocketAddrModel;

    open spec fn view(&self) -> SocketAddrModel {
        match self {
            SocketAddr::V4(a) => a@,
            SocketAddr::V6(a) => a@,
        }
    }
}

impl SocketAddrV4 {
    pub fn new(ip: Ipv4Addr, port: u16) -> (r: SocketAddrV4)
        ensures
            r.ip == ip,
            r.port == port,
    {
        SocketAddrV4 { ip, port }
    }
}

impl SocketAddrV6 {
    pub fn new(ip: Ipv6Addr, port: u16, flowinfo: u32, scope_id: u32) -> (r: SocketAddrV6)
        ensures
            r.ip == ip,
            r.port == port,
            r.flowinfo == flowinfo,
            r.scope_id == scope_id,
    {
        SocketAddrV6 { ip, port, flowinfo, scope_id }
    }
}

impl SocketAddr {
    /// The endpoint of an IP address and a port, as `(ip, port)` converts in the usual way.
    pub fn from_ip_port(ip: IpAddr, port: u16) -> (r: SocketAddr)
        ensures
            r@ == endpoint_of(ip@, port),
    {
        match ip {
            IpAddr::V4(a) => SocketAddr::V4(SocketAddrV4::new(a, port)),
            IpAddr::V6(a) => SocketAddr::V6(SocketAddrV6::new(a, port, 0, 0)),
        }
    }

    pub fn ip(&self) -> (r: IpAddr)
        ensures
            r == match self {
                SocketAddr::V4(a) => IpAddr::V4(a.ip),
                SocketAddr::V6(a) => IpAddr::V6(a.ip),
            },
    {
        match self {
            SocketAddr::V4(a) => IpAddr::V4(a.ip),
            SocketAddr::V6(a) => IpAddr::V6(a.ip),
        }
    }

    pub fn port(&self) -> (r: u16)
        ensures
            r == match self {
                SocketAddr::V4(a) => a.port,
                SocketAddr::V6(a) => a.port,
            },
    {
        match self {
            SocketAddr::V4(a) => a.port,
            SocketAddr::V6(a) => a.port,
        }
    }
}

impl Ipv4Addr {
    /// The loopback address 127.0.0.1.
    pub fn localhost() -> (r: Ipv4Addr)
        ensures
            r.octets@ == seq![127u8, 0u8, 0u8, 1u8],
    {
        Ipv4Addr::new(127, 0, 0, 1)
    }

    pub fn new(a: u8, b: u8, c: u8, d: u8) -> (r: Ipv4Addr)
        ensures
            r.octets@ == seq![a, b, c, d],
    {
        let r = Ipv4Addr { octets: [a, b, c, d] };
        assert(r.octets@ =~= seq![a, b, c, d]);
        r
    }

    pub fn octets(&self) -> (r: [u8; 4])
        ensures
            r == self.octets,
    {
        self.octets
    }
}

impl Ipv6Addr {
    pub fn new(a: u16, b: u16, c: u16, d: u16, e: u16, f: u16, g: u16, h: u16) -> (r: Ipv6Addr)
        ensures
            r.segments@ == seq![a, b, c, d, e, f, g, h],
    {
        let r = Ipv6Addr { segments: [a, b, c, d, e, f, g, h] };
        assert(r.segments@ =~= seq![a, b, c, d, e, f, g, h]);
        r
    }

    pub fn segments(&self) -> (r: [u16; 8])
        ensures
            r == self.segments,
    {
        self.segments
    }
}

} // verus!
