//! Deferred resolution of host and port descriptions into socket addresses.

pub mod ip;
pub mod parse;
pub mod dns;
pub mod resolve;
pub mod laws;

pub use dns::DnsTable;
pub use ip::{IpAddr, Ipv4Addr, Ipv6Addr, SocketAddr, SocketAddrV4, SocketAddrV6};
pub use resolve::{
    ErrorKind, Internal, MaybeReady, OneOrMore, ResolveError, ToSocketAddrs, lookup_host,
    to_socket_addrs,
};
