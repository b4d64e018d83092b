//! Endpoints and the key that identifies a connection.

use vstd::prelude::*;
use crate::wire::{Ipv4Fields, TcpFields};

verus! {

/// One side of a TCP conversation: an IPv4 address and a port.
#[derive(Clone, Copy, Debug, PartialEq, Eq, Structural)]
pub struct Endpoint {
    pub addr: u32,
    pub port: u16,
}

/// A connection's identifier: the two endpoints of a segment, the lower
/// first, ordered by address and then port. A segment and its reply carry the
/// same two endpoints, so both directions of a conversation share one key.
#[derive(Clone, Copy, Debug, PartialEq, Eq, Structural)]
pub struct ConnectionKey {
    pub lower: Endpoint,
    pub higher: Endpoint,
}

/// Order of endpoints: by address, then by port.
pub open spec fn endpoint_le(a: Endpoint, b: Endpoint) -> bool {
    a.addr < b.addr || (a.addr == b.addr && a.port <= b.port)
}

/// The key of the conversation between endpoints `a` and `b`.
pub open spec fn key_between(a: Endpoint, b: Endpoint) -> ConnectionKey {
    if endpoint_le(a, b) {
        ConnectionKey { lower: a, higher: b }
    } else {
        ConnectionKey { lower: b, higher: a }
    }
}

pub open spec fn source_of(ip: Ipv4Fields, tcp: TcpFields) -> Endpoint {
    Endpoint { addr: ip.source, port: tcp.source_port }
}

pub open spec fn destination_of(ip: Ipv4Fields, tcp: TcpFields) -> Endpoint {
    Endpoint { addr: ip.destination, port: tcp.destination_port }
}

pub open spec fn key_of(ip: Ipv4Fields, tcp: TcpFields) -> ConnectionKey {
    key_between(source_of(ip, tcp), destination_of(ip, tcp))
}

/// Derives the key of the connection a segment belongs to.
pub fn derive_key(ip: &Ipv4Fields, tcp: &TcpFields) -> (r: ConnectionKey)
    ensures
        r == key_of(*ip, *tcp),
{
    let s = Endpoint { addr: ip.source, port: tcp.source_port };
    let d = Endpoint { addr: ip.destination, port: tcp.destination_port };
    if s.addr < d.addr || (s.addr == d.addr && s.port <= d.port) {
        ConnectionKey { lower: s, higher: d }
    } else {
        ConnectionKey { lower: d, higher: s }
    }
}

/// Two segments with the same source and destination endpoints get the
/// same key, whatever their other fields hold.
pub proof fn lemma_key_stable(ip1: Ipv4Fields, tcp1: TcpFields, ip2: Ipv4Fields, tcp2: TcpFields)
    requires
        source_of(ip1, tcp1) == source_of(ip2, tcp2),
        destination_of(ip1, tcp1) == destination_of(ip2, tcp2),
    ensures
        key_of(ip1, tcp1) == key_of(ip2, tcp2),
{
}

/// A segment and one with source and destination swapped get the same key.
pub proof fn lemma_key_symmetric(ip1: Ipv4Fields, tcp1: TcpFields, ip2: Ipv4Fields, tcp2: TcpFields)
    requires
        source_of(ip2, tcp2) == destination_of(ip1, tcp1),
        destination_of(ip2, tcp2) == source_of(ip1, tcp1),
    ensures
        key_of(ip1, tcp1) == key_of(ip2, tcp2),
{
}

/// Segments between different pairs of endpoints get different keys: equal
/// keys mean the same two endpoints, in one direction or the other.
pub proof fn lemma_key_distinct(ip1: Ipv4Fields, tcp1: TcpFields, ip2: Ipv4Fields, tcp2: TcpFields)
    requires
        key_of(ip1, tcp1) == key_of(ip2, tcp2),
    ensures
        (source_of(ip1, tcp1) == source_of(ip2, tcp2) && destination_of(ip1, tcp1)
            == destination_of(ip2, tcp2)) || (source_of(ip1, tcp1) == destination_of(ip2, tcp2)
            && destination_of(ip1, tcp1) == source_of(ip2, tcp2)),
{
}

} // verus!
