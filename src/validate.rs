//! The header validator: from a frame read off the tunnel to a parsed
//! segment, or the reason it is dropped.

use vstd::prelude::*;
use vstd::slice::{slice_subrange, slice_to_vec};
use crate::wire::{
    Ipv4Fields, TcpFields, ipv4_accepts, ipv4_view, tcp_accepts, tcp_view, parse_ipv4, parse_tcp,
    be16, IP_PROTO_TCP,
};

verus! {

/// Length of the prefix the tunnel device puts before each packet:
/// two bytes of flags, then two bytes of protocol, both big-endian.
pub const LINK_PREFIX_LEN: usize = 4;

/// Link-layer protocol identifier of IPv4.
pub const LINK_PROTO_IPV4: u16 = 0x0800;

/// Why a frame is not handed to a connection.
#[derive(Clone, Copy, Debug, PartialEq, Eq, Structural)]
pub enum DropReason {
    /// The link-layer prefix does not declare IPv4 (or the frame is too
    /// short to carry a prefix at all).
    UnsupportedLinkProtocol,
    /// The bytes after the prefix are not an IPv4 header.
    MalformedIpv4,
    /// The IPv4 packet does not carry TCP.
    UnsupportedIpProtocol,
    /// The bytes after the IPv4 header are not a TCP header.
    MalformedTcp,
}

/// A segment that passed validation.
#[derive(Clone, Debug)]
pub struct Segment {
    pub ip: Ipv4Fields,
    pub tcp: TcpFields,
    pub payload: Vec<u8>,
}

/// The IPv4 packet of a frame: everything after the link-layer prefix.
pub open spec fn ip_part(f: Seq<u8>) -> Seq<u8> {
    f.subrange(LINK_PREFIX_LEN as int, f.len() as int)
}

/// The TCP segment of a frame: everything after the IPv4 header.
pub open spec fn tcp_part(f: Seq<u8>) -> Seq<u8> {
    let ip = ip_part(f);
    ip.subrange(ipv4_view(ip).header_len as int, ip.len() as int)
}

/// The payload of a frame: everything after the TCP header.
pub open spec fn payload_part(f: Seq<u8>) -> Seq<u8> {
    let t = tcp_part(f);
    t.subrange(tcp_view(t).header_len as int, t.len() as int)
}

/// Why frame `f` is dropped, or `None` if it is a well-formed IPv4/TCP frame.
pub open spec fn drop_reason(f: Seq<u8>) -> Option<DropReason> {
    if f.len() < LINK_PREFIX_LEN || be16(f, 2) != LINK_PROTO_IPV4 {
        Some(DropReason::UnsupportedLinkProtocol)
    } else if !ipv4_accepts(ip_part(f)) {
        Some(DropReason::MalformedIpv4)
    } else if ipv4_view(ip_part(f)).protocol != IP_PROTO_TCP {
        Some(DropReason::UnsupportedIpProtocol)
    } else if !tcp_accepts(tcp_part(f)) {
        Some(DropReason::MalformedTcp)
    } else {
        None
    }
}

/// What validation yields on frame `f`, payload given as a sequence.
pub open spec fn validate_spec(f: Seq<u8>) -> Result<(Ipv4Fields, TcpFields, Seq<u8>), DropReason> {
    match drop_reason(f) {
        Some(e) => Err(e),
        None => Ok((ipv4_view(ip_part(f)), tcp_view(tcp_part(f)), payload_part(f))),
    }
}

pub open spec fn segment_view(s: Segment) -> (Ipv4Fields, TcpFields, Seq<u8>) {
    (s.ip, s.tcp, s.payload@)
}

/// Checks the link-layer prefix and the IPv4 and TCP headers of `frame`,
/// and splits off the payload. Never fails but by returning a reason.
pub fn validate(frame: &[u8]) -> (r: Result<Segment, DropReason>)
    ensures
        match r {
            Ok(s) => validate_spec(frame@) == Ok::<_, DropReason>(segment_view(s)),
            Err(e) => validate_spec(frame@) == Err::<(Ipv4Fields, TcpFields, Seq<u8>), _>(e),
        },
{
    if frame.len() < LINK_PREFIX_LEN {
        return Err(DropReason::UnsupportedLinkProtocol);
    }
    let proto: u16 = (frame[2] as u16) * 256 + frame[3] as u16;
    if proto != LINK_PROTO_IPV4 {
        return Err(DropReason::UnsupportedLinkProtocol);
    }
    let ip_packet = slice_subrange(frame, LINK_PREFIX_LEN, frame.len());
    let ip = match parse_ipv4(ip_packet) {
        Some(h) => h,
        None => return Err(DropReason::MalformedIpv4),
    };
    if ip.protocol != IP_PROTO_TCP {
        return Err(DropReason::UnsupportedIpProtocol);
    }
    let tcp_segment = slice_subrange(ip_packet, ip.header_len, ip_packet.len());
    let tcp = match parse_tcp(tcp_segment) {
        Some(h) => h,
        None => return Err(DropReason::MalformedTcp),
    };
    let payload = slice_to_vec(slice_subrange(tcp_segment, tcp.header_len, tcp_segment.len()));
    Ok(Segment { ip, tcp, payload })
}

} // verus!
