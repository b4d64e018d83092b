//! The segment builder: from a reply descriptor to a frame for the tunnel.

use vstd::prelude::*;
use crate::connection::OutgoingSegment;
use crate::validate::{DropReason, LINK_PROTO_IPV4, validate_spec, ip_part, tcp_part, payload_part};
use crate::wire::{ipv4_checksum_valid, tcp_checksum_valid, Ipv4Fields, TcpFields, TcpFlags, be16, be32, byte_of_flags, flags_of_byte, IP_PROTO_TCP};

verus! {

/// Time to live of the packets this endpoint sends.
pub const DEFAULT_TTL: u8 = 64;

/// Largest payload that fits an IPv4 packet with 20-byte IPv4 and TCP headers.
pub const MAX_PAYLOAD_LEN: usize = 65495;

/// Whether `b` is a 20-byte IPv4 header without options with the given
/// length, TTL, protocol and addresses.
pub open spec fn ipv4_header_holds(b: Seq<u8>, payload_len: int, ttl: u8, protocol: u8, source: u32, destination: u32) -> bool {
    &&& b.len() == 20
    &&& b[0] == 0x45
    &&& be16(b, 2) == payload_len + 20
    &&& b[8] == ttl
    &&& b[9] == protocol
    &&& be32(b, 12) == source
    &&& be32(b, 16) == destination
}

/// Whether `b` is a 20-byte TCP header without options carrying the ports,
/// numbers, control bits and window of `s`.
pub open spec fn tcp_header_holds(b: Seq<u8>, s: OutgoingSegment) -> bool {
    &&& b.len() == 20
    &&& be16(b, 0) == s.source.port
    &&& be16(b, 2) == s.destination.port
    &&& be32(b, 4) == s.sequence_number
    &&& be32(b, 8) == s.acknowledgment_number
    &&& b[12] == 0x50
    &&& b[13] == byte_of_flags(s.flags)
    &&& be16(b, 14) == s.window_size
}

/// Relies on etherparse's `Ipv4Header::new`, which refuses a payload length
/// above 65515 and otherwise makes a header without options, and on
/// `Ipv4Header::calc_header_checksum` and `Ipv4Header::to_bytes`, which
/// write its fields at their fixed offsets (big-endian), the ones'-complement
/// checksum of the header included.
#[verifier::external_body]
fn ipv4_header_bytes(payload_len: u16, ttl: u8, protocol: u8, source: u32, destination: u32) -> (r: Option<Vec<u8>>)
    ensures
        r.is_some() == (payload_len <= 65515),
        r.is_some() ==> ipv4_header_holds(r.unwrap()@, payload_len as int, ttl, protocol, source, destination),
        r.is_some() ==> ipv4_checksum_valid(r.unwrap()@),
{
    let ip_number = etherparse::IpNumber(protocol);
    let header = etherparse::Ipv4Header::new(payload_len, ttl, ip_number, source.to_be_bytes(), destination.to_be_bytes());
    let mut h = header.ok()?;
    h.header_checksum = h.calc_header_checksum();
    Some(h.to_bytes().to_vec())
}

/// Relies on etherparse's `TcpHeader::new`, which makes a header without
/// options, on `TcpHeader::calc_checksum_ipv4_raw`, which refuses a payload
/// longer than 65515 bytes beside such a header, and on `TcpHeader::to_bytes`,
/// which writes the fields at their fixed offsets (big-endian). The checksum
/// covers the pseudo-header, the header and the payload.
#[verifier::external_body]
fn tcp_header_bytes(s: &OutgoingSegment) -> (r: Option<Vec<u8>>)
    ensures
        r.is_some() == (s.payload@.len() <= 65515),
        r.is_some() ==> tcp_header_holds(r.unwrap()@, *s),
        r.is_some() ==> tcp_checksum_valid(s.source.addr, s.destination.addr, r.unwrap()@ + s.payload@),
{
    let mut h = etherparse::TcpHeader::new(s.source.port, s.destination.port, s.sequence_number, s.window_size);
    h.acknowledgment_number = s.acknowledgment_number;
    (h.fin, h.syn, h.rst) = (s.flags.fin, s.flags.syn, s.flags.rst);
    (h.psh, h.ack, h.urg) = (s.flags.psh, s.flags.ack, s.flags.urg);
    let (src, dst) = (s.source.addr.to_be_bytes(), s.destination.addr.to_be_bytes());
    h.checksum = h.calc_checksum_ipv4_raw(src, dst, &s.payload).ok()?;
    Some(h.to_bytes().to_vec())
}

/// Whether `f` is a tunnel frame carrying segment `s`: the IPv4 link-layer
/// prefix, then an IPv4 header, a TCP header and the payload, with both
/// checksums valid.
pub open spec fn frame_carries(f: Seq<u8>, s: OutgoingSegment) -> bool {
    &&& f.len() == 44 + s.payload@.len()
    &&& f[0] == 0 && f[1] == 0 && be16(f, 2) == LINK_PROTO_IPV4
    &&& ipv4_header_holds(f.subrange(4, 24), 20 + s.payload@.len() as int, DEFAULT_TTL, IP_PROTO_TCP, s.source.addr, s.destination.addr)
    &&& tcp_header_holds(f.subrange(24, 44), s)
    &&& f.subrange(44, f.len() as int) == s.payload@
    &&& ipv4_checksum_valid(f.subrange(4, 24))
    &&& tcp_checksum_valid(s.source.addr, s.destination.addr, f.subrange(24, f.len() as int))
}

/// Serializes `s` into a frame for the tunnel, with lengths and checksums
/// filled in. Fails only when the payload does not fit one IPv4 packet.
pub fn build_frame(s: &OutgoingSegment) -> (r: Option<Vec<u8>>)
    ensures
        r.is_some() == (s.payload@.len() <= MAX_PAYLOAD_LEN),
        r.is_some() ==> frame_carries(r.unwrap()@, *s),
{
    if s.payload.len() > MAX_PAYLOAD_LEN {
        return None;
    }
    let payload_len: u16 = (s.payload.len() + 20) as u16;
    let mut ip = match ipv4_header_bytes(payload_len, DEFAULT_TTL, IP_PROTO_TCP, s.source.addr, s.destination.addr) {
        Some(b) => b,
        None => return None,
    };
    let mut tcp = match tcp_header_bytes(s) {
        Some(b) => b,
        None => return None,
    };
    let ghost ip_bytes = ip@;
    let ghost tcp_bytes = tcp@;
    let mut f: Vec<u8> = vec![0u8, 0u8, 8u8, 0u8];
    f.append(&mut ip);
    f.append(&mut tcp);
    let ghost headers = f@;
    let mut i: usize = 0;
    while i < s.payload.len()
        invariant
            0 <= i <= s.payload@.len(),
            headers.len() == 44,
            f@ == headers + s.payload@.subrange(0, i as int),
        decreases s.payload@.len() - i,
    {
        f.push(s.payload[i]);
        i = i + 1;
        proof {
            assert(f@ =~= headers + s.payload@.subrange(0, i as int));
        }
    }
    proof {
        assert(s.payload@.subrange(0, i as int) =~= s.payload@);
        assert(f@.subrange(4, 24) =~= ip_bytes);
        assert(f@.subrange(24, 44) =~= tcp_bytes);
        assert(f@.subrange(24, f@.len() as int) =~= tcp_bytes + s.payload@);
        assert(f@.subrange(44, f@.len() as int) =~= s.payload@);
    }
    Some(f)
}

/// Reading the flags byte written for `f` gives back `f`.
pub proof fn lemma_flags_byte(f: TcpFlags)
    ensures
        0 <= byte_of_flags(f) < 64,
        flags_of_byte(byte_of_flags(f) as u8) == f,
{
}

/// The fields that validation reads back from a frame built from `s`.
pub open spec fn fields_sent(s: OutgoingSegment) -> (Ipv4Fields, TcpFields, Seq<u8>) {
    (
        Ipv4Fields {
            source: s.source.addr,
            destination: s.destination.addr,
            protocol: IP_PROTO_TCP,
            total_len: (40 + s.payload@.len()) as u16,
            header_len: 20,
        },
        TcpFields {
            source_port: s.source.port,
            destination_port: s.destination.port,
            sequence_number: s.sequence_number,
            acknowledgment_number: s.acknowledgment_number,
            flags: s.flags,
            window_size: s.window_size,
            header_len: 20,
        },
        s.payload@,
    )
}

/// A frame that carries segment `s` passes validation, which reads back the
/// addresses, ports, sequence and acknowledgment numbers, control bits,
/// window and payload of `s`.
pub proof fn lemma_round_trip(s: OutgoingSegment, f: Seq<u8>)
    requires
        frame_carries(f, s),
    ensures
        validate_spec(f) == Ok::<_, DropReason>(fields_sent(s)),
{
    let ip = ip_part(f);
    let ih = f.subrange(4, 24);
    assert forall|k: int| 0 <= k < 20 implies ip[k] == ih[k] by {}
    let t = tcp_part(f);
    let th = f.subrange(24, 44);
    assert(t =~= f.subrange(24, f.len() as int));
    assert forall|k: int| 0 <= k < 20 implies t[k] == th[k] by {}
    assert(payload_part(f) =~= f.subrange(44, f.len() as int));
    lemma_flags_byte(s.flags);
}

} // verus!
