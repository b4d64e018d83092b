//! Byte-level views of IPv4 and TCP headers, and the header parsers they
//! describe.

use vstd::prelude::*;

verus! {

/// IP protocol number of TCP.
pub const IP_PROTO_TCP: u8 = 6;

/// Big-endian 16-bit value at offset `i`.
pub open spec fn be16(b: Seq<u8>, i: int) -> int {
    b[i] * 256 + b[i + 1]
}

/// Big-endian 32-bit value at offset `i`.
pub open spec fn be32(b: Seq<u8>, i: int) -> int {
    be16(b, i) * 65536 + be16(b, i + 2)
}

/// The TCP control bits this endpoint reads and writes.
#[derive(Clone, Copy, Debug, PartialEq, Eq, Structural)]
pub struct TcpFlags {
    pub fin: bool,
    pub syn: bool,
    pub rst: bool,
    pub psh: bool,
    pub ack: bool,
    pub urg: bool,
}

/// The fields of an IPv4 header that the endpoint reads.
#[derive(Clone, Copy, Debug, PartialEq, Eq, Structural)]
pub struct Ipv4Fields {
    pub source: u32,
    pub destination: u32,
    pub protocol: u8,
    pub total_len: u16,
    /// Length in bytes of the header, options included.
    pub header_len: usize,
}

/// The fields of a TCP header that the endpoint reads.
#[derive(Clone, Copy, Debug, PartialEq, Eq, Structural)]
pub struct TcpFields {
    pub source_port: u16,
    pub destination_port: u16,
    pub sequence_number: u32,
    pub acknowledgment_number: u32,
    pub flags: TcpFlags,
    pub window_size: u16,
    /// Length in bytes of the header, options included.
    pub header_len: usize,
}

/// Sum of the big-endian 16-bit words of `b`, an odd last byte padded
/// with a zero byte.
pub open spec fn word_sum(b: Seq<u8>) -> nat
    decreases b.len(),
{
    if b.len() == 0 {
        0
    } else if b.len() == 1 {
        (b[0] * 256) as nat
    } else {
        (b[0] * 256 + b[1] + word_sum(b.subrange(2, b.len() as int))) as nat
    }
}

/// Folds the carries of `x` back into 16 bits, as ones'-complement
/// addition does.
pub open spec fn fold16(x: nat) -> nat
    decreases x,
{
    if x <= 0xFFFF {
        x
    } else {
        fold16(x / 65536 + x % 65536)
    }
}

/// Ones'-complement sum of the 16-bit words of `b`.
pub open spec fn ones_complement_sum(b: Seq<u8>) -> nat {
    fold16(word_sum(b))
}

/// Whether an IPv4 header's checksum verifies: its words sum to 0xFFFF.
pub open spec fn ipv4_checksum_valid(header: Seq<u8>) -> bool {
    ones_complement_sum(header) == 0xFFFF
}

/// The TCP pseudo-header: addresses, protocol and TCP length.
pub open spec fn tcp_pseudo_header(source: u32, destination: u32, tcp_len: nat) -> Seq<u8> {
    seq![
        (source / 0x100_0000) as u8, ((source / 0x1_0000) % 256) as u8, ((source / 256) % 256) as u8, (source % 256) as u8,
        (destination / 0x100_0000) as u8, ((destination / 0x1_0000) % 256) as u8, ((destination / 256) % 256) as u8, (destination % 256) as u8,
        0u8, IP_PROTO_TCP, (tcp_len / 256) as u8, (tcp_len % 256) as u8,
    ]
}

/// Whether the checksum of TCP segment `seg` (header and payload) verifies
/// for the given addresses: the pseudo-header and the segment sum to 0xFFFF.
pub open spec fn tcp_checksum_valid(source: u32, destination: u32, seg: Seq<u8>) -> bool {
    ones_complement_sum(tcp_pseudo_header(source, destination, seg.len()) + seg) == 0xFFFF
}

/// IHL field: the header length in 32-bit words.
pub open spec fn ipv4_ihl(b: Seq<u8>) -> int {
    b[0] as int % 16
}

/// Whether `b` starts with an IPv4 header: at least 20 bytes, version 4,
/// an IHL of at least 5, and room for the whole declared header.
pub open spec fn ipv4_accepts(b: Seq<u8>) -> bool {
    &&& b.len() >= 20
    &&& b[0] as int / 16 == 4
    &&& ipv4_ihl(b) >= 5
    &&& b.len() >= ipv4_ihl(b) * 4
}

/// The IPv4 fields read from the fixed offsets of `b`.
pub open spec fn ipv4_view(b: Seq<u8>) -> Ipv4Fields {
    Ipv4Fields {
        source: be32(b, 12) as u32,
        destination: be32(b, 16) as u32,
        protocol: b[9],
        total_len: be16(b, 2) as u16,
        header_len: (ipv4_ihl(b) * 4) as usize,
    }
}

/// Data offset field: the TCP header length in 32-bit words.
pub open spec fn tcp_data_offset(b: Seq<u8>) -> int {
    b[12] as int / 16
}

/// Whether `b` starts with a TCP header: at least 20 bytes, a data offset
/// of at least 5, and room for the whole declared header.
pub open spec fn tcp_accepts(b: Seq<u8>) -> bool {
    &&& b.len() >= 20
    &&& tcp_data_offset(b) >= 5
    &&& b.len() >= tcp_data_offset(b) * 4
}

/// The control bits held in the flags byte of a TCP header.
pub open spec fn flags_of_byte(x: u8) -> TcpFlags {
    TcpFlags {
        fin: x as int % 2 == 1,
        syn: (x as int / 2) % 2 == 1,
        rst: (x as int / 4) % 2 == 1,
        psh: (x as int / 8) % 2 == 1,
        ack: (x as int / 16) % 2 == 1,
        urg: (x as int / 32) % 2 == 1,
    }
}

/// The flags byte that carries `f`, with the ECE and CWR bits clear.
pub open spec fn byte_of_flags(f: TcpFlags) -> int {
    (if f.fin { 1int } else { 0 }) + (if f.syn { 2int } else { 0 }) + (if f.rst { 4int } else { 0 })
        + (if f.psh { 8int } else { 0 }) + (if f.ack { 16int } else { 0 }) + (if f.urg {
        32int
    } else {
        0
    })
}

/// The TCP fields read from the fixed offsets of `b`.
pub open spec fn tcp_view(b: Seq<u8>) -> TcpFields {
    TcpFields {
        source_port: be16(b, 0) as u16,
        destination_port: be16(b, 2) as u16,
        sequence_number: be32(b, 4) as u32,
        acknowledgment_number: be32(b, 8) as u32,
        flags: flags_of_byte(b[13]),
        window_size: be16(b, 14) as u16,
        header_len: (tcp_data_offset(b) * 4) as usize,
    }
}

/// Relies on etherparse's `Ipv4HeaderSlice::from_slice`, which accepts
/// exactly the slices that `ipv4_accepts` describes, and on its accessors
/// `source`, `destination`, `protocol`, `total_len` and `slice`, which read
/// the fields at their fixed offsets (addresses big-endian).
#[verifier::external_body]
pub(crate) fn parse_ipv4(b: &[u8]) -> (r: Option<Ipv4Fields>)
    ensures
        r.is_some() == ipv4_accepts(b@),
        r.is_some() ==> r.unwrap() == ipv4_view(b@),
{
    match etherparse::Ipv4HeaderSlice::from_slice(b) {
        Ok(h) => Some(Ipv4Fields {
            source: u32::from_be_bytes(h.source()),
            destination: u32::from_be_bytes(h.destination()),
            protocol: h.protocol().0,
            total_len: h.total_len(),
            header_len: h.slice().len(),
        }),
        Err(_) => None,
    }
}

/// Relies on etherparse's `TcpHeaderSlice::from_slice`, which accepts
/// exactly the slices that `tcp_accepts` describes, and on its accessors,
/// which read the ports, numbers, window and control bits at their fixed
/// offsets (big-endian).
#[verifier::external_body]
pub(crate) fn parse_tcp(b: &[u8]) -> (r: Option<TcpFields>)
    ensures
        r.is_some() == tcp_accepts(b@),
        r.is_some() ==> r.unwrap() == tcp_view(b@),
{
    match etherparse::TcpHeaderSlice::from_slice(b) {
        Ok(h) => Some(TcpFields {
            source_port: h.source_port(),
            destination_port: h.destination_port(),
            sequence_number: h.sequence_number(),
            acknowledgment_number: h.acknowledgment_number(),
            flags: TcpFlags { fin: h.fin(), syn: h.syn(), rst: h.rst(), psh: h.psh(), ack: h.ack(), urg: h.urg() },
            window_size: h.window_size(),
            header_len: h.slice().len(),
        }),
        Err(_) => None,
    }
}

} // verus!
