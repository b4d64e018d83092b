//! The per-connection TCP state machine.

use vstd::prelude::*;
use crate::endpoint::Endpoint;
use crate::wire::{Ipv4Fields, TcpFields, TcpFlags};

verus! {

/// Receive window this endpoint advertises.
pub const WINDOW_SIZE: u16 = 1024;

/// Size of the sequence-number space.
pub const SEQ_SPACE: u64 = 0x1_0000_0000;

/// `a + n` in sequence-number arithmetic, modulo 2^32.
pub open spec fn seq_add(a: u32, n: int) -> u32 {
    ((a + n) % (SEQ_SPACE as int)) as u32
}

/// Adds `n` to a sequence number, wrapping at 2^32.
pub fn seq_advance(a: u32, n: u32) -> (r: u32)
    ensures
        r == seq_add(a, n as int),
{
    a.wrapping_add(n)
}

/// One past the largest sequence number wraps to zero; every other number
/// is followed by its successor.
pub proof fn lemma_seq_successor(a: u32)
    ensures
        seq_add(a, 1) == if a == u32::MAX { 0 } else { (a + 1) as u32 },
{
}

#[derive(Clone, Copy, Debug, PartialEq, Eq, Structural)]
pub enum State {
    Closed,
    Listen,
    SynReceived,
    Established,
}

/// The protocol state of one socket pair.
#[derive(Clone, Copy, Debug, PartialEq, Eq, Structural)]
pub struct Connection {
    pub state: State,
    /// The next sequence number this side will use.
    pub send_sequence: u32,
    /// The next sequence number expected from the peer.
    pub receive_sequence: u32,
}

/// A segment to send, before serialization.
#[derive(Clone, Debug)]
pub struct OutgoingSegment {
    pub source: Endpoint,
    pub destination: Endpoint,
    pub flags: TcpFlags,
    pub sequence_number: u32,
    pub acknowledgment_number: u32,
    pub window_size: u16,
    pub payload: Vec<u8>,
}

/// Control bits, sequence and acknowledgment numbers of a reply.
pub struct Reply {
    pub flags: TcpFlags,
    pub seq: u32,
    pub ack: u32,
}

pub open spec fn syn_ack_flags() -> TcpFlags {
    TcpFlags { fin: false, syn: true, rst: false, psh: false, ack: true, urg: false }
}

pub open spec fn ack_flags() -> TcpFlags {
    TcpFlags { fin: false, syn: false, rst: false, psh: false, ack: true, urg: false }
}

/// The state after a segment, and the reply it calls for. `isn` is the
/// local initial sequence number used if the segment opens a handshake.
pub open spec fn step(c: Connection, tcp: TcpFields, payload_len: nat, isn: u32) -> (Connection, Option<Reply>) {
    match c.state {
        State::Closed => (c, None),
        State::Listen => if tcp.flags.syn && !tcp.flags.ack {
            let rcv = seq_add(tcp.sequence_number, 1);
            (
                Connection { state: State::SynReceived, send_sequence: isn, receive_sequence: rcv },
                Some(Reply { flags: syn_ack_flags(), seq: isn, ack: rcv }),
            )
        } else {
            (c, None)
        },
        State::SynReceived => if tcp.flags.ack && tcp.acknowledgment_number == seq_add(
            c.send_sequence,
            1,
        ) {
            (
                Connection {
                    state: State::Established,
                    send_sequence: seq_add(c.send_sequence, 1),
                    receive_sequence: c.receive_sequence,
                },
                None,
            )
        } else {
            (c, None)
        },
        State::Established => if payload_len > 0 && tcp.sequence_number == c.receive_sequence {
            let rcv = seq_add(c.receive_sequence, payload_len as int);
            (
                Connection { receive_sequence: rcv, ..c },
                Some(Reply { flags: ack_flags(), seq: c.send_sequence, ack: rcv }),
            )
        } else {
            (c, None)
        },
    }
}

/// Whether `o` answers the segment described by `ip` and `tcp` with reply `r`:
/// addressed back to its sender, with no payload.
pub open spec fn is_reply_to(o: OutgoingSegment, ip: Ipv4Fields, tcp: TcpFields, r: Reply) -> bool {
    &&& o.source == Endpoint { addr: ip.destination, port: tcp.destination_port }
    &&& o.destination == Endpoint { addr: ip.source, port: tcp.source_port }
    &&& o.flags == r.flags
    &&& o.sequence_number == r.seq
    &&& o.acknowledgment_number == r.ack
    &&& o.window_size == WINDOW_SIZE
    &&& o.payload@.len() == 0
}

/// Whether `out` holds exactly the replies that `reply` calls for.
pub open spec fn replies_match(out: Seq<OutgoingSegment>, ip: Ipv4Fields, tcp: TcpFields, reply: Option<Reply>) -> bool {
    match reply {
        None => out.len() == 0,
        Some(r) => out.len() == 1 && is_reply_to(out[0], ip, tcp, r),
    }
}

fn reply_to(ip: &Ipv4Fields, tcp: &TcpFields, flags: TcpFlags, seq: u32, ack: u32) -> (o: OutgoingSegment)
    ensures
        is_reply_to(o, *ip, *tcp, Reply { flags, seq, ack }),
{
    OutgoingSegment {
        source: Endpoint { addr: ip.destination, port: tcp.destination_port },
        destination: Endpoint { addr: ip.source, port: tcp.source_port },
        flags,
        sequence_number: seq,
        acknowledgment_number: ack,
        window_size: WINDOW_SIZE,
        payload: Vec::new(),
    }
}

/// Replaying the SYN that opened a handshake while the handshake waits
/// for its final ACK leaves the connection as it is and sends nothing.
pub proof fn lemma_syn_replay_idempotent(c: Connection, syn: TcpFields, n1: nat, n2: nat, isn1: u32, isn2: u32)
    requires
        c.state == State::Listen,
        syn.flags.syn,
        !syn.flags.ack,
    ensures
        step(c, syn, n1, isn1).0.state == State::SynReceived,
        step(step(c, syn, n1, isn1).0, syn, n2, isn2) == (step(c, syn, n1, isn1).0, None::<Reply>),
{
}

/// In the handshake's middle state, a segment without a valid ACK changes
/// nothing and sends nothing.
pub proof fn lemma_syn_received_waits(c: Connection, tcp: TcpFields, n: nat, isn: u32)
    requires
        c.state == State::SynReceived,
        !tcp.flags.ack || tcp.acknowledgment_number != seq_add(c.send_sequence, 1),
    ensures
        step(c, tcp, n, isn) == (c, None::<Reply>),
{
}

impl Default for Connection {
    /// A fresh connection listens for a handshake.
    fn default() -> (r: Connection)
        ensures
            r == Connection::fresh(),
    {
        Connection::new()
    }
}

impl Connection {
    pub open spec fn fresh() -> Connection {
        Connection { state: State::Listen, send_sequence: 0, receive_sequence: 0 }
    }

    pub fn new() -> (r: Connection)
        ensures
            r == Connection::fresh(),
    {
        Connection { state: State::Listen, send_sequence: 0, receive_sequence: 0 }
    }

    /// Advances the state machine by one incoming segment and returns the
    /// segments to send back. `isn` is a fresh, unpredictable initial
    /// sequence number, used only if the segment opens a handshake.
    pub fn handle_packet(&mut self, ip: &Ipv4Fields, tcp: &TcpFields, payload: &[u8], isn: u32) -> (out: Vec<OutgoingSegment>)
        ensures
            *final(self) == step(*old(self), *tcp, payload@.len(), isn).0,
            replies_match(out@, *ip, *tcp, step(*old(self), *tcp, payload@.len(), isn).1),
    {
        let mut out: Vec<OutgoingSegment> = Vec::new();
        match self.state {
            State::Closed => {},
            State::Listen => {
                if tcp.flags.syn && !tcp.flags.ack {
                    let rcv = seq_advance(tcp.sequence_number, 1);
                    self.state = State::SynReceived;
                    self.send_sequence = isn;
                    self.receive_sequence = rcv;
                    let flags = TcpFlags { fin: false, syn: true, rst: false, psh: false, ack: true, urg: false };
                    out.push(reply_to(ip, tcp, flags, isn, rcv));
                }
            },
            State::SynReceived => {
                if tcp.flags.ack && tcp.acknowledgment_number == seq_advance(self.send_sequence, 1) {
                    self.state = State::Established;
                    self.send_sequence = seq_advance(self.send_sequence, 1);
                }
            },
            State::Established => {
                if payload.len() > 0 && tcp.sequence_number == self.receive_sequence {
                    let n: u64 = payload.len() as u64;
                    let n32: u32 = (n % SEQ_SPACE) as u32;
                    let rcv = seq_advance(self.receive_sequence, n32);
                    self.receive_sequence = rcv;
                    let flags = TcpFlags { fin: false, syn: false, rst: false, psh: false, ack: true, urg: false };
                    out.push(reply_to(ip, tcp, flags, self.send_sequence, rcv));
                }
            },
        }
        out
    }
}

} // verus!
