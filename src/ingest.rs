//! One turn of the ingestion loop, without the tunnel: from a frame read to
//! the frames to write back.

use vstd::prelude::*;
use crate::builder::{build_frame, frame_carries, fields_sent, lemma_round_trip};
use crate::connection::{Connection, OutgoingSegment, Reply, is_reply_to, step};
use crate::endpoint::{derive_key, key_of};
use crate::table::ConnectionTable;
use crate::validate::{DropReason, drop_reason, ip_part, tcp_part, payload_part, validate, validate_spec};
use crate::wire::{Ipv4Fields, TcpFields, ipv4_view, tcp_view};

verus! {

/// Whether `frames` are the serialized replies that `reply` calls for, in
/// answer to a segment with IPv4 fields `ip` and TCP fields `tcp`.
pub open spec fn frames_answer(frames: Seq<Vec<u8>>, ip: Ipv4Fields, tcp: TcpFields, reply: Option<Reply>) -> bool {
    match reply {
        None => frames.len() == 0,
        Some(r) => frames.len() == 1 && exists|o: OutgoingSegment|
            is_reply_to(o, ip, tcp, r) && frame_carries(#[trigger] frames[0]@, o),
    }
}

/// Validates `frame`, hands it to its connection (created in `Listen` on
/// first sight of its key) and returns the frames to write back. A frame that
/// fails validation is dropped with its reason and leaves the table as it was.
/// `isn` is a fresh, unpredictable initial sequence number.
pub fn process_frame(table: &mut ConnectionTable, frame: &[u8], isn: u32) -> (r: Result<Vec<Vec<u8>>, DropReason>)
    requires
        old(table).wf(),
    ensures
        final(table).wf(),
        match r {
            Err(e) => drop_reason(frame@) == Some(e) && final(table)@ == old(table)@,
            Ok(frames) => {
                let ip = ipv4_view(ip_part(frame@));
                let tcp = tcp_view(tcp_part(frame@));
                let key = key_of(ip, tcp);
                let c = if old(table)@.contains_key(key) { old(table)@[key] } else { Connection::fresh() };
                let (next, reply) = step(c, tcp, payload_part(frame@).len(), isn);
                &&& drop_reason(frame@) == None::<DropReason>
                &&& final(table)@ == old(table)@.insert(key, next)
                &&& frames_answer(frames@, ip, tcp, reply)
            },
        },
{
    let seg = match validate(frame) {
        Ok(s) => s,
        Err(e) => return Err(e),
    };
    let key = derive_key(&seg.ip, &seg.tcp);
    let replies = table.handle_segment(key, &seg.ip, &seg.tcp, seg.payload.as_slice(), isn);
    let mut frames: Vec<Vec<u8>> = Vec::new();
    if replies.len() == 1 {
        let o = &replies[0];
        match build_frame(o) {
            Some(f) => frames.push(f),
            None => {},
        }
    }
    Ok(frames)
}

/// A frame that answers a segment validates, and its key is the key of the
/// segment it answers: both directions of a conversation reach one connection.
pub proof fn lemma_reply_same_connection(ip: Ipv4Fields, tcp: TcpFields, r: Reply, o: OutgoingSegment, f: Seq<u8>)
    requires
        is_reply_to(o, ip, tcp, r),
        frame_carries(f, o),
    ensures
        validate_spec(f) is Ok,
        key_of(validate_spec(f)->Ok_0.0, validate_spec(f)->Ok_0.1) == key_of(ip, tcp),
{
    lemma_round_trip(o, f);
    assert(validate_spec(f) == Ok::<_, DropReason>(fields_sent(o)));
}

} // verus!
