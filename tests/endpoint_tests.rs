use tcp_endpoint::builder::{build_frame, MAX_PAYLOAD_LEN};
use tcp_endpoint::connection::{seq_advance, Connection, OutgoingSegment, State, WINDOW_SIZE};
use tcp_endpoint::endpoint::{derive_key, ConnectionKey, Endpoint};
use tcp_endpoint::ingest::process_frame;
use tcp_endpoint::table::ConnectionTable;
use tcp_endpoint::validate::{validate, DropReason};
use tcp_endpoint::wire::{Ipv4Fields, TcpFields, TcpFlags};

const PEER: u32 = 0x0A00_0002; // 10.0.0.2
const LOCAL: u32 = 0x0A00_0001; // 10.0.0.1

fn flags(syn: bool, ack: bool) -> TcpFlags {
    TcpFlags { fin: false, syn, rst: false, psh: false, ack, urg: false }
}

fn peer_segment(f: TcpFlags, seq: u32, ack: u32, payload: Vec<u8>) -> OutgoingSegment {
    OutgoingSegment {
        source: Endpoint { addr: PEER, port: 5555 },
        destination: Endpoint { addr: LOCAL, port: 80 },
        flags: f,
        sequence_number: seq,
        acknowledgment_number: ack,
        window_size: 64240,
        payload,
    }
}

fn peer_frame(f: TcpFlags, seq: u32, ack: u32, payload: Vec<u8>) -> Vec<u8> {
    build_frame(&peer_segment(f, seq, ack, payload)).unwrap()
}

fn ip_fields() -> Ipv4Fields {
    Ipv4Fields { source: PEER, destination: LOCAL, protocol: 6, total_len: 40, header_len: 20 }
}

fn tcp_fields(f: TcpFlags, seq: u32, ack: u32) -> TcpFields {
    TcpFields {
        source_port: 5555,
        destination_port: 80,
        sequence_number: seq,
        acknowledgment_number: ack,
        flags: f,
        window_size: 64240,
        header_len: 20,
    }
}

fn peer_key() -> ConnectionKey {
    ConnectionKey {
        lower: Endpoint { addr: LOCAL, port: 80 },
        higher: Endpoint { addr: PEER, port: 5555 },
    }
}

#[test]
fn handshake_through_frames() {
    let mut table = ConnectionTable::new();
    let syn = peer_frame(flags(true, false), 1000, 0, vec![]);
    let out = process_frame(&mut table, &syn, 4242).unwrap();
    assert_eq!(out.len(), 1);
    let reply = validate(&out[0]).unwrap();
    assert_eq!(reply.ip.source, LOCAL);
    assert_eq!(reply.ip.destination, PEER);
    assert_eq!(reply.tcp.source_port, 80);
    assert_eq!(reply.tcp.destination_port, 5555);
    assert_eq!(reply.tcp.flags, flags(true, true));
    assert_eq!(reply.tcp.acknowledgment_number, 1001);
    assert_eq!(reply.tcp.sequence_number, 4242);
    assert!(reply.payload.is_empty());
    assert_eq!(table.get(&peer_key()).unwrap().state, State::SynReceived);

    let ack = peer_frame(flags(false, true), 1001, 4243, vec![]);
    let out = process_frame(&mut table, &ack, 9).unwrap();
    assert!(out.is_empty());
    let c = table.get(&peer_key()).unwrap();
    assert_eq!(c.state, State::Established);
    assert_eq!(c.send_sequence, 4243);
    assert_eq!(c.receive_sequence, 1001);
}

#[test]
fn handshake_on_connection() {
    let mut c = Connection::new();
    let out = c.handle_packet(&ip_fields(), &tcp_fields(flags(true, false), 1000, 0), &[], 77);
    assert_eq!(out.len(), 1);
    assert_eq!(out[0].flags, flags(true, true));
    assert_eq!(out[0].acknowledgment_number, 1001);
    assert_eq!(out[0].sequence_number, 77);
    assert_eq!(out[0].source, Endpoint { addr: LOCAL, port: 80 });
    assert_eq!(out[0].destination, Endpoint { addr: PEER, port: 5555 });
    assert_eq!(out[0].window_size, WINDOW_SIZE);
    let out = c.handle_packet(&ip_fields(), &tcp_fields(flags(false, true), 1001, 78), &[], 5);
    assert!(out.is_empty());
    assert_eq!(c.state, State::Established);
    assert_eq!(c.send_sequence, 78);
}

#[test]
fn syn_replay_keeps_state() {
    let mut c = Connection::default();
    let syn = tcp_fields(flags(true, false), 1000, 0);
    c.handle_packet(&ip_fields(), &syn, &[], 500);
    let before = c;
    let out = c.handle_packet(&ip_fields(), &syn, &[], 900);
    assert!(out.is_empty());
    assert_eq!(c, before);
    assert_eq!(c.state, State::SynReceived);
    assert_eq!(c.send_sequence, 500);
    assert_eq!(c.receive_sequence, 1001);
}

#[test]
fn wrong_ack_is_ignored() {
    let mut c = Connection::new();
    c.handle_packet(&ip_fields(), &tcp_fields(flags(true, false), 1000, 0), &[], 500);
    let out = c.handle_packet(&ip_fields(), &tcp_fields(flags(false, true), 1001, 500), &[], 0);
    assert!(out.is_empty());
    assert_eq!(c.state, State::SynReceived);
}

#[test]
fn sequence_numbers_wrap() {
    assert_eq!(seq_advance(0xFFFF_FFFE, 1), 0xFFFF_FFFF);
    assert_eq!(seq_advance(0xFFFF_FFFF, 1), 0);
    assert_eq!(seq_advance(0xFFFF_FFF0, 0x20), 0x10);

    let mut c = Connection::new();
    let out = c.handle_packet(&ip_fields(), &tcp_fields(flags(true, false), 0xFFFF_FFFF, 0), &[], 0xFFFF_FFFF);
    assert_eq!(out[0].acknowledgment_number, 0);
    assert_eq!(c.receive_sequence, 0);
    let out = c.handle_packet(&ip_fields(), &tcp_fields(flags(false, true), 0, 0), &[], 1);
    assert!(out.is_empty());
    assert_eq!(c.state, State::Established);
    assert_eq!(c.send_sequence, 0);
}

#[test]
fn established_acknowledges_in_order_data() {
    let mut c = Connection { state: State::Established, send_sequence: 10, receive_sequence: 0xFFFF_FFFE };
    let out = c.handle_packet(&ip_fields(), &tcp_fields(flags(false, true), 0xFFFF_FFFE, 10), b"hello", 0);
    assert_eq!(out.len(), 1);
    assert_eq!(out[0].flags, flags(false, true));
    assert_eq!(out[0].sequence_number, 10);
    assert_eq!(out[0].acknowledgment_number, 3);
    assert_eq!(c.receive_sequence, 3);
    let out = c.handle_packet(&ip_fields(), &tcp_fields(flags(false, true), 100, 10), b"late", 0);
    assert!(out.is_empty());
    assert_eq!(c.receive_sequence, 3);
}

#[test]
fn listen_ignores_non_syn_and_closed_ignores_all() {
    let mut c = Connection::new();
    let out = c.handle_packet(&ip_fields(), &tcp_fields(flags(false, true), 1, 1), &[], 3);
    assert!(out.is_empty());
    assert_eq!(c, Connection::new());
    let out = c.handle_packet(&ip_fields(), &tcp_fields(flags(true, true), 1, 1), &[], 3);
    assert!(out.is_empty());
    assert_eq!(c.state, State::Listen);

    let mut closed = Connection { state: State::Closed, send_sequence: 1, receive_sequence: 2 };
    let out = closed.handle_packet(&ip_fields(), &tcp_fields(flags(true, false), 1, 0), &[], 3);
    assert!(out.is_empty());
    assert_eq!(closed.state, State::Closed);
}

#[test]
fn malformed_frames_are_dropped() {
    let mut table = ConnectionTable::new();
    let good = peer_frame(flags(true, false), 1000, 0, vec![]);
    let cases: Vec<(Vec<u8>, DropReason)> = vec![
        (vec![], DropReason::UnsupportedLinkProtocol),
        (vec![0, 0, 8], DropReason::UnsupportedLinkProtocol),
        (vec![0, 0, 0x86, 0xDD, 0x60, 0, 0, 0], DropReason::UnsupportedLinkProtocol),
        (vec![0, 0, 8, 0], DropReason::MalformedIpv4),
        (good[..20].to_vec(), DropReason::MalformedIpv4),
        ({
            let mut f = good.clone();
            f[4] = 0x65;
            f
        }, DropReason::MalformedIpv4),
        ({
            let mut f = good.clone();
            f[4] = 0x44;
            f
        }, DropReason::MalformedIpv4),
        ({
            let mut f = good.clone();
            f[13] = 17;
            f
        }, DropReason::UnsupportedIpProtocol),
        (good[..30].to_vec(), DropReason::MalformedTcp),
        ({
            let mut f = good.clone();
            f[36] = 0x40;
            f
        }, DropReason::MalformedTcp),
        ({
            let mut f = good.clone();
            f[36] = 0x60;
            f
        }, DropReason::MalformedTcp),
    ];
    for (frame, reason) in cases {
        assert_eq!(validate(&frame).unwrap_err(), reason);
        assert_eq!(process_frame(&mut table, &frame, 1).unwrap_err(), reason);
        assert!(!table.contains(&peer_key()));
    }
    // the loop goes on: a good frame after the bad ones is handled
    assert_eq!(process_frame(&mut table, &good, 1).unwrap().len(), 1);
    assert!(table.contains(&peer_key()));
}

#[test]
fn validate_splits_payload_after_options() {
    // IPv4 header with one word of options, TCP header with one word of options
    let mut f: Vec<u8> = vec![0, 0, 8, 0];
    f.extend_from_slice(&[0x46, 0, 0, 56, 0, 0, 0x40, 0, 64, 6, 0, 0, 10, 0, 0, 2, 10, 0, 0, 1, 1, 1, 1, 1]);
    f.extend_from_slice(&[0x15, 0xB3, 0, 80, 0, 0, 3, 0xE8, 0, 0, 0, 0, 0x60, 0x18, 0x10, 0, 0, 0, 0, 0, 1, 1, 1, 1]);
    f.extend_from_slice(b"abcd");
    let s = validate(&f).unwrap();
    assert_eq!(s.ip.header_len, 24);
    assert_eq!(s.ip.source, PEER);
    assert_eq!(s.ip.destination, LOCAL);
    assert_eq!(s.ip.total_len, 56);
    assert_eq!(s.tcp.header_len, 24);
    assert_eq!(s.tcp.source_port, 5555);
    assert_eq!(s.tcp.destination_port, 80);
    assert_eq!(s.tcp.sequence_number, 1000);
    assert_eq!(s.tcp.window_size, 0x1000);
    assert_eq!(s.tcp.flags, TcpFlags { fin: false, syn: false, rst: false, psh: true, ack: true, urg: false });
    assert_eq!(s.payload, b"abcd".to_vec());
}

#[test]
fn built_frame_reads_back() {
    let all = TcpFlags { fin: true, syn: false, rst: true, psh: true, ack: true, urg: true };
    let seg = OutgoingSegment {
        source: Endpoint { addr: 0xC0A8_0101, port: 443 },
        destination: Endpoint { addr: 0x0808_0808, port: 50000 },
        flags: all,
        sequence_number: 0xDEAD_BEEF,
        acknowledgment_number: 0x0102_0304,
        window_size: 512,
        payload: b"payload bytes".to_vec(),
    };
    let f = build_frame(&seg).unwrap();
    assert_eq!(f.len(), 44 + 13);
    assert_eq!(&f[..4], &[0, 0, 8, 0]);
    assert_eq!(f[4], 0x45);
    assert_eq!(&f[6..8], &[0, 53]);
    assert_eq!(f[13], 6);
    assert_eq!(&f[16..24], &[192, 168, 1, 1, 8, 8, 8, 8]);
    assert_eq!(&f[28..32], &[0xDE, 0xAD, 0xBE, 0xEF]);
    assert_eq!(f[37], 0b0011_1101);
    let s = validate(&f).unwrap();
    assert_eq!(s.ip.source, seg.source.addr);
    assert_eq!(s.ip.destination, seg.destination.addr);
    assert_eq!(s.ip.protocol, 6);
    assert_eq!(s.ip.total_len, 53);
    assert_eq!(s.tcp.source_port, 443);
    assert_eq!(s.tcp.destination_port, 50000);
    assert_eq!(s.tcp.sequence_number, 0xDEAD_BEEF);
    assert_eq!(s.tcp.acknowledgment_number, 0x0102_0304);
    assert_eq!(s.tcp.flags, all);
    assert_eq!(s.tcp.window_size, 512);
    assert_eq!(s.payload, seg.payload);
}

#[test]
fn built_frame_checksums_verify() {
    let f = peer_frame(flags(false, true), 7, 9, b"checked".to_vec());
    let ip = etherparse::Ipv4HeaderSlice::from_slice(&f[4..]).unwrap();
    let ip_header = ip.to_header();
    assert_ne!(ip_header.header_checksum, 0);
    assert_eq!(ip_header.calc_header_checksum(), ip_header.header_checksum);
    let tcp = etherparse::TcpHeaderSlice::from_slice(&f[24..]).unwrap();
    let tcp_header = tcp.to_header();
    assert_eq!(tcp_header.calc_checksum_ipv4(&ip_header, &f[44..]).unwrap(), tcp_header.checksum);
}

#[test]
fn oversized_payload_is_not_built() {
    assert!(build_frame(&peer_segment(flags(false, true), 0, 0, vec![0u8; MAX_PAYLOAD_LEN])).is_some());
    assert!(build_frame(&peer_segment(flags(false, true), 0, 0, vec![0u8; MAX_PAYLOAD_LEN + 1])).is_none());
}

#[test]
fn keys_are_stable_and_symmetric() {
    let ip = ip_fields();
    let a = derive_key(&ip, &tcp_fields(flags(true, false), 1, 2));
    let b = derive_key(&Ipv4Fields { total_len: 99, ..ip }, &tcp_fields(flags(false, true), 7, 8));
    assert_eq!(a, b);
    assert_eq!(a, peer_key());
    let back_ip = Ipv4Fields { source: LOCAL, destination: PEER, ..ip };
    let back_tcp = TcpFields { source_port: 80, destination_port: 5555, ..tcp_fields(flags(true, true), 1, 2) };
    assert_eq!(derive_key(&back_ip, &back_tcp), a);
    // same address, ordered by port
    let same_host = Ipv4Fields { source: LOCAL, destination: LOCAL, ..ip };
    let k = derive_key(&same_host, &TcpFields { source_port: 9000, destination_port: 22, ..tcp_fields(flags(true, false), 0, 0) });
    assert_eq!(k.lower, Endpoint { addr: LOCAL, port: 22 });
    assert_eq!(k.higher, Endpoint { addr: LOCAL, port: 9000 });
    let other_port = TcpFields { source_port: 5556, ..tcp_fields(flags(true, false), 1, 2) };
    assert_ne!(derive_key(&ip, &other_port), a);
}

#[test]
fn reply_frame_maps_to_request_connection() {
    let mut table = ConnectionTable::new();
    let syn = peer_frame(flags(true, false), 1000, 0, vec![]);
    let request = validate(&syn).unwrap();
    let out = process_frame(&mut table, &syn, 31).unwrap();
    let reply = validate(&out[0]).unwrap();
    assert_eq!(derive_key(&reply.ip, &reply.tcp), derive_key(&request.ip, &request.tcp));
    assert!(table.contains(&derive_key(&reply.ip, &reply.tcp)));
}

#[test]
fn odd_payload_checksum_verifies() {
    let f = peer_frame(flags(false, true), 0xFFFF_0000, 3, b"odd".to_vec());
    let ip = etherparse::Ipv4HeaderSlice::from_slice(&f[4..]).unwrap().to_header();
    let tcp = etherparse::TcpHeaderSlice::from_slice(&f[24..]).unwrap().to_header();
    assert_eq!(ip.calc_header_checksum(), ip.header_checksum);
    assert_eq!(tcp.calc_checksum_ipv4(&ip, &f[44..]).unwrap(), tcp.checksum);
    let mut bad = f.clone();
    bad[45] ^= 1;
    assert_ne!(tcp.calc_checksum_ipv4(&ip, &bad[44..]).unwrap(), tcp.checksum);
}

#[test]
fn table_get_or_create_insert_remove() {
    let mut t = ConnectionTable::new();
    let k = peer_key();
    let other = ConnectionKey { higher: Endpoint { addr: PEER, port: 6000 }, ..k };
    assert!(t.get(&k).is_none());
    assert_eq!(t.get_or_create(k), Connection::new());
    assert!(t.contains(&k));
    let c = Connection { state: State::Established, send_sequence: 3, receive_sequence: 4 };
    t.insert(k, c);
    assert_eq!(t.get_or_create(k), c);
    t.insert(other, Connection::new());
    assert_eq!(t.get(&k), Some(c));
    t.remove(&k);
    assert!(!t.contains(&k));
    assert!(t.contains(&other));
    t.remove(&k);
    assert!(t.contains(&other));
}

#[test]
fn separate_peers_get_separate_connections() {
    let mut table = ConnectionTable::new();
    let syn = peer_frame(flags(true, false), 1000, 0, vec![]);
    process_frame(&mut table, &syn, 1).unwrap();
    let mut other = peer_segment(flags(true, false), 50, 0, vec![]);
    other.source.port = 6000;
    process_frame(&mut table, &build_frame(&other).unwrap(), 2).unwrap();
    assert_eq!(table.get(&peer_key()).unwrap().receive_sequence, 1001);
    let k2 = ConnectionKey { higher: Endpoint { addr: PEER, port: 6000 }, ..peer_key() };
    assert_eq!(table.get(&k2).unwrap().receive_sequence, 51);
    assert_eq!(table.get(&k2).unwrap().send_sequence, 2);
}
