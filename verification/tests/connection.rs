use usertcp::tcp::{Connection, State};
use usertcp::wire::{Ipv4Meta, TcpMeta};

const PEER_IP: u32 = 0x0A00_0002; // 10.0.0.2
const OUR_IP: u32 = 0x0A00_0001; // 10.0.0.1

fn syn_ip_meta() -> Ipv4Meta {
    Ipv4Meta { src: PEER_IP, dst: OUR_IP, proto: 6, header_len: 20, total_len: 40 }
}

fn seg(seqn: u32, ackn: u32, syn: bool, ack: bool, fin: bool, rst: bool) -> TcpMeta {
    TcpMeta {
        src_port: 50000,
        dst_port: 80,
        seqn,
        ackn,
        wnd: 4096,
        syn,
        ack,
        fin,
        rst,
        header_len: 20,
    }
}

/// Parse an emitted frame back with the codec; returns (ip, tcp) headers.
fn decode(frame: &[u8]) -> (etherparse::Ipv4Header, etherparse::TcpHeader) {
    let ip = etherparse::Ipv4HeaderSlice::from_slice(frame).unwrap();
    let tcp = etherparse::TcpHeaderSlice::from_slice(&frame[ip.slice().len()..]).unwrap();
    (ip.to_header(), tcp.to_header())
}

/// Open a connection with the canonical SYN (SEQ=0x1000, WND=4096).
fn opened(out: &mut Vec<Vec<u8>>) -> Connection {
    Connection::accept(&syn_ip_meta(), &seg(0x1000, 0, true, false, false, false), &[], out)
        .expect("a SYN must open a connection")
}

#[test]
fn accept_without_syn_creates_nothing() {
    let mut out: Vec<Vec<u8>> = Vec::new();
    let r = Connection::accept(&syn_ip_meta(), &seg(0x1000, 0, false, true, false, false), &[], &mut out);
    assert!(r.is_none());
    assert!(out.is_empty());
}

#[test]
fn accept_initializes_sequence_spaces() {
    let mut out: Vec<Vec<u8>> = Vec::new();
    let conn = opened(&mut out);
    assert_eq!(conn.state, State::SynRcvd);
    assert_eq!(conn.send.iss, 0);
    assert_eq!(conn.send.una, 0);
    assert_eq!(conn.send.nxt, 1); // the emitted SYN took one phantom octet
    assert_eq!(conn.recv.irs, 0x1000);
    assert_eq!(conn.recv.nxt, 0x1001);
    assert_eq!(conn.recv.wnd, 4096);
}

#[test]
fn accept_emits_a_valid_syn_ack() {
    let mut out: Vec<Vec<u8>> = Vec::new();
    let _conn = opened(&mut out);
    assert_eq!(out.len(), 1);
    let frame = &out[0];
    let (ip, tcp) = decode(frame);
    assert_eq!(ip.source, [10, 0, 0, 1]);
    assert_eq!(ip.destination, [10, 0, 0, 2]);
    assert_eq!(ip.time_to_live, 64);
    assert_eq!(ip.protocol, etherparse::IpNumber::TCP);
    assert_eq!(ip.total_len, 40);
    assert_eq!(tcp.source_port, 80);
    assert_eq!(tcp.destination_port, 50000);
    assert!(tcp.syn && tcp.ack);
    assert!(!tcp.fin && !tcp.rst);
    assert_eq!(tcp.sequence_number, 0); // ISS
    assert_eq!(tcp.acknowledgment_number, 0x1001); // IRS + 1
    assert_eq!(tcp.window_size, 10);
    // the checksum validates against its own pseudo-header
    let expected = tcp.calc_checksum_ipv4(&ip, &frame[40..]).unwrap();
    assert_eq!(tcp.checksum, expected);
}

#[test]
fn bad_ack_in_syn_rcvd_elicits_rst() {
    let mut out: Vec<Vec<u8>> = Vec::new();
    let mut conn = opened(&mut out);
    out.clear();
    // SEG.ACK=0x9999 is not in (SND.UNA, SND.NXT]=(0, 1]
    conn.on_packet(&seg(0x1001, 0x9999, false, true, false, false), &[], &mut out);
    assert_eq!(conn.state, State::SynRcvd);
    assert_eq!(conn.send.una, 0);
    assert_eq!(out.len(), 1);
    let (_, tcp) = decode(&out[0]);
    assert!(tcp.rst);
    // the reset takes its sequence number from the offender's ACK field
    assert_eq!(tcp.sequence_number, 0x9999);
    assert!(!tcp.ack);
    // the checksum of the reset validates too
    let (ip, _) = decode(&out[0]);
    assert_eq!(tcp.checksum, tcp.calc_checksum_ipv4(&ip, &[]).unwrap());
}

#[test]
fn rst_for_ackless_offender_acks_its_length() {
    let mut out: Vec<Vec<u8>> = Vec::new();
    let mut conn = opened(&mut out);
    out.clear();
    // a FIN without ACK: window-acceptable (SEG.LEN=1), but ACK=0 is stale
    conn.on_packet(&seg(0x1001, 0, false, false, true, false), &[], &mut out);
    assert_eq!(conn.state, State::SynRcvd);
    assert_eq!(out.len(), 1);
    let (_, tcp) = decode(&out[0]);
    assert!(tcp.rst && tcp.ack);
    assert_eq!(tcp.sequence_number, 0);
    // SEG.SEQ + SEG.LEN of the offender
    assert_eq!(tcp.acknowledgment_number, 0x1002);
}

#[test]
fn good_ack_synchronizes_and_emits_fin() {
    let mut out: Vec<Vec<u8>> = Vec::new();
    let mut conn = opened(&mut out);
    out.clear();
    conn.on_packet(&seg(0x1001, 1, false, true, false, false), &[], &mut out);
    assert_eq!(conn.state, State::FinWait1);
    assert_eq!(conn.send.una, 1);
    assert_eq!(conn.send.nxt, 2); // the FIN took one phantom octet
    assert_eq!(out.len(), 1);
    let (_, tcp) = decode(&out[0]);
    assert!(tcp.fin && tcp.ack && !tcp.syn && !tcp.rst);
    assert_eq!(tcp.sequence_number, 1);
    assert_eq!(tcp.acknowledgment_number, 0x1001);
}

#[test]
fn peer_fin_moves_to_fin_wait_2() {
    let mut out: Vec<Vec<u8>> = Vec::new();
    let mut conn = opened(&mut out);
    conn.on_packet(&seg(0x1001, 1, false, true, false, false), &[], &mut out);
    out.clear();
    conn.on_packet(&seg(0x1001, 2, false, true, true, false), &[], &mut out);
    assert_eq!(conn.state, State::FinWait2);
    assert_eq!(conn.send.una, 2);
    assert_eq!(conn.recv.nxt, 0x1002); // the FIN advanced RCV.NXT by one
    assert!(out.is_empty());
}

#[test]
fn fin_wait_2_answers_duplicate_ack_and_stays() {
    // once our FIN is acknowledged nothing is left unacknowledged, so the
    // strict new-ACK test drops every further segment with an empty ACK:
    // the endpoint rests in FIN-WAIT-2
    let mut out: Vec<Vec<u8>> = Vec::new();
    let mut conn = opened(&mut out);
    conn.on_packet(&seg(0x1001, 1, false, true, false, false), &[], &mut out);
    conn.on_packet(&seg(0x1001, 2, false, true, true, false), &[], &mut out);
    out.clear();
    conn.on_packet(&seg(0x1002, 2, false, true, false, false), &[], &mut out);
    assert_eq!(conn.state, State::FinWait2);
    assert_eq!(out.len(), 1);
    let (_, tcp) = decode(&out[0]);
    assert!(tcp.ack && !tcp.fin && !tcp.syn && !tcp.rst);
    assert_eq!(tcp.sequence_number, 2);
    assert_eq!(tcp.acknowledgment_number, 0x1002);
}

#[test]
fn unacceptable_segment_answered_by_empty_ack() {
    let mut out: Vec<Vec<u8>> = Vec::new();
    let mut conn = opened(&mut out);
    out.clear();
    // far outside the window
    conn.on_packet(&seg(0x9000, 1, false, true, false, false), &[], &mut out);
    assert_eq!(conn.state, State::SynRcvd);
    assert_eq!(conn.recv.nxt, 0x1001); // untouched
    assert_eq!(out.len(), 1);
    let (_, tcp) = decode(&out[0]);
    assert!(tcp.ack && !tcp.rst && !tcp.syn && !tcp.fin);
    assert_eq!(tcp.sequence_number, 1); // SND.NXT
    assert_eq!(tcp.acknowledgment_number, 0x1001); // RCV.NXT
}

#[test]
fn unacceptable_rst_dropped_silently() {
    let mut out: Vec<Vec<u8>> = Vec::new();
    let mut conn = opened(&mut out);
    out.clear();
    conn.on_packet(&seg(0x9000, 1, false, false, false, true), &[], &mut out);
    assert_eq!(conn.state, State::SynRcvd);
    assert!(out.is_empty());
}

#[test]
fn rcv_nxt_advances_by_accepted_lengths() {
    let mut out: Vec<Vec<u8>> = Vec::new();
    let mut conn = opened(&mut out);
    conn.on_packet(&seg(0x1001, 1, false, true, false, false), &[], &mut out);
    assert_eq!(conn.state, State::FinWait1);
    let base = conn.recv.nxt;
    assert_eq!(base, 0x1001);
    // five data octets, in order: accepted, RCV.NXT moves by exactly five
    conn.on_packet(&seg(0x1001, 2, false, true, false, false), &[1, 2, 3, 4, 5], &mut out);
    assert_eq!(conn.recv.nxt, base.wrapping_add(5));
    assert_eq!(conn.state, State::FinWait1); // data with no FIN: dropped here
    // a window-unacceptable segment moves nothing
    conn.on_packet(&seg(0x9000, 2, false, true, false, false), &[9, 9], &mut out);
    assert_eq!(conn.recv.nxt, base.wrapping_add(5));
}
