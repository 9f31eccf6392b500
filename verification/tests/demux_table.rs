use usertcp::demux::{ConnTable, FourTuple};
use usertcp::tcp::State;

fn tcp_frame(seqn: u32, ackn: Option<u32>, syn: bool, fin: bool, payload: &[u8]) -> Vec<u8> {
    let mut b = etherparse::PacketBuilder::ipv4([10, 0, 0, 2], [10, 0, 0, 1], 64)
        .tcp(50000, 80, seqn, 4096);
    if let Some(n) = ackn {
        b = b.ack(n);
    }
    if syn {
        b = b.syn();
    }
    if fin {
        b = b.fin();
    }
    let mut v = Vec::with_capacity(b.size(payload.len()));
    b.write(&mut v, payload).unwrap();
    v
}

fn udp_frame() -> Vec<u8> {
    let b = etherparse::PacketBuilder::ipv4([10, 0, 0, 2], [10, 0, 0, 1], 64).udp(9000, 9001);
    let mut v = Vec::new();
    b.write(&mut v, &[1, 2, 3]).unwrap();
    v
}

#[test]
fn first_syn_opens_a_connection() {
    let mut table = ConnTable::new();
    let mut out: Vec<Vec<u8>> = Vec::new();
    table.on_frame(&tcp_frame(0x1000, None, true, false, &[]), &mut out);
    assert_eq!(table.entries.len(), 1);
    let key = FourTuple { src_ip: 0x0A00_0002, src_port: 50000, dst_ip: 0x0A00_0001, dst_port: 80 };
    assert_eq!(table.entries[0].0, key);
    assert_eq!(table.entries[0].1.state, State::SynRcvd);
    // the SYN+ACK went out
    assert_eq!(out.len(), 1);
    let tcp = etherparse::TcpHeaderSlice::from_slice(&out[0][20..]).unwrap();
    assert!(tcp.syn() && tcp.ack());
    assert_eq!(tcp.sequence_number(), 0);
    assert_eq!(tcp.acknowledgment_number(), 0x1001);
}

#[test]
fn non_syn_for_unknown_tuple_is_dropped() {
    let mut table = ConnTable::new();
    let mut out: Vec<Vec<u8>> = Vec::new();
    table.on_frame(&tcp_frame(0x1000, Some(7), false, false, &[]), &mut out);
    assert!(table.entries.is_empty());
    assert!(out.is_empty());
}

#[test]
fn non_tcp_datagram_is_discarded() {
    let mut table = ConnTable::new();
    let mut out: Vec<Vec<u8>> = Vec::new();
    table.on_frame(&tcp_frame(0x1000, None, true, false, &[]), &mut out);
    out.clear();
    table.on_frame(&udp_frame(), &mut out);
    assert_eq!(table.entries.len(), 1);
    assert_eq!(table.entries[0].1.state, State::SynRcvd);
    assert!(out.is_empty());
}

#[test]
fn garbage_is_discarded() {
    let mut table = ConnTable::new();
    let mut out: Vec<Vec<u8>> = Vec::new();
    table.on_frame(&[0u8; 5], &mut out);
    assert!(table.entries.is_empty());
    assert!(out.is_empty());
}

#[test]
fn inconsistent_total_length_is_discarded() {
    let mut table = ConnTable::new();
    let mut out: Vec<Vec<u8>> = Vec::new();
    let mut frame = tcp_frame(0x1000, None, true, false, &[]);
    // stamp a total length far beyond what the device delivered
    frame[2] = 0xFF;
    frame[3] = 0xFF;
    table.on_frame(&frame, &mut out);
    assert!(table.entries.is_empty());
    assert!(out.is_empty());
}

#[test]
fn dialog_through_the_table() {
    let mut table = ConnTable::new();
    let mut out: Vec<Vec<u8>> = Vec::new();
    table.on_frame(&tcp_frame(0x1000, None, true, false, &[]), &mut out);
    table.on_frame(&tcp_frame(0x1001, Some(1), false, false, &[]), &mut out);
    assert_eq!(table.entries.len(), 1);
    assert_eq!(table.entries[0].1.state, State::FinWait1);
    // our FIN went out as the second reply
    assert_eq!(out.len(), 2);
    let tcp = etherparse::TcpHeaderSlice::from_slice(&out[1][20..]).unwrap();
    assert!(tcp.fin() && tcp.ack());
    assert_eq!(tcp.sequence_number(), 1);
    // the peer closes too
    table.on_frame(&tcp_frame(0x1001, Some(2), false, true, &[]), &mut out);
    assert_eq!(out.len(), 2);
    assert_eq!(table.entries[0].1.state, State::FinWait2);
}

#[test]
fn second_syn_steps_the_existing_connection() {
    let mut table = ConnTable::new();
    let mut out: Vec<Vec<u8>> = Vec::new();
    table.on_frame(&tcp_frame(0x1000, None, true, false, &[]), &mut out);
    out.clear();
    // a retransmitted SYN for the same tuple is dispatched to the existing
    // connection, not accepted anew: it falls outside the window (RCV.NXT
    // moved past it) and draws the empty ACK reply
    table.on_frame(&tcp_frame(0x1000, None, true, false, &[]), &mut out);
    assert_eq!(table.entries.len(), 1);
    assert_eq!(table.entries[0].1.state, State::SynRcvd);
    assert_eq!(out.len(), 1);
    let tcp = etherparse::TcpHeaderSlice::from_slice(&out[0][20..]).unwrap();
    assert!(tcp.ack() && !tcp.rst() && !tcp.syn());
    assert_eq!(tcp.sequence_number(), 1);
    assert_eq!(tcp.acknowledgment_number(), 0x1001);
}
