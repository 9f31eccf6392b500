//! The wire boundary: plain-value records for the IPv4 and TCP header
//! fields that the connection logic reads and writes, and the trusted
//! items behind which the `etherparse` codec decodes inbound headers and
//! serializes (and checksums) outbound reply frames.
//!
//! IPv4 addresses are carried as one 32-bit number in network order
//! (10.0.0.1 is 0x0A00_0001).

use vstd::prelude::*;

verus! {

/// The fields of a parsed IPv4 header that the endpoint reads.
/// `header_len` is the byte length of the header including options
/// (IHL * 4); `total_len` is the datagram's total-length field.
#[derive(Clone, Copy, PartialEq, Eq, Structural, Debug)]
pub struct Ipv4Meta {
    pub src: u32,
    pub dst: u32,
    pub proto: u8,
    pub header_len: u16,
    pub total_len: u16,
}

/// The fields of a parsed TCP header that the endpoint reads.
/// `header_len` is the byte length of the header including options
/// (data offset * 4).
#[derive(Clone, Copy, PartialEq, Eq, Structural, Debug)]
pub struct TcpMeta {
    pub src_port: u16,
    pub dst_port: u16,
    pub seqn: u32,
    pub ackn: u32,
    pub wnd: u16,
    pub syn: bool,
    pub ack: bool,
    pub fin: bool,
    pub rst: bool,
    pub header_len: u16,
}

/// The IPv4 side of a connection's reply template. `payload_len` is what
/// the datagram carries beyond the 20-byte IPv4 header (the TCP header
/// plus the data), so the wire total length is `payload_len + 20`.
#[derive(Clone, Copy, PartialEq, Eq, Structural, Debug)]
pub struct Ipv4Tpl {
    pub src: u32,
    pub dst: u32,
    pub ttl: u8,
    pub payload_len: u16,
}

/// The TCP side of a reply template: ports, sequence and acknowledgment
/// numbers, window, and the four control flags the endpoint emits. The
/// checksum is not held here; it is computed at serialization time.
#[derive(Clone, Copy, PartialEq, Eq, Structural, Debug)]
pub struct TcpTpl {
    pub src_port: u16,
    pub dst_port: u16,
    pub seq: u32,
    pub ackn: u32,
    pub wnd: u16,
    pub syn: bool,
    pub ack: bool,
    pub fin: bool,
    pub rst: bool,
}

/// What `etherparse::Ipv4HeaderSlice::from_slice` decodes from a byte
/// sequence: a function of the bytes alone.
pub uninterp spec fn ipv4_parse(b: Seq<u8>) -> Option<Ipv4Meta>;

/// What `etherparse::TcpHeaderSlice::from_slice` decodes from a byte
/// sequence: a function of the bytes alone.
pub uninterp spec fn tcp_parse(b: Seq<u8>) -> Option<TcpMeta>;

/// The serialized IPv4 datagram (both checksums filled in) that the codec
/// produces from a header template pair and a payload: a function of its
/// arguments alone.
pub uninterp spec fn frame_bytes(ip: Ipv4Tpl, tcp: TcpTpl, payload: Seq<u8>) -> Seq<u8>;

/// Relies on `etherparse::Ipv4HeaderSlice::from_slice`: it decodes one
/// IPv4 header, returning `Err` on anything but a version-4 header whose
/// IHL is at least 5 and fits inside the input, so a decoded header's
/// length is between 20 and 60 bytes and within the input.
#[verifier::external_body]
pub(crate) fn parse_ipv4(b: &[u8]) -> (r: Option<Ipv4Meta>)
    ensures
        r == ipv4_parse(b@),
        r matches Some(m) ==> 20 <= m.header_len <= 60 && m.header_len as int <= b@.len(),
{
    match etherparse::Ipv4HeaderSlice::from_slice(b) {
        Ok(h) => Some(Ipv4Meta {
            src: u32::from_be_bytes(h.source()),
            dst: u32::from_be_bytes(h.destination()),
            proto: h.protocol().0,
            header_len: h.slice().len() as u16,
            total_len: h.total_len(),
        }),
        Err(_) => None,
    }
}

/// Relies on `etherparse::TcpHeaderSlice::from_slice`: it decodes one TCP
/// header, returning `Err` unless the data offset is at least 5 and the
/// header fits inside the input, so a decoded header's length is between
/// 20 and 60 bytes and within the input.
#[verifier::external_body]
pub(crate) fn parse_tcp(b: &[u8]) -> (r: Option<TcpMeta>)
    ensures
        r == tcp_parse(b@),
        r matches Some(m) ==> 20 <= m.header_len <= 60 && m.header_len as int <= b@.len(),
{
    match etherparse::TcpHeaderSlice::from_slice(b) {
        Ok(h) => Some(TcpMeta {
            src_port: h.source_port(),
            dst_port: h.destination_port(),
            seqn: h.sequence_number(),
            ackn: h.acknowledgment_number(),
            wnd: h.window_size(),
            syn: h.syn(),
            ack: h.ack(),
            fin: h.fin(),
            rst: h.rst(),
            header_len: h.slice().len() as u16,
        }),
        Err(_) => None,
    }
}

/// Relies on `etherparse`'s `Ipv4Header::new`, `TcpHeader::new`,
/// `TcpHeader::calc_checksum_ipv4`, and the two `write` methods: they
/// serialize a 20-byte IPv4 header (options empty, protocol TCP,
/// don't-fragment set, header checksum filled in) followed by a 20-byte
/// TCP header carrying the RFC 1071 checksum over the IPv4 pseudo-header,
/// header and payload, followed by the payload. `Ipv4Header::new` and
/// `calc_checksum_ipv4` only refuse lengths beyond the 16-bit fields,
/// which the bounds below rule out, and writing to a `Vec` cannot fail.
#[verifier::external_body]
pub(crate) fn encode_frame(ip: &Ipv4Tpl, t: &TcpTpl, payload: &[u8]) -> (r: Vec<u8>)
    requires
        ip.payload_len <= 1480,
        payload@.len() <= 1460,
    ensures
        r@ == frame_bytes(*ip, *t, payload@),
        r@.len() == 40 + payload@.len(),
{
    let mut tcp = etherparse::TcpHeader::new(t.src_port, t.dst_port, t.seq, t.wnd);
    tcp.acknowledgment_number = t.ackn;
    tcp.syn = t.syn;
    tcp.ack = t.ack;
    tcp.fin = t.fin;
    tcp.rst = t.rst;
    let src = ip.src.to_be_bytes();
    let dst = ip.dst.to_be_bytes();
    let ipv4 = etherparse::Ipv4Header::new(ip.payload_len, ip.ttl, etherparse::IpNumber::TCP, src, dst).unwrap();
    tcp.checksum = tcp.calc_checksum_ipv4(&ipv4, payload).unwrap();
    let mut out: Vec<u8> = Vec::new();
    ipv4.write(&mut out).unwrap();
    tcp.write(&mut out).unwrap();
    out.extend_from_slice(payload);
    out
}

} // verus!
