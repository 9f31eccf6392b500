//! The per-connection TCP state machine (RFC 793): passive open, the
//! ordered acceptability checks of section 3.3, the canned close dialog
//! SYN-RCVD -> ESTAB -> FIN-WAIT-1 -> FIN-WAIT-2 -> TIME-WAIT, reset
//! generation per section 3.4, and the reply-segment encoder bookkeeping.
//!
//! Every emission is pushed, as one serialized IPv4 datagram, onto an
//! outgoing frame queue handed in by the caller; the surrounding program
//! forwards the queue to the device.

use vstd::prelude::*;

use crate::seq32::{
    is_between_wrapped, lemma_seq_add_distance, lemma_seq_sub_chain, lemma_seq_sub_zero, seq_add,
    seq_between, seq_sub,
};
use crate::wire::{encode_frame, frame_bytes, Ipv4Meta, Ipv4Tpl, TcpMeta, TcpTpl};

verus! {

/// The connection states reachable by this endpoint (RFC 793 section 3.2;
/// LISTEN and CLOSED are implicit in the demultiplexer, LAST-ACK is not
/// reachable since the endpoint never passes through CLOSE-WAIT).
#[derive(Clone, Copy, PartialEq, Eq, Structural, Debug)]
pub enum State {
    SynRcvd,
    Estab,
    FinWait1,
    FinWait2,
    CloseWait,
    Closing,
    TimeWait,
}

impl State {
    /// A state is synchronized once both sides have exchanged their
    /// initial sequence numbers: every state past SYN-RCVD.
    pub open spec fn spec_is_synchronized(self) -> bool {
        !(self is SynRcvd)
    }

    pub fn is_synchronized(&self) -> (r: bool)
        ensures
            r == self.spec_is_synchronized(),
    {
        match *self {
            State::SynRcvd => false,
            State::Estab
            | State::FinWait1
            | State::FinWait2
            | State::CloseWait
            | State::Closing
            | State::TimeWait => true,
        }
    }
}

/// The send sequence space (RFC 793 section 3.2, figure 4).
#[derive(Clone, Copy, PartialEq, Eq, Structural, Debug)]
pub struct SendSequenceSpace {
    /// send unacknowledged
    pub una: u32,
    /// send next
    pub nxt: u32,
    /// send window
    pub wnd: u16,
    /// send urgent pointer present
    pub up: bool,
    /// segment sequence number used for the last window update
    pub wl1: u32,
    /// segment acknowledgment number used for the last window update
    pub wl2: u32,
    /// initial send sequence number
    pub iss: u32,
}

/// The receive sequence space (RFC 793 section 3.2, figure 5).
#[derive(Clone, Copy, PartialEq, Eq, Structural, Debug)]
pub struct ReceiveSequenceSpace {
    /// receive next
    pub nxt: u32,
    /// receive window
    pub wnd: u16,
    /// receive urgent pointer present
    pub up: bool,
    /// initial receive sequence number
    pub irs: u32,
}

/// One TCP connection: its state, both sequence spaces, and the reply
/// template (addresses reversed, ports swapped) from which every
/// outgoing segment is built.
#[derive(Clone, Copy, PartialEq, Eq, Structural, Debug)]
pub struct Connection {
    pub state: State,
    pub send: SendSequenceSpace,
    pub recv: ReceiveSequenceSpace,
    pub ip: Ipv4Tpl,
    pub tcp: TcpTpl,
}

/// The number of payload octets an emission actually carries: the frame
/// is capped at the 1500-octet MTU, of which 40 octets are headers.
pub open spec fn capped_len(plen: int) -> int {
    if plen > 1460 {
        1460
    } else {
        plen
    }
}

/// The length a segment occupies in sequence space: its data octets,
/// counting SYN and FIN as one octet each.
pub open spec fn spec_seg_len(t: TcpMeta, dlen: int) -> int {
    dlen + (if t.syn {
        1int
    } else {
        0int
    }) + (if t.fin {
        1int
    } else {
        0int
    })
}

/// The connection after one emission of `plen` payload octets: sequence
/// and acknowledgment numbers stamped from the spaces, the IP length
/// field set, SND.NXT advanced by the payload and the SYN/FIN phantom
/// octets, and the transient SYN/FIN flags cleared.
pub open spec fn spec_write(c: Connection, plen: int) -> Connection {
    let n = capped_len(plen);
    let adv = n + (if c.tcp.syn {
        1int
    } else {
        0int
    }) + (if c.tcp.fin {
        1int
    } else {
        0int
    });
    Connection {
        send: (SendSequenceSpace { nxt: seq_add(c.send.nxt, adv as u32), ..c.send }),
        ip: (Ipv4Tpl { payload_len: (20 + n) as u16, ..c.ip }),
        tcp: (TcpTpl { seq: c.send.nxt, ackn: c.recv.nxt, syn: false, fin: false, ..c.tcp }),
        ..c
    }
}

/// The frame that the emission serializes: the template with the current
/// SND.NXT / RCV.NXT stamped in, and the payload truncated to the MTU.
pub open spec fn write_frame(c: Connection, payload: Seq<u8>) -> Seq<u8> {
    let n = capped_len(payload.len() as int);
    frame_bytes(
        (Ipv4Tpl { payload_len: (20 + n) as u16, ..c.ip }),
        (TcpTpl { seq: c.send.nxt, ackn: c.recv.nxt, ..c.tcp }),
        payload.subrange(0, n),
    )
}

/// The TCP header of a reset answering segment `t` of sequence-space
/// length `slen` (RFC 793 section 3.4): if the offender carried an ACK,
/// the reset takes its sequence number from that ACK and carries no ACK
/// itself; otherwise it has sequence number zero and acknowledges
/// `SEG.SEQ + SEG.LEN`.
pub open spec fn rst_tpl(c: Connection, t: TcpMeta, slen: u32) -> TcpTpl {
    if t.ack {
        TcpTpl {
            src_port: c.tcp.src_port,
            dst_port: c.tcp.dst_port,
            seq: t.ackn,
            ackn: 0,
            wnd: c.tcp.wnd,
            syn: false,
            ack: false,
            fin: false,
            rst: true,
        }
    } else {
        TcpTpl {
            src_port: c.tcp.src_port,
            dst_port: c.tcp.dst_port,
            seq: 0,
            ackn: seq_add(t.seqn, slen),
            wnd: c.tcp.wnd,
            syn: false,
            ack: true,
            fin: false,
            rst: true,
        }
    }
}

/// The serialized reset frame: no payload, IP length field covering the
/// TCP header alone.
pub open spec fn rst_frame(c: Connection, t: TcpMeta, slen: u32) -> Seq<u8> {
    frame_bytes((Ipv4Tpl { payload_len: 20, ..c.ip }), rst_tpl(c, t, slen), Seq::<u8>::empty())
}

/// The connection a passive open builds from the first SYN, before its
/// SYN+ACK is emitted: ISS = 0, a 10-octet send window, the receive
/// space primed from the segment, and the reply template with addresses
/// reversed and ports swapped (TTL 64).
pub open spec fn accepted_conn(iph: Ipv4Meta, t: TcpMeta) -> Connection {
    Connection {
        state: State::SynRcvd,
        send: (SendSequenceSpace { una: 0, nxt: 0, wnd: 10, up: false, wl1: 0, wl2: 0, iss: 0 }),
        recv: (ReceiveSequenceSpace {
            nxt: seq_add(t.seqn, 1),
            wnd: t.wnd,
            up: false,
            irs: t.seqn,
        }),
        ip: (Ipv4Tpl { src: iph.dst, dst: iph.src, ttl: 64, payload_len: 20 }),
        tcp: (TcpTpl {
            src_port: t.dst_port,
            dst_port: t.src_port,
            seq: 0,
            ackn: 0,
            wnd: 10,
            syn: true,
            ack: true,
            fin: false,
            rst: false,
        }),
    }
}

/// The four-case acceptability test of RFC 793 section 3.3 for a segment
/// with sequence number `t.seqn` and sequence-space length
/// `spec_seg_len(t, dlen)` against the receive window.
pub open spec fn seg_acceptable(c: Connection, t: TcpMeta, dlen: int) -> bool {
    let slen = spec_seg_len(t, dlen);
    let wend = seq_add(c.recv.nxt, c.recv.wnd as u32);
    if slen == 0 {
        if c.recv.wnd == 0 {
            t.seqn == c.recv.nxt
        } else {
            seq_between(seq_sub(c.recv.nxt, 1), t.seqn, wend)
        }
    } else {
        c.recv.wnd > 0 && (seq_between(seq_sub(c.recv.nxt, 1), t.seqn, wend) || seq_between(
            seq_sub(c.recv.nxt, 1),
            seq_add(t.seqn, (slen - 1) as u32),
            wend,
        ))
    }
}

/// A new acknowledgment: `SND.UNA < SEG.ACK <= SND.NXT` on the circle.
pub open spec fn ack_acceptable(c: Connection, ackn: u32) -> bool {
    seq_between(c.send.una, ackn, seq_add(c.send.nxt, 1))
}

/// The connection after processing one inbound segment `t` carrying
/// `dlen` data octets: the ordered checks of RFC 793 section 3.3
/// (window acceptability, RCV.NXT advance, new-ACK test, SND.UNA
/// advance) followed by the state-specific transition.
pub open spec fn step(c: Connection, t: TcpMeta, dlen: int) -> Connection {
    if !seg_acceptable(c, t, dlen) {
        if !t.rst {
            spec_write(c, 0)
        } else {
            c
        }
    } else {
        let c1 = Connection {
            recv: (ReceiveSequenceSpace {
                nxt: seq_add(t.seqn, spec_seg_len(t, dlen) as u32),
                ..c.recv
            }),
            ..c
        };
        if !ack_acceptable(c, t.ackn) {
            if c.state.spec_is_synchronized() {
                spec_write(c1, 0)
            } else {
                c1
            }
        } else {
            let c2 = Connection { send: (SendSequenceSpace { una: t.ackn, ..c1.send }), ..c1 };
            match c2.state {
                State::SynRcvd => if t.ack {
                    Connection {
                        state: State::FinWait1,
                        ..spec_write(
                            (Connection { tcp: (TcpTpl { fin: true, ..c2.tcp }), ..c2 }),
                            0,
                        )
                    }
                } else {
                    c2
                },
                State::Estab => c2,
                State::FinWait1 => if t.fin && dlen == 0 {
                    Connection { state: State::FinWait2, ..c2 }
                } else {
                    c2
                },
                State::FinWait2 => Connection { state: State::TimeWait, ..spec_write(c2, 0) },
                State::CloseWait => c2,
                State::Closing => c2,
                State::TimeWait => c2,
            }
        }
    }
}

/// The frames that processing one inbound segment emits, in order: an
/// empty ACK for a window-unacceptable segment without RST, a reset or
/// an empty ACK for a bad acknowledgment (unsynchronized respectively
/// synchronized), the FIN+ACK that answers the handshake ACK, and the
/// final ACK left FIN-WAIT-2; nothing otherwise.
pub open spec fn step_out(c: Connection, t: TcpMeta, dlen: int) -> Seq<Seq<u8>> {
    if !seg_acceptable(c, t, dlen) {
        if !t.rst {
            seq![write_frame(c, Seq::<u8>::empty())]
        } else {
            Seq::<Seq<u8>>::empty()
        }
    } else {
        let c1 = Connection {
            recv: (ReceiveSequenceSpace {
                nxt: seq_add(t.seqn, spec_seg_len(t, dlen) as u32),
                ..c.recv
            }),
            ..c
        };
        if !ack_acceptable(c, t.ackn) {
            if c.state.spec_is_synchronized() {
                seq![write_frame(c1, Seq::<u8>::empty())]
            } else {
                seq![rst_frame(c1, t, spec_seg_len(t, dlen) as u32)]
            }
        } else {
            let c2 = Connection { send: (SendSequenceSpace { una: t.ackn, ..c1.send }), ..c1 };
            match c2.state {
                State::SynRcvd => if t.ack {
                    seq![
                        write_frame(
                            (Connection { tcp: (TcpTpl { fin: true, ..c2.tcp }), ..c2 }),
                            Seq::<u8>::empty(),
                        )
                    ]
                } else {
                    Seq::<Seq<u8>>::empty()
                },
                State::FinWait2 => seq![write_frame(c2, Seq::<u8>::empty())],
                _ => Seq::<Seq<u8>>::empty(),
            }
        }
    }
}

/// Between calls, a new acknowledgment never moves SND.UNA past SND.NXT,
/// and the walk from SND.UNA to SND.NXT stays within half the circle;
/// moreover SND.NXT grows by at most one octet (the FIN) per call.
proof fn lemma_ack_window(una: u32, nxt: u32, ackn: u32)
    requires
        seq_sub(nxt, una) <= 0x8000_0000,
        seq_between(una, ackn, seq_add(nxt, 1)),
    ensures
        1 <= seq_sub(ackn, una) <= seq_sub(nxt, una),
        seq_sub(nxt, ackn) == seq_sub(nxt, una) - seq_sub(ackn, una),
        seq_sub(seq_add(nxt, 1), ackn) == seq_sub(nxt, ackn) + 1,
{
    lemma_seq_add_distance(nxt, una, 1);
    lemma_seq_sub_zero(ackn, una);
    lemma_seq_sub_chain(nxt, ackn, una);
    lemma_seq_add_distance(nxt, ackn, 1);
}

impl Connection {
    /// The resting invariant between segment dispatches: the
    /// unacknowledged stretch SND.UNA..SND.NXT covers at most half the
    /// circle, the transient SYN/FIN flags are cleared on the template,
    /// no reset is latched, and every reply carries an ACK.
    pub open spec fn wf(self) -> bool {
        &&& seq_sub(self.send.nxt, self.send.una) <= 0x8000_0000
        &&& !self.tcp.syn
        &&& !self.tcp.fin
        &&& !self.tcp.rst
        &&& self.tcp.ack
    }

    /// The segment encoder (RFC 793 emission): stamps SEG.SEQ = SND.NXT
    /// and SEG.ACK = RCV.NXT into the template, caps the frame at the
    /// MTU, serializes it onto the outgoing queue, advances SND.NXT by
    /// the written payload plus the SYN/FIN phantom octets, and clears
    /// the transient flags. Returns the payload octets written.
    fn write(&mut self, payload: &[u8], out: &mut Vec<Vec<u8>>) -> (n: usize)
        ensures
            n == capped_len(payload@.len() as int),
            *final(self) == spec_write(*old(self), payload@.len() as int),
            final(out).deep_view() == old(out).deep_view().push(
                write_frame(*old(self), payload@),
            ),
    {
        self.tcp.seq = self.send.nxt;
        self.tcp.ackn = self.recv.nxt;
        let n: usize = if payload.len() > 1460 {
            1460
        } else {
            payload.len()
        };
        self.ip.payload_len = (20 + n) as u16;
        let frame = encode_frame(&self.ip, &self.tcp, vstd::slice::slice_subrange(payload, 0, n));
        let ghost fseq = frame@;
        out.push(frame);
        proof {
            assert(out.deep_view() =~~= old(out).deep_view().push(fseq));
        }
        let mut adv: u32 = n as u32;
        if self.tcp.syn {
            adv = adv + 1;
            self.tcp.syn = false;
        }
        if self.tcp.fin {
            adv = adv + 1;
            self.tcp.fin = false;
        }
        self.send.nxt = self.send.nxt.wrapping_add(adv);
        n
    }

    /// Reset generation (RFC 793 section 3.4) for the offending segment
    /// `t` of sequence-space length `slen`. The connection itself is
    /// untouched; the reset frame alone is queued.
    fn send_rst(&self, t: &TcpMeta, slen: u32, out: &mut Vec<Vec<u8>>)
        ensures
            final(out).deep_view() == old(out).deep_view().push(rst_frame(*self, *t, slen)),
    {
        let rip = Ipv4Tpl { payload_len: 20, ..self.ip };
        let rtpl = if t.ack {
            TcpTpl {
                src_port: self.tcp.src_port,
                dst_port: self.tcp.dst_port,
                seq: t.ackn,
                ackn: 0,
                wnd: self.tcp.wnd,
                syn: false,
                ack: false,
                fin: false,
                rst: true,
            }
        } else {
            TcpTpl {
                src_port: self.tcp.src_port,
                dst_port: self.tcp.dst_port,
                seq: 0,
                ackn: t.seqn.wrapping_add(slen),
                wnd: self.tcp.wnd,
                syn: false,
                ack: true,
                fin: false,
                rst: true,
            }
        };
        let e: Vec<u8> = Vec::new();
        let frame = encode_frame(&rip, &rtpl, e.as_slice());
        let ghost fseq = frame@;
        out.push(frame);
        proof {
            assert(fseq == rst_frame(*self, *t, slen));
            assert(out.deep_view() =~~= old(out).deep_view().push(fseq));
        }
    }

    /// Passive open. A segment without SYN is refused and nothing is
    /// created or emitted. A SYN primes both sequence spaces (ISS = 0,
    /// RCV.NXT = SEG.SEQ + 1), builds the reversed reply template, and
    /// emits the SYN+ACK `<SEQ=ISS><ACK=IRS+1>`, leaving the new
    /// connection in SYN-RCVD with SND.NXT = ISS + 1.
    pub fn accept(iph: &Ipv4Meta, t: &TcpMeta, _data: &[u8], out: &mut Vec<Vec<u8>>) -> (r:
        Option<Connection>)
        ensures
            !t.syn ==> r is None && *final(out) == *old(out),
            t.syn ==> (r matches Some(c) && {
                &&& c == spec_write(accepted_conn(*iph, *t), 0)
                &&& c.wf()
                &&& c.state is SynRcvd
                &&& c.send.iss == 0 && c.send.una == 0 && c.send.nxt == 1
                &&& c.recv.irs == t.seqn && c.recv.nxt == seq_add(t.seqn, 1) && c.recv.wnd == t.wnd
                &&& final(out).deep_view() == old(out).deep_view().push(
                    frame_bytes(
                        (Ipv4Tpl { src: iph.dst, dst: iph.src, ttl: 64, payload_len: 20 }),
                        (TcpTpl {
                            src_port: t.dst_port,
                            dst_port: t.src_port,
                            seq: 0,
                            ackn: seq_add(t.seqn, 1),
                            wnd: 10,
                            syn: true,
                            ack: true,
                            fin: false,
                            rst: false,
                        }),
                        Seq::<u8>::empty(),
                    ),
                )
            }),
    {
        if !t.syn {
            // only a SYN opens a connection at this layer
            return None;
        }
        let mut conn = Connection {
            state: State::SynRcvd,
            send: SendSequenceSpace { una: 0, nxt: 0, wnd: 10, up: false, wl1: 0, wl2: 0, iss: 0 },
            recv: ReceiveSequenceSpace {
                nxt: t.seqn.wrapping_add(1),
                wnd: t.wnd,
                up: false,
                irs: t.seqn,
            },
            ip: Ipv4Tpl { src: iph.dst, dst: iph.src, ttl: 64, payload_len: 20 },
            tcp: TcpTpl {
                src_port: t.dst_port,
                dst_port: t.src_port,
                seq: 0,
                ackn: 0,
                wnd: 10,
                syn: false,
                ack: false,
                fin: false,
                rst: false,
            },
        };
        // start establishing: the first reply announces our ISS and acks the SYN
        conn.tcp.syn = true;
        conn.tcp.ack = true;
        proof {
            assert(conn == accepted_conn(*iph, *t));
        }
        let e: Vec<u8> = Vec::new();
        conn.write(e.as_slice(), out);
        proof {
            assert(Seq::<u8>::empty().subrange(0, 0) =~= Seq::<u8>::empty());
        }
        Some(conn)
    }

    /// Segment reception: the ordered checks of RFC 793 section 3.3.
    ///
    /// A window-unacceptable segment is dropped, answered by an empty
    /// ACK unless it carried RST. An accepted segment advances RCV.NXT
    /// by its sequence-space length. A stale acknowledgment is dropped,
    /// answered by a reset while unsynchronized and by an empty ACK
    /// afterwards. A new acknowledgment advances SND.UNA and drives the
    /// state machine: the handshake ACK synchronizes the connection and
    /// the endpoint at once closes its half with a FIN (ESTAB is
    /// transient, the call returns in FIN-WAIT-1); the peer's bare FIN
    /// moves FIN-WAIT-1 to FIN-WAIT-2; the next new acknowledgment in
    /// FIN-WAIT-2 is answered by a final ACK and rests in TIME-WAIT.
    pub fn on_packet(&mut self, t: &TcpMeta, data: &[u8], out: &mut Vec<Vec<u8>>)
        requires
            old(self).wf(),
            data@.len() <= 65535,
        ensures
            *final(self) == step(*old(self), *t, data@.len() as int),
            final(self).wf(),
            seg_acceptable(*old(self), *t, data@.len() as int) ==> final(self).recv.nxt == seq_add(
                t.seqn,
                spec_seg_len(*t, data@.len() as int) as u32,
            ),
            !seg_acceptable(*old(self), *t, data@.len() as int) ==> final(self).recv.nxt == old(
                self,
            ).recv.nxt,
            final(out).deep_view() == old(out).deep_view() + step_out(
                *old(self),
                *t,
                data@.len() as int,
            ),
    {
        let ghost c0 = *self;
        let ghost dlen = data@.len() as int;
        // SEG.LEN: data octets, counting SYN and FIN as one each
        let mut slen: u32 = data.len() as u32;
        if t.syn {
            slen = slen + 1;
        }
        if t.fin {
            slen = slen + 1;
        }
        let wend = self.recv.nxt.wrapping_add(self.recv.wnd as u32);
        let nxt_m1 = self.recv.nxt.wrapping_sub(1);
        let acceptable: bool = if slen == 0 {
            if self.recv.wnd == 0 {
                t.seqn == self.recv.nxt
            } else {
                is_between_wrapped(nxt_m1, t.seqn, wend)
            }
        } else {
            if self.recv.wnd == 0 {
                false
            } else {
                is_between_wrapped(nxt_m1, t.seqn, wend) || is_between_wrapped(
                    nxt_m1,
                    t.seqn.wrapping_add(slen - 1),
                    wend,
                )
            }
        };
        assert(acceptable == seg_acceptable(c0, *t, dlen));
        if !acceptable {
            if !t.rst {
                // RFC 793: answer with <SEQ=SND.NXT><ACK=RCV.NXT><CTL=ACK>
                let e: Vec<u8> = Vec::new();
                self.write(e.as_slice(), out);
                proof {
                    assert(write_frame(c0, e@) == write_frame(c0, Seq::<u8>::empty()));
                }
            }
            proof {
                assert(out.deep_view() =~= old(out).deep_view() + step_out(c0, *t, dlen));
            }
            return ;
        }
        self.recv.nxt = t.seqn.wrapping_add(slen);
        if !is_between_wrapped(self.send.una, t.ackn, self.send.nxt.wrapping_add(1)) {
            if self.state.is_synchronized() {
                // a stale ACK on a synchronized connection: empty ACK, drop
                let e: Vec<u8> = Vec::new();
                self.write(e.as_slice(), out);
            } else {
                // reset generation for an unsynchronized connection
                self.send_rst(t, slen, out);
            }
            proof {
                assert(out.deep_view() =~= old(out).deep_view() + step_out(c0, *t, dlen));
            }
            return ;
        }
        proof {
            lemma_ack_window(c0.send.una, c0.send.nxt, t.ackn);
        }
        self.send.una = t.ackn;
        match self.state {
            State::SynRcvd => {
                if t.ack {
                    // the ACK covers our SYN: synchronized; close our half at once
                    self.state = State::Estab;
                    self.tcp.fin = true;
                    let e: Vec<u8> = Vec::new();
                    self.write(e.as_slice(), out);
                    self.state = State::FinWait1;
                }
            },
            State::Estab => {
                // payload delivery is out of scope at this layer: drop
            },
            State::FinWait1 => {
                if t.fin && data.len() == 0 {
                    // our FIN is covered and the peer closed too
                    self.state = State::FinWait2;
                }
            },
            State::FinWait2 => {
                let e: Vec<u8> = Vec::new();
                self.write(e.as_slice(), out);
                self.state = State::TimeWait;
            },
            State::CloseWait => {},
            State::Closing => {},
            State::TimeWait => {},
        }
        proof {
            assert(out.deep_view() =~= old(out).deep_view() + step_out(c0, *t, dlen));
        }
    }
}

} // verus!
