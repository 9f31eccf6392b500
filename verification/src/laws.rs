//! Protocol-level laws of the connection state machine, stated over the
//! step function that `Connection::on_packet` is proved to implement.

use vstd::prelude::*;

use crate::seq32::{lemma_seq_add_fold, seq_add, seq_between, seq_sub};
use crate::tcp::{
    accepted_conn, ack_acceptable, rst_frame, seg_acceptable, spec_seg_len, spec_write, step,
    step_out, Connection, ReceiveSequenceSpace,
};
use crate::wire::{Ipv4Meta, TcpMeta};

verus! {

/// In SYN-RCVD, a window-acceptable segment decides the handshake: a new
/// acknowledgment carrying ACK synchronizes the connection — ESTAB is
/// transient, the endpoint at once closes its half with a FIN, so the
/// call rests in FIN-WAIT-1 with SND.UNA = SEG.ACK and SND.NXT one past
/// the FIN — while a stale acknowledgment leaves state and send space
/// unchanged and elicits exactly one reset frame.
pub proof fn lemma_syn_rcvd_ack(c: Connection, t: TcpMeta, dlen: int)
    requires
        c.wf(),
        c.state is SynRcvd,
        seg_acceptable(c, t, dlen),
    ensures
        ack_acceptable(c, t.ackn) && t.ack ==> {
            &&& step(c, t, dlen).state is FinWait1
            &&& step(c, t, dlen).state.spec_is_synchronized()
            &&& step(c, t, dlen).send.una == t.ackn
            &&& step(c, t, dlen).send.nxt == seq_add(c.send.nxt, 1)
        },
        !ack_acceptable(c, t.ackn) ==> {
            &&& step(c, t, dlen).state is SynRcvd
            &&& step(c, t, dlen).send == c.send
            &&& step_out(c, t, dlen) == seq![rst_frame(c, t, spec_seg_len(t, dlen) as u32)]
        },
{
    let c1 = Connection {
        recv: (ReceiveSequenceSpace {
            nxt: seq_add(t.seqn, spec_seg_len(t, dlen) as u32),
            ..c.recv
        }),
        ..c
    };
    assert(rst_frame(c1, t, spec_seg_len(t, dlen) as u32) == rst_frame(
        c,
        t,
        spec_seg_len(t, dlen) as u32,
    ));
    if !ack_acceptable(c, t.ackn) {
        assert(step_out(c, t, dlen) =~= seq![rst_frame(c, t, spec_seg_len(t, dlen) as u32)]);
    }
}

/// The connection after a sequence of inbound segments, each paired with
/// its count of data octets.
pub open spec fn run(c: Connection, evs: Seq<(TcpMeta, int)>) -> Connection
    decreases evs.len(),
{
    if evs.len() == 0 {
        c
    } else {
        run(step(c, evs[0].0, evs[0].1), evs.drop_first())
    }
}

/// The segments arrive in order: each carries at most an IPv4 datagram's
/// worth of data and starts exactly at the RCV.NXT of its moment.
pub open spec fn in_order(c: Connection, evs: Seq<(TcpMeta, int)>) -> bool
    decreases evs.len(),
{
    evs.len() == 0 || {
        &&& 0 <= evs[0].1 <= 65535
        &&& evs[0].0.seqn == c.recv.nxt
        &&& in_order(step(c, evs[0].0, evs[0].1), evs.drop_first())
    }
}

/// The total sequence-space length of the segments the run accepts
/// (window-acceptable segments; data octets plus SYN and FIN).
pub open spec fn accepted_total(c: Connection, evs: Seq<(TcpMeta, int)>) -> int
    decreases evs.len(),
{
    if evs.len() == 0 {
        0
    } else {
        (if seg_acceptable(c, evs[0].0, evs[0].1) {
            spec_seg_len(evs[0].0, evs[0].1)
        } else {
            0
        }) + accepted_total(step(c, evs[0].0, evs[0].1), evs.drop_first())
    }
}

/// Across any in-order sequence of segments, RCV.NXT moves only when a
/// segment is accepted, each time forward by that segment's
/// sequence-space length: in total it advances on the circle by exactly
/// the sum of the accepted lengths (mod 2^32).
pub proof fn lemma_rcv_nxt_advance(c: Connection, evs: Seq<(TcpMeta, int)>)
    requires
        in_order(c, evs),
    ensures
        accepted_total(c, evs) >= 0,
        run(c, evs).recv.nxt == seq_add(
            c.recv.nxt,
            (accepted_total(c, evs) % 0x1_0000_0000) as u32,
        ),
    decreases evs.len(),
{
    let m = 0x1_0000_0000int;
    if evs.len() == 0 {
        assert(seq_add(c.recv.nxt, (0int % m) as u32) == c.recv.nxt);
    } else {
        let t = evs[0].0;
        let d = evs[0].1;
        let c1 = step(c, t, d);
        lemma_rcv_nxt_advance(c1, evs.drop_first());
        let s0: int = if seg_acceptable(c, t, d) {
            spec_seg_len(t, d)
        } else {
            0
        };
        vstd::arithmetic::div_mod::lemma_small_mod(s0 as nat, m as nat);
        assert(c1.recv.nxt == seq_add(c.recv.nxt, (s0 % m) as u32));
        lemma_seq_add_fold(c.recv.nxt, s0, accepted_total(c1, evs.drop_first()));
    }
}

/// Once the connection rests in FIN-WAIT-2 nothing remains unacknowledged
/// (SND.UNA = SND.NXT), so the strict new-acknowledgment test of RFC 793
/// section 3.3 rejects every further segment: FIN-WAIT-2 is absorbing,
/// and TIME-WAIT is out of reach of this endpoint.
pub proof fn lemma_fin_wait_2_absorbing(c: Connection, t: TcpMeta, dlen: int)
    requires
        c.wf(),
        c.state is FinWait2,
        c.send.una == c.send.nxt,
    ensures
        step(c, t, dlen).state is FinWait2,
        step(c, t, dlen).send.una == step(c, t, dlen).send.nxt,
{
    assert(!ack_acceptable(c, t.ackn));
}

/// The canned dialog, driven by an in-order peer that answers each of
/// our emissions correctly: the SYN opens the connection in SYN-RCVD;
/// the ACK of our SYN synchronizes it and our FIN goes out (FIN-WAIT-1);
/// the peer's FIN+ACK covering that FIN rests it in FIN-WAIT-2, with
/// nothing of ours left unacknowledged — three inbound segments in all.
pub proof fn lemma_round_trip(iph: Ipv4Meta, syn: TcpMeta, ack1: TcpMeta, fin1: TcpMeta)
    requires
        syn.syn,
        syn.wnd >= 1,
        ack1.seqn == seq_add(syn.seqn, 1),
        ack1.ackn == 1,
        ack1.ack,
        !ack1.syn,
        !ack1.fin,
        !ack1.rst,
        fin1.seqn == seq_add(syn.seqn, 1),
        fin1.ackn == 2,
        fin1.ack,
        fin1.fin,
        !fin1.syn,
        !fin1.rst,
    ensures
        ({
            let c0 = spec_write(accepted_conn(iph, syn), 0);
            let c1 = step(c0, ack1, 0);
            let c2 = step(c1, fin1, 0);
            &&& c0.state is SynRcvd
            &&& c1.state is FinWait1
            &&& c2.state is FinWait2
            &&& c2.send.una == c2.send.nxt
        }),
{
    let c0 = spec_write(accepted_conn(iph, syn), 0);
    let nxt = seq_add(syn.seqn, 1);
    assert(c0.recv.nxt == nxt);
    assert(seg_acceptable(c0, ack1, 0)) by {
        assert(seq_between(seq_sub(nxt, 1), nxt, seq_add(nxt, syn.wnd as u32)));
    }
    assert(ack_acceptable(c0, 1));
    let c1 = step(c0, ack1, 0);
    assert(c1.state is FinWait1);
    assert(c1.send.una == 1 && c1.send.nxt == 2);
    assert(c1.recv.nxt == nxt && c1.recv.wnd == syn.wnd);
    assert(seg_acceptable(c1, fin1, 0)) by {
        assert(seq_between(seq_sub(nxt, 1), nxt, seq_add(nxt, syn.wnd as u32)));
    }
    assert(ack_acceptable(c1, 2));
    let c2 = step(c1, fin1, 0);
    assert(c2.state is FinWait2);
}

} // verus!
