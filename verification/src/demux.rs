//! The demultiplexer: a process-wide table from the 4-tuple of a flow to
//! its connection. An inbound IPv4 datagram is decoded, filtered to TCP,
//! and dispatched to the connection that owns its tuple; the first SYN of
//! an unknown tuple opens a connection passively.

use vstd::prelude::*;

use crate::tcp::{accepted_conn, spec_write, step, step_out, write_frame, Connection};
use crate::wire::{ipv4_parse, parse_ipv4, parse_tcp, tcp_parse, Ipv4Meta, TcpMeta};

verus! {

/// The key of a flow, oriented as seen on the wire from the peer: the
/// source is the peer's address and port, the destination ours.
#[derive(Clone, Copy, PartialEq, Eq, Structural, Debug)]
pub struct FourTuple {
    pub src_ip: u32,
    pub src_port: u16,
    pub dst_ip: u32,
    pub dst_port: u16,
}

/// The tuple under which a parsed segment is filed.
pub open spec fn tuple_of(iph: Ipv4Meta, t: TcpMeta) -> FourTuple {
    FourTuple { src_ip: iph.src, src_port: t.src_port, dst_ip: iph.dst, dst_port: t.dst_port }
}

/// The first position of `k` among the entries, or -1 when absent.
pub open spec fn find_idx(s: Seq<(FourTuple, Connection)>, k: FourTuple) -> int
    decreases s.len(),
{
    if s.len() == 0 {
        -1
    } else if s[0].0 == k {
        0
    } else {
        let r = find_idx(s.drop_first(), k);
        if r < 0 {
            -1
        } else {
            r + 1
        }
    }
}

proof fn lemma_find_idx_bounds(s: Seq<(FourTuple, Connection)>, k: FourTuple)
    ensures
        -1 <= find_idx(s, k) < s.len(),
        find_idx(s, k) >= 0 ==> s[find_idx(s, k)].0 == k,
        find_idx(s, k) == -1 ==> forall|i: int| 0 <= i < s.len() ==> s[i].0 != k,
    decreases s.len(),
{
    if s.len() > 0 && s[0].0 != k {
        lemma_find_idx_bounds(s.drop_first(), k);
        assert forall|i: int| find_idx(s, k) == -1 && 0 <= i < s.len() implies s[i].0 != k by {
            if i > 0 {
                assert(s.drop_first()[i - 1] == s[i]);
            }
        }
    }
}

proof fn lemma_find_idx_at(s: Seq<(FourTuple, Connection)>, k: FourTuple, i: int)
    requires
        0 <= i < s.len(),
        s[i].0 == k,
        forall|j: int| 0 <= j < i ==> s[j].0 != k,
    ensures
        find_idx(s, k) == i,
    decreases s.len(),
{
    if i > 0 {
        assert forall|j: int| 0 <= j < i - 1 implies s.drop_first()[j].0 != k by {
            assert(s.drop_first()[j] == s[j + 1]);
        }
        assert(s.drop_first()[i - 1] == s[i]);
        lemma_find_idx_at(s.drop_first(), k, i - 1);
    }
}

/// The table after one parsed segment is dispatched: the owning entry is
/// stepped in place; an unknown tuple is appended on its first SYN and
/// left alone otherwise.
pub open spec fn table_step(
    s: Seq<(FourTuple, Connection)>,
    iph: Ipv4Meta,
    t: TcpMeta,
    dlen: int,
) -> Seq<(FourTuple, Connection)> {
    let k = tuple_of(iph, t);
    let idx = find_idx(s, k);
    if idx >= 0 {
        s.update(idx, (k, step(s[idx].1, t, dlen)))
    } else if t.syn {
        s.push((k, spec_write(accepted_conn(iph, t), 0)))
    } else {
        s
    }
}

/// The frames a dispatched segment emits: the owning connection's
/// replies, or the SYN+ACK of a passive open.
pub open spec fn table_step_out(
    s: Seq<(FourTuple, Connection)>,
    iph: Ipv4Meta,
    t: TcpMeta,
    dlen: int,
) -> Seq<Seq<u8>> {
    let k = tuple_of(iph, t);
    let idx = find_idx(s, k);
    if idx >= 0 {
        step_out(s[idx].1, t, dlen)
    } else if t.syn {
        seq![write_frame(accepted_conn(iph, t), Seq::<u8>::empty())]
    } else {
        Seq::<Seq<u8>>::empty()
    }
}

/// The table after one raw datagram: decode the IPv4 header, keep
/// protocol 6, decode the TCP header behind it, check that the IP
/// total-length field spans the headers and lies within the buffer,
/// carve out the payload, and dispatch; every failure drops the frame.
pub open spec fn frame_step(s: Seq<(FourTuple, Connection)>, b: Seq<u8>) -> Seq<
    (FourTuple, Connection),
> {
    match ipv4_parse(b) {
        Option::None => s,
        Option::Some(ih) => {
            if ih.proto != 6 {
                s
            } else {
                match tcp_parse(b.subrange(ih.header_len as int, b.len() as int)) {
                    Option::None => s,
                    Option::Some(th) => {
                        let dstart = ih.header_len + th.header_len;
                        let dend = ih.total_len as int;
                        if dend < dstart || dend > b.len() {
                            s
                        } else {
                            table_step(s, ih, th, dend - dstart)
                        }
                    },
                }
            }
        },
    }
}

/// The frames one raw datagram elicits.
pub open spec fn frame_step_out(s: Seq<(FourTuple, Connection)>, b: Seq<u8>) -> Seq<Seq<u8>> {
    match ipv4_parse(b) {
        Option::None => Seq::<Seq<u8>>::empty(),
        Option::Some(ih) => {
            if ih.proto != 6 {
                Seq::<Seq<u8>>::empty()
            } else {
                match tcp_parse(b.subrange(ih.header_len as int, b.len() as int)) {
                    Option::None => Seq::<Seq<u8>>::empty(),
                    Option::Some(th) => {
                        let dstart = ih.header_len + th.header_len;
                        let dend = ih.total_len as int;
                        if dend < dstart || dend > b.len() {
                            Seq::<Seq<u8>>::empty()
                        } else {
                            table_step_out(s, ih, th, dend - dstart)
                        }
                    },
                }
            }
        },
    }
}

/// The demultiplexing table. It exclusively owns every connection;
/// entries are keyed uniquely and each held connection is well formed.
pub struct ConnTable {
    pub entries: Vec<(FourTuple, Connection)>,
}

impl ConnTable {
    /// Unique keys, well-formed connections.
    pub open spec fn wf(self) -> bool {
        &&& forall|i: int, j: int|
            0 <= i < j < self.entries@.len() ==> self.entries@[i].0 != self.entries@[j].0
        &&& forall|i: int| 0 <= i < self.entries@.len() ==> self.entries@[i].1.wf()
    }

    pub open spec fn spec_contains(self, k: FourTuple) -> bool {
        find_idx(self.entries@, k) >= 0
    }

    pub fn new() -> (r: ConnTable)
        ensures
            r.wf(),
            r.entries@.len() == 0,
    {
        ConnTable { entries: Vec::new() }
    }

    /// The position of the entry owning `k`, if any.
    fn lookup(&self, k: FourTuple) -> (r: Option<usize>)
        ensures
            r matches Some(i) ==> find_idx(self.entries@, k) == i as int,
            r is None ==> find_idx(self.entries@, k) == -1,
    {
        let mut i: usize = 0;
        while i < self.entries.len()
            invariant
                i <= self.entries@.len(),
                forall|j: int| 0 <= j < i ==> self.entries@[j].0 != k,
            decreases self.entries@.len() - i,
        {
            if self.entries[i].0 == k {
                proof {
                    lemma_find_idx_at(self.entries@, k, i as int);
                }
                return Some(i);
            }
            i = i + 1;
        }
        proof {
            lemma_find_idx_bounds(self.entries@, k);
        }
        None
    }

    /// Dispatch one parsed segment: step the owning connection, or open
    /// one passively on the first SYN of an unknown tuple.
    pub fn handle_segment(
        &mut self,
        iph: &Ipv4Meta,
        t: &TcpMeta,
        data: &[u8],
        out: &mut Vec<Vec<u8>>,
    )
        requires
            old(self).wf(),
            data@.len() <= 65535,
        ensures
            final(self).wf(),
            final(self).entries@ == table_step(old(self).entries@, *iph, *t, data@.len() as int),
            final(out).deep_view() == old(out).deep_view() + table_step_out(
                old(self).entries@,
                *iph,
                *t,
                data@.len() as int,
            ),
    {
        let ghost s0 = self.entries@;
        let ghost dlen = data@.len() as int;
        let k = FourTuple {
            src_ip: iph.src,
            src_port: t.src_port,
            dst_ip: iph.dst,
            dst_port: t.dst_port,
        };
        proof {
            lemma_find_idx_bounds(s0, k);
        }
        match self.lookup(k) {
            Some(i) => {
                let (kk, mut c) = self.entries.remove(i);
                c.on_packet(t, data, out);
                self.entries.insert(i, (kk, c));
                proof {
                    assert(self.entries@ =~= s0.update(i as int, (k, step(s0[i as int].1, *t, dlen))));
                    assert(out.deep_view() =~= old(out).deep_view() + table_step_out(s0, *iph, *t, dlen));
                }
            },
            None => {
                match Connection::accept(iph, t, data, out) {
                    Some(c) => {
                        self.entries.push((k, c));
                        proof {
                            assert(Seq::<u8>::empty().subrange(0, 0) =~= Seq::<u8>::empty());
                            assert(self.entries@ =~= s0.push((k, spec_write(accepted_conn(*iph, *t), 0))));
                            assert(out.deep_view() =~= old(out).deep_view() + table_step_out(s0, *iph, *t, dlen));
                        }
                    },
                    None => {
                        proof {
                            assert(out.deep_view() =~= old(out).deep_view() + table_step_out(s0, *iph, *t, dlen));
                        }
                    },
                }
            },
        }
    }

    /// Process one raw IPv4 datagram from the device, queueing every
    /// reply frame it elicits. Datagrams that do not decode as TCP over
    /// IPv4, or whose length fields are inconsistent with the buffer,
    /// are dropped silently.
    pub fn on_frame(&mut self, buf: &[u8], out: &mut Vec<Vec<u8>>)
        requires
            old(self).wf(),
        ensures
            final(self).wf(),
            final(self).entries@ == frame_step(old(self).entries@, buf@),
            final(out).deep_view() == old(out).deep_view() + frame_step_out(
                old(self).entries@,
                buf@,
            ),
    {
        let ghost s0 = self.entries@;
        let iph = match parse_ipv4(buf) {
            Some(h) => h,
            None => {
                proof {
                    assert(out.deep_view() =~= old(out).deep_view() + frame_step_out(s0, buf@));
                }
                return ;
            },
        };
        if iph.proto != 6 {
            // not TCP: drop
            proof {
                assert(out.deep_view() =~= old(out).deep_view() + frame_step_out(s0, buf@));
            }
            return ;
        }
        let ip_hl: usize = iph.header_len as usize;
        let tcph = match parse_tcp(vstd::slice::slice_subrange(buf, ip_hl, buf.len())) {
            Some(h) => h,
            None => {
                proof {
                    assert(out.deep_view() =~= old(out).deep_view() + frame_step_out(s0, buf@));
                }
                return ;
            },
        };
        let dstart: usize = ip_hl + tcph.header_len as usize;
        let dend: usize = iph.total_len as usize;
        if dend < dstart || dend > buf.len() {
            // length fields inconsistent with what the device delivered: drop
            proof {
                assert(out.deep_view() =~= old(out).deep_view() + frame_step_out(s0, buf@));
            }
            return ;
        }
        let data = vstd::slice::slice_subrange(buf, dstart, dend);
        self.handle_segment(&iph, &tcph, data, out);
    }
}

} // verus!
