//! The TCP handshake state machine and its connection table. A
//! connection, keyed by the 4-tuple of addresses and ports, advances
//! Listen → SynRecieved → Established and produces at most one outbound
//! segment per inbound segment: the SYN-ACK answering a SYN. The table
//! keeps one record per 4-tuple; a segment for one key never perturbs
//! another key's connection.
use vstd::prelude::*;
use crate::ipv4_header_slice::{ip_dst, ip_src, Ipv4HeaderSlice};
use crate::protocol::Protocol;
use crate::tcp_header::{PsuedoHeader, TcpHeader, MIN_TCP_HEADER_LENGTH};
use crate::tcp_slice::{
    tcp_ack, tcp_ack_number, tcp_dst_port, tcp_seq_number, tcp_src_port, tcp_syn, TcpHeaderSlice,
};

verus! {

/// The fixed initial send sequence number. A deliberate simplification:
/// a production stack must derive this from a clock or randomness.
pub const INITIAL_SEND_SEQUENCE: u32 = 100000;

/// The receive window advertised in the SYN-ACK.
pub const HANDSHAKE_WINDOW: u16 = 5000;

#[derive(Debug, PartialEq, Eq, Structural, Clone, Copy)]
pub struct SendSeq {
    /// send unacknowledged
    pub una: u32,
    /// send next
    pub nxt: u32,
    /// send window
    pub wnd: u32,
    /// send urgent pointer
    pub up: u32,
    /// segment sequence number used for last window update
    pub wl1: u32,
    /// segment acknowledgment number used for last window update
    pub wl2: u32,
    /// initial send sequence number
    pub iss: u32,
}

impl Default for SendSeq {
    fn default() -> (r: Self)
        ensures
            r == (SendSeq { una: 0, nxt: 0, wnd: 0, up: 0, wl1: 0, wl2: 0, iss: 0 }),
    {
        SendSeq { una: 0, nxt: 0, wnd: 0, up: 0, wl1: 0, wl2: 0, iss: 0 }
    }
}

#[derive(Debug, PartialEq, Eq, Structural, Clone, Copy)]
pub struct RecvSeq {
    /// receive next
    pub nxt: u32,
    /// receive window
    pub wnd: u32,
    /// receive urgent pointer
    pub up: u32,
    /// initial receive sequence number
    pub irs: u32,
}

impl Default for RecvSeq {
    fn default() -> (r: Self)
        ensures
            r == (RecvSeq { nxt: 0, wnd: 0, up: 0, irs: 0 }),
    {
        RecvSeq { nxt: 0, wnd: 0, up: 0, irs: 0 }
    }
}

#[derive(Debug, PartialEq, Eq, Structural, Clone, Copy)]
pub enum TcpState {
    Listen,
    SynRecieved,
    Established,
}

#[derive(Debug, PartialEq, Eq, Structural, Clone, Copy)]
pub struct TcpConn {
    pub state: TcpState,
    pub rcv: RecvSeq,
    pub snd: SendSeq,
}

/// The successor of a 32-bit sequence number, modulo 2^32.
pub open spec fn wrap_inc(x: u32) -> u32 {
    if x == 0xFFFF_FFFF {
        0
    } else {
        (x + 1) as u32
    }
}

/// The freshly created connection a first-seen 4-tuple starts with.
pub open spec fn listen_conn() -> TcpConn {
    TcpConn {
        state: TcpState::Listen,
        rcv: RecvSeq { nxt: 0, wnd: 0, up: 0, irs: 0 },
        snd: SendSeq { una: 0, nxt: 0, wnd: 0, up: 0, wl1: 0, wl2: 0, iss: 0 },
    }
}

/// The connection state after one inbound segment with the given SYN and
/// ACK flags, sequence number and acknowledgment number.
///
/// In Listen, a SYN records both initial sequence numbers and moves to
/// SynRecieved; anything else changes nothing. In SynRecieved, an ACK of
/// exactly `snd.nxt` completes the handshake; anything else changes
/// nothing. Established is terminal.
pub open spec fn conn_step(c: TcpConn, syn: bool, ack: bool, seq_number: u32, ack_number: u32) -> TcpConn {
    match c.state {
        TcpState::Listen => if syn {
            TcpConn {
                state: TcpState::SynRecieved,
                snd: SendSeq {
                    una: INITIAL_SEND_SEQUENCE,
                    nxt: wrap_inc(INITIAL_SEND_SEQUENCE),
                    wnd: c.snd.wnd,
                    up: c.snd.up,
                    wl1: c.snd.wl1,
                    wl2: c.snd.wl2,
                    iss: INITIAL_SEND_SEQUENCE,
                },
                rcv: RecvSeq { nxt: wrap_inc(seq_number), wnd: c.rcv.wnd, up: c.rcv.up, irs: seq_number },
            }
        } else {
            c
        },
        TcpState::SynRecieved => if ack && ack_number == c.snd.nxt {
            TcpConn { state: TcpState::Established, rcv: c.rcv, snd: c.snd }
        } else {
            c
        },
        TcpState::Established => c,
    }
}

/// Whether a segment draws a response: only a SYN heard in Listen does.
pub open spec fn conn_emits(c: TcpConn, syn: bool) -> bool {
    c.state == TcpState::Listen && syn
}

/// The SYN-ACK a connection answers a SYN with: ports swapped, the fixed
/// initial sequence number, an acknowledgment of the peer's sequence
/// number plus one, SYN and ACK alone among the flags, the fixed window,
/// no options and no data, and a pseudo-header for the reply direction.
pub open spec fn syn_ack_reply(h: TcpHeader, ipb: Seq<u8>, tb: Seq<u8>) -> bool {
    &&& h.src_port == tcp_dst_port(tb)
    &&& h.dst_port == tcp_src_port(tb)
    &&& h.seq_number == INITIAL_SEND_SEQUENCE
    &&& h.ack_number == wrap_inc(tcp_seq_number(tb))
    &&& !h.cwr
    &&& !h.ece
    &&& !h.urg
    &&& h.ack
    &&& !h.psh
    &&& !h.rst
    &&& h.syn
    &&& !h.fin
    &&& h.window == HANDSHAKE_WINDOW
    &&& h.psuedo_header == (PsuedoHeader {
        src_addr: ip_dst(ipb),
        dst_addr: ip_src(ipb),
        protocol: Protocol::Tcp,
        tcp_length: MIN_TCP_HEADER_LENGTH as u16,
    })
    &&& h.urgent_pointer == 0
    &&& h.options@ == Seq::<u8>::empty()
    &&& h.data@ == Seq::<u8>::empty()
    &&& h.wf()
}

/// The handshake, stated over the transition function: from Listen, a
/// SYN with sequence number `s` moves to SynRecieved, acknowledging
/// `s + 1` and choosing the fixed initial send sequence number; an ACK
/// of exactly `iss + 1` then completes the handshake, while an ACK of
/// any other number, or a segment without ACK, changes nothing; and a
/// segment without SYN leaves a listening connection untouched.
pub proof fn lemma_handshake(
    c: TcpConn,
    syn_seq: u32,
    syn_ack_flag: bool,
    syn_ack_number: u32,
    later_syn: bool,
    later_seq: u32,
    later_ack_number: u32,
)
    requires
        c.state == TcpState::Listen,
    ensures
        ({
            let c1 = conn_step(c, true, syn_ack_flag, syn_seq, syn_ack_number);
            &&& conn_emits(c, true)
            &&& c1.state == TcpState::SynRecieved
            &&& c1.snd.iss == INITIAL_SEND_SEQUENCE
            &&& c1.snd.nxt == wrap_inc(INITIAL_SEND_SEQUENCE)
            &&& c1.rcv.irs == syn_seq
            &&& c1.rcv.nxt == wrap_inc(syn_seq)
            &&& conn_step(c1, later_syn, true, later_seq, wrap_inc(INITIAL_SEND_SEQUENCE)) == (
            TcpConn { state: TcpState::Established, rcv: c1.rcv, snd: c1.snd })
            &&& !conn_emits(c1, later_syn)
            &&& later_ack_number != wrap_inc(INITIAL_SEND_SEQUENCE) ==> conn_step(
                c1,
                later_syn,
                true,
                later_seq,
                later_ack_number,
            ) == c1
            &&& conn_step(c1, later_syn, false, later_seq, later_ack_number) == c1
        }),
        conn_step(c, false, syn_ack_flag, syn_seq, syn_ack_number) == c,
        !conn_emits(c, false),
{
}

impl TcpConn {
    /// A fresh connection, listening, with zeroed sequence bookkeeping.
    pub fn new() -> (r: Self)
        ensures
            r == listen_conn(),
    {
        Self { state: TcpState::Listen, rcv: RecvSeq::default(), snd: SendSeq::default() }
    }

    /// The initial send sequence number for a new connection: the fixed
    /// constant, in this scope.
    pub fn generate_isn(&self) -> (r: u32)
        ensures
            r == INITIAL_SEND_SEQUENCE,
    {
        INITIAL_SEND_SEQUENCE
    }

    /// Advances this connection by one inbound segment and returns the
    /// response segment, if the step calls for one: exactly the SYN-ACK
    /// answering a SYN heard in Listen.
    pub fn on_packet(&mut self, ip: &Ipv4HeaderSlice, tcp: &TcpHeaderSlice) -> (r: Option<
        TcpHeader,
    >)
        requires
            ip.wf(),
            tcp.wf(),
        ensures
            *final(self) == conn_step(
                *old(self),
                tcp_syn(tcp@),
                tcp_ack(tcp@),
                tcp_seq_number(tcp@),
                tcp_ack_number(tcp@),
            ),
            match r {
                Some(h) => conn_emits(*old(self), tcp_syn(tcp@)) && syn_ack_reply(h, ip@, tcp@),
                None => !conn_emits(*old(self), tcp_syn(tcp@)),
            },
    {
        match self.state {
            TcpState::Listen => {
                if !tcp.syn() {
                    return None;
                }
                let seq_number = self.generate_isn();
                let window = HANDSHAKE_WINDOW;
                let peer_seq = tcp.seq_number();
                let peer_seq_next: u32 = if peer_seq == 0xFFFF_FFFF {
                    0
                } else {
                    peer_seq + 1
                };
                self.snd.iss = seq_number;
                self.snd.una = seq_number;
                self.snd.nxt = seq_number + 1;
                self.rcv.irs = peer_seq;
                self.rcv.nxt = peer_seq_next;
                let psuedo_header = PsuedoHeader {
                    dst_addr: ip.src_ip(),
                    src_addr: ip.dst_ip(),
                    protocol: Protocol::Tcp,
                    tcp_length: MIN_TCP_HEADER_LENGTH as u16,
                };
                let tcp_response = TcpHeader {
                    src_port: tcp.dst_port(),
                    dst_port: tcp.src_port(),
                    seq_number,
                    ack_number: peer_seq_next,
                    cwr: false,
                    ece: false,
                    urg: false,
                    ack: true,
                    psh: false,
                    rst: false,
                    syn: true,
                    fin: false,
                    window,
                    psuedo_header,
                    urgent_pointer: 0,
                    options: Vec::new(),
                    data: Vec::new(),
                };
                self.state = TcpState::SynRecieved;
                Some(tcp_response)
            },
            TcpState::SynRecieved => {
                if !tcp.ack() {
                    return None;
                }
                if tcp.ack_number() != self.snd.nxt {
                    return None;
                }
                self.state = TcpState::Established;
                None
            },
            TcpState::Established => None,
        }
    }
}

/// The 4-tuple identifying a connection.
#[derive(Hash, Debug, PartialEq, Eq, Structural, Clone, Copy)]
pub struct Quad {
    pub src_ip: u32,
    pub src_port: u16,
    pub dst_ip: u32,
    pub dst_port: u16,
}

/// The 4-tuple an inbound packet belongs to.
pub open spec fn quad_of(ipb: Seq<u8>, tb: Seq<u8>) -> Quad {
    Quad {
        src_ip: ip_src(ipb),
        src_port: tcp_src_port(tb),
        dst_ip: ip_dst(ipb),
        dst_port: tcp_dst_port(tb),
    }
}

impl Quad {
    /// Reads the 4-tuple of an inbound packet from its IP and TCP views.
    pub fn from(ip: &Ipv4HeaderSlice, tcp: &TcpHeaderSlice) -> (r: Self)
        requires
            ip.wf(),
            tcp.wf(),
        ensures
            r == quad_of(ip@, tcp@),
    {
        Self {
            src_ip: ip.src_ip(),
            src_port: tcp.src_port(),
            dst_ip: ip.dst_ip(),
            dst_port: tcp.dst_port(),
        }
    }
}

/// The connection a table holds for a key: the value beside the last
/// matching entry, searched from the end.
pub open spec fn lookup(s: Seq<(Quad, TcpConn)>, q: Quad) -> Option<TcpConn>
    decreases s.len(),
{
    if s.len() == 0 {
        None
    } else if s.last().0 == q {
        Some(s.last().1)
    } else {
        lookup(s.drop_last(), q)
    }
}

/// A key that appears at exactly one index determines the lookup result.
proof fn lemma_lookup_at(s: Seq<(Quad, TcpConn)>, q: Quad, i: int)
    requires
        0 <= i < s.len(),
        s[i].0 == q,
        forall|j: int| 0 <= j < s.len() && j != i ==> s[j].0 != q,
    ensures
        lookup(s, q) == Some(s[i].1),
    decreases s.len(),
{
    if i < s.len() - 1 {
        lemma_lookup_at(s.drop_last(), q, i);
    }
}

/// A key that appears at no index is not found.
proof fn lemma_lookup_none(s: Seq<(Quad, TcpConn)>, q: Quad)
    requires
        forall|j: int| 0 <= j < s.len() ==> s[j].0 != q,
    ensures
        lookup(s, q) == None::<TcpConn>,
    decreases s.len(),
{
    if s.len() > 0 {
        lemma_lookup_none(s.drop_last(), q);
    }
}

/// Lookup reads only the entries that carry its key: two tables with the
/// same keys, agreeing on every entry under `q`, look `q` up alike.
proof fn lemma_lookup_agree(s1: Seq<(Quad, TcpConn)>, s2: Seq<(Quad, TcpConn)>, q: Quad)
    requires
        s1.len() == s2.len(),
        forall|j: int| 0 <= j < s1.len() ==> s1[j].0 == s2[j].0,
        forall|j: int| 0 <= j < s1.len() && s1[j].0 == q ==> s1[j].1 == s2[j].1,
    ensures
        lookup(s1, q) == lookup(s2, q),
    decreases s1.len(),
{
    if s1.len() > 0 {
        lemma_lookup_agree(s1.drop_last(), s2.drop_last(), q);
    }
}

/// Pushing an entry leaves every other key's lookup unchanged.
proof fn lemma_lookup_push_other(s: Seq<(Quad, TcpConn)>, e: (Quad, TcpConn), q: Quad)
    requires
        e.0 != q,
    ensures
        lookup(s.push(e), q) == lookup(s, q),
{
    assert(s.push(e).drop_last() =~= s);
}

pub struct TcpConnManager {
    conns: Vec<(Quad, TcpConn)>,
}

impl View for TcpConnManager {
    type V = Seq<(Quad, TcpConn)>;

    closed spec fn view(&self) -> Seq<(Quad, TcpConn)> {
        self.conns@
    }
}

impl TcpConnManager {
    /// Each 4-tuple owns at most one entry.
    pub open spec fn wf(self) -> bool {
        forall|i: int, j: int|
            0 <= i < j < self@.len() ==> (#[trigger] self@[i]).0 != (#[trigger] self@[j]).0
    }

    /// An empty connection table.
    pub fn new() -> (r: Self)
        ensures
            r.wf(),
            r@.len() == 0,
    {
        Self { conns: Vec::new() }
    }

    /// The index of the entry holding `quad`, if one exists.
    fn find_index(&self, quad: &Quad) -> (r: Option<usize>)
        ensures
            match r {
                Some(i) => i < self@.len() && self@[i as int].0 == quad,
                None => forall|j: int| 0 <= j < self@.len() ==> self@[j].0 != quad,
            },
    {
        let mut i: usize = 0;
        let len = self.conns.len();
        while i < len
            invariant
                i <= len,
                len == self@.len(),
                forall|j: int| 0 <= j < i ==> self@[j].0 != quad,
            decreases len - i,
        {
            if self.conns[i].0 == *quad {
                return Some(i);
            }
            i = i + 1;
        }
        None
    }

    /// The state of the connection the table holds for a 4-tuple, if it
    /// holds one.
    pub fn connection_state(&self, quad: &Quad) -> (r: Option<TcpState>)
        requires
            self.wf(),
        ensures
            match lookup(self@, *quad) {
                Some(c) => r == Some(c.state),
                None => r is None,
            },
    {
        match self.find_index(quad) {
            Some(i) => {
                proof {
                    lemma_lookup_at(self@, *quad, i as int);
                }
                Some(self.conns[i].1.state)
            },
            None => {
                proof {
                    lemma_lookup_none(self@, *quad);
                }
                None
            },
        }
    }

    /// Advances exactly the connection of the packet's 4-tuple — looked
    /// up, or created in Listen on first sight — by the handshake
    /// transition, and returns that step's response, if any. Every other
    /// 4-tuple's connection is untouched.
    pub fn process_packet(&mut self, ip: &Ipv4HeaderSlice, tcp: &TcpHeaderSlice) -> (r: Option<
        TcpHeader,
    >)
        requires
            old(self).wf(),
            ip.wf(),
            tcp.wf(),
        ensures
            final(self).wf(),
            ({
                let q = quad_of(ip@, tcp@);
                let pre = match lookup(old(self)@, q) {
                    Some(c) => c,
                    None => listen_conn(),
                };
                &&& lookup(final(self)@, q) == Some(
                    conn_step(
                        pre,
                        tcp_syn(tcp@),
                        tcp_ack(tcp@),
                        tcp_seq_number(tcp@),
                        tcp_ack_number(tcp@),
                    ),
                )
                &&& forall|q2: Quad| q2 != q ==> lookup(final(self)@, q2) == lookup(
                    old(self)@,
                    q2,
                )
                &&& match r {
                    Some(h) => conn_emits(pre, tcp_syn(tcp@)) && syn_ack_reply(h, ip@, tcp@),
                    None => !conn_emits(pre, tcp_syn(tcp@)),
                }
            }),
    {
        let quad = Quad::from(ip, tcp);
        match self.find_index(&quad) {
            Some(i) => {
                let ghost pre_table = self@;
                let pair = self.conns[i];
                proof {
                    lemma_lookup_at(pre_table, quad, i as int);
                }
                let mut connection = pair.1;
                let response = connection.on_packet(ip, tcp);
                self.conns[i] = (pair.0, connection);
                proof {
                    assert(self@ =~= pre_table.update(i as int, (quad, connection)));
                    lemma_lookup_at(self@, quad, i as int);
                    assert forall|q2: Quad| q2 != quad implies lookup(self@, q2) == lookup(
                        pre_table,
                        q2,
                    ) by {
                        lemma_lookup_agree(pre_table, self@, q2);
                    }
                }
                response
            },
            None => {
                let ghost pre_table = self@;
                proof {
                    lemma_lookup_none(pre_table, quad);
                }
                let mut connection = TcpConn::new();
                let response = connection.on_packet(ip, tcp);
                self.conns.push((quad, connection));
                proof {
                    assert(self@ =~= pre_table.push((quad, connection)));
                    assert(self@.last() == (quad, connection));
                    assert(lookup(self@, quad) == Some(connection));
                    assert forall|q2: Quad| q2 != quad implies lookup(self@, q2) == lookup(
                        pre_table,
                        q2,
                    ) by {
                        lemma_lookup_push_other(pre_table, (quad, connection), q2);
                    }
                }
                response
            },
        }
    }
}

} // verus!
