//! The dispatcher: routes a parsed inbound IPv4 packet by protocol tag
//! into the ICMP echo responder or the TCP connection table, and wraps
//! the reply — when one is owed — in an IPv4 header with the addresses
//! swapped. Unsupported protocols and malformed payloads yield nothing.
use vstd::prelude::*;
use crate::icmpv4::{process_icmpv4, Icmpv4Type};
use crate::icmpv4_slice::{
    icmp_code, icmp_identifier, icmp_parse_ok, icmp_payload, icmp_sequence_number, icmp_type_of,
    Icmpv4Slice,
};
use crate::ipv4_header_slice::{ip_payload, ip_protocol_bits, reply_header, Ipv4HeaderSlice};
use crate::ipv4_packet::{IpPayload, Ipv4Packet};
use crate::protocol::{protocol_from_bits, Protocol};
use crate::tcp::{
    conn_emits, conn_step, listen_conn, lookup, quad_of, syn_ack_reply, Quad, TcpConn,
    TcpConnManager,
};
use crate::tcp_slice::{
    tcp_ack, tcp_ack_number, tcp_parse_ok, tcp_seq_number, tcp_syn, TcpHeaderSlice,
};

verus! {

/// The connection-table step the dispatcher takes for a TCP packet: the
/// connection of the packet's 4-tuple, or a fresh listening one, after
/// one transition.
pub open spec fn table_step(t: Seq<(Quad, TcpConn)>, ipb: Seq<u8>, tb: Seq<u8>) -> TcpConn {
    let pre = match lookup(t, quad_of(ipb, tb)) {
        Some(c) => c,
        None => listen_conn(),
    };
    conn_step(pre, tcp_syn(tb), tcp_ack(tb), tcp_seq_number(tb), tcp_ack_number(tb))
}

/// Whether the table owes a response for a TCP packet.
pub open spec fn table_emits(t: Seq<(Quad, TcpConn)>, ipb: Seq<u8>, tb: Seq<u8>) -> bool {
    let pre = match lookup(t, quad_of(ipb, tb)) {
        Some(c) => c,
        None => listen_conn(),
    };
    conn_emits(pre, tcp_syn(tb))
}

pub struct Processor {
    tcp_manager: TcpConnManager,
}

impl Processor {
    /// The connection table this processor has built up.
    pub closed spec fn table(self) -> Seq<(Quad, TcpConn)> {
        self.tcp_manager@
    }

    pub closed spec fn wf(self) -> bool {
        self.tcp_manager.wf()
    }

    pub fn new() -> (r: Self)
        ensures
            r.wf(),
            r.table().len() == 0,
    {
        let tcp_manager = TcpConnManager::new();
        Self { tcp_manager }
    }

    /// Processes one inbound packet and returns the reply packet, if one
    /// is owed.
    ///
    /// An ICMP echo request yields an echo reply under a header with the
    /// addresses swapped; any other ICMP payload yields nothing, and the
    /// connection table is untouched. A TCP segment advances exactly its
    /// 4-tuple's connection and yields the handshake response when the
    /// step produces one. UDP and unsupported protocols yield nothing.
    pub fn process_ipv4(&mut self, ip: &Ipv4HeaderSlice) -> (r: Option<Ipv4Packet>)
        requires
            old(self).wf(),
            ip.wf(),
        ensures
            final(self).wf(),
            ({
                let proto = protocol_from_bits(ip_protocol_bits(ip@));
                let pl = ip_payload(ip@);
                &&& (match r {
                    Some(pkt) => {
                        &&& pkt.wf()
                        &&& pkt.spec_header() == reply_header(ip@)
                        &&& (match pkt.spec_payload() {
                            IpPayload::Icmp(v) => {
                                &&& proto == Protocol::Icmp
                                &&& icmp_parse_ok(pl)
                                &&& icmp_type_of(pl) == Icmpv4Type::Echo
                                &&& v.icmp_type == Icmpv4Type::EchoReply
                                &&& v.code == icmp_code(pl)
                                &&& v.identifier == icmp_identifier(pl)
                                &&& v.sequence_number == icmp_sequence_number(pl)
                                &&& v.payload@ == icmp_payload(pl)
                            },
                            IpPayload::Tcp(h) => {
                                &&& proto == Protocol::Tcp
                                &&& tcp_parse_ok(pl)
                                &&& table_emits(old(self).table(), ip@, pl)
                                &&& syn_ack_reply(h, ip@, pl)
                            },
                        })
                    },
                    None => proto == Protocol::Icmp ==> !(icmp_parse_ok(pl) && icmp_type_of(pl)
                        == Icmpv4Type::Echo),
                })
                &&& (r is None && proto == Protocol::Tcp && tcp_parse_ok(pl) ==> !table_emits(
                    old(self).table(),
                    ip@,
                    pl,
                ))
                &&& (proto == Protocol::Tcp && tcp_parse_ok(pl) ==> {
                    &&& lookup(final(self).table(), quad_of(ip@, pl)) == Some(
                        table_step(old(self).table(), ip@, pl),
                    )
                    &&& forall|q2: Quad|
                        q2 != quad_of(ip@, pl) ==> lookup(final(self).table(), q2) == lookup(
                            old(self).table(),
                            q2,
                        )
                })
                &&& (!(proto == Protocol::Tcp && tcp_parse_ok(pl)) ==> final(self).table() == old(
                    self,
                ).table())
            }),
    {
        let payload = match ip.protocol() {
            Protocol::Icmp => {
                let pl = ip.payload();
                let icmp = match Icmpv4Slice::from_buf(pl.as_slice()) {
                    Some(icmp) => icmp,
                    None => {
                        return None;
                    },
                };
                let reply = match process_icmpv4(&icmp) {
                    Some(reply) => reply,
                    None => {
                        return None;
                    },
                };
                IpPayload::Icmp(reply)
            },
            Protocol::Tcp => {
                let pl = ip.payload();
                let tcp = match TcpHeaderSlice::from_buf(pl.as_slice()) {
                    Some(tcp) => tcp,
                    None => {
                        return None;
                    },
                };
                let reply = match self.tcp_manager.process_packet(ip, &tcp) {
                    Some(reply) => reply,
                    None => {
                        return None;
                    },
                };
                IpPayload::Tcp(reply)
            },
            Protocol::Udp | Protocol::Unsupported => {
                return None;
            },
        };
        Some(Ipv4Packet::new(ip.reply(), payload))
    }
}

} // verus!
