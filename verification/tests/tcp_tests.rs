use netstack::checksum::ones_complement_sum;
use netstack::error::SerializeError;
use netstack::ipv4_header::Ipv4Header;
use netstack::ipv4_header_slice::Ipv4HeaderSlice;
use netstack::protocol::Protocol;
use netstack::tcp::{Quad, TcpConnManager, TcpState};
use netstack::tcp_header::{PsuedoHeader, TcpHeader};
use netstack::tcp_slice::TcpHeaderSlice;

const SYN: u8 = 0x02;
const ACK: u8 = 0x10;

/// A minimal 20-byte TCP segment with the given ports, numbers and flags.
fn tcp_segment(src_port: u16, dst_port: u16, seq: u32, ack: u32, flags: u8) -> Vec<u8> {
    let mut b = vec![0u8; 20];
    b[0..2].copy_from_slice(&src_port.to_be_bytes());
    b[2..4].copy_from_slice(&dst_port.to_be_bytes());
    b[4..8].copy_from_slice(&seq.to_be_bytes());
    b[8..12].copy_from_slice(&ack.to_be_bytes());
    b[12] = 5 << 4;
    b[13] = flags;
    b[14] = 0x10;
    b
}

/// An IPv4 packet carrying `payload` under the given protocol number.
fn ip_packet(src_ip: u32, dst_ip: u32, protocol: Protocol, payload: &[u8]) -> Vec<u8> {
    let header = Ipv4Header {
        tos: 0,
        identification: 1,
        dont_fragment: true,
        more_fragments: false,
        fragment_offset: 0,
        ttl: 64,
        protocol,
        src_ip,
        dst_ip,
    };
    let mut buf = vec![0u8; 20 + payload.len()];
    header.to_buf(&mut buf, payload.len()).expect("the test packet serializes");
    buf[20..].copy_from_slice(payload);
    buf
}

#[test]
fn tcp_parse_reads_every_field() {
    let mut seg = tcp_segment(0x1234, 0x0050, 0xDEAD_BEEF, 0x0102_0304, 0xFF);
    seg[18] = 0xAB;
    seg[19] = 0xCD;
    let view = TcpHeaderSlice::from_buf(&seg).expect("a minimal segment parses");
    assert_eq!(view.src_port(), 0x1234);
    assert_eq!(view.dst_port(), 0x0050);
    assert_eq!(view.seq_number(), 0xDEAD_BEEF);
    assert_eq!(view.ack_number(), 0x0102_0304);
    assert_eq!(view.data_offset(), 5);
    assert!(view.cwr());
    assert!(view.ece());
    assert!(view.urg());
    assert!(view.ack());
    assert!(view.psh());
    assert!(view.rst());
    assert!(view.syn());
    assert!(view.fin());
    assert_eq!(view.window(), 0x1000);
    assert_eq!(view.urgent_pointer(), 0xABCD);
    assert_eq!(view.options(), Vec::<u8>::new());
    assert_eq!(view.data(), Vec::<u8>::new());
}

#[test]
fn tcp_parse_splits_options_and_data() {
    let mut seg = tcp_segment(1, 2, 0, 0, SYN);
    seg[12] = 6 << 4;
    seg.extend_from_slice(&[0x01, 0x01, 0x01, 0x00]);
    seg.extend_from_slice(&[0x55, 0x66]);
    let view = TcpHeaderSlice::from_buf(&seg).expect("a segment with options parses");
    assert_eq!(view.data_offset(), 6);
    assert_eq!(view.options(), vec![0x01, 0x01, 0x01, 0x00]);
    assert_eq!(view.data(), vec![0x55, 0x66]);
}

#[test]
fn tcp_short_buffer_fails_to_parse() {
    assert!(TcpHeaderSlice::from_buf(&[0u8; 19]).is_none());
}

#[test]
fn tcp_data_offset_beyond_buffer_fails_to_parse() {
    let mut seg = tcp_segment(1, 2, 0, 0, SYN);
    seg[12] = 6 << 4;
    assert!(TcpHeaderSlice::from_buf(&seg).is_none());
}

#[test]
fn tcp_serialized_segment_checksum_validates() {
    let src_addr = 0x0A00_0002u32;
    let dst_addr = 0x0A00_0001u32;
    let header = TcpHeader {
        src_port: 80,
        dst_port: 4000,
        seq_number: 100000,
        ack_number: 1001,
        cwr: false,
        ece: false,
        urg: false,
        ack: true,
        psh: false,
        rst: false,
        syn: true,
        fin: false,
        window: 5000,
        psuedo_header: PsuedoHeader {
            src_addr,
            dst_addr,
            protocol: Protocol::Tcp,
            tcp_length: 20,
        },
        urgent_pointer: 0,
        options: Vec::new(),
        data: Vec::new(),
    };
    let mut buf = vec![0u8; 20];
    assert_eq!(header.to_buf(&mut buf), Ok(20));
    assert_eq!(&buf[0..2], &80u16.to_be_bytes());
    assert_eq!(&buf[2..4], &4000u16.to_be_bytes());
    assert_eq!(buf[12], 5 << 4);
    assert_eq!(buf[13], SYN | ACK);
    // Fold the pseudo-header, then the emitted segment with its checksum:
    // the one's-complement sum must be all ones.
    let mut sum = ones_complement_sum((src_addr >> 16) as u16, (src_addr & 0xFFFF) as u16);
    sum = ones_complement_sum(sum, (dst_addr >> 16) as u16);
    sum = ones_complement_sum(sum, (dst_addr & 0xFFFF) as u16);
    sum = ones_complement_sum(sum, 6);
    sum = ones_complement_sum(sum, 20);
    let mut i = 0;
    while i < buf.len() {
        let word = ((buf[i] as u16) << 8) | (buf[i + 1] as u16);
        sum = ones_complement_sum(sum, word);
        i += 2;
    }
    assert_eq!(sum, 0xFFFF);
}

#[test]
fn tcp_serialize_buffer_too_small() {
    let header = TcpHeader {
        src_port: 1,
        dst_port: 2,
        seq_number: 0,
        ack_number: 0,
        cwr: false,
        ece: false,
        urg: false,
        ack: false,
        psh: false,
        rst: false,
        syn: true,
        fin: false,
        window: 0,
        psuedo_header: PsuedoHeader {
            src_addr: 0,
            dst_addr: 0,
            protocol: Protocol::Tcp,
            tcp_length: 20,
        },
        urgent_pointer: 0,
        options: Vec::new(),
        data: Vec::new(),
    };
    let mut buf = vec![3u8; 19];
    assert_eq!(header.to_buf(&mut buf), Err(SerializeError::BufferTooSmall));
    assert_eq!(buf, vec![3u8; 19]);
}

#[test]
fn tcp_handshake() {
    let client = 0x0A00_0001u32;
    let server = 0x0A00_0002u32;
    let quad = Quad { src_ip: client, src_port: 4000, dst_ip: server, dst_port: 80 };
    let mut mgr = TcpConnManager::new();
    assert_eq!(mgr.connection_state(&quad), None);

    // A SYN with sequence number 1000 draws a SYN-ACK acknowledging 1001.
    let syn_seg = tcp_segment(4000, 80, 1000, 0, SYN);
    let syn_ip = ip_packet(client, server, Protocol::Tcp, &syn_seg);
    let ip = Ipv4HeaderSlice::from_buf(&syn_ip).unwrap();
    let tcp = TcpHeaderSlice::from_buf(&syn_seg).unwrap();
    let resp = mgr.process_packet(&ip, &tcp).expect("a SYN draws a SYN-ACK");
    assert!(resp.syn);
    assert!(resp.ack);
    assert!(!resp.rst && !resp.fin && !resp.psh && !resp.urg && !resp.cwr && !resp.ece);
    assert_eq!(resp.ack_number, 1001);
    assert_eq!(resp.src_port, 80);
    assert_eq!(resp.dst_port, 4000);
    assert_eq!(resp.psuedo_header.src_addr, server);
    assert_eq!(resp.psuedo_header.dst_addr, client);
    let s = resp.seq_number;
    assert_eq!(mgr.connection_state(&quad), Some(TcpState::SynRecieved));

    // An ACK with the wrong acknowledgment number changes nothing.
    let bad_seg = tcp_segment(4000, 80, 1001, s.wrapping_add(2), ACK);
    let bad_ip = ip_packet(client, server, Protocol::Tcp, &bad_seg);
    let ip_bad = Ipv4HeaderSlice::from_buf(&bad_ip).unwrap();
    let tcp_bad = TcpHeaderSlice::from_buf(&bad_seg).unwrap();
    assert!(mgr.process_packet(&ip_bad, &tcp_bad).is_none());
    assert_eq!(mgr.connection_state(&quad), Some(TcpState::SynRecieved));

    // A segment without ACK changes nothing either.
    let no_ack_seg = tcp_segment(4000, 80, 1001, s.wrapping_add(1), 0);
    let no_ack_ip = ip_packet(client, server, Protocol::Tcp, &no_ack_seg);
    let ip_na = Ipv4HeaderSlice::from_buf(&no_ack_ip).unwrap();
    let tcp_na = TcpHeaderSlice::from_buf(&no_ack_seg).unwrap();
    assert!(mgr.process_packet(&ip_na, &tcp_na).is_none());
    assert_eq!(mgr.connection_state(&quad), Some(TcpState::SynRecieved));

    // The ACK of exactly S + 1 completes the handshake, silently.
    let ack_seg = tcp_segment(4000, 80, 1001, s.wrapping_add(1), ACK);
    let ack_ip = ip_packet(client, server, Protocol::Tcp, &ack_seg);
    let ip_ok = Ipv4HeaderSlice::from_buf(&ack_ip).unwrap();
    let tcp_ok = TcpHeaderSlice::from_buf(&ack_seg).unwrap();
    assert!(mgr.process_packet(&ip_ok, &tcp_ok).is_none());
    assert_eq!(mgr.connection_state(&quad), Some(TcpState::Established));
}

#[test]
fn tcp_listen_ignores_segment_without_syn() {
    let client = 0x0A00_0001u32;
    let server = 0x0A00_0002u32;
    let quad = Quad { src_ip: client, src_port: 4000, dst_ip: server, dst_port: 80 };
    let mut mgr = TcpConnManager::new();
    let seg = tcp_segment(4000, 80, 1000, 0, ACK);
    let ipb = ip_packet(client, server, Protocol::Tcp, &seg);
    let ip = Ipv4HeaderSlice::from_buf(&ipb).unwrap();
    let tcp = TcpHeaderSlice::from_buf(&seg).unwrap();
    assert!(mgr.process_packet(&ip, &tcp).is_none());
    assert_eq!(mgr.connection_state(&quad), Some(TcpState::Listen));
}

#[test]
fn connection_table_isolation() {
    let client = 0x0A00_0001u32;
    let server = 0x0A00_0002u32;
    let quad_a = Quad { src_ip: client, src_port: 4000, dst_ip: server, dst_port: 80 };
    let quad_b = Quad { src_ip: client, src_port: 5000, dst_ip: server, dst_port: 80 };
    let mut mgr = TcpConnManager::new();

    // A SYN on tuple A creates A alone.
    let syn_a = tcp_segment(4000, 80, 1000, 0, SYN);
    let ip_a_bytes = ip_packet(client, server, Protocol::Tcp, &syn_a);
    let ip_a = Ipv4HeaderSlice::from_buf(&ip_a_bytes).unwrap();
    let tcp_a = TcpHeaderSlice::from_buf(&syn_a).unwrap();
    let resp_a = mgr.process_packet(&ip_a, &tcp_a).expect("a SYN draws a SYN-ACK");
    assert_eq!(mgr.connection_state(&quad_a), Some(TcpState::SynRecieved));
    assert_eq!(mgr.connection_state(&quad_b), None);

    // A SYN on tuple B leaves A untouched.
    let syn_b = tcp_segment(5000, 80, 2000, 0, SYN);
    let ip_b_bytes = ip_packet(client, server, Protocol::Tcp, &syn_b);
    let ip_b = Ipv4HeaderSlice::from_buf(&ip_b_bytes).unwrap();
    let tcp_b = TcpHeaderSlice::from_buf(&syn_b).unwrap();
    let resp_b = mgr.process_packet(&ip_b, &tcp_b).expect("a SYN draws a SYN-ACK");
    assert_eq!(resp_b.ack_number, 2001);
    assert_eq!(mgr.connection_state(&quad_a), Some(TcpState::SynRecieved));
    assert_eq!(mgr.connection_state(&quad_b), Some(TcpState::SynRecieved));

    // Completing A's handshake leaves B in SynRecieved.
    let ack_a = tcp_segment(4000, 80, 1001, resp_a.seq_number.wrapping_add(1), ACK);
    let ip_ack_bytes = ip_packet(client, server, Protocol::Tcp, &ack_a);
    let ip_ack = Ipv4HeaderSlice::from_buf(&ip_ack_bytes).unwrap();
    let tcp_ack = TcpHeaderSlice::from_buf(&ack_a).unwrap();
    assert!(mgr.process_packet(&ip_ack, &tcp_ack).is_none());
    assert_eq!(mgr.connection_state(&quad_a), Some(TcpState::Established));
    assert_eq!(mgr.connection_state(&quad_b), Some(TcpState::SynRecieved));
}

#[test]
fn established_connection_stays_silent() {
    let client = 0x0A00_0001u32;
    let server = 0x0A00_0002u32;
    let quad = Quad { src_ip: client, src_port: 4000, dst_ip: server, dst_port: 80 };
    let mut mgr = TcpConnManager::new();
    let syn_seg = tcp_segment(4000, 80, 1000, 0, SYN);
    let syn_ip = ip_packet(client, server, Protocol::Tcp, &syn_seg);
    let ip = Ipv4HeaderSlice::from_buf(&syn_ip).unwrap();
    let tcp = TcpHeaderSlice::from_buf(&syn_seg).unwrap();
    let resp = mgr.process_packet(&ip, &tcp).unwrap();
    let ack_seg = tcp_segment(4000, 80, 1001, resp.seq_number.wrapping_add(1), ACK);
    let ack_ip = ip_packet(client, server, Protocol::Tcp, &ack_seg);
    let ip2 = Ipv4HeaderSlice::from_buf(&ack_ip).unwrap();
    let tcp2 = TcpHeaderSlice::from_buf(&ack_seg).unwrap();
    assert!(mgr.process_packet(&ip2, &tcp2).is_none());
    assert_eq!(mgr.connection_state(&quad), Some(TcpState::Established));
    // Even a fresh SYN is a no-op once established.
    assert!(mgr.process_packet(&ip, &tcp).is_none());
    assert_eq!(mgr.connection_state(&quad), Some(TcpState::Established));
}

#[test]
fn tcp_reparsed_segment_checksum_valid() {
    let src_addr = 0x0A00_0002u32;
    let dst_addr = 0x0A00_0001u32;
    let header = TcpHeader {
        src_port: 80,
        dst_port: 4000,
        seq_number: 100000,
        ack_number: 1001,
        cwr: false,
        ece: false,
        urg: false,
        ack: true,
        psh: false,
        rst: false,
        syn: true,
        fin: false,
        window: 5000,
        psuedo_header: PsuedoHeader {
            src_addr,
            dst_addr,
            protocol: Protocol::Tcp,
            tcp_length: 20,
        },
        urgent_pointer: 0,
        options: Vec::new(),
        data: Vec::new(),
    };
    let mut buf = vec![0u8; 20];
    assert_eq!(header.to_buf(&mut buf), Ok(20));
    let view = TcpHeaderSlice::from_buf(&buf).unwrap();
    assert!(view.checksum_valid(src_addr, dst_addr));
    // The pseudo-header is part of the sum: the wrong addresses fail.
    assert!(!view.checksum_valid(dst_addr, src_addr.wrapping_add(1)));
    buf[14] ^= 1;
    let corrupt = TcpHeaderSlice::from_buf(&buf).unwrap();
    assert!(!corrupt.checksum_valid(src_addr, dst_addr));
}
