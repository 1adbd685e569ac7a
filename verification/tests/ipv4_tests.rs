use netstack::checksum::ones_complement_sum;
use netstack::error::SerializeError;
use netstack::ipv4_header::Ipv4Header;
use netstack::ipv4_header_slice::Ipv4HeaderSlice;
use netstack::protocol::Protocol;

/// Folds a byte region as the checksum engine does: big-endian 16-bit
/// words, an odd final byte padded with a zero low byte.
fn fold_region(buf: &[u8]) -> u16 {
    let mut sum = 0u16;
    let mut i = 0;
    while i < buf.len() {
        let hi = buf[i] as u16;
        let lo = if i + 1 < buf.len() { buf[i + 1] as u16 } else { 0 };
        sum = ones_complement_sum(sum, (hi << 8) | lo);
        i += 2;
    }
    sum
}

fn sample_header() -> Ipv4Header {
    Ipv4Header {
        tos: 0,
        identification: 0x4242,
        dont_fragment: true,
        more_fragments: false,
        fragment_offset: 0,
        ttl: 64,
        protocol: Protocol::Icmp,
        src_ip: 0x0A00_0001,
        dst_ip: 0x0A00_0002,
    }
}

#[test]
fn ipv4_emitted_checksum_validates() {
    let h = sample_header();
    let mut buf = vec![0u8; 20];
    assert_eq!(h.to_buf(&mut buf, 0), Ok(20));
    // Folding the emitted header, checksum field included, yields the
    // all-ones sum, so the complement a validator computes is zero.
    assert_eq!(fold_region(&buf), 0xFFFF);
    assert_eq!(!fold_region(&buf), 0);
}

#[test]
fn ipv4_parse_serialize_inverse() {
    let h = Ipv4Header {
        tos: 7,
        identification: 0x1234,
        dont_fragment: true,
        more_fragments: true,
        fragment_offset: 0x1ABC,
        ttl: 63,
        protocol: Protocol::Tcp,
        src_ip: 0xC0A8_0101,
        dst_ip: 0x0808_0808,
    };
    let payload = [0x11u8, 0x22, 0x33];
    let mut buf = vec![0u8; 23];
    assert_eq!(h.to_buf(&mut buf, payload.len()), Ok(20));
    for (i, b) in payload.iter().enumerate() {
        buf[20 + i] = *b;
    }
    let view = Ipv4HeaderSlice::from_buf(&buf).expect("a serialized header parses");
    assert_eq!(view.tos(), 7);
    assert_eq!(view.identification(), 0x1234);
    assert!(view.dont_fragment());
    assert!(view.more_fragments());
    assert_eq!(view.fragment_offset(), 0x1ABC);
    assert_eq!(view.ttl(), 63);
    assert_eq!(view.protocol(), Protocol::Tcp);
    assert_eq!(view.src_ip(), 0xC0A8_0101);
    assert_eq!(view.dst_ip(), 0x0808_0808);
    assert_eq!(view.length(), 23);
    assert_eq!(view.header_length(), 20);
    assert_eq!(view.payload(), vec![0x11, 0x22, 0x33]);
    assert_eq!(fold_region(&buf[..20]), 0xFFFF);
}

#[test]
fn ipv4_reply_swaps_addresses() {
    let h = sample_header();
    let mut buf = vec![0u8; 20];
    assert_eq!(h.to_buf(&mut buf, 0), Ok(20));
    let view = Ipv4HeaderSlice::from_buf(&buf).unwrap();
    let reply = view.reply();
    assert_eq!(reply.src_ip, 0x0A00_0002);
    assert_eq!(reply.dst_ip, 0x0A00_0001);
    assert_eq!(reply.ttl, 64);
    assert_eq!(reply.protocol, Protocol::Icmp);
}

#[test]
fn ipv4_twenty_byte_buffer_parses() {
    let mut buf = vec![0u8; 20];
    buf[0] = 0x45;
    buf[3] = 20;
    let view = Ipv4HeaderSlice::from_buf(&buf).expect("a minimal header parses");
    assert_eq!(view.header_length(), 20);
    assert_eq!(view.length(), 20);
    assert_eq!(view.payload(), Vec::<u8>::new());
}

#[test]
fn ipv4_nineteen_byte_buffer_fails() {
    // Regardless of content.
    let mut buf = vec![0u8; 19];
    assert!(Ipv4HeaderSlice::from_buf(&buf).is_none());
    buf[0] = 0x45;
    buf[3] = 19;
    assert!(Ipv4HeaderSlice::from_buf(&buf).is_none());
    let all_ones = vec![0xFFu8; 19];
    assert!(Ipv4HeaderSlice::from_buf(&all_ones).is_none());
}

#[test]
fn ipv4_wrong_version_fails() {
    let mut buf = vec![0u8; 20];
    buf[0] = 0x65;
    buf[3] = 20;
    assert!(Ipv4HeaderSlice::from_buf(&buf).is_none());
}

#[test]
fn ipv4_short_header_length_field_fails() {
    let mut buf = vec![0u8; 20];
    buf[0] = 0x44;
    buf[3] = 20;
    assert!(Ipv4HeaderSlice::from_buf(&buf).is_none());
}

#[test]
fn ipv4_total_length_beyond_buffer_fails() {
    let mut buf = vec![0u8; 20];
    buf[0] = 0x45;
    buf[3] = 21;
    assert!(Ipv4HeaderSlice::from_buf(&buf).is_none());
}

#[test]
fn ipv4_serialize_buffer_too_small() {
    let h = sample_header();
    let mut buf = vec![7u8; 19];
    assert_eq!(h.to_buf(&mut buf, 0), Err(SerializeError::BufferTooSmall));
    assert_eq!(buf, vec![7u8; 19]);
}

#[test]
fn ipv4_serialize_unsupported_protocol() {
    let mut h = sample_header();
    h.protocol = Protocol::Unsupported;
    let mut buf = vec![0u8; 20];
    assert_eq!(h.to_buf(&mut buf, 0), Err(SerializeError::UnsupportedProtocol));
    assert_eq!(buf, vec![0u8; 20]);
}

#[test]
fn ipv4_serialize_payload_too_large() {
    let h = sample_header();
    let mut buf = vec![0u8; 20];
    assert_eq!(h.to_buf(&mut buf, 0xFFFF), Err(SerializeError::PayloadTooLarge));
    assert_eq!(buf, vec![0u8; 20]);
}

#[test]
fn ipv4_reparsed_header_checksum_valid() {
    let h = sample_header();
    let mut buf = vec![0u8; 20];
    assert_eq!(h.to_buf(&mut buf, 0), Ok(20));
    let view = Ipv4HeaderSlice::from_buf(&buf).unwrap();
    assert!(view.checksum_valid());
    // A corrupted header no longer validates.
    buf[1] ^= 1;
    let corrupt = Ipv4HeaderSlice::from_buf(&buf).unwrap();
    assert!(!corrupt.checksum_valid());
}
