use netstack::checksum::ones_complement_sum;
use netstack::error::SerializeError;
use netstack::icmpv4::{process_echo, process_icmpv4, Icmpv4, Icmpv4Type};
use netstack::icmpv4_slice::Icmpv4Slice;

fn fold_icmp_region(buf: &[u8]) -> u16 {
    let mut sum = 0u16;
    let mut i = 0;
    while i < buf.len() {
        let hi = buf[i] as u16;
        let lo = if i + 1 < buf.len() { buf[i + 1] as u16 } else { 0 };
        sum = ones_complement_sum(sum, (hi << 8) | lo);
        i += 2;
    }
    sum
}

#[test]
fn icmp_echo_reply_construction() {
    let buf = vec![8u8, 0, 0, 0, 0x12, 0x34, 0x00, 0x01, 0xAA, 0xBB, 0xCC];
    let view = Icmpv4Slice::from_buf(&buf).expect("an echo request parses");
    assert_eq!(view.icmp_type(), Icmpv4Type::Echo);
    assert_eq!(view.code(), 0);
    assert_eq!(view.identifier(), 0x1234);
    assert_eq!(view.sequence_number(), 1);
    assert_eq!(view.payload(), vec![0xAA, 0xBB, 0xCC]);
    let reply = process_echo(&view);
    assert_eq!(reply.icmp_type, Icmpv4Type::EchoReply);
    assert_eq!(reply.code, 0);
    assert_eq!(reply.identifier, 0x1234);
    assert_eq!(reply.sequence_number, 1);
    assert_eq!(reply.payload, vec![0xAA, 0xBB, 0xCC]);
}

#[test]
fn icmp_destination_unreachable_fails_to_parse() {
    // Type byte 3 is not an echo message.
    let buf = vec![3u8, 0, 0, 0, 0, 0, 0, 0, 1, 2];
    assert!(Icmpv4Slice::from_buf(&buf).is_none());
}

#[test]
fn icmp_short_buffer_fails_to_parse() {
    let buf = vec![8u8, 0, 0, 0, 0, 0, 0];
    assert!(Icmpv4Slice::from_buf(&buf).is_none());
}

#[test]
fn icmp_echo_reply_draws_no_response() {
    let buf = vec![0u8, 0, 0, 0, 0x12, 0x34, 0x00, 0x01];
    let view = Icmpv4Slice::from_buf(&buf).expect("an echo reply parses");
    assert_eq!(view.icmp_type(), Icmpv4Type::EchoReply);
    assert!(process_icmpv4(&view).is_none());
}

#[test]
fn icmp_serialized_checksum_validates_even_payload() {
    let msg = Icmpv4 {
        icmp_type: Icmpv4Type::EchoReply,
        code: 0,
        identifier: 0x1234,
        sequence_number: 7,
        payload: vec![0x10, 0x20],
    };
    let mut buf = vec![0u8; 10];
    assert_eq!(msg.to_buf(&mut buf), Ok(10));
    assert_eq!(buf[0], 0);
    assert_eq!(buf[4], 0x12);
    assert_eq!(buf[5], 0x34);
    assert_eq!(fold_icmp_region(&buf), 0xFFFF);
}

#[test]
fn icmp_serialized_checksum_validates_odd_payload() {
    // The odd final byte is padded as the high byte of a zero-extended
    // word; the emitted message must still validate.
    let msg = Icmpv4 {
        icmp_type: Icmpv4Type::Echo,
        code: 0,
        identifier: 0xBEEF,
        sequence_number: 2,
        payload: vec![0xAA, 0xBB, 0xCC],
    };
    let mut buf = vec![0u8; 11];
    assert_eq!(msg.to_buf(&mut buf), Ok(11));
    assert_eq!(buf[0], 8);
    assert_eq!(fold_icmp_region(&buf), 0xFFFF);
}

#[test]
fn icmp_serialize_buffer_too_small() {
    let msg = Icmpv4 {
        icmp_type: Icmpv4Type::Echo,
        code: 0,
        identifier: 1,
        sequence_number: 1,
        payload: vec![1, 2, 3],
    };
    let mut buf = vec![9u8; 10];
    assert_eq!(msg.to_buf(&mut buf), Err(SerializeError::BufferTooSmall));
    assert_eq!(buf, vec![9u8; 10]);
}

#[test]
fn icmp_length_counts_header_and_payload() {
    let msg = Icmpv4 {
        icmp_type: Icmpv4Type::Echo,
        code: 0,
        identifier: 1,
        sequence_number: 1,
        payload: vec![1, 2, 3],
    };
    assert_eq!(msg.length(), 11);
}

#[test]
fn icmp_serialized_reply_reparses() {
    let msg = Icmpv4 {
        icmp_type: Icmpv4Type::EchoReply,
        code: 0,
        identifier: 0x0102,
        sequence_number: 0x0304,
        payload: vec![5, 6, 7, 8],
    };
    let mut buf = vec![0u8; 12];
    assert_eq!(msg.to_buf(&mut buf), Ok(12));
    let view = Icmpv4Slice::from_buf(&buf).expect("a serialized message parses");
    assert_eq!(view.icmp_type(), Icmpv4Type::EchoReply);
    assert_eq!(view.identifier(), 0x0102);
    assert_eq!(view.sequence_number(), 0x0304);
    assert_eq!(view.payload(), vec![5, 6, 7, 8]);
}

#[test]
fn icmp_reparsed_message_checksum_valid() {
    let msg = Icmpv4 {
        icmp_type: Icmpv4Type::Echo,
        code: 0,
        identifier: 0x0A0B,
        sequence_number: 3,
        payload: vec![1, 2, 3, 4, 5],
    };
    let mut buf = vec![0u8; 13];
    assert_eq!(msg.to_buf(&mut buf), Ok(13));
    let view = Icmpv4Slice::from_buf(&buf).unwrap();
    assert!(view.checksum_valid());
    buf[9] ^= 1;
    let corrupt = Icmpv4Slice::from_buf(&buf).unwrap();
    assert!(!corrupt.checksum_valid());
}
