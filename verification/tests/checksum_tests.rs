use netstack::bytes::{u16_from_buf, u16_to_buf, u32_from_buf, u32_to_buf};
use netstack::checksum::ones_complement_sum;

#[test]
fn ones_complement_sum_no_carry() {
    assert_eq!(ones_complement_sum(0, 0), 0);
    assert_eq!(ones_complement_sum(0x1234, 0), 0x1234);
    assert_eq!(ones_complement_sum(0x1234, 0x4321), 0x5555);
}

#[test]
fn ones_complement_sum_end_around_carry() {
    // A carry out of bit 15 is added back into the low bits.
    assert_eq!(ones_complement_sum(0x8000, 0x8000), 1);
    assert_eq!(ones_complement_sum(0xFFFF, 1), 1);
    assert_eq!(ones_complement_sum(0xFFFF, 0xFFFF), 0xFFFF);
    assert_eq!(ones_complement_sum(0xFFFE, 2), 1);
}

#[test]
fn u16_round_trips_through_buffer() {
    let mut buf = vec![0u8; 4];
    u16_to_buf(&mut buf, 1, 0xBEEF);
    assert_eq!(buf, vec![0x00, 0xBE, 0xEF, 0x00]);
    assert_eq!(u16_from_buf(&buf, 1), 0xBEEF);
}

#[test]
fn u32_round_trips_through_buffer() {
    let mut buf = vec![0u8; 6];
    u32_to_buf(&mut buf, 1, 0xC0A8_0102);
    assert_eq!(buf, vec![0x00, 0xC0, 0xA8, 0x01, 0x02, 0x00]);
    assert_eq!(u32_from_buf(&buf, 1), 0xC0A8_0102);
}
