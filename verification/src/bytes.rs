//! Big-endian byte-order helpers: reading and writing 16- and 32-bit
//! values at an index of a byte buffer, with their mathematical models.
use vstd::prelude::*;
use vstd::arithmetic::div_mod::lemma_fundamental_div_mod;

verus! {

/// The big-endian 16-bit word formed by a high and a low byte.
pub open spec fn be16(hi: u8, lo: u8) -> u16 {
    (hi * 0x100 + lo) as u16
}

/// The high byte of a big-endian 16-bit word.
pub open spec fn high_byte(x: u16) -> u8 {
    (x / 0x100) as u8
}

/// The low byte of a big-endian 16-bit word.
pub open spec fn low_byte(x: u16) -> u8 {
    (x % 0x100) as u8
}

/// The big-endian 32-bit value formed by four bytes.
pub open spec fn be32(b0: u8, b1: u8, b2: u8, b3: u8) -> u32 {
    (b0 * 0x100_0000 + b1 * 0x1_0000 + b2 * 0x100 + b3) as u32
}

/// Byte `k` (0 = most significant) of a big-endian 32-bit value.
pub open spec fn u32_byte(x: u32, k: int) -> u8 {
    if k == 0 {
        (x / 0x100_0000) as u8
    } else if k == 1 {
        ((x / 0x1_0000) % 0x100) as u8
    } else if k == 2 {
        ((x / 0x100) % 0x100) as u8
    } else {
        (x % 0x100) as u8
    }
}

/// A big-endian 16-bit word is rebuilt exactly from its two bytes.
pub proof fn lemma_be16_bytes(x: u16)
    ensures
        be16(high_byte(x), low_byte(x)) == x,
{
    lemma_fundamental_div_mod(x as int, 0x100);
}

/// A big-endian 32-bit value is rebuilt exactly from its four bytes.
pub proof fn lemma_be32_bytes(x: u32)
    ensures
        be32(u32_byte(x, 0), u32_byte(x, 1), u32_byte(x, 2), u32_byte(x, 3)) == x,
{
    assert(((x / 0x100_0000) as u8) * 0x100_0000 + (((x / 0x1_0000) % 0x100) as u8) * 0x1_0000
        + (((x / 0x100) % 0x100) as u8) * 0x100 + ((x % 0x100) as u8) == x) by (bit_vector);
}

/// Reads the big-endian 16-bit word at `index`.
pub fn u16_from_buf(buf: &Vec<u8>, index: usize) -> (r: u16)
    requires
        index + 1 < buf@.len(),
    ensures
        r == be16(buf@[index as int], buf@[index as int + 1]),
{
    let n = buf.len();
    assert(index + 1 < n);
    (buf[index] as u16) * 0x100 + (buf[index + 1] as u16)
}

/// Reads the big-endian 32-bit value at `index`.
pub fn u32_from_buf(buf: &Vec<u8>, index: usize) -> (r: u32)
    requires
        index + 3 < buf@.len(),
    ensures
        r == be32(
            buf@[index as int],
            buf@[index as int + 1],
            buf@[index as int + 2],
            buf@[index as int + 3],
        ),
{
    let n = buf.len();
    assert(index + 3 < n);
    (buf[index] as u32) * 0x100_0000 + (buf[index + 1] as u32) * 0x1_0000 + (buf[index + 2]
        as u32) * 0x100 + (buf[index + 3] as u32)
}

/// Writes `val` big-endian into the two bytes at `index`.
pub fn u16_to_buf(buf: &mut Vec<u8>, index: usize, val: u16)
    requires
        index + 1 < old(buf)@.len(),
    ensures
        final(buf)@ == old(buf)@.update(index as int, high_byte(val)).update(
            index as int + 1,
            low_byte(val),
        ),
{
    let n = buf.len();
    assert(index + 1 < n);
    buf[index] = (val / 0x100) as u8;
    buf[index + 1] = (val % 0x100) as u8;
}

/// Writes `val` big-endian into the four bytes at `index`.
pub fn u32_to_buf(buf: &mut Vec<u8>, index: usize, val: u32)
    requires
        index + 3 < old(buf)@.len(),
    ensures
        final(buf)@ == old(buf)@.update(index as int, u32_byte(val, 0)).update(
            index as int + 1,
            u32_byte(val, 1),
        ).update(index as int + 2, u32_byte(val, 2)).update(index as int + 3, u32_byte(val, 3)),
{
    let n = buf.len();
    assert(index + 3 < n);
    buf[index] = (val / 0x100_0000) as u8;
    buf[index + 1] = ((val / 0x1_0000) % 0x100) as u8;
    buf[index + 2] = ((val / 0x100) % 0x100) as u8;
    buf[index + 3] = (val % 0x100) as u8;
}

} // verus!
