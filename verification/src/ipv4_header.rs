//! The owned IPv4 header description used to build a reply, and its
//! serializer. Options are never emitted: the header is always 20 bytes
//! (version 4, IHL 5), and the checksum is recomputed at serialization
//! time, never trusted from input.
use vstd::prelude::*;
use vstd::assert_seqs_equal;
use crate::bytes::{be16, high_byte, lemma_be16_bytes, low_byte, u16_to_buf, u32_byte, u32_to_buf};
use crate::checksum::{
    checksum_fold, checksum_region, complement16, lemma_checksum_update, lemma_words_of_update_pair,
    words_of,
};
use crate::error::SerializeError;
use crate::protocol::{protocol_bits, Protocol};

verus! {

pub const IP_HEADER_SIZE: usize = 20;

#[derive(Debug, PartialEq, Eq, Structural, Clone, Copy)]
pub struct Ipv4Header {
    pub tos: u8,
    pub identification: u16,
    pub dont_fragment: bool,
    pub more_fragments: bool,
    pub fragment_offset: u16,
    pub ttl: u8,
    pub protocol: Protocol,
    pub src_ip: u32,
    pub dst_ip: u32,
}

impl Ipv4Header {
    /// The fragment offset is a 13-bit field.
    pub open spec fn wf(self) -> bool {
        self.fragment_offset < 0x2000
    }
}

/// The flags-and-fragment-offset word: the offset in the low 13 bits,
/// don't-fragment at bit 14, more-fragments at bit 13.
pub open spec fn flags_frag_word(h: Ipv4Header) -> u16 {
    (h.fragment_offset + (if h.dont_fragment {
        0x4000int
    } else {
        0int
    }) + (if h.more_fragments {
        0x2000int
    } else {
        0int
    })) as u16
}

/// The 20 header bytes with the checksum field still zero.
pub open spec fn ipv4_header_bytes_zck(h: Ipv4Header, total_len: u16) -> Seq<u8> {
    seq![
        0x45u8,
        h.tos,
        high_byte(total_len),
        low_byte(total_len),
        high_byte(h.identification),
        low_byte(h.identification),
        high_byte(flags_frag_word(h)),
        low_byte(flags_frag_word(h)),
        h.ttl,
        protocol_bits(h.protocol),
        0u8,
        0u8,
        u32_byte(h.src_ip, 0),
        u32_byte(h.src_ip, 1),
        u32_byte(h.src_ip, 2),
        u32_byte(h.src_ip, 3),
        u32_byte(h.dst_ip, 0),
        u32_byte(h.dst_ip, 1),
        u32_byte(h.dst_ip, 2),
        u32_byte(h.dst_ip, 3),
    ]
}

/// The checksum written into an outbound header: the complement of the
/// fold of the header words with the checksum field zeroed.
pub open spec fn ipv4_header_checksum(h: Ipv4Header, total_len: u16) -> u16 {
    complement16(checksum_fold(words_of(ipv4_header_bytes_zck(h, total_len))))
}

/// The 20 header bytes as emitted, checksum included.
pub open spec fn ipv4_header_bytes(h: Ipv4Header, total_len: u16) -> Seq<u8> {
    let c = ipv4_header_checksum(h, total_len);
    ipv4_header_bytes_zck(h, total_len).update(10, high_byte(c)).update(11, low_byte(c))
}

/// Checksum round-trip for the IPv4 header: folding the emitted header,
/// checksum field included, always yields 0xFFFF, so the checksum a
/// validator computes over it is zero.
pub proof fn lemma_ipv4_checksum_roundtrip(h: Ipv4Header, total_len: u16)
    ensures
        checksum_fold(words_of(ipv4_header_bytes(h, total_len))) == 0xFFFF,
{
    let z = ipv4_header_bytes_zck(h, total_len);
    let ws = words_of(z);
    let c = ipv4_header_checksum(h, total_len);
    lemma_words_of_update_pair(z, 10, high_byte(c), low_byte(c));
    lemma_be16_bytes(c);
    assert(z[10] == 0 && z[11] == 0);
    assert(ws[5] == be16(0, 0));
    lemma_checksum_update(ws, 5);
}

impl Ipv4Header {
    /// Serializes the header into the first 20 bytes of `buf`, with total
    /// length `20 + payload_length` and a freshly computed checksum.
    /// Returns how many bytes were written, or the precondition that
    /// failed; on an error the buffer is untouched.
    pub fn to_buf(&self, buf: &mut Vec<u8>, payload_length: usize) -> (r: Result<
        usize,
        SerializeError,
    >)
        requires
            self.wf(),
        ensures
            final(buf)@.len() == old(buf)@.len(),
            old(buf)@.len() < IP_HEADER_SIZE ==> r == Err::<usize, SerializeError>(
                SerializeError::BufferTooSmall,
            ) && final(buf)@ == old(buf)@,
            old(buf)@.len() >= IP_HEADER_SIZE && self.protocol == Protocol::Unsupported ==> r
                == Err::<usize, SerializeError>(SerializeError::UnsupportedProtocol) && final(buf)@
                == old(buf)@,
            old(buf)@.len() >= IP_HEADER_SIZE && self.protocol != Protocol::Unsupported
                && IP_HEADER_SIZE + payload_length > 0xFFFF ==> r == Err::<usize, SerializeError>(
                SerializeError::PayloadTooLarge,
            ) && final(buf)@ == old(buf)@,
            old(buf)@.len() >= IP_HEADER_SIZE && self.protocol != Protocol::Unsupported
                && IP_HEADER_SIZE + payload_length <= 0xFFFF ==> r == Ok::<usize, SerializeError>(
                IP_HEADER_SIZE,
            ) && final(buf)@.subrange(0, IP_HEADER_SIZE as int) == ipv4_header_bytes(
                *self,
                (IP_HEADER_SIZE + payload_length) as u16,
            ) && final(buf)@.subrange(IP_HEADER_SIZE as int, final(buf)@.len() as int) == old(
                buf,
            )@.subrange(IP_HEADER_SIZE as int, old(buf)@.len() as int),
    {
        let n = buf.len();
        if n < IP_HEADER_SIZE {
            return Err(SerializeError::BufferTooSmall);
        }
        if self.protocol == Protocol::Unsupported {
            return Err(SerializeError::UnsupportedProtocol);
        }
        if payload_length > 0xFFFF - IP_HEADER_SIZE {
            return Err(SerializeError::PayloadTooLarge);
        }
        let total: u16 = (IP_HEADER_SIZE + payload_length) as u16;
        let flags_frag: u16 = self.fragment_offset + (if self.dont_fragment {
            0x4000
        } else {
            0
        }) + (if self.more_fragments {
            0x2000
        } else {
            0
        });
        let ghost zck = ipv4_header_bytes_zck(*self, total);
        buf[0] = 0x45;
        buf[1] = self.tos;
        u16_to_buf(buf, 2, total);
        u16_to_buf(buf, 4, self.identification);
        u16_to_buf(buf, 6, flags_frag);
        buf[8] = self.ttl;
        buf[9] = self.protocol.to_bits();
        u16_to_buf(buf, 10, 0);
        u32_to_buf(buf, 12, self.src_ip);
        u32_to_buf(buf, 16, self.dst_ip);
        proof {
            assert_seqs_equal!(buf@.subrange(0, IP_HEADER_SIZE as int) == zck);
        }
        let sum = checksum_region(buf, 0, IP_HEADER_SIZE, 0);
        assert(sum == checksum_fold(words_of(zck)));
        let ck: u16 = 0xFFFF - sum;
        u16_to_buf(buf, 10, ck);
        proof {
            assert_seqs_equal!(
                buf@.subrange(0, IP_HEADER_SIZE as int) == ipv4_header_bytes(*self, total)
            );
            assert_seqs_equal!(
                buf@.subrange(IP_HEADER_SIZE as int, buf@.len() as int)
                    == old(buf)@.subrange(IP_HEADER_SIZE as int, old(buf)@.len() as int)
            );
        }
        Ok(IP_HEADER_SIZE)
    }
}

} // verus!
