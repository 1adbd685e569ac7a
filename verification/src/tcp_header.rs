//! The owned TCP header used to build a handshake response, and its
//! serializer. The checksum folds a 12-byte pseudo-header (addresses,
//! protocol, TCP length) before the segment itself; the pseudo-header is
//! never transmitted.
use vstd::prelude::*;
use vstd::assert_seqs_equal;
use crate::bytes::{be16, high_byte, lemma_be16_bytes, low_byte, u16_to_buf, u32_byte, u32_to_buf};
use crate::checksum::{
    checksum_fold, checksum_region, complement16, fold_words, lemma_checksum_update,
    lemma_fold_append, lemma_words_of_update_pair, ones_add, ones_complement_sum, words_of,
};
use crate::error::SerializeError;
use crate::protocol::{protocol_bits, Protocol};

verus! {

pub const MIN_TCP_HEADER_LENGTH: usize = 20;

/// The synthetic 12-byte structure folded into the TCP checksum but
/// never transmitted: addresses, protocol, and the TCP segment length.
#[derive(Debug, PartialEq, Eq, Structural, Clone, Copy)]
pub struct PsuedoHeader {
    pub src_addr: u32,
    pub dst_addr: u32,
    pub protocol: Protocol,
    pub tcp_length: u16,
}

#[derive(Debug, Clone)]
pub struct TcpHeader {
    pub src_port: u16,
    pub dst_port: u16,
    pub seq_number: u32,
    pub ack_number: u32,
    pub cwr: bool,
    pub ece: bool,
    pub urg: bool,
    pub ack: bool,
    pub psh: bool,
    pub rst: bool,
    pub syn: bool,
    pub fin: bool,
    pub window: u16,
    pub psuedo_header: PsuedoHeader,
    pub urgent_pointer: u16,
    pub options: Vec<u8>,
    pub data: Vec<u8>,
}

impl TcpHeader {
    /// The options region must pack exactly into the 4-bit data-offset
    /// word count, and the whole segment must fit the 16-bit length a
    /// packet can declare.
    pub open spec fn wf(self) -> bool {
        &&& self.options@.len() % 4 == 0
        &&& self.options@.len() <= 40
        &&& MIN_TCP_HEADER_LENGTH + self.options@.len() + self.data@.len() <= 0xFFFF
    }

    /// The total segment length: fixed header, options, and data.
    pub open spec fn spec_length(self) -> int {
        MIN_TCP_HEADER_LENGTH + self.options@.len() + self.data@.len()
    }

    /// Returns the total length of the TCP header, options and data.
    pub fn length(&self) -> (r: usize)
        requires
            self.wf(),
        ensures
            r == self.spec_length(),
    {
        MIN_TCP_HEADER_LENGTH + self.options.len() + self.data.len()
    }
}

/// The flag byte: CWR at bit 7 down to FIN at bit 0.
pub open spec fn tcp_flags_byte(v: TcpHeader) -> u8 {
    ((if v.cwr {
        128int
    } else {
        0int
    }) + (if v.ece {
        64int
    } else {
        0int
    }) + (if v.urg {
        32int
    } else {
        0int
    }) + (if v.ack {
        16int
    } else {
        0int
    }) + (if v.psh {
        8int
    } else {
        0int
    }) + (if v.rst {
        4int
    } else {
        0int
    }) + (if v.syn {
        2int
    } else {
        0int
    }) + (if v.fin {
        1int
    } else {
        0int
    })) as u8
}

/// The data-offset byte: header words in the high nibble, reserved low
/// nibble zero.
pub open spec fn tcp_offset_byte(v: TcpHeader) -> u8 {
    (((MIN_TCP_HEADER_LENGTH + v.options@.len()) / 4) * 16) as u8
}

/// The segment bytes with the checksum field still zero: the 20 fixed
/// header bytes, then options, then data.
pub open spec fn tcp_bytes_zck(v: TcpHeader) -> Seq<u8> {
    seq![
        high_byte(v.src_port),
        low_byte(v.src_port),
        high_byte(v.dst_port),
        low_byte(v.dst_port),
        u32_byte(v.seq_number, 0),
        u32_byte(v.seq_number, 1),
        u32_byte(v.seq_number, 2),
        u32_byte(v.seq_number, 3),
        u32_byte(v.ack_number, 0),
        u32_byte(v.ack_number, 1),
        u32_byte(v.ack_number, 2),
        u32_byte(v.ack_number, 3),
        tcp_offset_byte(v),
        tcp_flags_byte(v),
        high_byte(v.window),
        low_byte(v.window),
        0u8,
        0u8,
        high_byte(v.urgent_pointer),
        low_byte(v.urgent_pointer),
    ] + v.options@ + v.data@
}

/// The pseudo-header as the six 16-bit words folded into the checksum:
/// the halves of both addresses, the protocol number, and the length.
pub open spec fn pseudo_words(p: PsuedoHeader) -> Seq<u16> {
    seq![
        (p.src_addr / 0x1_0000) as u16,
        (p.src_addr % 0x1_0000) as u16,
        (p.dst_addr / 0x1_0000) as u16,
        (p.dst_addr % 0x1_0000) as u16,
        protocol_bits(p.protocol) as u16,
        p.tcp_length,
    ]
}

/// The checksum written into an outbound segment: the complement of the
/// fold over the pseudo-header words followed by the segment words with
/// the checksum field zeroed.
pub open spec fn tcp_segment_checksum(v: TcpHeader) -> u16 {
    complement16(checksum_fold(pseudo_words(v.psuedo_header) + words_of(tcp_bytes_zck(v))))
}

/// The segment bytes as emitted, checksum included.
pub open spec fn tcp_bytes(v: TcpHeader) -> Seq<u8> {
    let c = tcp_segment_checksum(v);
    tcp_bytes_zck(v).update(16, high_byte(c)).update(17, low_byte(c))
}

/// Checksum round-trip for the TCP segment: folding the pseudo-header
/// words and the emitted segment, checksum field included, always yields
/// 0xFFFF, so the checksum a validator computes over them is zero.
pub proof fn lemma_tcp_checksum_roundtrip(v: TcpHeader)
    ensures
        checksum_fold(pseudo_words(v.psuedo_header) + words_of(tcp_bytes(v))) == 0xFFFF,
{
    let z = tcp_bytes_zck(v);
    let pw = pseudo_words(v.psuedo_header);
    let full = pw + words_of(z);
    let c = tcp_segment_checksum(v);
    lemma_words_of_update_pair(z, 16, high_byte(c), low_byte(c));
    lemma_be16_bytes(c);
    assert(z[16] == 0 && z[17] == 0);
    assert(words_of(z)[8] == be16(0, 0));
    assert(full[14] == 0);
    assert_seqs_equal!(pw + words_of(tcp_bytes(v)) == full.update(14, c));
    lemma_checksum_update(full, 14);
}

impl TcpHeader {
    /// Serializes the segment — fixed header, options, data, and a
    /// freshly computed pseudo-header checksum — into the first
    /// `length()` bytes of `buf`. Returns how many bytes were written;
    /// fails exactly when the buffer is shorter than the segment,
    /// leaving it untouched.
    #[verifier::rlimit(100)]
    #[verifier::spinoff_prover]
    pub fn to_buf(&self, buf: &mut Vec<u8>) -> (r: Result<usize, SerializeError>)
        requires
            self.wf(),
        ensures
            final(buf)@.len() == old(buf)@.len(),
            old(buf)@.len() < self.spec_length() ==> r == Err::<usize, SerializeError>(
                SerializeError::BufferTooSmall,
            ) && final(buf)@ == old(buf)@,
            old(buf)@.len() >= self.spec_length() ==> {
                &&& r == Ok::<usize, SerializeError>(self.spec_length() as usize)
                &&& final(buf)@.subrange(0, self.spec_length()) == tcp_bytes(*self)
                &&& final(buf)@.subrange(self.spec_length(), final(buf)@.len() as int) == old(
                    buf,
                )@.subrange(self.spec_length(), old(buf)@.len() as int)
            },
    {
        let n = buf.len();
        let optlen = self.options.len();
        let datalen = self.data.len();
        let tcp_size = MIN_TCP_HEADER_LENGTH + optlen + datalen;
        if n < tcp_size {
            return Err(SerializeError::BufferTooSmall);
        }
        let ghost zck = tcp_bytes_zck(*self);
        let data_offset = (MIN_TCP_HEADER_LENGTH + optlen) / 4;
        u16_to_buf(buf, 0, self.src_port);
        u16_to_buf(buf, 2, self.dst_port);
        u32_to_buf(buf, 4, self.seq_number);
        u32_to_buf(buf, 8, self.ack_number);
        buf[12] = (data_offset * 16) as u8;
        let flags: u8 = (if self.cwr {
            128
        } else {
            0
        }) + (if self.ece {
            64
        } else {
            0
        }) + (if self.urg {
            32
        } else {
            0
        }) + (if self.ack {
            16
        } else {
            0
        }) + (if self.psh {
            8
        } else {
            0
        }) + (if self.rst {
            4
        } else {
            0
        }) + (if self.syn {
            2
        } else {
            0
        }) + (if self.fin {
            1
        } else {
            0
        });
        buf[13] = flags;
        u16_to_buf(buf, 14, self.window);
        u16_to_buf(buf, 16, 0);
        u16_to_buf(buf, 18, self.urgent_pointer);
        let mut i: usize = 0;
        while i < optlen
            invariant
                i <= optlen,
                optlen == self.options@.len(),
                tcp_size == MIN_TCP_HEADER_LENGTH + optlen + datalen,
                tcp_size <= buf@.len(),
                buf@.len() == old(buf)@.len(),
                forall|j: int| 0 <= j < MIN_TCP_HEADER_LENGTH ==> buf@[j] == zck[j],
                forall|j: int|
                    0 <= j < i ==> buf@[MIN_TCP_HEADER_LENGTH + j] == self.options@[j],
                forall|j: int|
                    MIN_TCP_HEADER_LENGTH + i <= j < buf@.len() ==> buf@[j] == old(buf)@[j],
            decreases optlen - i,
        {
            buf[MIN_TCP_HEADER_LENGTH + i] = self.options[i];
            i = i + 1;
        }
        let data_start = MIN_TCP_HEADER_LENGTH + optlen;
        let mut i: usize = 0;
        while i < datalen
            invariant
                i <= datalen,
                optlen == self.options@.len(),
                datalen == self.data@.len(),
                data_start == MIN_TCP_HEADER_LENGTH + optlen,
                tcp_size == MIN_TCP_HEADER_LENGTH + optlen + datalen,
                tcp_size <= buf@.len(),
                buf@.len() == old(buf)@.len(),
                forall|j: int| 0 <= j < MIN_TCP_HEADER_LENGTH ==> buf@[j] == zck[j],
                forall|j: int|
                    0 <= j < optlen ==> buf@[MIN_TCP_HEADER_LENGTH + j] == self.options@[j],
                forall|j: int| 0 <= j < i ==> buf@[data_start + j] == self.data@[j],
                forall|j: int| data_start + i <= j < buf@.len() ==> buf@[j] == old(buf)@[j],
            decreases datalen - i,
        {
            buf[data_start + i] = self.data[i];
            i = i + 1;
        }
        proof {
            assert_seqs_equal!(buf@.subrange(0, tcp_size as int) == zck, j => {
                if j < MIN_TCP_HEADER_LENGTH {
                } else if j < MIN_TCP_HEADER_LENGTH + self.options@.len() {
                    assert(buf@[j] == self.options@[j - MIN_TCP_HEADER_LENGTH]);
                    assert(zck[j] == self.options@[j - MIN_TCP_HEADER_LENGTH]);
                } else {
                    assert(buf@[j] == self.data@[j - MIN_TCP_HEADER_LENGTH - self.options@.len()]);
                    assert(zck[j] == self.data@[j - MIN_TCP_HEADER_LENGTH - self.options@.len()]);
                }
            });
        }
        let ghost pw = pseudo_words(self.psuedo_header);
        let ghost full = pw + words_of(zck);
        let src_addr = self.psuedo_header.src_addr;
        let dst_addr = self.psuedo_header.dst_addr;
        let mut checksum = ones_complement_sum(
            (src_addr / 0x1_0000) as u16,
            (src_addr % 0x1_0000) as u16,
        );
        proof {
            assert(fold_words(0, pw, 0) == 0);
            assert(fold_words(0, pw, 1) == ones_add(fold_words(0, pw, 0), pw[0]));
            assert(fold_words(0, pw, 2) == ones_add(fold_words(0, pw, 1), pw[1]));
            assert(checksum == fold_words(0, pw, 2));
        }
        checksum = ones_complement_sum(checksum, (dst_addr / 0x1_0000) as u16);
        assert(checksum == fold_words(0, pw, 3));
        checksum = ones_complement_sum(checksum, (dst_addr % 0x1_0000) as u16);
        assert(checksum == fold_words(0, pw, 4));
        checksum = ones_complement_sum(checksum, self.psuedo_header.protocol.to_bits() as u16);
        assert(checksum == fold_words(0, pw, 5));
        checksum = ones_complement_sum(checksum, self.psuedo_header.tcp_length);
        assert(checksum == fold_words(0, pw, 6));
        let sum = checksum_region(buf, 0, tcp_size, checksum);
        proof {
            assert(buf@.subrange(0, tcp_size as int) == zck);
            lemma_fold_append(0, pw, words_of(zck), words_of(zck).len() as int);
            assert(full.len() == 6 + words_of(zck).len());
            assert(sum == checksum_fold(full));
        }
        let ck: u16 = 0xFFFF - sum;
        u16_to_buf(buf, 16, ck);
        proof {
            assert_seqs_equal!(buf@.subrange(0, tcp_size as int) == tcp_bytes(*self));
            assert_seqs_equal!(
                buf@.subrange(tcp_size as int, buf@.len() as int)
                    == old(buf)@.subrange(tcp_size as int, old(buf)@.len() as int)
            );
        }
        Ok(tcp_size)
    }
}

} // verus!
