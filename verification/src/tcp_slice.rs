//! The read-only view over a received TCP segment. The data-offset field
//! is validated once at parse time; ports, sequence numbers, flags,
//! window, checksum, urgent pointer, options and data are then read
//! panic-free.
use vstd::prelude::*;
use vstd::slice::{slice_subrange, slice_to_vec};
use vstd::assert_seqs_equal;
use vstd::arithmetic::div_mod::{lemma_fundamental_div_mod, lemma_fundamental_div_mod_converse_div};
use crate::bytes::{
    be16, be32, lemma_be16_bytes, lemma_be32_bytes, u16_from_buf, u32_from_buf,
};
use crate::checksum::{
    checksum_fold, checksum_region, fold_words, lemma_fold_append, ones_add, ones_complement_sum,
    words_of,
};
use crate::protocol::Protocol;
use crate::tcp_header::{
    pseudo_words, tcp_bytes, tcp_bytes_zck, tcp_flags_byte, tcp_offset_byte, tcp_segment_checksum,
    PsuedoHeader, TcpHeader, MIN_TCP_HEADER_LENGTH,
};

verus! {

/// The data-offset field: the header length in 32-bit words, options
/// included, from the high nibble of byte 12.
pub open spec fn tcp_data_offset(b: Seq<u8>) -> int {
    b[12] as int / 16
}

/// When a buffer parses as a TCP segment: long enough for the 20-byte
/// fixed header, and a data offset that fits the buffer.
pub open spec fn tcp_parse_ok(b: Seq<u8>) -> bool {
    &&& b.len() >= MIN_TCP_HEADER_LENGTH
    &&& tcp_data_offset(b) * 4 <= b.len()
}

pub open spec fn tcp_src_port(b: Seq<u8>) -> u16 {
    be16(b[0], b[1])
}

pub open spec fn tcp_dst_port(b: Seq<u8>) -> u16 {
    be16(b[2], b[3])
}

pub open spec fn tcp_seq_number(b: Seq<u8>) -> u32 {
    be32(b[4], b[5], b[6], b[7])
}

pub open spec fn tcp_ack_number(b: Seq<u8>) -> u32 {
    be32(b[8], b[9], b[10], b[11])
}

/// The flag bits occupy byte 13, CWR at bit 7 down to FIN at bit 0.
pub open spec fn tcp_cwr(b: Seq<u8>) -> bool {
    (b[13] as int / 128) % 2 == 1
}

pub open spec fn tcp_ece(b: Seq<u8>) -> bool {
    (b[13] as int / 64) % 2 == 1
}

pub open spec fn tcp_urg(b: Seq<u8>) -> bool {
    (b[13] as int / 32) % 2 == 1
}

pub open spec fn tcp_ack(b: Seq<u8>) -> bool {
    (b[13] as int / 16) % 2 == 1
}

pub open spec fn tcp_psh(b: Seq<u8>) -> bool {
    (b[13] as int / 8) % 2 == 1
}

pub open spec fn tcp_rst(b: Seq<u8>) -> bool {
    (b[13] as int / 4) % 2 == 1
}

pub open spec fn tcp_syn(b: Seq<u8>) -> bool {
    (b[13] as int / 2) % 2 == 1
}

pub open spec fn tcp_fin(b: Seq<u8>) -> bool {
    b[13] as int % 2 == 1
}

pub open spec fn tcp_window(b: Seq<u8>) -> u16 {
    be16(b[14], b[15])
}

pub open spec fn tcp_checksum(b: Seq<u8>) -> u16 {
    be16(b[16], b[17])
}

pub open spec fn tcp_urgent_pointer(b: Seq<u8>) -> u16 {
    be16(b[18], b[19])
}

/// The options region: bytes 20 up to the declared data offset.
pub open spec fn tcp_options(b: Seq<u8>) -> Seq<u8> {
    b.subrange(MIN_TCP_HEADER_LENGTH as int, tcp_data_offset(b) * 4)
}

/// The data region: everything after the declared data offset.
pub open spec fn tcp_data(b: Seq<u8>) -> Seq<u8> {
    b.subrange(tcp_data_offset(b) * 4, b.len() as int)
}

/// A byte assembled from eight bits decodes back to each bit.
proof fn lemma_flag_bits(c: u8, e: u8, u: u8, a: u8, p: u8, r: u8, s: u8, f: u8)
    by (bit_vector)
    requires
        c <= 1,
        e <= 1,
        u <= 1,
        a <= 1,
        p <= 1,
        r <= 1,
        s <= 1,
        f <= 1,
    ensures
        ({
            let w = c * 128 + e * 64 + u * 32 + a * 16 + p * 8 + r * 4 + s * 2 + f;
            &&& w < 256
            &&& w / 128 % 2 == c
            &&& w / 64 % 2 == e
            &&& w / 32 % 2 == u
            &&& w / 16 % 2 == a
            &&& w / 8 % 2 == p
            &&& w / 4 % 2 == r
            &&& w / 2 % 2 == s
            &&& w % 2 == f
        }),
{
}

/// Parse/serialize inverse for the TCP segment: the emitted image of a
/// well-formed header parses, and every parsed field equals the field of
/// the value — ports, numbers, flags, window, urgent pointer, data
/// offset, options and data — while the parsed checksum is exactly the
/// freshly computed pseudo-header checksum.
#[verifier::rlimit(100)]
#[verifier::spinoff_prover]
pub proof fn lemma_tcp_parse_serialize_inverse(v: TcpHeader)
    requires
        v.wf(),
    ensures
        ({
            let b = tcp_bytes(v);
            &&& tcp_parse_ok(b)
            &&& tcp_data_offset(b) * 4 == MIN_TCP_HEADER_LENGTH + v.options@.len()
            &&& tcp_src_port(b) == v.src_port
            &&& tcp_dst_port(b) == v.dst_port
            &&& tcp_seq_number(b) == v.seq_number
            &&& tcp_ack_number(b) == v.ack_number
            &&& tcp_cwr(b) == v.cwr
            &&& tcp_ece(b) == v.ece
            &&& tcp_urg(b) == v.urg
            &&& tcp_ack(b) == v.ack
            &&& tcp_psh(b) == v.psh
            &&& tcp_rst(b) == v.rst
            &&& tcp_syn(b) == v.syn
            &&& tcp_fin(b) == v.fin
            &&& tcp_window(b) == v.window
            &&& tcp_urgent_pointer(b) == v.urgent_pointer
            &&& tcp_checksum(b) == tcp_segment_checksum(v)
            &&& tcp_options(b) == v.options@
            &&& tcp_data(b) == v.data@
        }),
{
    let b = tcp_bytes(v);
    let z = tcp_bytes_zck(v);
    let k = v.options@.len() as int;
    lemma_be16_bytes(v.src_port);
    lemma_be16_bytes(v.dst_port);
    lemma_be16_bytes(v.window);
    lemma_be16_bytes(v.urgent_pointer);
    lemma_be16_bytes(tcp_segment_checksum(v));
    lemma_be32_bytes(v.seq_number);
    lemma_be32_bytes(v.ack_number);
    // The data-offset nibble: options pack into whole words.
    lemma_fundamental_div_mod(k, 4);
    let q = 5 + k / 4;
    assert(MIN_TCP_HEADER_LENGTH + k == 4 * q);
    lemma_fundamental_div_mod_converse_div(MIN_TCP_HEADER_LENGTH + k, 4, q, 0);
    assert(b[12] == tcp_offset_byte(v));
    assert(tcp_offset_byte(v) == (q * 16) as u8);
    lemma_fundamental_div_mod_converse_div(q * 16, 16, q, 0);
    assert(tcp_data_offset(b) == q);
    // The flag byte: each flag decodes from its bit.
    let fc: u8 = if v.cwr { 1 } else { 0 };
    let fe: u8 = if v.ece { 1 } else { 0 };
    let fu: u8 = if v.urg { 1 } else { 0 };
    let fa: u8 = if v.ack { 1 } else { 0 };
    let fp: u8 = if v.psh { 1 } else { 0 };
    let fr: u8 = if v.rst { 1 } else { 0 };
    let fs: u8 = if v.syn { 1 } else { 0 };
    let ff: u8 = if v.fin { 1 } else { 0 };
    lemma_flag_bits(fc, fe, fu, fa, fp, fr, fs, ff);
    assert(b[13] == tcp_flags_byte(v));
    assert(tcp_flags_byte(v) as int == fc * 128 + fe * 64 + fu * 32 + fa * 16 + fp * 8 + fr * 4
        + fs * 2 + ff);
    // Options and data come back as the regions they were written to.
    assert_seqs_equal!(tcp_options(b) == v.options@, j => {
        assert(b[MIN_TCP_HEADER_LENGTH + j] == z[MIN_TCP_HEADER_LENGTH + j]);
    });
    assert_seqs_equal!(tcp_data(b) == v.data@, j => {
        assert(b[MIN_TCP_HEADER_LENGTH + k + j] == z[MIN_TCP_HEADER_LENGTH + k + j]);
        assert(z[MIN_TCP_HEADER_LENGTH + k + j] == v.data@[j]);
    });
}

pub struct TcpHeaderSlice {
    buf: Vec<u8>,
}

impl View for TcpHeaderSlice {
    type V = Seq<u8>;

    closed spec fn view(&self) -> Seq<u8> {
        self.buf@
    }
}

impl TcpHeaderSlice {
    /// A parsed view always satisfies the parse conditions.
    pub open spec fn wf(self) -> bool {
        tcp_parse_ok(self@)
    }

    /// Validates a received buffer as a TCP segment and takes a view of
    /// it. Returns the view exactly when the buffer is at least 20 bytes
    /// and the declared data offset lies within the buffer.
    pub fn from_buf(buf: &[u8]) -> (r: Option<Self>)
        ensures
            match r {
                Some(s) => tcp_parse_ok(buf@) && s@ == buf@,
                None => !tcp_parse_ok(buf@),
            },
    {
        let v: Vec<u8> = slice_to_vec(buf);
        if v.len() < MIN_TCP_HEADER_LENGTH {
            return None;
        }
        let data_offset = v[12] / 16;
        if v.len() < (data_offset as usize) * 4 {
            return None;
        }
        Some(Self { buf: v })
    }

    pub fn src_port(&self) -> (r: u16)
        requires
            self.wf(),
        ensures
            r == tcp_src_port(self@),
    {
        u16_from_buf(&self.buf, 0)
    }

    pub fn dst_port(&self) -> (r: u16)
        requires
            self.wf(),
        ensures
            r == tcp_dst_port(self@),
    {
        u16_from_buf(&self.buf, 2)
    }

    pub fn seq_number(&self) -> (r: u32)
        requires
            self.wf(),
        ensures
            r == tcp_seq_number(self@),
    {
        u32_from_buf(&self.buf, 4)
    }

    pub fn ack_number(&self) -> (r: u32)
        requires
            self.wf(),
        ensures
            r == tcp_ack_number(self@),
    {
        u32_from_buf(&self.buf, 8)
    }

    /// The header length in 32-bit words, options included.
    pub fn data_offset(&self) -> (r: u8)
        requires
            self.wf(),
        ensures
            r == tcp_data_offset(self@),
    {
        self.buf[12] / 16
    }

    pub fn cwr(&self) -> (r: bool)
        requires
            self.wf(),
        ensures
            r == tcp_cwr(self@),
    {
        (self.buf[13] / 128) % 2 == 1
    }

    pub fn ece(&self) -> (r: bool)
        requires
            self.wf(),
        ensures
            r == tcp_ece(self@),
    {
        (self.buf[13] / 64) % 2 == 1
    }

    pub fn urg(&self) -> (r: bool)
        requires
            self.wf(),
        ensures
            r == tcp_urg(self@),
    {
        (self.buf[13] / 32) % 2 == 1
    }

    pub fn ack(&self) -> (r: bool)
        requires
            self.wf(),
        ensures
            r == tcp_ack(self@),
    {
        (self.buf[13] / 16) % 2 == 1
    }

    pub fn psh(&self) -> (r: bool)
        requires
            self.wf(),
        ensures
            r == tcp_psh(self@),
    {
        (self.buf[13] / 8) % 2 == 1
    }

    pub fn rst(&self) -> (r: bool)
        requires
            self.wf(),
        ensures
            r == tcp_rst(self@),
    {
        (self.buf[13] / 4) % 2 == 1
    }

    pub fn syn(&self) -> (r: bool)
        requires
            self.wf(),
        ensures
            r == tcp_syn(self@),
    {
        (self.buf[13] / 2) % 2 == 1
    }

    pub fn fin(&self) -> (r: bool)
        requires
            self.wf(),
        ensures
            r == tcp_fin(self@),
    {
        self.buf[13] % 2 == 1
    }

    pub fn window(&self) -> (r: u16)
        requires
            self.wf(),
        ensures
            r == tcp_window(self@),
    {
        u16_from_buf(&self.buf, 14)
    }

    pub fn checksum(&self) -> (r: u16)
        requires
            self.wf(),
        ensures
            r == tcp_checksum(self@),
    {
        u16_from_buf(&self.buf, 16)
    }

    pub fn urgent_pointer(&self) -> (r: u16)
        requires
            self.wf(),
        ensures
            r == tcp_urgent_pointer(self@),
    {
        u16_from_buf(&self.buf, 18)
    }

    /// Verifies the received segment checksum against a pseudo-header
    /// for the given addresses: folds the pseudo-header words, then the
    /// whole segment, checksum field included; an intact segment folds
    /// to the all-ones sum. Inbound validation is left to the caller's
    /// policy.
    pub fn checksum_valid(&self, src_addr: u32, dst_addr: u32) -> (r: bool)
        requires
            self.wf(),
            self@.len() <= 0xFFFF,
        ensures
            r <==> checksum_fold(
                pseudo_words(
                    PsuedoHeader {
                        src_addr,
                        dst_addr,
                        protocol: Protocol::Tcp,
                        tcp_length: self@.len() as u16,
                    },
                ) + words_of(self@),
            ) == 0xFFFF,
    {
        let ghost ph = PsuedoHeader {
            src_addr,
            dst_addr,
            protocol: Protocol::Tcp,
            tcp_length: self@.len() as u16,
        };
        let ghost pw = pseudo_words(ph);
        let tcp_length = self.buf.len() as u16;
        let mut sum = ones_complement_sum((src_addr / 0x1_0000) as u16, (src_addr % 0x1_0000) as u16);
        proof {
            assert(fold_words(0, pw, 0) == 0);
            assert(fold_words(0, pw, 1) == ones_add(fold_words(0, pw, 0), pw[0]));
            assert(fold_words(0, pw, 2) == ones_add(fold_words(0, pw, 1), pw[1]));
            assert(sum == fold_words(0, pw, 2));
        }
        sum = ones_complement_sum(sum, (dst_addr / 0x1_0000) as u16);
        assert(sum == fold_words(0, pw, 3));
        sum = ones_complement_sum(sum, (dst_addr % 0x1_0000) as u16);
        assert(sum == fold_words(0, pw, 4));
        sum = ones_complement_sum(sum, 6);
        assert(sum == fold_words(0, pw, 5));
        sum = ones_complement_sum(sum, tcp_length);
        assert(sum == fold_words(0, pw, 6));
        let total = checksum_region(&self.buf, 0, self.buf.len(), sum);
        proof {
            assert(self@.subrange(0, self@.len() as int) =~= self@);
            lemma_fold_append(0, pw, words_of(self@), words_of(self@).len() as int);
        }
        total == 0xFFFF
    }

    /// The options region, bytes 20 up to the declared data offset; empty
    /// when the data offset is the minimum header length or less.
    pub fn options(&self) -> (r: Vec<u8>)
        requires
            self.wf(),
            MIN_TCP_HEADER_LENGTH <= tcp_data_offset(self@) * 4,
        ensures
            r@ == tcp_options(self@),
    {
        let data_offset = (self.buf[12] / 16) as usize * 4;
        slice_to_vec(slice_subrange(self.buf.as_slice(), MIN_TCP_HEADER_LENGTH, data_offset))
    }

    /// The data region after the declared data offset.
    pub fn data(&self) -> (r: Vec<u8>)
        requires
            self.wf(),
        ensures
            r@ == tcp_data(self@),
    {
        let data_offset = (self.buf[12] / 16) as usize * 4;
        slice_to_vec(slice_subrange(self.buf.as_slice(), data_offset, self.buf.len()))
    }
}

} // verus!
