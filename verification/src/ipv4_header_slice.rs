//! The read-only view over a received IPv4 packet. All bounds are
//! validated once at parse time; every accessor afterwards is total and
//! panic-free. The field accessors are specified against spec functions
//! over the raw bytes, so callers reason about the wire image itself.
use vstd::prelude::*;
use vstd::slice::{slice_subrange, slice_to_vec};
use vstd::arithmetic::div_mod::{
    lemma_fundamental_div_mod_converse_div, lemma_fundamental_div_mod_converse_mod,
};
use crate::bytes::{be16, be32, lemma_be16_bytes, lemma_be32_bytes, u16_from_buf, u32_from_buf};
use crate::checksum::{checksum_fold, checksum_region, words_of};
use crate::ipv4_header::{
    flags_frag_word, ipv4_header_bytes, ipv4_header_checksum, Ipv4Header, IP_HEADER_SIZE,
};
use crate::protocol::{protocol_from_bits, Protocol};

verus! {

/// The version nibble of an IPv4 header image.
pub open spec fn ip_version(b: Seq<u8>) -> int {
    b[0] as int / 16
}

/// The header length in bytes: the IHL nibble times four.
pub open spec fn ip_header_len(b: Seq<u8>) -> int {
    (b[0] as int % 16) * 4
}

/// The type-of-service byte.
pub open spec fn ip_tos(b: Seq<u8>) -> u8 {
    b[1]
}

/// The declared total packet length in bytes.
pub open spec fn ip_total_len(b: Seq<u8>) -> int {
    be16(b[2], b[3]) as int
}

/// The identification field.
pub open spec fn ip_identification(b: Seq<u8>) -> u16 {
    be16(b[4], b[5])
}

/// The flags-and-fragment-offset word.
pub open spec fn ip_flags_frag(b: Seq<u8>) -> u16 {
    be16(b[6], b[7])
}

/// The don't-fragment flag, bit 14 of the flags word.
pub open spec fn ip_dont_fragment(b: Seq<u8>) -> bool {
    (ip_flags_frag(b) as int / 0x4000) % 2 == 1
}

/// The more-fragments flag, bit 13 of the flags word.
pub open spec fn ip_more_fragments(b: Seq<u8>) -> bool {
    (ip_flags_frag(b) as int / 0x2000) % 2 == 1
}

/// The 13-bit fragment offset.
pub open spec fn ip_fragment_offset(b: Seq<u8>) -> u16 {
    (ip_flags_frag(b) as int % 0x2000) as u16
}

/// The time-to-live byte.
pub open spec fn ip_ttl(b: Seq<u8>) -> u8 {
    b[8]
}

/// The protocol-number byte.
pub open spec fn ip_protocol_bits(b: Seq<u8>) -> u8 {
    b[9]
}

/// The header checksum as received.
pub open spec fn ip_checksum(b: Seq<u8>) -> u16 {
    be16(b[10], b[11])
}

/// The source address as a 32-bit value.
pub open spec fn ip_src(b: Seq<u8>) -> u32 {
    be32(b[12], b[13], b[14], b[15])
}

/// The destination address as a 32-bit value.
pub open spec fn ip_dst(b: Seq<u8>) -> u32 {
    be32(b[16], b[17], b[18], b[19])
}

/// The payload: the declared packet contents following the header.
pub open spec fn ip_payload(b: Seq<u8>) -> Seq<u8> {
    b.subrange(ip_header_len(b), ip_total_len(b))
}

/// The header of the reply to a packet: every field copied, source and
/// destination addresses swapped.
pub open spec fn reply_header(b: Seq<u8>) -> Ipv4Header {
    Ipv4Header {
        tos: ip_tos(b),
        identification: ip_identification(b),
        dont_fragment: ip_dont_fragment(b),
        more_fragments: ip_more_fragments(b),
        fragment_offset: ip_fragment_offset(b),
        ttl: ip_ttl(b),
        protocol: protocol_from_bits(ip_protocol_bits(b)),
        src_ip: ip_dst(b),
        dst_ip: ip_src(b),
    }
}

/// When a buffer parses as an IPv4 packet: long enough for the fixed
/// header, version 4, a header length of at least 20 bytes, and a
/// declared total length that covers the header and fits the buffer.
pub open spec fn ipv4_parse_ok(b: Seq<u8>) -> bool {
    &&& b.len() >= IP_HEADER_SIZE
    &&& ip_version(b) == 4
    &&& b[0] as int % 16 >= 5
    &&& ip_total_len(b) <= b.len()
    &&& ip_header_len(b) <= ip_total_len(b)
}

pub struct Ipv4HeaderSlice {
    buf: Vec<u8>,
}

impl View for Ipv4HeaderSlice {
    type V = Seq<u8>;

    closed spec fn view(&self) -> Seq<u8> {
        self.buf@
    }
}

impl Ipv4HeaderSlice {
    /// A parsed view always satisfies the parse conditions.
    pub open spec fn wf(self) -> bool {
        ipv4_parse_ok(self@)
    }

    /// Validates a received buffer as an IPv4 packet and takes a view of
    /// it. Returns the view exactly when the buffer is at least 20 bytes,
    /// the version nibble is 4, the header-length field is at least 5
    /// words, and the declared total length covers the header and does
    /// not exceed the buffer.
    pub fn from_buf(buf: &[u8]) -> (r: Option<Self>)
        ensures
            match r {
                Some(s) => ipv4_parse_ok(buf@) && s@ == buf@,
                None => !ipv4_parse_ok(buf@),
            },
    {
        let v: Vec<u8> = slice_to_vec(buf);
        let n = v.len();
        if n < IP_HEADER_SIZE {
            return None;
        }
        let first = v[0];
        let version = first / 16;
        let ihl = first % 16;
        if version != 4 {
            return None;
        }
        if ihl < 5 {
            return None;
        }
        let length = u16_from_buf(&v, 2);
        if n < length as usize {
            return None;
        }
        if length < (ihl as u16) * 4 {
            return None;
        }
        Some(Self { buf: v })
    }

    pub fn tos(&self) -> (r: u8)
        requires
            self.wf(),
        ensures
            r == ip_tos(self@),
    {
        self.buf[1]
    }

    pub fn identification(&self) -> (r: u16)
        requires
            self.wf(),
        ensures
            r == ip_identification(self@),
    {
        u16_from_buf(&self.buf, 4)
    }

    pub fn dont_fragment(&self) -> (r: bool)
        requires
            self.wf(),
        ensures
            r == ip_dont_fragment(self@),
    {
        let flags_and_frag = u16_from_buf(&self.buf, 6);
        (flags_and_frag / 0x4000) % 2 == 1
    }

    pub fn more_fragments(&self) -> (r: bool)
        requires
            self.wf(),
        ensures
            r == ip_more_fragments(self@),
    {
        let flags_and_frag = u16_from_buf(&self.buf, 6);
        (flags_and_frag / 0x2000) % 2 == 1
    }

    pub fn fragment_offset(&self) -> (r: u16)
        requires
            self.wf(),
        ensures
            r == ip_fragment_offset(self@),
            r < 0x2000,
    {
        let flags_and_frag = u16_from_buf(&self.buf, 6);
        flags_and_frag % 0x2000
    }

    pub fn ttl(&self) -> (r: u8)
        requires
            self.wf(),
        ensures
            r == ip_ttl(self@),
    {
        self.buf[8]
    }

    pub fn checksum(&self) -> (r: u16)
        requires
            self.wf(),
        ensures
            r == ip_checksum(self@),
    {
        u16_from_buf(&self.buf, 10)
    }

    /// Byte length of the internet header.
    pub fn header_length(&self) -> (r: u8)
        requires
            self.wf(),
        ensures
            r == ip_header_len(self@),
    {
        (self.buf[0] % 16) * 4
    }

    /// Byte length of the entire internet packet.
    pub fn length(&self) -> (r: u16)
        requires
            self.wf(),
        ensures
            r == ip_total_len(self@),
    {
        u16_from_buf(&self.buf, 2)
    }

    pub fn src_ip(&self) -> (r: u32)
        requires
            self.wf(),
        ensures
            r == ip_src(self@),
    {
        u32_from_buf(&self.buf, 12)
    }

    pub fn dst_ip(&self) -> (r: u32)
        requires
            self.wf(),
        ensures
            r == ip_dst(self@),
    {
        u32_from_buf(&self.buf, 16)
    }

    pub fn protocol(&self) -> (r: Protocol)
        requires
            self.wf(),
        ensures
            r == protocol_from_bits(ip_protocol_bits(self@)),
    {
        Protocol::from_bits(self.buf[9])
    }

    /// Verifies the received header checksum: folds the header region,
    /// checksum field included; an intact header folds to the all-ones
    /// sum. Inbound validation is left to the caller's policy; the
    /// dispatcher does not demand it.
    pub fn checksum_valid(&self) -> (r: bool)
        requires
            self.wf(),
        ensures
            r <==> checksum_fold(words_of(self@.subrange(0, ip_header_len(self@)))) == 0xFFFF,
    {
        let header_length = (self.buf[0] % 16) as usize * 4;
        let sum = checksum_region(&self.buf, 0, header_length, 0);
        sum == 0xFFFF
    }

    /// The packet's payload: the declared contents after the header.
    pub fn payload(&self) -> (r: Vec<u8>)
        requires
            self.wf(),
        ensures
            r@ == ip_payload(self@),
    {
        let header_length = (self.buf[0] % 16) as usize * 4;
        let length = u16_from_buf(&self.buf, 2) as usize;
        slice_to_vec(slice_subrange(self.buf.as_slice(), header_length, length))
    }

    /// An owned header for the reply to this packet: every field copied,
    /// source and destination addresses swapped.
    pub fn reply(&self) -> (r: Ipv4Header)
        requires
            self.wf(),
        ensures
            r == reply_header(self@),
            r.wf(),
    {
        Ipv4Header {
            tos: self.tos(),
            identification: self.identification(),
            dont_fragment: self.dont_fragment(),
            more_fragments: self.more_fragments(),
            fragment_offset: self.fragment_offset(),
            ttl: self.ttl(),
            protocol: self.protocol(),
            src_ip: self.dst_ip(),
            dst_ip: self.src_ip(),
        }
    }
}

/// Parse/serialize inverse: any buffer whose first 20 bytes are the
/// serialized image of a header value for payload length `payload_len`,
/// followed by exactly that many payload bytes, parses as a valid IPv4
/// packet, and every parsed field equals the field of the value — the
/// addresses, the flags, the offset, the lengths and the payload — while
/// the parsed checksum is exactly the freshly computed one.
pub proof fn lemma_ipv4_parse_serialize_inverse(h: Ipv4Header, payload_len: int, b: Seq<u8>)
    requires
        h.wf(),
        0 <= payload_len,
        IP_HEADER_SIZE + payload_len <= 0xFFFF,
        b.len() == IP_HEADER_SIZE + payload_len,
        b.subrange(0, IP_HEADER_SIZE as int) == ipv4_header_bytes(
            h,
            (IP_HEADER_SIZE + payload_len) as u16,
        ),
    ensures
        ipv4_parse_ok(b),
        ip_header_len(b) == IP_HEADER_SIZE,
        ip_total_len(b) == IP_HEADER_SIZE + payload_len,
        ip_tos(b) == h.tos,
        ip_identification(b) == h.identification,
        ip_dont_fragment(b) == h.dont_fragment,
        ip_more_fragments(b) == h.more_fragments,
        ip_fragment_offset(b) == h.fragment_offset,
        ip_ttl(b) == h.ttl,
        protocol_from_bits(ip_protocol_bits(b)) == h.protocol,
        ip_src(b) == h.src_ip,
        ip_dst(b) == h.dst_ip,
        ip_checksum(b) == ipv4_header_checksum(h, (IP_HEADER_SIZE + payload_len) as u16),
        ip_payload(b) == b.subrange(IP_HEADER_SIZE as int, b.len() as int),
{
    let total = (IP_HEADER_SIZE + payload_len) as u16;
    let hb = ipv4_header_bytes(h, total);
    assert forall|j: int| 0 <= j < IP_HEADER_SIZE implies b[j] == hb[j] by {
        assert(b.subrange(0, IP_HEADER_SIZE as int)[j] == b[j]);
    }
    lemma_be16_bytes(total);
    lemma_be16_bytes(h.identification);
    lemma_be16_bytes(flags_frag_word(h));
    lemma_be16_bytes(ipv4_header_checksum(h, total));
    lemma_be32_bytes(h.src_ip);
    lemma_be32_bytes(h.dst_ip);
    assert(ip_flags_frag(b) == flags_frag_word(h));
    let w = flags_frag_word(h) as int;
    let df: int = if h.dont_fragment { 1 } else { 0 };
    let mf: int = if h.more_fragments { 1 } else { 0 };
    assert(w == (df * 2 + mf) * 0x2000 + h.fragment_offset);
    lemma_fundamental_div_mod_converse_div(w, 0x2000, df * 2 + mf, h.fragment_offset as int);
    lemma_fundamental_div_mod_converse_mod(w, 0x2000, df * 2 + mf, h.fragment_offset as int);
    assert(w == df * 0x4000 + (mf * 0x2000 + h.fragment_offset));
    lemma_fundamental_div_mod_converse_div(w, 0x4000, df, mf * 0x2000 + h.fragment_offset);
    assert(ip_version(b) == 4 && b[0] as int % 16 == 5);
}

} // verus!
