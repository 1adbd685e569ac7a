//! The read-only view over a received ICMP message. Only echo and
//! echo-reply messages are recognized; any other type byte is a parse
//! failure.
use vstd::prelude::*;
use vstd::slice::{slice_subrange, slice_to_vec};
use vstd::assert_seqs_equal;
use crate::bytes::{be16, lemma_be16_bytes, u16_from_buf};
use crate::checksum::{checksum_fold, checksum_region, words_of};
use crate::icmpv4::{
    icmp_bytes, icmp_bytes_zck, icmp_message_checksum, Icmpv4, Icmpv4Type, ECHO_REPLY_TYPE,
    ECHO_TYPE, ICMP_HEADER_SIZE,
};

verus! {

/// When a buffer parses as an ICMP message this stack recognizes: long
/// enough for the 8-byte header, and an echo or echo-reply type byte.
pub open spec fn icmp_parse_ok(b: Seq<u8>) -> bool {
    &&& b.len() >= ICMP_HEADER_SIZE
    &&& (b[0] == ECHO_TYPE || b[0] == ECHO_REPLY_TYPE)
}

/// The message type a recognized type byte denotes.
pub open spec fn icmp_type_of(b: Seq<u8>) -> Icmpv4Type {
    if b[0] == ECHO_TYPE {
        Icmpv4Type::Echo
    } else {
        Icmpv4Type::EchoReply
    }
}

/// The code byte.
pub open spec fn icmp_code(b: Seq<u8>) -> u8 {
    b[1]
}

/// The checksum as received.
pub open spec fn icmp_checksum(b: Seq<u8>) -> u16 {
    be16(b[2], b[3])
}

/// The identifier field.
pub open spec fn icmp_identifier(b: Seq<u8>) -> u16 {
    be16(b[4], b[5])
}

/// The sequence-number field.
pub open spec fn icmp_sequence_number(b: Seq<u8>) -> u16 {
    be16(b[6], b[7])
}

/// The payload: everything after the 8-byte header.
pub open spec fn icmp_payload(b: Seq<u8>) -> Seq<u8> {
    b.subrange(ICMP_HEADER_SIZE as int, b.len() as int)
}

/// Parse/serialize inverse for the ICMP message: the emitted image of a
/// message parses, and every parsed field equals the field of the value,
/// while the parsed checksum is exactly the freshly computed one.
pub proof fn lemma_icmp_parse_serialize_inverse(v: Icmpv4)
    ensures
        ({
            let b = icmp_bytes(v);
            &&& icmp_parse_ok(b)
            &&& icmp_type_of(b) == v.icmp_type
            &&& icmp_code(b) == v.code
            &&& icmp_identifier(b) == v.identifier
            &&& icmp_sequence_number(b) == v.sequence_number
            &&& icmp_checksum(b) == icmp_message_checksum(v)
            &&& icmp_payload(b) == v.payload@
        }),
{
    let b = icmp_bytes(v);
    let z = icmp_bytes_zck(v);
    lemma_be16_bytes(v.identifier);
    lemma_be16_bytes(v.sequence_number);
    lemma_be16_bytes(icmp_message_checksum(v));
    assert_seqs_equal!(icmp_payload(b) == v.payload@, j => {
        assert(b[ICMP_HEADER_SIZE + j] == z[ICMP_HEADER_SIZE + j]);
        assert(z[ICMP_HEADER_SIZE + j] == v.payload@[j]);
    });
}

pub struct Icmpv4Slice {
    buf: Vec<u8>,
}

impl View for Icmpv4Slice {
    type V = Seq<u8>;

    closed spec fn view(&self) -> Seq<u8> {
        self.buf@
    }
}

impl Icmpv4Slice {
    /// A parsed view always satisfies the parse conditions.
    pub open spec fn wf(self) -> bool {
        icmp_parse_ok(self@)
    }

    /// Validates a received buffer as an echo or echo-reply ICMP message
    /// and takes a view of it. Returns the view exactly when the buffer
    /// is at least 8 bytes and the type byte is 8 (echo) or 0
    /// (echo reply); every other type byte fails to parse.
    pub fn from_buf(buf: &[u8]) -> (r: Option<Self>)
        ensures
            match r {
                Some(s) => icmp_parse_ok(buf@) && s@ == buf@,
                None => !icmp_parse_ok(buf@),
            },
    {
        let v: Vec<u8> = slice_to_vec(buf);
        if v.len() < ICMP_HEADER_SIZE {
            return None;
        }
        let icmp_type = v[0];
        if icmp_type != ECHO_TYPE && icmp_type != ECHO_REPLY_TYPE {
            return None;
        }
        Some(Self { buf: v })
    }

    pub fn icmp_type(&self) -> (r: Icmpv4Type)
        requires
            self.wf(),
        ensures
            r == icmp_type_of(self@),
    {
        let type_bits = self.buf[0];
        if type_bits == ECHO_TYPE {
            return Icmpv4Type::Echo;
        }
        Icmpv4Type::EchoReply
    }

    pub fn code(&self) -> (r: u8)
        requires
            self.wf(),
        ensures
            r == icmp_code(self@),
    {
        self.buf[1]
    }

    pub fn identifier(&self) -> (r: u16)
        requires
            self.wf(),
        ensures
            r == icmp_identifier(self@),
    {
        u16_from_buf(&self.buf, 4)
    }

    pub fn sequence_number(&self) -> (r: u16)
        requires
            self.wf(),
        ensures
            r == icmp_sequence_number(self@),
    {
        u16_from_buf(&self.buf, 6)
    }

    pub fn checksum(&self) -> (r: u16)
        requires
            self.wf(),
        ensures
            r == icmp_checksum(self@),
    {
        u16_from_buf(&self.buf, 2)
    }

    /// Verifies the received message checksum: folds header and payload,
    /// checksum field included; an intact message folds to the all-ones
    /// sum. Inbound validation is left to the caller's policy.
    pub fn checksum_valid(&self) -> (r: bool)
        requires
            self.wf(),
        ensures
            r <==> checksum_fold(words_of(self@)) == 0xFFFF,
    {
        let sum = checksum_region(&self.buf, 0, self.buf.len(), 0);
        proof {
            assert(self@.subrange(0, self@.len() as int) =~= self@);
        }
        sum == 0xFFFF
    }

    /// The message payload following the 8-byte header.
    pub fn payload(&self) -> (r: Vec<u8>)
        requires
            self.wf(),
        ensures
            r@ == icmp_payload(self@),
    {
        slice_to_vec(slice_subrange(self.buf.as_slice(), ICMP_HEADER_SIZE, self.buf.len()))
    }
}

} // verus!
