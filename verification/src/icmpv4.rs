//! The owned ICMP echo / echo-reply message, its serializer, and the
//! echo-reply construction applied to an inbound echo request.
use vstd::prelude::*;
use vstd::assert_seqs_equal;
use crate::bytes::{be16, high_byte, lemma_be16_bytes, low_byte, u16_to_buf};
use crate::checksum::{
    checksum_fold, checksum_region, complement16, lemma_checksum_update, lemma_words_of_update_pair,
    words_of,
};
use crate::error::SerializeError;
use crate::icmpv4_slice::{
    icmp_code, icmp_identifier, icmp_payload, icmp_sequence_number, icmp_type_of, Icmpv4Slice,
};

verus! {

pub const ICMP_HEADER_SIZE: usize = 8;

pub const ECHO_TYPE: u8 = 8;

pub const ECHO_REPLY_TYPE: u8 = 0;

#[derive(Debug, PartialEq, Eq, Structural, Clone, Copy)]
pub enum Icmpv4Type {
    Echo,
    EchoReply,
}

/// The type byte a message type is written as.
pub open spec fn icmp_type_bits(t: Icmpv4Type) -> u8 {
    match t {
        Icmpv4Type::Echo => ECHO_TYPE,
        Icmpv4Type::EchoReply => ECHO_REPLY_TYPE,
    }
}

impl Icmpv4Type {
    /// The type's bit representation in the ICMP header.
    fn to_bits(&self) -> (r: u8)
        ensures
            r == icmp_type_bits(*self),
    {
        match self {
            Icmpv4Type::Echo => ECHO_TYPE,
            Icmpv4Type::EchoReply => ECHO_REPLY_TYPE,
        }
    }
}

pub struct Icmpv4 {
    pub icmp_type: Icmpv4Type,
    pub code: u8,
    pub identifier: u16,
    pub sequence_number: u16,
    pub payload: Vec<u8>,
}

/// The message bytes with the checksum field still zero: the 8 header
/// bytes followed by the payload.
pub open spec fn icmp_bytes_zck(v: Icmpv4) -> Seq<u8> {
    seq![
        icmp_type_bits(v.icmp_type),
        v.code,
        0u8,
        0u8,
        high_byte(v.identifier),
        low_byte(v.identifier),
        high_byte(v.sequence_number),
        low_byte(v.sequence_number),
    ] + v.payload@
}

/// The checksum written into an outbound message: the complement of the
/// fold over header and payload with the checksum field zeroed.
pub open spec fn icmp_message_checksum(v: Icmpv4) -> u16 {
    complement16(checksum_fold(words_of(icmp_bytes_zck(v))))
}

/// The message bytes as emitted, checksum included.
pub open spec fn icmp_bytes(v: Icmpv4) -> Seq<u8> {
    let c = icmp_message_checksum(v);
    icmp_bytes_zck(v).update(2, high_byte(c)).update(3, low_byte(c))
}

/// Checksum round-trip for the ICMP message: folding the emitted
/// message, checksum field included, always yields 0xFFFF, so the
/// checksum a validator computes over it is zero.
pub proof fn lemma_icmp_checksum_roundtrip(v: Icmpv4)
    ensures
        checksum_fold(words_of(icmp_bytes(v))) == 0xFFFF,
{
    let z = icmp_bytes_zck(v);
    let ws = words_of(z);
    let c = icmp_message_checksum(v);
    lemma_words_of_update_pair(z, 2, high_byte(c), low_byte(c));
    lemma_be16_bytes(c);
    assert(z[2] == 0 && z[3] == 0);
    assert(ws[1] == be16(0, 0));
    lemma_checksum_update(ws, 1);
}

impl Icmpv4 {
    /// Serializes the message — header, payload, and a freshly computed
    /// checksum over both — into the first `8 + payload.len()` bytes of
    /// `buf`. Returns how many bytes were written; fails exactly when
    /// the buffer is shorter than that, leaving it untouched.
    pub fn to_buf(&self, buf: &mut Vec<u8>) -> (r: Result<usize, SerializeError>)
        ensures
            final(buf)@.len() == old(buf)@.len(),
            old(buf)@.len() < ICMP_HEADER_SIZE + self.payload@.len() ==> r == Err::<
                usize,
                SerializeError,
            >(SerializeError::BufferTooSmall) && final(buf)@ == old(buf)@,
            old(buf)@.len() >= ICMP_HEADER_SIZE + self.payload@.len() ==> {
                let total = ICMP_HEADER_SIZE + self.payload@.len();
                &&& r == Ok::<usize, SerializeError>(total as usize)
                &&& final(buf)@.subrange(0, total as int) == icmp_bytes(*self)
                &&& final(buf)@.subrange(total as int, final(buf)@.len() as int) == old(
                    buf,
                )@.subrange(total as int, old(buf)@.len() as int)
            },
    {
        let n = buf.len();
        let plen = self.payload.len();
        if n < ICMP_HEADER_SIZE || n - ICMP_HEADER_SIZE < plen {
            return Err(SerializeError::BufferTooSmall);
        }
        let total = ICMP_HEADER_SIZE + plen;
        let ghost zck = icmp_bytes_zck(*self);
        buf[0] = self.icmp_type.to_bits();
        buf[1] = self.code;
        buf[2] = 0;
        buf[3] = 0;
        u16_to_buf(buf, 4, self.identifier);
        u16_to_buf(buf, 6, self.sequence_number);
        let mut i: usize = 0;
        while i < plen
            invariant
                i <= plen,
                plen == self.payload@.len(),
                total == ICMP_HEADER_SIZE + plen,
                total <= buf@.len(),
                buf@.len() == old(buf)@.len(),
                forall|j: int| 0 <= j < ICMP_HEADER_SIZE ==> buf@[j] == zck[j],
                forall|j: int| 0 <= j < i ==> buf@[ICMP_HEADER_SIZE + j] == self.payload@[j],
                forall|j: int|
                    ICMP_HEADER_SIZE + i <= j < buf@.len() ==> buf@[j] == old(buf)@[j],
            decreases plen - i,
        {
            buf[ICMP_HEADER_SIZE + i] = self.payload[i];
            i = i + 1;
        }
        proof {
            assert_seqs_equal!(buf@.subrange(0, total as int) == zck, j => {
                if j >= ICMP_HEADER_SIZE {
                    assert(buf@[j] == self.payload@[j - ICMP_HEADER_SIZE]);
                }
            });
        }
        let sum = checksum_region(buf, 0, total, 0);
        assert(sum == checksum_fold(words_of(zck)));
        let ck: u16 = 0xFFFF - sum;
        u16_to_buf(buf, 2, ck);
        proof {
            assert_seqs_equal!(buf@.subrange(0, total as int) == icmp_bytes(*self));
            assert_seqs_equal!(
                buf@.subrange(total as int, buf@.len() as int)
                    == old(buf)@.subrange(total as int, old(buf)@.len() as int)
            );
        }
        Ok(total)
    }

    /// The total message length: the 8-byte header plus the payload.
    pub fn length(&self) -> (r: usize)
        requires
            ICMP_HEADER_SIZE + self.payload@.len() <= usize::MAX,
        ensures
            r == ICMP_HEADER_SIZE + self.payload@.len(),
    {
        ICMP_HEADER_SIZE + self.payload.len()
    }
}

/// Builds the echo reply to an inbound echo request: the same code,
/// identifier, sequence number and payload, under the echo-reply type.
/// Calling this on anything but an echo request is a caller error, which
/// the precondition rules out.
pub fn process_echo(icmp: &Icmpv4Slice) -> (r: Icmpv4)
    requires
        icmp.wf(),
        icmp_type_of(icmp@) == Icmpv4Type::Echo,
    ensures
        r.icmp_type == Icmpv4Type::EchoReply,
        r.code == icmp_code(icmp@),
        r.identifier == icmp_identifier(icmp@),
        r.sequence_number == icmp_sequence_number(icmp@),
        r.payload@ == icmp_payload(icmp@),
{
    Icmpv4 {
        icmp_type: Icmpv4Type::EchoReply,
        code: icmp.code(),
        identifier: icmp.identifier(),
        sequence_number: icmp.sequence_number(),
        payload: icmp.payload(),
    }
}

/// Routes a parsed ICMP message: an echo request yields its echo reply;
/// an echo reply yields nothing.
pub fn process_icmpv4(icmp: &Icmpv4Slice) -> (r: Option<Icmpv4>)
    requires
        icmp.wf(),
    ensures
        match r {
            Some(v) => {
                &&& icmp_type_of(icmp@) == Icmpv4Type::Echo
                &&& v.icmp_type == Icmpv4Type::EchoReply
                &&& v.code == icmp_code(icmp@)
                &&& v.identifier == icmp_identifier(icmp@)
                &&& v.sequence_number == icmp_sequence_number(icmp@)
                &&& v.payload@ == icmp_payload(icmp@)
            },
            None => icmp_type_of(icmp@) == Icmpv4Type::EchoReply,
        },
{
    match icmp.icmp_type() {
        Icmpv4Type::Echo => Some(process_echo(icmp)),
        Icmpv4Type::EchoReply => None,
    }
}

} // verus!
