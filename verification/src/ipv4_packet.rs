//! A whole outbound packet: an IPv4 header around an ICMP message or a
//! TCP segment, serialized back to back into one buffer.
use vstd::prelude::*;
use vstd::assert_seqs_equal;
use crate::error::SerializeError;
use crate::icmpv4::{icmp_bytes, Icmpv4, ICMP_HEADER_SIZE};
use crate::ipv4_header::{ipv4_header_bytes, Ipv4Header, IP_HEADER_SIZE};
use crate::protocol::Protocol;
use crate::tcp_header::{tcp_bytes, TcpHeader};

verus! {

pub enum IpPayload {
    Icmp(Icmpv4),
    Tcp(TcpHeader),
}

/// The payload's wire image, checksum included.
pub open spec fn payload_bytes(p: IpPayload) -> Seq<u8> {
    match p {
        IpPayload::Icmp(v) => icmp_bytes(v),
        IpPayload::Tcp(t) => tcp_bytes(t),
    }
}

/// The payload's wire length.
pub open spec fn payload_len(p: IpPayload) -> int {
    match p {
        IpPayload::Icmp(v) => ICMP_HEADER_SIZE + v.payload@.len(),
        IpPayload::Tcp(t) => t.spec_length(),
    }
}

pub struct Ipv4Packet {
    header: Ipv4Header,
    payload: IpPayload,
}

impl Ipv4Packet {
    /// The header this packet carries.
    pub closed spec fn spec_header(self) -> Ipv4Header {
        self.header
    }

    /// The payload this packet carries.
    pub closed spec fn spec_payload(self) -> IpPayload {
        self.payload
    }

    /// A serializable packet: a well-formed header whose protocol tag
    /// matches the payload, and a payload that fits the 16-bit total
    /// length together with the header.
    pub open spec fn wf(self) -> bool {
        &&& self.spec_header().wf()
        &&& IP_HEADER_SIZE + payload_len(self.spec_payload()) <= 0xFFFF
        &&& match self.spec_payload() {
            IpPayload::Icmp(_) => self.spec_header().protocol == Protocol::Icmp,
            IpPayload::Tcp(t) => self.spec_header().protocol == Protocol::Tcp && t.wf(),
        }
    }

    /// The whole packet's wire length.
    pub open spec fn spec_total_len(self) -> int {
        IP_HEADER_SIZE + payload_len(self.spec_payload())
    }

    pub fn new(header: Ipv4Header, payload: IpPayload) -> (r: Self)
        ensures
            r.spec_header() == header,
            r.spec_payload() == payload,
    {
        Self { header, payload }
    }

    /// Serializes the whole packet: the IPv4 header with total length
    /// `20 + payload length`, then the payload, each with its freshly
    /// computed checksum. Returns how many bytes were written; fails
    /// exactly when the buffer is shorter than the packet, leaving it
    /// untouched.
    #[verifier::rlimit(30)]
    pub fn to_buf(&self, buf: &mut Vec<u8>) -> (r: Result<usize, SerializeError>)
        requires
            self.wf(),
        ensures
            final(buf)@.len() == old(buf)@.len(),
            old(buf)@.len() < self.spec_total_len() ==> r == Err::<usize, SerializeError>(
                SerializeError::BufferTooSmall,
            ) && final(buf)@ == old(buf)@,
            old(buf)@.len() >= self.spec_total_len() ==> {
                &&& r == Ok::<usize, SerializeError>(self.spec_total_len() as usize)
                &&& final(buf)@.subrange(0, IP_HEADER_SIZE as int) == ipv4_header_bytes(
                    self.spec_header(),
                    self.spec_total_len() as u16,
                )
                &&& final(buf)@.subrange(IP_HEADER_SIZE as int, self.spec_total_len())
                    == payload_bytes(self.spec_payload())
                &&& final(buf)@.subrange(self.spec_total_len(), final(buf)@.len() as int) == old(
                    buf,
                )@.subrange(self.spec_total_len(), old(buf)@.len() as int)
            },
    {
        let payload_length: usize = match &self.payload {
            IpPayload::Icmp(v) => v.length(),
            IpPayload::Tcp(t) => t.length(),
        };
        let n = buf.len();
        if n < IP_HEADER_SIZE || n - IP_HEADER_SIZE < payload_length {
            return Err(SerializeError::BufferTooSmall);
        }
        let total = IP_HEADER_SIZE + payload_length;
        match self.header.to_buf(buf, payload_length) {
            Ok(_) => {},
            Err(e) => {
                return Err(e);
            },
        }
        let ghost after_header = buf@;
        let mut scratch: Vec<u8> = Vec::new();
        let mut k: usize = 0;
        while k < payload_length
            invariant
                k <= payload_length,
                scratch@.len() == k,
            decreases payload_length - k,
        {
            scratch.push(0);
            k = k + 1;
        }
        let filled = match &self.payload {
            IpPayload::Icmp(v) => v.to_buf(&mut scratch),
            IpPayload::Tcp(t) => t.to_buf(&mut scratch),
        };
        match filled {
            Ok(_) => {},
            Err(e) => {
                return Err(e);
            },
        }
        proof {
            assert(scratch@ =~= payload_bytes(self.spec_payload()));
        }
        let mut i: usize = 0;
        while i < payload_length
            invariant
                i <= payload_length,
                IP_HEADER_SIZE + payload_length <= n,
                n == buf@.len(),
                buf@.len() == after_header.len(),
                scratch@.len() == payload_length,
                forall|j: int| 0 <= j < IP_HEADER_SIZE ==> buf@[j] == after_header[j],
                forall|j: int| 0 <= j < i ==> buf@[IP_HEADER_SIZE + j] == scratch@[j],
                forall|j: int|
                    IP_HEADER_SIZE + i <= j < buf@.len() ==> buf@[j] == after_header[j],
            decreases payload_length - i,
        {
            buf[IP_HEADER_SIZE + i] = scratch[i];
            i = i + 1;
        }
        proof {
            let len = buf@.len() as int;
            assert_seqs_equal!(
                buf@.subrange(0, IP_HEADER_SIZE as int)
                    == after_header.subrange(0, IP_HEADER_SIZE as int)
            );
            assert_seqs_equal!(
                buf@.subrange(IP_HEADER_SIZE as int, total as int)
                    == payload_bytes(self.spec_payload()),
                j => {
                    assert(buf@[IP_HEADER_SIZE + j] == scratch@[j]);
                }
            );
            assert_seqs_equal!(
                buf@.subrange(total as int, len) == old(buf)@.subrange(total as int, len),
                j => {
                    assert(buf@[j + total] == after_header[j + total]);
                    assert(after_header.subrange(IP_HEADER_SIZE as int, len)[j + total
                        - IP_HEADER_SIZE] == old(buf)@.subrange(IP_HEADER_SIZE as int, len)[j
                        + total - IP_HEADER_SIZE]);
                }
            );
        }
        Ok(total)
    }
}

} // verus!
