//! A user-space IPv4 network stack core: one's-complement checksums,
//! IPv4 / ICMP echo / TCP header codecs, and a TCP handshake state
//! machine with its connection table. Parsing is total and panic-free on
//! untrusted input; serializers report their preconditions as errors.
pub mod bytes;
pub mod checksum;
pub mod dispatch;
pub mod error;
pub mod icmpv4;
pub mod icmpv4_slice;
pub mod ipv4_header;
pub mod ipv4_header_slice;
pub mod ipv4_packet;
pub mod protocol;
pub mod tcp;
pub mod tcp_header;
pub mod tcp_slice;
