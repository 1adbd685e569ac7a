//! The IP protocol tag: the closed set of payload protocols this stack
//! recognizes, mapped to and from the protocol-number byte of an IPv4
//! header.
use vstd::prelude::*;

verus! {

#[derive(Debug, PartialEq, Eq, Structural, Clone, Copy)]
pub enum Protocol {
    Tcp,
    Udp,
    Icmp,
    Unsupported,
}

/// The protocol tag a protocol-number byte denotes; every number outside
/// the recognized set maps to `Unsupported`.
pub open spec fn protocol_from_bits(bits: u8) -> Protocol {
    if bits == 1 {
        Protocol::Icmp
    } else if bits == 6 {
        Protocol::Tcp
    } else if bits == 17 {
        Protocol::Udp
    } else {
        Protocol::Unsupported
    }
}

/// The protocol-number byte of a protocol tag; `Unsupported` has no
/// number of its own and is written as zero.
pub open spec fn protocol_bits(p: Protocol) -> u8 {
    match p {
        Protocol::Icmp => 1,
        Protocol::Tcp => 6,
        Protocol::Udp => 17,
        Protocol::Unsupported => 0,
    }
}

impl Protocol {
    /// Classifies the protocol-number byte of an IPv4 header.
    pub fn from_bits(bits: u8) -> (r: Self)
        ensures
            r == protocol_from_bits(bits),
    {
        if bits == 1 {
            return Self::Icmp;
        }
        if bits == 6 {
            return Self::Tcp;
        }
        if bits == 17 {
            return Self::Udp;
        }
        Self::Unsupported
    }

    /// The protocol-number byte written into an outbound IPv4 header.
    pub fn to_bits(&self) -> (r: u8)
        ensures
            r == protocol_bits(*self),
    {
        match self {
            Self::Icmp => 1,
            Self::Tcp => 6,
            Self::Udp => 17,
            Self::Unsupported => 0,
        }
    }
}

} // verus!
