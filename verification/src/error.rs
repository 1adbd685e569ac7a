//! Serialization preconditions, reported as explicit error values so that
//! a caller-side mistake can never crash the stack.
use vstd::prelude::*;

verus! {

#[derive(Debug, PartialEq, Eq, Structural, Clone, Copy)]
pub enum SerializeError {
    /// The destination buffer is shorter than the bytes to be written.
    BufferTooSmall,
    /// An `Unsupported` protocol tag cannot be written to the wire.
    UnsupportedProtocol,
    /// The packet would not fit the 16-bit total-length field.
    PayloadTooLarge,
}

} // verus!
