//! The failure conditions of the transport core.

use vstd::prelude::*;

verus! {

/// Everything that can go wrong while framing, buffering, or exchanging
/// messages.
///
/// - `BufferOverflow`: a fixed-capacity buffer could not hold the required
///   data — the method name, the outgoing message, or an incoming message
///   past the growth ceiling.
/// - `Serialization`: a value could not be encoded into the available space,
///   or its encoded form is not valid on the wire.
/// - `Deserialization`: received bytes did not match the expected shape.
/// - `Transport`: an opaque failure of the underlying byte stream.
#[derive(Debug, Clone, Copy, PartialEq, Eq, Structural)]
pub enum Error {
    BufferOverflow,
    Serialization,
    Deserialization,
    Transport,
}

} // verus!
