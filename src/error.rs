use vstd::prelude::*;

verus! {

/// Why a buffer could not be decoded, or a message could not be emitted.
#[derive(Debug, Clone, Copy, PartialEq, Eq, Structural)]
pub enum DecodeError {
    /// The buffer is shorter than a declared or required length.
    Truncated,
    /// The value of the attribute of this kind has the wrong length for its type.
    InvalidValue(u16),
    /// No decoder exists for this message type (and family).
    UnknownMessageType(u16),
    /// The message kind is recognised but this direction is not supported.
    Unimplemented,
}

} // verus!
