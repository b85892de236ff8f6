//! The error taxonomy shared by every encoding and decoding operation.
//!
//! Errors are returned immediately to the caller of the failing operation:
//! there is no recovery or retry inside the codec, and a single malformed
//! tag/length/value unit aborts the decode of its containing structure.

use vstd::prelude::*;

use crate::tag::Tag;

verus! {

/// Everything that can go wrong while encoding or decoding DER.
#[derive(Clone, Copy, Debug, PartialEq, Eq, Structural)]
pub enum Error {
    /// A sum of lengths exceeds the maximum, or a decoded length field
    /// holds a value too large to represent.
    LengthOverflow,
    /// The length field uses the indefinite form, a non-minimal long form,
    /// or the reserved length-of-length marker.
    NonCanonicalLength,
    /// The decoded tag byte is not one of the supported variants, or uses
    /// the unsupported multi-byte tag-number form.
    UnrecognizedTag,
    /// A narrowing conversion expected one tag and found another.
    TagMismatch { expected: Tag, actual: Tag },
    /// Fewer bytes remain in the buffer than a header or value requires.
    Truncated,
    /// Unconsumed bytes remain although exhaustion was expected.
    TrailingData,
    /// The encoder's output buffer does not fit the bytes to be written,
    /// or was not filled exactly when the encoder was finished.
    BufferTooSmall,
}

} // verus!
