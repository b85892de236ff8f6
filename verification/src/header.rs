//! The TLV prefix: a tag paired with the byte length of the value to come.
//!
//! A header's own encoded size is computable independently of the value
//! bytes: one tag octet plus the length field. The spec-level decode model
//! here is what every decoder contract is stated against.

use vstd::prelude::*;

use crate::error::Error;
use crate::length::{length_bytes, length_decode, Length};
use crate::tag::{tag_from_byte, tag_to_byte, Tag};

verus! {

/// An immutable (tag, length) pair.
#[derive(Clone, Copy, Debug, PartialEq, Eq, Structural)]
pub struct Header {
    /// The tag of the TLV unit this header opens.
    pub tag: Tag,
    /// The byte length of the value that follows the header.
    pub length: Length,
}

/// The octets a header encodes to: the tag octet, then the length field.
pub open spec fn header_bytes(tag: Tag, n: u32) -> Seq<u8> {
    seq![tag_to_byte(tag)] + length_bytes(n)
}

/// What decoding a header from the front of `rem` yields: the tag, the
/// announced value length and the count of consumed octets, or the error.
pub open spec fn header_decode(rem: Seq<u8>) -> Result<(Tag, u32, int), Error> {
    if rem.len() < 1 {
        Err(Error::Truncated)
    } else {
        match tag_from_byte(rem[0]) {
            Option::None => Err(Error::UnrecognizedTag),
            Option::Some(t) => match length_decode(rem.skip(1)) {
                Result::Ok(p) => Ok((t, p.0, 1 + p.1)),
                Result::Err(e) => Err(e),
            },
        }
    }
}

impl Header {
    /// The octets this header encodes to.
    pub open spec fn encoding(&self) -> Seq<u8> {
        header_bytes(self.tag, self.length.spec_val())
    }

    /// Pair a tag with the length of the value to come.
    pub fn new(tag: Tag, length: Length) -> (r: Header)
        ensures
            r.tag == tag,
            r.length == length,
    {
        Header { tag, length }
    }

    /// How many octets the encoded header takes: the tag octet plus the
    /// length field. Pure, and in exact agreement with what encoding writes.
    pub fn encoded_len(&self) -> (r: Length)
        ensures
            r.spec_val() == self.encoding().len(),
    {
        Length::new(1 + self.length.encoded_len() as u32)
    }
}

/// Round-trip: a header's canonical octets (with anything after them) decode
/// to exactly its tag and length, consuming exactly the header.
pub proof fn lemma_header_roundtrip(tag: Tag, n: u32, tail: Seq<u8>)
    ensures
        header_decode(header_bytes(tag, n) + tail) == Ok::<(Tag, u32, int), Error>((
            tag,
            n,
            header_bytes(tag, n).len() as int,
        )),
{
    let rem = header_bytes(tag, n) + tail;
    crate::tag::lemma_tag_roundtrip(tag);
    assert(rem[0] == tag_to_byte(tag));
    assert(rem.skip(1) =~= length_bytes(n) + tail);
    crate::length::lemma_length_roundtrip(n, tail);
}

} // verus!
