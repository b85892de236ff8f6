//! A dynamically-tagged value: a tag plus its raw content octets.
//!
//! [`Any`] is the universal decode result before narrowing into a concrete
//! type, and the sole bridge between concrete types and the wire: narrowing
//! from `Any` checks the tag and can fail, widening into `Any` always
//! succeeds. This module also holds the spec-level model of one whole TLV
//! unit, which every decoding contract and round-trip law is stated against.

use vstd::prelude::*;

use crate::bytes::ByteSlice;
use crate::encodable::Encodable;
use crate::encoder::Encoder;
use crate::error::Error;
use crate::header::{header_bytes, header_decode, Header};
use crate::length::{length_bytes, Length, LENGTH_MAX};
use crate::tag::{tag_to_byte, Tag};

verus! {

/// The octets of one TLV unit: tag octet, canonical length field, content.
pub open spec fn tlv_bytes(tag: Tag, content: Seq<u8>) -> Seq<u8> {
    seq![tag_to_byte(tag)] + length_bytes(content.len() as u32) + content
}

/// What decoding one TLV unit from the front of `rem` yields: the tag, the
/// content octets and the count of consumed octets, or the exact error.
pub open spec fn any_decode(rem: Seq<u8>) -> Result<(Tag, Seq<u8>, int), Error> {
    match header_decode(rem) {
        Result::Ok(h) => if rem.len() < h.2 + h.1 {
            Err(Error::Truncated)
        } else {
            Ok((h.0, rem.subrange(h.2, h.2 + h.1), h.2 + h.1))
        },
        Result::Err(e) => Err(e),
    }
}

/// A TLV unit whose value has not yet been interpreted.
#[derive(Debug)]
pub struct Any {
    pub(crate) tag: Tag,
    pub(crate) value: ByteSlice,
}

impl Any {
    /// The tag, at the specification level.
    pub closed spec fn spec_tag(&self) -> Tag {
        self.tag
    }

    /// The raw content octets, at the specification level.
    pub closed spec fn content(&self) -> Seq<u8> {
        self.value@
    }

    /// The construction-time bound on the content.
    pub open spec fn wf(&self) -> bool {
        self.content().len() <= LENGTH_MAX
    }

    /// Pair a tag with raw content octets; fails if there are more content
    /// bytes than a [`Length`] can carry.
    pub fn new(tag: Tag, bytes: &[u8]) -> (r: Result<Any, Error>)
        ensures
            r is Ok <==> bytes@.len() <= LENGTH_MAX,
            r matches Ok(a) ==> a.spec_tag() == tag && a.content() == bytes@ && a.wf(),
            r is Err ==> r == Err::<Any, Error>(Error::LengthOverflow),
    {
        match ByteSlice::new(bytes) {
            Ok(value) => Ok(Any { tag, value }),
            Err(e) => Err(e),
        }
    }

    /// The tag.
    pub fn tag(&self) -> (t: Tag)
        ensures
            t == self.spec_tag(),
    {
        self.tag
    }

    /// Borrow the raw content octets.
    pub fn as_bytes(&self) -> (r: &[u8])
        ensures
            r@ == self.content(),
    {
        self.value.as_bytes()
    }

    /// The content byte count.
    pub fn len(&self) -> (r: Length)
        requires
            self.wf(),
        ensures
            r.spec_val() == self.content().len(),
    {
        self.value.len()
    }

    /// The header this value's encoding opens with.
    pub fn header(&self) -> (r: Header)
        requires
            self.wf(),
        ensures
            r.tag == self.spec_tag(),
            r.length.spec_val() == self.content().len(),
    {
        Header::new(self.tag, self.value.len())
    }
}

impl Encodable for Any {
    open spec fn wf(&self) -> bool {
        self.wf()
    }

    open spec fn encoding(&self) -> Seq<u8> {
        tlv_bytes(self.spec_tag(), self.content())
    }

    fn encoded_len(&self) -> (r: Result<Length, Error>) {
        let header = self.header();
        let r = header.encoded_len().add(&self.value.len());
        proof {
            assert(self.encoding() =~= header.encoding() + self.content());
        }
        r
    }

    fn encode(&self, encoder: &mut Encoder) -> (r: Result<(), Error>) {
        let header = self.header();
        let header_len = header.encoded_len();
        // Check the whole fit up front so that a failure writes nothing.
        let need = header_len.as_usize();
        let value_bytes = self.value.as_bytes();
        let value_len = value_bytes.len();
        if need <= encoder.remaining_len() && value_len <= encoder.remaining_len() - need {
            let r1 = encoder.encode_header(self.tag, self.value.len());
            proof {
                assert(r1 == Ok::<(), Error>(()));
                assert(encoder.written() == old(encoder).written() + header_bytes(
                    self.spec_tag(),
                    self.content().len() as u32,
                ));
                assert(encoder.written().len() + self.content().len() <= encoder.capacity());
            }
            let r2 = encoder.encode_bytes(value_bytes);
            proof {
                assert(r2 == Ok::<(), Error>(()));
                assert(old(encoder).written() + header_bytes(
                    self.spec_tag(),
                    self.content().len() as u32,
                ) + self.content() =~= old(encoder).written() + self.encoding());
            }
            Ok(())
        } else {
            proof {
                assert(self.encoding() =~= header.encoding() + self.content());
            }
            Err(Error::BufferTooSmall)
        }
    }
}

/// Round-trip: one TLV unit's octets (with anything after them) decode to
/// exactly its tag and content, consuming exactly the unit.
pub proof fn lemma_tlv_roundtrip(tag: Tag, content: Seq<u8>, tail: Seq<u8>)
    requires
        content.len() <= LENGTH_MAX,
    ensures
        any_decode(tlv_bytes(tag, content) + tail) == Ok::<(Tag, Seq<u8>, int), Error>((
            tag,
            content,
            tlv_bytes(tag, content).len() as int,
        )),
{
    let n = content.len() as u32;
    let rem = tlv_bytes(tag, content) + tail;
    assert(rem =~= header_bytes(tag, n) + (content + tail));
    crate::header::lemma_header_roundtrip(tag, n, content + tail);
    let c = header_bytes(tag, n).len() as int;
    assert(rem.subrange(c, c + n) =~= content);
}

/// Truncation: any valid TLV encoding with its last byte removed fails with
/// the truncation error, never silently yielding a short value.
pub proof fn lemma_truncated_rejected(tag: Tag, content: Seq<u8>)
    requires
        content.len() <= LENGTH_MAX,
    ensures
        any_decode(tlv_bytes(tag, content).drop_last()) == Err::<(Tag, Seq<u8>, int), Error>(
            Error::Truncated,
        ),
{
    let n = content.len() as u32;
    let whole = tlv_bytes(tag, content);
    let rem = whole.drop_last();
    crate::tag::lemma_tag_roundtrip(tag);
    assert(rem[0] == tag_to_byte(tag));
    if content.len() == 0 {
        assert(rem =~= seq![tag_to_byte(tag)]);
        assert(rem.skip(1) =~= Seq::<u8>::empty());
    } else {
        assert(rem.skip(1) =~= length_bytes(n) + content.drop_last());
        crate::length::lemma_length_roundtrip(n, content.drop_last());
        let c = 1 + length_bytes(n).len() as int;
        assert(header_decode(rem) == Ok::<(Tag, u32, int), Error>((tag, n, c)));
        assert(rem.len() < c + n);
    }
}

/// Trailing data: a buffer holding one valid TLV unit and one extra byte
/// still decodes that unit (when the caller asks only for the first unit),
/// but leaves the extra byte unconsumed, so demanding exhaustion fails.
pub proof fn lemma_trailing_byte(tag: Tag, content: Seq<u8>, extra: u8)
    requires
        content.len() <= LENGTH_MAX,
    ensures
        any_decode(tlv_bytes(tag, content) + seq![extra]) == Ok::<(Tag, Seq<u8>, int), Error>((
            tag,
            content,
            tlv_bytes(tag, content).len() as int,
        )),
        tlv_bytes(tag, content).len() < (tlv_bytes(tag, content) + seq![extra]).len(),
{
    lemma_tlv_roundtrip(tag, content, seq![extra]);
}

} // verus!
