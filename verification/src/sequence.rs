//! The ASN.1 `SEQUENCE` type: one composite container built entirely on the
//! generic tag/length/value framework.
//!
//! A sequence holds the concatenated DER encoding of its members as raw
//! bytes and parses them lazily: it hands out a fresh [`Decoder`] scoped to
//! exactly the inner bytes, so members of types unknown to the framework are
//! decoded one by one, and the inner decoder enforces its own exhaustion
//! boundary. Members are ordered, and the order is semantically significant.

use vstd::prelude::*;

use crate::any::{any_decode, tlv_bytes, Any};
use crate::bytes::ByteSlice;
use crate::decoder::Decoder;
use crate::encodable::{Encodable, Tagged};
use crate::encoder::Encoder;
use crate::error::Error;
use crate::header::{header_bytes, Header};
use crate::length::{Length, LENGTH_MAX};
use crate::tag::Tag;

verus! {

/// The concatenated encodings of a run of members, in order.
pub open spec fn concat_encodings(ms: Seq<Any>) -> Seq<u8>
    decreases ms.len(),
{
    if ms.len() == 0 {
        Seq::empty()
    } else {
        ms[0].encoding() + concat_encodings(ms.skip(1))
    }
}

/// Whether a sequence built from these members still fits the length bounds:
/// the body must fit a [`Length`], and so must the whole TLV unit.
pub open spec fn seq_fits(ms: Seq<Any>) -> bool {
    concat_encodings(ms).len() <= LENGTH_MAX && tlv_bytes(Tag::Sequence, concat_encodings(ms)).len()
        <= LENGTH_MAX
}

/// Appending one member appends its encoding.
pub proof fn lemma_concat_push(ms: Seq<Any>, a: Any)
    ensures
        concat_encodings(ms.push(a)) == concat_encodings(ms) + a.encoding(),
    decreases ms.len(),
{
    if ms.len() == 0 {
        assert(ms.push(a).skip(1) =~= Seq::<Any>::empty());
        assert(ms.push(a)[0] == a);
        assert(concat_encodings(ms.push(a)) == a.encoding() + concat_encodings(
            Seq::<Any>::empty(),
        ));
        assert(concat_encodings(ms.push(a)) =~= concat_encodings(ms) + a.encoding());
    } else {
        assert(ms.push(a).skip(1) =~= ms.skip(1).push(a));
        lemma_concat_push(ms.skip(1), a);
        assert(concat_encodings(ms.push(a)) =~= concat_encodings(ms) + a.encoding());
    }
}

/// The concatenation splits at any member boundary.
pub proof fn lemma_concat_split(ms: Seq<Any>, i: int)
    requires
        0 <= i <= ms.len(),
    ensures
        concat_encodings(ms) == concat_encodings(ms.take(i)) + concat_encodings(ms.skip(i)),
    decreases i,
{
    if i == 0 {
        assert(ms.take(0) =~= Seq::<Any>::empty());
        assert(ms.skip(0) =~= ms);
        assert(concat_encodings(ms) =~= concat_encodings(ms.take(0)) + concat_encodings(
            ms.skip(0),
        ));
    } else {
        lemma_concat_split(ms.skip(1), i - 1);
        assert(ms.take(i).skip(1) =~= ms.skip(1).take(i - 1));
        assert(ms.skip(1).skip(i - 1) =~= ms.skip(i));
        assert(ms.take(i)[0] == ms[0]);
        assert(concat_encodings(ms) =~= concat_encodings(ms.take(i)) + concat_encodings(
            ms.skip(i),
        ));
    }
}

/// ASN.1 `SEQUENCE`: a byte range holding the concatenated encoding of its
/// members. Constructed either directly from a byte range the caller vouches
/// for, or by tag-checked narrowing from [`Any`].
#[derive(Debug)]
pub struct Sequence {
    inner: ByteSlice,
}

impl View for Sequence {
    type V = Seq<u8>;

    closed spec fn view(&self) -> Seq<u8> {
        self.inner@
    }
}

impl Sequence {
    /// The construction-time bound on the inner bytes.
    pub open spec fn wf(&self) -> bool {
        self@.len() <= LENGTH_MAX
    }

    /// Wrap a byte range as-is; no validation beyond the length bound — a
    /// caller constructing a sequence directly vouches that the range is
    /// valid concatenated DER.
    pub fn new(slice: &[u8]) -> (r: Result<Sequence, Error>)
        ensures
            r is Ok <==> slice@.len() <= LENGTH_MAX,
            r matches Ok(s) ==> s@ == slice@ && s.wf(),
            r is Err ==> r == Err::<Sequence, Error>(Error::LengthOverflow),
    {
        match ByteSlice::new(slice) {
            Ok(inner) => Ok(Sequence { inner }),
            Err(e) => Err(e),
        }
    }

    /// Borrow the inner byte sequence.
    pub fn as_bytes(&self) -> (r: &[u8])
        ensures
            r@ == self@,
    {
        self.inner.as_bytes()
    }

    /// A fresh decoder scoped to exactly the inner bytes, for member-by-member
    /// decoding; it enforces its own exhaustion boundary.
    pub fn decoder(&self) -> (r: Decoder)
        ensures
            r.wf(),
            r.data() == self@,
            r.position() == 0,
    {
        Decoder::new(self.as_bytes())
    }

    /// Narrow an erased value into a sequence; fails unless its tag is the
    /// `SEQUENCE` tag.
    pub fn try_from(any: &Any) -> (r: Result<Sequence, Error>)
        requires
            any.wf(),
        ensures
            any.spec_tag() == Tag::Sequence ==> (r matches Ok(s) && s@ == any.content() && s.wf()),
            any.spec_tag() != Tag::Sequence ==> r == Err::<Sequence, Error>(
                Error::TagMismatch { expected: Tag::Sequence, actual: any.spec_tag() },
            ),
    {
        match any.tag().assert_eq(Tag::Sequence) {
            Ok(_) => Sequence::new(any.as_bytes()),
            Err(e) => Err(e),
        }
    }

    /// Widen this sequence into its erased form; always succeeds, since a
    /// constructed sequence has a valid tag and bytes by construction.
    pub fn to_any(&self) -> (r: Any)
        requires
            self.wf(),
        ensures
            r.spec_tag() == Tag::Sequence,
            r.content() == self@,
            r.wf(),
    {
        match Any::new(Tag::Sequence, self.as_bytes()) {
            Ok(a) => a,
            Err(e) => {
                proof { assert(false); }
                Any { tag: Tag::Sequence, value: ByteSlice::from_vec(Vec::new()) }
            },
        }
    }
}

impl Encodable for Sequence {
    open spec fn wf(&self) -> bool {
        self.wf()
    }

    open spec fn encoding(&self) -> Seq<u8> {
        tlv_bytes(Tag::Sequence, self@)
    }

    fn encoded_len(&self) -> (r: Result<Length, Error>) {
        let body = self.inner.len();
        let header = Header::new(Tag::Sequence, body);
        let r = header.encoded_len().add(&body);
        proof {
            assert(self.encoding() =~= header.encoding() + self@);
        }
        r
    }

    fn encode(&self, encoder: &mut Encoder) -> (r: Result<(), Error>) {
        let body = self.inner.len();
        let header = Header::new(Tag::Sequence, body);
        let need = header.encoded_len().as_usize();
        let inner_bytes = self.as_bytes();
        let inner_len = inner_bytes.len();
        // Check the whole fit up front so that a failure writes nothing.
        if need <= encoder.remaining_len() && inner_len <= encoder.remaining_len() - need {
            let r1 = encoder.encode_header(Tag::Sequence, body);
            proof { assert(r1 == Ok::<(), Error>(())); }
            let r2 = encoder.encode_bytes(inner_bytes);
            proof {
                assert(r2 == Ok::<(), Error>(()));
                assert(old(encoder).written() + header_bytes(Tag::Sequence, self@.len() as u32)
                    + self@ =~= old(encoder).written() + self.encoding());
            }
            Ok(())
        } else {
            proof {
                assert(self.encoding() =~= header.encoding() + self@);
            }
            Err(Error::BufferTooSmall)
        }
    }
}

impl Tagged for Sequence {
    open spec fn spec_tag() -> Tag {
        Tag::Sequence
    }

    fn tag() -> (t: Tag) {
        Tag::Sequence
    }
}

/// The byte length of the `SEQUENCE` body built from these members, checked
/// against the length maximum at every partial sum.
fn body_len(encodables: &[Any]) -> (r: Result<Length, Error>)
    requires
        forall|i: int| 0 <= i < encodables@.len() ==> (#[trigger] encodables@[i]).wf(),
    ensures
        r is Ok <==> concat_encodings(encodables@).len() <= LENGTH_MAX,
        r matches Ok(l) ==> l.spec_val() == concat_encodings(encodables@).len(),
        r is Err ==> r == Err::<Length, Error>(Error::LengthOverflow),
{
    let ghost ms = encodables@;
    let n = encodables.len();
    let mut body = Length::zero();
    proof { assert(ms.take(0) =~= Seq::<Any>::empty()); }
    for i in 0..n
        invariant
            n == ms.len(),
            encodables@ == ms,
            forall|j: int| 0 <= j < ms.len() ==> (#[trigger] ms[j]).wf(),
            body.spec_val() == concat_encodings(ms.take(i as int)).len(),
    {
        let member_len = match encodables[i].encoded_len() {
            Ok(l) => l,
            Err(e) => {
                proof {
                    lemma_concat_split(ms, i as int);
                    lemma_concat_split(ms.skip(i as int), 1);
                    assert(ms.skip(i as int)[0] == ms[i as int]);
                    assert(concat_encodings(ms).len() >= ms[i as int].encoding().len());
                }
                return Err(e);
            },
        };
        let next = match body.add(&member_len) {
            Ok(l) => l,
            Err(e) => {
                proof {
                    lemma_concat_split(ms, i as int);
                    lemma_concat_split(ms.skip(i as int), 1);
                    assert(ms.skip(i as int)[0] == ms[i as int]);
                    assert(ms.take(i as int) + ms.skip(i as int).take(1) =~= ms.take(i + 1));
                    lemma_concat_split(ms.take(i + 1), i as int);
                    assert(ms.take(i + 1).take(i as int) =~= ms.take(i as int));
                    assert(ms.take(i + 1).skip(i as int) =~= ms.skip(i as int).take(1));
                    assert(concat_encodings(ms.skip(i as int).take(1)) =~= ms[i as int].encoding()
                        + concat_encodings(Seq::<Any>::empty()));
                    assert(concat_encodings(ms).len() >= concat_encodings(ms.take(i + 1)).len());
                }
                return Err(e);
            },
        };
        body = next;
        proof {
            assert(ms.take(i + 1) =~= ms.take(i as int).push(ms[i as int]));
            lemma_concat_push(ms.take(i as int), ms[i as int]);
        }
    }
    proof { assert(ms.take(n as int) =~= ms); }
    Ok(body)
}

/// The length of an ASN.1 `SEQUENCE` of erased members when serialized as
/// DER: the header for the summed body length, plus the body itself. Fails
/// when any partial sum or the whole unit exceeds the length maximum.
pub fn encoded_len(encodables: &[Any]) -> (r: Result<Length, Error>)
    requires
        forall|i: int| 0 <= i < encodables@.len() ==> (#[trigger] encodables@[i]).wf(),
    ensures
        r is Ok <==> seq_fits(encodables@),
        r matches Ok(l) ==> l.spec_val() == tlv_bytes(
            Tag::Sequence,
            concat_encodings(encodables@),
        ).len(),
        r is Err ==> r == Err::<Length, Error>(Error::LengthOverflow),
{
    let body = match body_len(encodables) {
        Ok(l) => l,
        Err(e) => {
            return Err(e);
        },
    };
    let header = Header::new(Tag::Sequence, body);
    let r = header.encoded_len().add(&body);
    proof {
        assert(tlv_bytes(Tag::Sequence, concat_encodings(encodables@)) =~= header.encoding()
            + concat_encodings(encodables@));
    }
    r
}

/// Encode a `SEQUENCE` from erased members: derive and write the header from
/// the summed body length, then write each member's encoding in the given
/// order. The whole fit is checked up front, so a failure writes nothing.
pub fn encode_sequence(members: &[Any], encoder: &mut Encoder) -> (r: Result<(), Error>)
    requires
        forall|i: int| 0 <= i < members@.len() ==> (#[trigger] members@[i]).wf(),
        old(encoder).wf(),
    ensures
        final(encoder).wf(),
        final(encoder).capacity() == old(encoder).capacity(),
        if !seq_fits(members@) {
            r == Err::<(), Error>(Error::LengthOverflow) && final(encoder).written() == old(
                encoder,
            ).written()
        } else if old(encoder).written().len() + tlv_bytes(
            Tag::Sequence,
            concat_encodings(members@),
        ).len() <= old(encoder).capacity() {
            r == Ok::<(), Error>(()) && final(encoder).written() == old(encoder).written()
                + tlv_bytes(Tag::Sequence, concat_encodings(members@))
        } else {
            r == Err::<(), Error>(Error::BufferTooSmall) && final(encoder).written() == old(
                encoder,
            ).written()
        },
{
    let ghost ms = members@;
    let ghost body_bytes = concat_encodings(ms);
    let body = match body_len(members) {
        Ok(l) => l,
        Err(e) => {
            return Err(e);
        },
    };
    let header = Header::new(Tag::Sequence, body);
    let total = match header.encoded_len().add(&body) {
        Ok(l) => l,
        Err(e) => {
            proof {
                assert(tlv_bytes(Tag::Sequence, body_bytes) =~= header.encoding() + body_bytes);
            }
            return Err(e);
        },
    };
    proof {
        assert(tlv_bytes(Tag::Sequence, body_bytes) =~= header.encoding() + body_bytes);
    }
    if total.as_usize() > encoder.remaining_len() {
        return Err(Error::BufferTooSmall);
    }
    let r1 = encoder.encode_header(Tag::Sequence, body);
    proof { assert(r1 == Ok::<(), Error>(())); }
    let n = members.len();
    proof { assert(ms.take(0) =~= Seq::<Any>::empty()); }
    for i in 0..n
        invariant
            n == ms.len(),
            members@ == ms,
            forall|j: int| 0 <= j < ms.len() ==> (#[trigger] ms[j]).wf(),
            encoder.wf(),
            encoder.capacity() == old(encoder).capacity(),
            body_bytes == concat_encodings(ms),
            body_bytes.len() <= LENGTH_MAX,
            encoder.written() == old(encoder).written() + header_bytes(
                Tag::Sequence,
                body_bytes.len() as u32,
            ) + concat_encodings(ms.take(i as int)),
            old(encoder).written().len() + header_bytes(Tag::Sequence, body_bytes.len() as u32).len()
                + body_bytes.len() <= old(encoder).capacity(),
    {
        proof {
            lemma_concat_split(ms, i as int);
            lemma_concat_split(ms.skip(i as int), 1);
            assert(ms.skip(i as int)[0] == ms[i as int]);
            assert(concat_encodings(ms.skip(i as int).take(1)) =~= ms[i as int].encoding()
                + concat_encodings(Seq::<Any>::empty()));
            assert(concat_encodings(ms.take(i as int)).len() + ms[i as int].encoding().len()
                <= body_bytes.len());
        }
        let r2 = members[i].encode(encoder);
        proof {
            assert(r2 == Ok::<(), Error>(()));
            assert(ms.take(i + 1) =~= ms.take(i as int).push(ms[i as int]));
            lemma_concat_push(ms.take(i as int), ms[i as int]);
        }
    }
    proof {
        assert(ms.take(n as int) =~= ms);
        assert(old(encoder).written() + header_bytes(Tag::Sequence, body_bytes.len() as u32)
            + body_bytes =~= old(encoder).written() + tlv_bytes(Tag::Sequence, body_bytes));
    }
    Ok(())
}

impl Decoder {
    /// Narrowing helper: decode one TLV unit and convert it into a sequence,
    /// failing with a tag mismatch if the unit carries any other tag.
    pub fn decode_sequence(&mut self) -> (r: Result<Sequence, Error>)
        requires
            old(self).wf(),
        ensures
            final(self).wf(),
            final(self).data() == old(self).data(),
            match any_decode(old(self).remaining()) {
                Result::Ok(p) => final(self).position() == old(self).position() + p.2 && if p.0
                    == Tag::Sequence {
                    r matches Ok(s) && s@ == p.1 && s.wf()
                } else {
                    r == Err::<Sequence, Error>(
                        Error::TagMismatch { expected: Tag::Sequence, actual: p.0 },
                    )
                },
                Result::Err(e) => r == Err::<Sequence, Error>(e) && final(self).position() == old(
                    self,
                ).position(),
            },
    {
        match self.decode_any() {
            Ok(any) => Sequence::try_from(&any),
            Err(e) => Err(e),
        }
    }
}

/// Decoding the concatenated member encodings peels the first member: it
/// yields exactly that member's tag and content, and leaves exactly the
/// remaining members' encodings (and whatever followed) unconsumed.
pub proof fn lemma_member_peel(ms: Seq<Any>, rest: Seq<u8>)
    requires
        ms.len() > 0,
        forall|i: int| 0 <= i < ms.len() ==> (#[trigger] ms[i]).wf(),
    ensures
        any_decode(concat_encodings(ms) + rest) == Ok::<(Tag, Seq<u8>, int), Error>((
            ms[0].spec_tag(),
            ms[0].content(),
            ms[0].encoding().len() as int,
        )),
        (concat_encodings(ms) + rest).skip(ms[0].encoding().len() as int) == concat_encodings(
            ms.skip(1),
        ) + rest,
{
    assert(concat_encodings(ms) + rest =~= ms[0].encoding() + (concat_encodings(ms.skip(1))
        + rest));
    crate::any::lemma_tlv_roundtrip(ms[0].spec_tag(), ms[0].content(), concat_encodings(ms.skip(1))
        + rest);
    assert((concat_encodings(ms) + rest).skip(ms[0].encoding().len() as int) =~= concat_encodings(
        ms.skip(1),
    ) + rest);
}

/// Sequence composition: the body encoded from members `[a, b, c]` decodes
/// back to exactly `a`, `b`, `c`, in order, by repeated decoding; and after
/// the three members nothing is left.
pub proof fn lemma_sequence_composition(a: Any, b: Any, c: Any)
    requires
        a.wf(),
        b.wf(),
        c.wf(),
    ensures
        ({
            let body = concat_encodings(seq![a, b, c]);
            let r1 = body.skip(a.encoding().len() as int);
            let r2 = r1.skip(b.encoding().len() as int);
            &&& any_decode(body) == Ok::<(Tag, Seq<u8>, int), Error>((
                a.spec_tag(),
                a.content(),
                a.encoding().len() as int,
            ))
            &&& any_decode(r1) == Ok::<(Tag, Seq<u8>, int), Error>((
                b.spec_tag(),
                b.content(),
                b.encoding().len() as int,
            ))
            &&& any_decode(r2) == Ok::<(Tag, Seq<u8>, int), Error>((
                c.spec_tag(),
                c.content(),
                c.encoding().len() as int,
            ))
            &&& r2.skip(c.encoding().len() as int) == Seq::<u8>::empty()
        }),
{
    let ms = seq![a, b, c];
    let body = concat_encodings(ms);
    assert(body =~= body + Seq::<u8>::empty());
    lemma_member_peel(ms, Seq::<u8>::empty());
    let ms1 = ms.skip(1);
    assert(ms1 =~= seq![b, c]);
    let r1 = body.skip(a.encoding().len() as int);
    assert(r1 =~= concat_encodings(ms1) + Seq::<u8>::empty());
    lemma_member_peel(ms1, Seq::<u8>::empty());
    let ms2 = ms1.skip(1);
    assert(ms2 =~= seq![c]);
    let r2 = r1.skip(b.encoding().len() as int);
    assert(r2 =~= concat_encodings(ms2) + Seq::<u8>::empty());
    lemma_member_peel(ms2, Seq::<u8>::empty());
    assert(ms2.skip(1) =~= Seq::<Any>::empty());
    assert(r2.skip(c.encoding().len() as int) =~= Seq::<u8>::empty());
}

/// Order is semantically significant: two members with different encodings
/// concatenate to different bodies in the two orders.
pub proof fn lemma_order_significant(a: Any, b: Any)
    requires
        a.wf(),
        b.wf(),
        a.encoding() != b.encoding(),
    ensures
        concat_encodings(seq![a, b]) != concat_encodings(seq![b, a]),
{
    if concat_encodings(seq![a, b]) == concat_encodings(seq![b, a]) {
        let ab = concat_encodings(seq![a, b]);
        assert(ab =~= ab + Seq::<u8>::empty());
        lemma_member_peel(seq![a, b], Seq::<u8>::empty());
        lemma_member_peel(seq![b, a], Seq::<u8>::empty());
        assert(a.spec_tag() == b.spec_tag() && a.content() == b.content());
        assert(a.encoding() == b.encoding());
    }
}

} // verus!
