//! The capability contracts every concrete ASN.1 type offers.
//!
//! An [`Encodable`] value knows the octets it serializes to: it can compute
//! their count up front (so the caller can allocate an exact buffer) and
//! write itself into an [`Encoder`]. A [`Tagged`] type carries one fixed tag,
//! used by the narrowing conversions.

use vstd::prelude::*;

use crate::encoder::Encoder;
use crate::error::Error;
use crate::length::{Length, LENGTH_MAX};
use crate::tag::Tag;

verus! {

/// A value with a DER serialization.
pub trait Encodable {
    /// The type's construction-time invariant.
    spec fn wf(&self) -> bool;

    /// The exact octets this value serializes to.
    spec fn encoding(&self) -> Seq<u8>;

    /// Compute the encoded byte count without writing anything. Fails only
    /// when the total (header and value together) no longer fits a
    /// [`Length`].
    fn encoded_len(&self) -> (r: Result<Length, Error>)
        requires
            self.wf(),
        ensures
            r is Ok <==> self.encoding().len() <= LENGTH_MAX,
            r matches Ok(l) ==> l.spec_val() == self.encoding().len(),
            r is Err ==> r == Err::<Length, Error>(Error::LengthOverflow),
    ;

    /// Write the value's octets into the encoder; fails when they would run
    /// past the end of the buffer.
    fn encode(&self, encoder: &mut Encoder) -> (r: Result<(), Error>)
        requires
            self.wf(),
            old(encoder).wf(),
        ensures
            final(encoder).wf(),
            final(encoder).capacity() == old(encoder).capacity(),
            if old(encoder).written().len() + self.encoding().len() <= old(encoder).capacity() {
                r == Ok::<(), Error>(()) && final(encoder).written() == old(encoder).written()
                    + self.encoding()
            } else {
                r == Err::<(), Error>(Error::BufferTooSmall) && final(encoder).written() == old(
                    encoder,
                ).written()
            },
    ;
}

/// A type identified by one fixed ASN.1 tag.
pub trait Tagged {
    /// The fixed tag, at the specification level.
    spec fn spec_tag() -> Tag;

    /// The fixed tag.
    fn tag() -> (t: Tag)
        ensures
            t == Self::spec_tag(),
    ;
}

} // verus!
