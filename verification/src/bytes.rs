//! The byte-range substrate for decoded value octets.
//!
//! A [`ByteSlice`] holds a run of bytes whose count was checked against the
//! length maximum at construction time, so that its length is always
//! representable as a [`Length`]. The codec copies value bytes into it rather
//! than borrowing them: the buffer owns its bytes for its whole lifetime.

use vstd::prelude::*;
use vstd::slice::slice_to_vec;

use crate::error::Error;
use crate::length::{Length, LENGTH_MAX};

verus! {

/// A run of bytes with the invariant `length <= LENGTH_MAX`, established at
/// construction and kept ever after.
#[derive(Debug)]
pub struct ByteSlice {
    pub(crate) bytes: Vec<u8>,
}

impl View for ByteSlice {
    type V = Seq<u8>;

    closed spec fn view(&self) -> Seq<u8> {
        self.bytes@
    }
}

impl ByteSlice {
    /// The construction-time bound: the byte count fits a [`Length`].
    pub open spec fn wf(&self) -> bool {
        self@.len() <= LENGTH_MAX
    }

    /// Wrap a run of bytes; fails if there are more than [`LENGTH_MAX`].
    pub fn new(slice: &[u8]) -> (r: Result<ByteSlice, Error>)
        ensures
            r is Ok <==> slice@.len() <= LENGTH_MAX,
            r matches Ok(b) ==> b@ == slice@ && b.wf(),
            r is Err ==> r == Err::<ByteSlice, Error>(Error::LengthOverflow),
    {
        if slice.len() <= LENGTH_MAX as usize {
            Ok(ByteSlice { bytes: slice_to_vec(slice) })
        } else {
            Err(Error::LengthOverflow)
        }
    }

    /// Wrap an owned buffer already known to be within the bound.
    pub(crate) fn from_vec(bytes: Vec<u8>) -> (r: ByteSlice)
        requires
            bytes@.len() <= LENGTH_MAX,
        ensures
            r@ == bytes@,
            r.wf(),
    {
        ByteSlice { bytes }
    }

    /// Borrow the bytes.
    pub fn as_bytes(&self) -> (r: &[u8])
        ensures
            r@ == self@,
    {
        self.bytes.as_slice()
    }

    /// The byte count, as a [`Length`].
    pub fn len(&self) -> (r: Length)
        requires
            self.wf(),
        ensures
            r.spec_val() == self@.len(),
    {
        Length::new(self.bytes.len() as u32)
    }

    /// Whether the run is empty.
    pub fn is_empty(&self) -> (r: bool)
        ensures
            r == (self@.len() == 0),
    {
        self.bytes.len() == 0
    }
}

} // verus!
