//! A cursor writing DER bytes into an exactly-sized output buffer.
//!
//! Callers compute the encoded length first, allocate a buffer of exactly
//! that size, then encode: the hot path never resizes. Every write checks the
//! fit defensively, and finishing checks that the buffer was filled exactly.

use vstd::prelude::*;

use crate::error::Error;
use crate::length::Length;
use crate::tag::{tag_to_byte, Tag};

verus! {

/// A forward-only writer over an owned output buffer.
#[derive(Debug)]
pub struct Encoder {
    buf: Vec<u8>,
    pos: usize,
}

impl Encoder {
    /// The size the buffer was allocated with.
    pub closed spec fn capacity(&self) -> int {
        self.buf@.len() as int
    }

    /// How many bytes have been written so far.
    pub closed spec fn spec_pos(&self) -> int {
        self.pos as int
    }

    /// The bytes written so far, in order.
    pub closed spec fn written(&self) -> Seq<u8> {
        self.buf@.subrange(0, self.pos as int)
    }

    /// The cursor never runs past the buffer, and counts the written bytes.
    pub open spec fn wf(&self) -> bool {
        0 <= self.spec_pos() <= self.capacity() && self.written().len() == self.spec_pos()
    }

    /// An encoder over a fresh buffer of exactly `size` bytes.
    pub fn new(size: usize) -> (r: Encoder)
        ensures
            r.wf(),
            r.capacity() == size,
            r.written() == Seq::<u8>::empty(),
    {
        let buf: Vec<u8> = vec![0u8; size];
        let r = Encoder { buf, pos: 0 };
        proof { assert(r.written() =~= Seq::<u8>::empty()); }
        r
    }

    /// How many bytes still fit.
    pub fn remaining_len(&self) -> (r: usize)
        requires
            self.wf(),
        ensures
            r == self.capacity() - self.spec_pos(),
    {
        self.buf.len() - self.pos
    }

    /// Append raw bytes; fails without writing anything if they would run
    /// past the end of the buffer.
    pub fn encode_bytes(&mut self, slice: &[u8]) -> (r: Result<(), Error>)
        requires
            old(self).wf(),
        ensures
            final(self).wf(),
            final(self).capacity() == old(self).capacity(),
            if old(self).written().len() + slice@.len() <= old(self).capacity() {
                r == Ok::<(), Error>(()) && final(self).written() == old(self).written() + slice@
            } else {
                r == Err::<(), Error>(Error::BufferTooSmall) && final(self).written() == old(
                    self,
                ).written()
            },
    {
        if slice.len() <= self.buf.len() - self.pos {
            let base = self.pos;
            let n = slice.len();
            for i in 0..n
                invariant
                    base + n <= self.buf.len(),
                    n == slice@.len(),
                    self.pos == base,
                    self.buf@.len() == old(self).buf@.len(),
                    self.buf@.subrange(0, base as int) == old(self).written(),
                    self.buf@.subrange(base as int, base + i) =~= slice@.subrange(0, i as int),
            {
                self.buf.set(base + i, slice[i]);
                proof {
                    assert(self.buf@.subrange(0, base as int) =~= old(self).written());
                    assert(self.buf@.subrange(base as int, base + i + 1) =~= slice@.subrange(
                        0,
                        i + 1,
                    ));
                }
            }
            self.pos = base + n;
            proof {
                assert(slice@.subrange(0, n as int) =~= slice@);
                assert(self.written() =~= old(self).written() + slice@);
            }
            Ok(())
        } else {
            Err(Error::BufferTooSmall)
        }
    }

    /// Append one byte; fails without writing if the buffer is full.
    pub fn encode_byte(&mut self, b: u8) -> (r: Result<(), Error>)
        requires
            old(self).wf(),
        ensures
            final(self).wf(),
            final(self).capacity() == old(self).capacity(),
            if old(self).written().len() + 1 <= old(self).capacity() {
                r == Ok::<(), Error>(()) && final(self).written() == old(self).written() + seq![b]
            } else {
                r == Err::<(), Error>(Error::BufferTooSmall) && final(self).written() == old(
                    self,
                ).written()
            },
    {
        if self.pos < self.buf.len() {
            self.buf.set(self.pos, b);
            self.pos = self.pos + 1;
            proof { assert(self.written() =~= old(self).written() + seq![b]); }
            Ok(())
        } else {
            Err(Error::BufferTooSmall)
        }
    }

    /// Append the canonical octets of a length field.
    pub fn encode_length(&mut self, length: Length) -> (r: Result<(), Error>)
        requires
            old(self).wf(),
        ensures
            final(self).wf(),
            final(self).capacity() == old(self).capacity(),
            if old(self).written().len() + length.encoding().len() <= old(self).capacity() {
                r == Ok::<(), Error>(()) && final(self).written() == old(self).written()
                    + length.encoding()
            } else {
                r == Err::<(), Error>(Error::BufferTooSmall) && final(self).written() == old(
                    self,
                ).written()
            },
    {
        let bytes = length.to_bytes();
        self.encode_bytes(bytes.as_slice())
    }

    /// Append a whole header: the tag octet, then the length field.
    pub fn encode_header(&mut self, tag: Tag, length: Length) -> (r: Result<(), Error>)
        requires
            old(self).wf(),
        ensures
            final(self).wf(),
            final(self).capacity() == old(self).capacity(),
            if old(self).written().len() + crate::header::header_bytes(tag, length.spec_val()).len()
                <= old(self).capacity() {
                r == Ok::<(), Error>(()) && final(self).written() == old(self).written()
                    + crate::header::header_bytes(tag, length.spec_val())
            } else {
                r == Err::<(), Error>(Error::BufferTooSmall) && final(self).written() == old(
                    self,
                ).written()
            },
    {
        let need = 1 + length.encoded_len();
        if need <= self.buf.len() - self.pos {
            let r1 = self.encode_byte(tag.byte());
            proof { assert(r1 == Ok::<(), Error>(())); }
            let r2 = self.encode_length(length);
            proof {
                assert(r2 == Ok::<(), Error>(()));
                assert(old(self).written() + seq![tag_to_byte(tag)] + length.encoding()
                    =~= old(self).written() + crate::header::header_bytes(tag, length.spec_val()));
            }
            Ok(())
        } else {
            Err(Error::BufferTooSmall)
        }
    }

    /// Hand the buffer out once it has been filled exactly; fewer written
    /// bytes than allocated signal a length/encode mismatch and fail.
    pub fn finish(self) -> (r: Result<Vec<u8>, Error>)
        requires
            self.wf(),
        ensures
            r is Ok <==> self.spec_pos() == self.capacity(),
            r matches Ok(v) ==> v@ == self.written(),
            r is Err ==> r == Err::<Vec<u8>, Error>(Error::BufferTooSmall),
    {
        if self.pos == self.buf.len() {
            proof { assert(self.written() =~= self.buf@); }
            Ok(self.buf)
        } else {
            Err(Error::BufferTooSmall)
        }
    }
}

} // verus!
