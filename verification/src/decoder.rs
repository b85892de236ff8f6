//! A single-pass, forward-only cursor reading TLV units from one buffer.
//!
//! The decoder holds a read position and never rewinds. Every operation's
//! outcome is stated against the spec-level decode model, and a decoder is
//! only successfully exhausted when its position equals the buffer length
//! exactly: unconsumed trailing bytes are an error. After a failed operation
//! the decoder must be considered poisoned and not be reused.

use vstd::prelude::*;
use vstd::slice::{slice_subrange, slice_to_vec};

use crate::any::{any_decode, Any};
use crate::error::Error;
use crate::header::{header_decode, Header};
use crate::length::{length_decode, Length};
use crate::tag::Tag;

verus! {

/// A reading cursor over one immutable input buffer.
#[derive(Debug)]
pub struct Decoder {
    bytes: Vec<u8>,
    pos: usize,
}

impl Decoder {
    /// The whole input buffer.
    pub closed spec fn data(&self) -> Seq<u8> {
        self.bytes@
    }

    /// How many bytes have been consumed.
    pub closed spec fn position(&self) -> int {
        self.pos as int
    }

    /// The position never runs past the buffer.
    pub open spec fn wf(&self) -> bool {
        0 <= self.position() <= self.data().len()
    }

    /// The bytes not yet consumed.
    pub open spec fn remaining(&self) -> Seq<u8> {
        self.data().subrange(self.position(), self.data().len() as int)
    }

    /// A decoder at the start of the given bytes.
    pub fn new(slice: &[u8]) -> (r: Decoder)
        ensures
            r.wf(),
            r.data() == slice@,
            r.position() == 0,
    {
        Decoder { bytes: slice_to_vec(slice), pos: 0 }
    }

    /// Whether every byte has been consumed.
    pub fn is_finished(&self) -> (r: bool)
        requires
            self.wf(),
        ensures
            r == (self.remaining().len() == 0),
    {
        self.pos == self.bytes.len()
    }

    /// Demand exhaustion: succeeds exactly when no byte is left, and fails
    /// with the trailing-data error otherwise.
    pub fn finish(&self) -> (r: Result<(), Error>)
        requires
            self.wf(),
        ensures
            r is Ok <==> self.remaining().len() == 0,
            r is Err ==> r == Err::<(), Error>(Error::TrailingData),
    {
        if self.pos == self.bytes.len() {
            Ok(())
        } else {
            Err(Error::TrailingData)
        }
    }

    /// Decode one canonical length field, rejecting the indefinite form, a
    /// non-minimal long form, the reserved length-of-length marker, and any
    /// value too wide for a [`Length`]; advances past the field on success
    /// only.
    pub fn decode_length(&mut self) -> (r: Result<Length, Error>)
        requires
            old(self).wf(),
        ensures
            final(self).wf(),
            final(self).data() == old(self).data(),
            match length_decode(old(self).remaining()) {
                Result::Ok(p) => r matches Ok(l) && l.spec_val() == p.0 && final(self).position()
                    == old(self).position() + p.1,
                Result::Err(e) => r == Err::<Length, Error>(e) && final(self).position() == old(
                    self,
                ).position(),
            },
    {
        let ghost rem = old(self).remaining();
        let len = self.bytes.len();
        let pos = self.pos;
        if pos >= len {
            return Err(Error::Truncated);
        }
        let b0 = self.bytes[pos];
        proof { assert(b0 == rem[0]); }
        if b0 < 0x80 {
            self.pos = pos + 1;
            return Ok(Length::new(b0 as u32));
        }
        if b0 == 0x80 || b0 == 0xFF {
            return Err(Error::NonCanonicalLength);
        }
        let k = (b0 - 0x80) as usize;
        if k > 4 {
            return Err(Error::LengthOverflow);
        }
        if len - pos < 1 + k {
            return Err(Error::Truncated);
        }
        let v: u64 = if k == 1 {
            self.bytes[pos + 1] as u64
        } else if k == 2 {
            (self.bytes[pos + 1] as u64) * 0x100 + (self.bytes[pos + 2] as u64)
        } else if k == 3 {
            (self.bytes[pos + 1] as u64) * 0x1_0000 + (self.bytes[pos + 2] as u64) * 0x100 + (
            self.bytes[pos + 3] as u64)
        } else {
            (self.bytes[pos + 1] as u64) * 0x100_0000 + (self.bytes[pos + 2] as u64) * 0x1_0000 + (
            self.bytes[pos + 3] as u64) * 0x100 + (self.bytes[pos + 4] as u64)
        };
        proof {
            let s = rem.subrange(1, 1 + k as int);
            assert(s.len() == k as int);
            assert(forall|i: int| 0 <= i < k ==> s[i] == old(self).data()[pos + 1 + i]);
            assert(v == crate::length::be_value(s));
        }
        let m: u64 = if k == 1 { 0x80 } else if k == 2 { 0x100 } else if k == 3 {
            0x1_0000
        } else {
            0x100_0000
        };
        if v < m {
            return Err(Error::NonCanonicalLength);
        }
        self.pos = pos + 1 + k;
        Ok(Length::new(v as u32))
    }

    /// Decode a header: one recognized tag octet, then a canonical length
    /// field; advances past the header on success only.
    pub fn decode_header(&mut self) -> (r: Result<Header, Error>)
        requires
            old(self).wf(),
        ensures
            final(self).wf(),
            final(self).data() == old(self).data(),
            match header_decode(old(self).remaining()) {
                Result::Ok(p) => r matches Ok(h) && h.tag == p.0 && h.length.spec_val() == p.1
                    && final(self).position() == old(self).position() + p.2,
                Result::Err(e) => r == Err::<Header, Error>(e) && final(self).position() == old(
                    self,
                ).position(),
            },
    {
        let len = self.bytes.len();
        let pos = self.pos;
        if pos >= len {
            return Err(Error::Truncated);
        }
        let b0 = self.bytes[pos];
        proof { assert(b0 == old(self).remaining()[0]); }
        let tag = match Tag::from_byte(b0) {
            Some(t) => t,
            None => {
                return Err(Error::UnrecognizedTag);
            },
        };
        self.pos = pos + 1;
        proof { assert(self.remaining() =~= old(self).remaining().skip(1)); }
        match self.decode_length() {
            Ok(l) => Ok(Header::new(tag, l)),
            Err(e) => {
                self.pos = pos;
                Err(e)
            },
        }
    }

    /// Decode one whole TLV unit: a header, then exactly the announced count
    /// of value bytes; advances past the unit on success only.
    pub fn decode_any(&mut self) -> (r: Result<Any, Error>)
        requires
            old(self).wf(),
        ensures
            final(self).wf(),
            final(self).data() == old(self).data(),
            match any_decode(old(self).remaining()) {
                Result::Ok(p) => r matches Ok(a) && a.spec_tag() == p.0 && a.content() == p.1
                    && a.wf() && final(self).position() == old(self).position() + p.2,
                Result::Err(e) => r == Err::<Any, Error>(e) && final(self).position() == old(
                    self,
                ).position(),
            },
    {
        let pos = self.pos;
        let h = match self.decode_header() {
            Ok(h) => h,
            Err(e) => {
                return Err(e);
            },
        };
        let n = h.length.as_usize();
        let len = self.bytes.len();
        if len - self.pos < n {
            self.pos = pos;
            return Err(Error::Truncated);
        }
        let start = self.pos;
        let content = slice_subrange(self.bytes.as_slice(), start, start + n);
        proof {
            assert(content@ =~= old(self).remaining().subrange(
                start - pos,
                start - pos + n,
            ));
        }
        match Any::new(h.tag, content) {
            Ok(a) => {
                self.pos = start + n;
                Ok(a)
            },
            Err(e) => {
                proof { assert(false); }
                Err(e)
            },
        }
    }
}

} // verus!
