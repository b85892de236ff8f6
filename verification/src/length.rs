//! DER lengths: a value's byte count, bounded to 32 bits, with the canonical
//! minimal-byte serialization rules.
//!
//! Values 0-127 encode as a single octet (short form). Values from 128 encode
//! as `0x80 | k` followed by the `k` big-endian octets of the value, where `k`
//! is minimal: no leading zero octet, and the one-octet body only for values
//! from 128. The indefinite marker `0x80` and the reserved count `0x7F` are
//! rejected outright.

use vstd::prelude::*;

use crate::error::Error;

verus! {

/// The largest byte length a DER value may carry here: it must fit 32 bits.
pub const LENGTH_MAX: u32 = 0xFFFF_FFFF;

/// How many long-form body octets the value `n` needs (minimal count).
pub open spec fn long_len(n: u32) -> int {
    if n < 0x100 { 1 }
    else if n < 0x1_0000 { 2 }
    else if n < 0x100_0000 { 3 }
    else { 4 }
}

/// The smallest value whose minimal long form has `k` body octets.
pub open spec fn long_min(k: int) -> int {
    if k == 1 { 0x80 }
    else if k == 2 { 0x100 }
    else if k == 3 { 0x1_0000 }
    else { 0x100_0000 }
}

/// The minimal big-endian octets of `n`, for the long form.
pub open spec fn be_octets(n: u32) -> Seq<u8> {
    if n < 0x100 {
        seq![n as u8]
    } else if n < 0x1_0000 {
        seq![(n / 0x100) as u8, (n % 0x100) as u8]
    } else if n < 0x100_0000 {
        seq![(n / 0x1_0000) as u8, ((n / 0x100) % 0x100) as u8, (n % 0x100) as u8]
    } else {
        seq![
            (n / 0x100_0000) as u8,
            ((n / 0x1_0000) % 0x100) as u8,
            ((n / 0x100) % 0x100) as u8,
            (n % 0x100) as u8,
        ]
    }
}

/// The big-endian value of one to four octets.
pub open spec fn be_value(s: Seq<u8>) -> int {
    if s.len() == 1 { s[0] as int }
    else if s.len() == 2 { s[0] * 0x100 + s[1] }
    else if s.len() == 3 { s[0] * 0x1_0000 + s[1] * 0x100 + s[2] }
    else { s[0] * 0x100_0000 + s[1] * 0x1_0000 + s[2] * 0x100 + s[3] }
}

/// The canonical DER encoding of the length value `n`.
pub open spec fn length_bytes(n: u32) -> Seq<u8> {
    if n < 0x80 {
        seq![n as u8]
    } else {
        seq![(0x80 + long_len(n)) as u8] + be_octets(n)
    }
}

/// What decoding a length field from the front of `rem` yields: the value and
/// the count of consumed octets, or the exact error.
pub open spec fn length_decode(rem: Seq<u8>) -> Result<(u32, int), Error> {
    if rem.len() < 1 {
        Err(Error::Truncated)
    } else if rem[0] < 0x80 {
        Ok((rem[0] as u32, 1))
    } else if rem[0] == 0x80 || rem[0] == 0xFF {
        Err(Error::NonCanonicalLength)
    } else {
        let k = (rem[0] - 0x80) as int;
        if k > 4 {
            Err(Error::LengthOverflow)
        } else if rem.len() < 1 + k {
            Err(Error::Truncated)
        } else {
            let v = be_value(rem.subrange(1, 1 + k));
            if v < long_min(k) {
                Err(Error::NonCanonicalLength)
            } else {
                Ok((v as u32, 1 + k))
            }
        }
    }
}

/// A DER value's byte length: a non-negative integer no greater than
/// [`LENGTH_MAX`]. Immutable once constructed.
#[derive(Clone, Copy, Debug, PartialEq, Eq, Structural)]
pub struct Length {
    value: u32,
}

impl Length {
    /// The number this length stands for.
    pub closed spec fn spec_val(&self) -> u32 {
        self.value
    }

    /// The canonical octets this length encodes to.
    pub open spec fn encoding(&self) -> Seq<u8> {
        length_bytes(self.spec_val())
    }

    /// The zero length.
    pub fn zero() -> (r: Length)
        ensures
            r.spec_val() == 0,
    {
        Length { value: 0 }
    }

    /// Wrap a raw 32-bit value; every such value is a valid length.
    pub fn new(value: u32) -> (r: Length)
        ensures
            r.spec_val() == value,
    {
        Length { value }
    }

    /// Validate a machine-sized count against the 32-bit bound.
    pub fn try_from_usize(n: usize) -> (r: Result<Length, Error>)
        ensures
            r is Ok <==> n <= LENGTH_MAX,
            r matches Ok(l) ==> l.spec_val() == n,
            r is Err ==> r == Err::<Length, Error>(Error::LengthOverflow),
    {
        if n <= LENGTH_MAX as usize {
            Ok(Length { value: n as u32 })
        } else {
            Err(Error::LengthOverflow)
        }
    }

    /// The raw 32-bit value.
    pub fn value(&self) -> (r: u32)
        ensures
            r == self.spec_val(),
    {
        self.value
    }

    /// The value as a machine-sized count.
    pub fn as_usize(&self) -> (r: usize)
        ensures
            r == self.spec_val(),
    {
        self.value as usize
    }

    /// Whether this is the zero length.
    pub fn is_zero(&self) -> (r: bool)
        ensures
            r == (self.spec_val() == 0),
    {
        self.value == 0
    }

    /// Add two lengths; body lengths sum across encoded members, so the sum
    /// is checked and an overflow beyond [`LENGTH_MAX`] fails rather than
    /// wraps.
    pub fn add(&self, other: &Length) -> (r: Result<Length, Error>)
        ensures
            r is Ok <==> self.spec_val() + other.spec_val() <= LENGTH_MAX,
            r matches Ok(l) ==> l.spec_val() == self.spec_val() + other.spec_val(),
            r is Err ==> r == Err::<Length, Error>(Error::LengthOverflow),
    {
        let sum = self.value as u64 + other.value as u64;
        if sum <= LENGTH_MAX as u64 {
            Ok(Length { value: sum as u32 })
        } else {
            Err(Error::LengthOverflow)
        }
    }

    /// How many octets this length's canonical encoding takes: one for the
    /// short form, one plus the body count for the long form.
    pub fn encoded_len(&self) -> (r: usize)
        ensures
            r == self.encoding().len(),
            1 <= r <= 5,
    {
        let n = self.value;
        if n < 0x80 { 1 }
        else if n < 0x100 { 2 }
        else if n < 0x1_0000 { 3 }
        else if n < 0x100_0000 { 4 }
        else { 5 }
    }

    /// The canonical octets of this length, minimal by construction.
    pub fn to_bytes(&self) -> (r: Vec<u8>)
        ensures
            r@ == self.encoding(),
    {
        let n = self.value;
        let mut v: Vec<u8> = Vec::new();
        if n < 0x80 {
            v.push(n as u8);
            proof { assert(v@ =~= length_bytes(n)); }
        } else if n < 0x100 {
            v.push(0x81);
            v.push(n as u8);
            proof { assert(v@ =~= length_bytes(n)); }
        } else if n < 0x1_0000 {
            v.push(0x82);
            v.push((n / 0x100) as u8);
            v.push((n % 0x100) as u8);
            proof { assert(v@ =~= length_bytes(n)); }
        } else if n < 0x100_0000 {
            v.push(0x83);
            v.push((n / 0x1_0000) as u8);
            v.push(((n / 0x100) % 0x100) as u8);
            v.push((n % 0x100) as u8);
            proof { assert(v@ =~= length_bytes(n)); }
        } else {
            v.push(0x84);
            v.push((n / 0x100_0000) as u8);
            v.push(((n / 0x1_0000) % 0x100) as u8);
            v.push(((n / 0x100) % 0x100) as u8);
            v.push((n % 0x100) as u8);
            proof { assert(v@ =~= length_bytes(n)); }
        }
        v
    }
}

/// Round-trip: for every valid length value, decoding its canonical encoding
/// (with anything at all after it) yields exactly that value and consumes
/// exactly the encoded octets.
pub proof fn lemma_length_roundtrip(n: u32, tail: Seq<u8>)
    ensures
        length_decode(length_bytes(n) + tail) == Ok::<(u32, int), Error>((
            n,
            length_bytes(n).len() as int,
        )),
{
    let rem = length_bytes(n) + tail;
    if n < 0x80 {
        assert(rem[0] == n as u8);
    } else {
        let k = long_len(n);
        assert(rem[0] == (0x80 + k) as u8);
        assert(rem.subrange(1, 1 + k) =~= be_octets(n));
        assert(be_value(be_octets(n)) == n);
        assert(be_value(rem.subrange(1, 1 + k)) >= long_min(k));
    }
}

/// Canonical rejection: the indefinite-length marker and the reserved
/// length-of-length count fail, whatever follows them.
pub proof fn lemma_indefinite_and_reserved_rejected(rem: Seq<u8>)
    requires
        rem.len() >= 1,
        rem[0] == 0x80 || rem[0] == 0xFF,
    ensures
        length_decode(rem) == Err::<(u32, int), Error>(Error::NonCanonicalLength),
{
}

/// Canonical rejection: a long form whose first body octet is zero (an extra
/// leading zero octet) is non-minimal and fails, even though a lenient BER
/// parser would accept it. A one-octet body below 0x80 fails the same way.
pub proof fn lemma_padded_long_form_rejected(rem: Seq<u8>)
    requires
        rem.len() >= 2,
        0x80 < rem[0] && rem[0] < 0xFF,
        rem[0] - 0x80 <= 4,
        rem.len() >= 1 + (rem[0] - 0x80),
        rem[1] == 0 || (rem[0] == 0x81 && rem[1] < 0x80),
    ensures
        length_decode(rem) == Err::<(u32, int), Error>(Error::NonCanonicalLength),
{
    let k = (rem[0] - 0x80) as int;
    let v = be_value(rem.subrange(1, 1 + k));
    assert(rem.subrange(1, 1 + k)[0] == rem[1]);
    if rem[1] == 0 {
        if k == 2 {
            assert(v <= 0xFF);
        } else if k == 3 {
            assert(v <= 0xFFFF);
        } else if k == 4 {
            assert(v <= 0xFF_FFFF);
        }
    }
    assert(v < long_min(k));
}

} // verus!
