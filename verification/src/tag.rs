//! ASN.1 tags: the fixed whitelist of recognized identifier octets.
//!
//! A tag octet is made of two class bits, one constructed/primitive bit and a
//! five-bit tag number (0-30 directly; 31 announces the unsupported multi-byte
//! form). Only the variants below are recognized: any other octet is a decode
//! error, never a silent "unknown" value.

use vstd::prelude::*;

use crate::error::Error;

verus! {

/// The recognized ASN.1 tags: a small fixed set of universal tags plus the
/// first four context-specific (constructed) tags.
#[derive(Clone, Copy, Debug, PartialEq, Eq, Structural)]
pub enum Tag {
    Boolean,
    Integer,
    BitString,
    OctetString,
    Null,
    ObjectIdentifier,
    Utf8String,
    PrintableString,
    Ia5String,
    UtcTime,
    GeneralizedTime,
    Sequence,
    ContextSpecific0,
    ContextSpecific1,
    ContextSpecific2,
    ContextSpecific3,
}

/// The identifier octet of each recognized tag.
pub open spec fn tag_to_byte(t: Tag) -> u8 {
    match t {
        Tag::Boolean => 0x01,
        Tag::Integer => 0x02,
        Tag::BitString => 0x03,
        Tag::OctetString => 0x04,
        Tag::Null => 0x05,
        Tag::ObjectIdentifier => 0x06,
        Tag::Utf8String => 0x0C,
        Tag::PrintableString => 0x13,
        Tag::Ia5String => 0x16,
        Tag::UtcTime => 0x17,
        Tag::GeneralizedTime => 0x18,
        Tag::Sequence => 0x30,
        Tag::ContextSpecific0 => 0xA0,
        Tag::ContextSpecific1 => 0xA1,
        Tag::ContextSpecific2 => 0xA2,
        Tag::ContextSpecific3 => 0xA3,
    }
}

/// The strict whitelist a decoded identifier octet is held against.
pub open spec fn tag_from_byte(b: u8) -> Option<Tag> {
    if b == 0x01 { Some(Tag::Boolean) }
    else if b == 0x02 { Some(Tag::Integer) }
    else if b == 0x03 { Some(Tag::BitString) }
    else if b == 0x04 { Some(Tag::OctetString) }
    else if b == 0x05 { Some(Tag::Null) }
    else if b == 0x06 { Some(Tag::ObjectIdentifier) }
    else if b == 0x0C { Some(Tag::Utf8String) }
    else if b == 0x13 { Some(Tag::PrintableString) }
    else if b == 0x16 { Some(Tag::Ia5String) }
    else if b == 0x17 { Some(Tag::UtcTime) }
    else if b == 0x18 { Some(Tag::GeneralizedTime) }
    else if b == 0x30 { Some(Tag::Sequence) }
    else if b == 0xA0 { Some(Tag::ContextSpecific0) }
    else if b == 0xA1 { Some(Tag::ContextSpecific1) }
    else if b == 0xA2 { Some(Tag::ContextSpecific2) }
    else if b == 0xA3 { Some(Tag::ContextSpecific3) }
    else { None }
}

impl Tag {
    /// The identifier octet this tag encodes to.
    pub fn byte(self) -> (r: u8)
        ensures
            r == tag_to_byte(self),
    {
        match self {
            Tag::Boolean => 0x01,
            Tag::Integer => 0x02,
            Tag::BitString => 0x03,
            Tag::OctetString => 0x04,
            Tag::Null => 0x05,
            Tag::ObjectIdentifier => 0x06,
            Tag::Utf8String => 0x0C,
            Tag::PrintableString => 0x13,
            Tag::Ia5String => 0x16,
            Tag::UtcTime => 0x17,
            Tag::GeneralizedTime => 0x18,
            Tag::Sequence => 0x30,
            Tag::ContextSpecific0 => 0xA0,
            Tag::ContextSpecific1 => 0xA1,
            Tag::ContextSpecific2 => 0xA2,
            Tag::ContextSpecific3 => 0xA3,
        }
    }

    /// Narrow an identifier octet to a recognized tag, if it is one.
    pub fn from_byte(b: u8) -> (r: Option<Tag>)
        ensures
            r == tag_from_byte(b),
    {
        if b == 0x01 { Some(Tag::Boolean) }
        else if b == 0x02 { Some(Tag::Integer) }
        else if b == 0x03 { Some(Tag::BitString) }
        else if b == 0x04 { Some(Tag::OctetString) }
        else if b == 0x05 { Some(Tag::Null) }
        else if b == 0x06 { Some(Tag::ObjectIdentifier) }
        else if b == 0x0C { Some(Tag::Utf8String) }
        else if b == 0x13 { Some(Tag::PrintableString) }
        else if b == 0x16 { Some(Tag::Ia5String) }
        else if b == 0x17 { Some(Tag::UtcTime) }
        else if b == 0x18 { Some(Tag::GeneralizedTime) }
        else if b == 0x30 { Some(Tag::Sequence) }
        else if b == 0xA0 { Some(Tag::ContextSpecific0) }
        else if b == 0xA1 { Some(Tag::ContextSpecific1) }
        else if b == 0xA2 { Some(Tag::ContextSpecific2) }
        else if b == 0xA3 { Some(Tag::ContextSpecific3) }
        else { None }
    }

    /// Check that this (actual) tag equals the expected one; used by every
    /// narrowing conversion. Returns the tag itself on success and a
    /// mismatch error carrying both tags otherwise.
    pub fn assert_eq(self, expected: Tag) -> (r: Result<Tag, Error>)
        ensures
            self == expected ==> r == Ok::<Tag, Error>(self),
            self != expected ==> r == Err::<Tag, Error>(
                Error::TagMismatch { expected, actual: self },
            ),
    {
        if self == expected {
            Ok(self)
        } else {
            Err(Error::TagMismatch { expected, actual: self })
        }
    }
}

/// Every supported tag decodes back to itself: encoding a tag to its octet
/// and narrowing that octet yields the identical variant.
pub proof fn lemma_tag_roundtrip(t: Tag)
    ensures
        tag_from_byte(tag_to_byte(t)) == Some(t),
{
}

/// An identifier octet announcing the multi-byte tag-number form (five low
/// bits all set) is never recognized.
pub proof fn lemma_multi_byte_tag_rejected(b: u8)
    requires
        b % 0x20 == 0x1F,
    ensures
        tag_from_byte(b) == None::<Tag>,
{
}

} // verus!
