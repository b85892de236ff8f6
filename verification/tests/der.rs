use der_core::any::Any;
use der_core::bytes::ByteSlice;
use der_core::decoder::Decoder;
use der_core::encodable::{Encodable, Tagged};
use der_core::encoder::Encoder;
use der_core::error::Error;
use der_core::length::Length;
use der_core::sequence::{encode_sequence, encoded_len, Sequence};
use der_core::tag::Tag;

fn roundtrip_length(n: u32) {
    let l = Length::new(n);
    let bytes = l.to_bytes();
    assert_eq!(bytes.len(), l.encoded_len());
    let mut d = Decoder::new(bytes.as_slice());
    let back = d.decode_length().expect("canonical length must decode");
    assert_eq!(back.value(), n);
    assert!(d.is_finished());
}

#[test]
fn length_roundtrip_all_widths() {
    for n in [
        0u32, 1, 0x7F, 0x80, 0xFF, 0x100, 0xFFFF, 0x1_0000, 0xFF_FFFF, 0x100_0000, 0xFFFF_FFFF,
    ] {
        roundtrip_length(n);
    }
}

#[test]
fn length_short_and_long_forms_exact() {
    assert_eq!(Length::new(0).to_bytes(), vec![0x00]);
    assert_eq!(Length::new(0x7F).to_bytes(), vec![0x7F]);
    assert_eq!(Length::new(0x80).to_bytes(), vec![0x81, 0x80]);
    assert_eq!(Length::new(0x1234).to_bytes(), vec![0x82, 0x12, 0x34]);
    assert_eq!(Length::new(0xFFFF_FFFF).to_bytes(), vec![0x84, 0xFF, 0xFF, 0xFF, 0xFF]);
}

#[test]
fn length_indefinite_form_rejected() {
    let mut d = Decoder::new(&[0x80, 0x01, 0x02]);
    assert_eq!(d.decode_length(), Err(Error::NonCanonicalLength));
}

#[test]
fn length_reserved_marker_rejected() {
    let mut d = Decoder::new(&[0xFF, 0x01]);
    assert_eq!(d.decode_length(), Err(Error::NonCanonicalLength));
}

#[test]
fn length_padded_long_form_rejected() {
    // 0x80 fits one octet, so a two-octet body with a leading zero is
    // non-minimal even though a lenient BER parser would take it.
    let mut d = Decoder::new(&[0x82, 0x00, 0x80]);
    assert_eq!(d.decode_length(), Err(Error::NonCanonicalLength));
    // A one-octet long form below 0x80 belongs in the short form.
    let mut d = Decoder::new(&[0x81, 0x7F]);
    assert_eq!(d.decode_length(), Err(Error::NonCanonicalLength));
}

#[test]
fn length_too_wide_rejected() {
    let mut d = Decoder::new(&[0x85, 0x01, 0x01, 0x01, 0x01, 0x01]);
    assert_eq!(d.decode_length(), Err(Error::LengthOverflow));
}

#[test]
fn length_truncated_rejected() {
    let mut d = Decoder::new(&[]);
    assert_eq!(d.decode_length(), Err(Error::Truncated));
    let mut d = Decoder::new(&[0x82, 0x01]);
    assert_eq!(d.decode_length(), Err(Error::Truncated));
}

#[test]
fn length_add_checks_overflow() {
    let a = Length::new(0xFFFF_FFFE);
    assert_eq!(a.add(&Length::new(1)).unwrap().value(), 0xFFFF_FFFF);
    assert_eq!(a.add(&Length::new(2)), Err(Error::LengthOverflow));
    assert!(Length::zero().is_zero());
}

#[test]
fn tag_roundtrip_every_variant() {
    let all = [
        Tag::Boolean,
        Tag::Integer,
        Tag::BitString,
        Tag::OctetString,
        Tag::Null,
        Tag::ObjectIdentifier,
        Tag::Utf8String,
        Tag::PrintableString,
        Tag::Ia5String,
        Tag::UtcTime,
        Tag::GeneralizedTime,
        Tag::Sequence,
        Tag::ContextSpecific0,
        Tag::ContextSpecific1,
        Tag::ContextSpecific2,
        Tag::ContextSpecific3,
    ];
    for t in all {
        assert_eq!(Tag::from_byte(t.byte()), Some(t));
    }
    assert_eq!(Tag::Sequence.byte(), 0x30);
}

#[test]
fn tag_unrecognized_bytes_rejected() {
    // The multi-byte (high tag number) form and arbitrary strangers.
    assert_eq!(Tag::from_byte(0x1F), None);
    assert_eq!(Tag::from_byte(0x3F), None);
    assert_eq!(Tag::from_byte(0x00), None);
    let mut d = Decoder::new(&[0x1F, 0x00]);
    assert_eq!(d.decode_header(), Err(Error::UnrecognizedTag));
}

#[test]
fn tag_assert_eq_reports_both_tags() {
    assert_eq!(Tag::Integer.assert_eq(Tag::Integer), Ok(Tag::Integer));
    assert_eq!(
        Tag::Integer.assert_eq(Tag::Sequence),
        Err(Error::TagMismatch { expected: Tag::Sequence, actual: Tag::Integer })
    );
}

#[test]
fn header_encoded_len_agrees_with_encode() {
    for n in [0u32, 1, 0x7F, 0x80, 0x100, 0x1_0000, 0x100_0000] {
        let header = der_core::header::Header::new(Tag::Sequence, Length::new(n));
        let mut enc = Encoder::new(header.encoded_len().as_usize());
        enc.encode_header(Tag::Sequence, Length::new(n)).unwrap();
        let bytes = enc.finish().expect("header must fill its own length exactly");
        assert_eq!(bytes.len(), header.encoded_len().as_usize());
    }
}

#[test]
fn any_encode_roundtrip() {
    let any = Any::new(Tag::OctetString, &[1, 2, 3]).unwrap();
    let total = any.encoded_len().unwrap().as_usize();
    let mut enc = Encoder::new(total);
    any.encode(&mut enc).unwrap();
    let bytes = enc.finish().unwrap();
    assert_eq!(bytes, vec![0x04, 0x03, 1, 2, 3]);

    let mut d = Decoder::new(bytes.as_slice());
    let back = d.decode_any().unwrap();
    assert_eq!(back.tag(), Tag::OctetString);
    assert_eq!(back.as_bytes(), &[1, 2, 3]);
    assert!(d.finish().is_ok());
}

#[test]
fn empty_sequence_is_exactly_two_bytes() {
    let members: [Any; 0] = [];
    let total = encoded_len(&members).unwrap();
    assert_eq!(total.value(), 2);
    let mut enc = Encoder::new(2);
    encode_sequence(&members, &mut enc).unwrap();
    let bytes = enc.finish().unwrap();
    assert_eq!(bytes, vec![0x30, 0x00]);

    let mut d = Decoder::new(&[0x30, 0x00]);
    let seq = d.decode_sequence().unwrap();
    assert!(d.finish().is_ok());
    assert_eq!(seq.as_bytes(), &[] as &[u8]);
    let inner = seq.decoder();
    assert!(inner.is_finished());
}

#[test]
fn sequence_wrapping_one_integer_member() {
    let member = Any::new(Tag::Integer, &[0x05]).unwrap();
    let members = [member];
    let total = encoded_len(&members).unwrap();
    assert_eq!(total.value(), 5);
    let mut enc = Encoder::new(5);
    encode_sequence(&members, &mut enc).unwrap();
    let bytes = enc.finish().unwrap();
    assert_eq!(bytes, vec![0x30, 0x03, 0x02, 0x01, 0x05]);
}

#[test]
fn sequence_composition_keeps_members_in_order() {
    let a = Any::new(Tag::Integer, &[0x01]).unwrap();
    let b = Any::new(Tag::Boolean, &[0xFF]).unwrap();
    let c = Any::new(Tag::OctetString, &[0x01, 0x02]).unwrap();
    let members = [a, b, c];
    let total = encoded_len(&members).unwrap().as_usize();
    let mut enc = Encoder::new(total);
    encode_sequence(&members, &mut enc).unwrap();
    let bytes = enc.finish().unwrap();

    let mut d = Decoder::new(bytes.as_slice());
    let seq = d.decode_sequence().unwrap();
    assert!(d.finish().is_ok());
    let mut inner = seq.decoder();
    let first = inner.decode_any().unwrap();
    assert_eq!(first.tag(), Tag::Integer);
    assert_eq!(first.as_bytes(), &[0x01]);
    let second = inner.decode_any().unwrap();
    assert_eq!(second.tag(), Tag::Boolean);
    assert_eq!(second.as_bytes(), &[0xFF]);
    let third = inner.decode_any().unwrap();
    assert_eq!(third.tag(), Tag::OctetString);
    assert_eq!(third.as_bytes(), &[0x01, 0x02]);
    assert!(inner.finish().is_ok());

    // Reordering the members changes the encoded bytes.
    let a2 = Any::new(Tag::Integer, &[0x01]).unwrap();
    let b2 = Any::new(Tag::Boolean, &[0xFF]).unwrap();
    let c2 = Any::new(Tag::OctetString, &[0x01, 0x02]).unwrap();
    let swapped = [b2, a2, c2];
    let mut enc = Encoder::new(total);
    encode_sequence(&swapped, &mut enc).unwrap();
    let other = enc.finish().unwrap();
    assert_ne!(bytes, other);
}

#[test]
fn truncated_encodings_rejected() {
    for full in [
        vec![0x02u8, 0x01, 0x05],
        vec![0x30, 0x03, 0x02, 0x01, 0x05],
        vec![0x30, 0x00],
        vec![0x04, 0x02, 0xAA, 0xBB],
    ] {
        let short = &full[..full.len() - 1];
        let mut d = Decoder::new(short);
        assert_eq!(
            d.decode_any().map(|a| a.tag()),
            Err(Error::Truncated),
            "dropping the last byte of {full:?} must truncate"
        );
    }
}

#[test]
fn trailing_byte_fails_exhaustion_only() {
    let mut d = Decoder::new(&[0x02, 0x01, 0x05, 0xAA]);
    let first = d.decode_any().expect("the first unit alone is fine");
    assert_eq!(first.tag(), Tag::Integer);
    assert_eq!(first.as_bytes(), &[0x05]);
    assert!(!d.is_finished());
    assert_eq!(d.finish(), Err(Error::TrailingData));
}

#[test]
fn sequence_narrowing_checks_the_tag() {
    let any = Any::new(Tag::Integer, &[0x05]).unwrap();
    assert_eq!(
        Sequence::try_from(&any).map(|s| s.as_bytes().to_vec()),
        Err(Error::TagMismatch { expected: Tag::Sequence, actual: Tag::Integer })
    );
    let any = Any::new(Tag::Sequence, &[0x02, 0x01, 0x05]).unwrap();
    let seq = Sequence::try_from(&any).unwrap();
    assert_eq!(seq.as_bytes(), &[0x02, 0x01, 0x05]);
    let widened = seq.to_any();
    assert_eq!(widened.tag(), Tag::Sequence);
    assert_eq!(widened.as_bytes(), &[0x02, 0x01, 0x05]);
    assert_eq!(<Sequence as Tagged>::tag(), Tag::Sequence);
}

#[test]
fn sequence_new_wraps_bytes_as_is() {
    let seq = Sequence::new(&[0xDE, 0xAD]).unwrap();
    assert_eq!(seq.as_bytes(), &[0xDE, 0xAD]);
    let mut inner = seq.decoder();
    assert!(!inner.is_finished());
    assert!(inner.decode_any().is_err());
}

#[test]
fn encoder_rejects_writes_past_the_end() {
    let mut enc = Encoder::new(2);
    assert_eq!(enc.encode_bytes(&[1, 2, 3]), Err(Error::BufferTooSmall));
    assert_eq!(enc.encode_bytes(&[1, 2]), Ok(()));
    let mut enc = Encoder::new(3);
    enc.encode_bytes(&[9]).unwrap();
    assert_eq!(enc.finish(), Err(Error::BufferTooSmall));
}

#[test]
fn byte_slice_wraps_and_measures() {
    let b = ByteSlice::new(&[7, 8, 9]).unwrap();
    assert_eq!(b.as_bytes(), &[7, 8, 9]);
    assert_eq!(b.len().value(), 3);
    assert!(!b.is_empty());
}

#[test]
fn sequence_encodable_agrees_with_free_encoding() {
    let seq = Sequence::new(&[0x02, 0x01, 0x05]).unwrap();
    let total = seq.encoded_len().unwrap().as_usize();
    let mut enc = Encoder::new(total);
    seq.encode(&mut enc).unwrap();
    assert_eq!(enc.finish().unwrap(), vec![0x30, 0x03, 0x02, 0x01, 0x05]);
}
