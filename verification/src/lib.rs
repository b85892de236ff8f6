//! A canonical DER (Distinguished Encoding Rules) tag/length/value codec:
//! decoding of externally supplied byte buffers and length-prefixed encoding
//! into exactly-sized buffers, with byte-exact canonical-form checks, plus a
//! generic `SEQUENCE` container built on the tag/length/value framework.

pub mod aead;
pub mod aes_cmac;
pub mod aes_siv;
pub mod any;
pub mod bytes;
pub mod decoder;
pub mod encodable;
pub mod encoder;
pub mod error;
pub mod header;
pub mod hexstr;
pub mod hkdf;
pub mod length;
pub mod sequence;
pub mod tag;
pub mod wycheproof;
