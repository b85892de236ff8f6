//! Hexadecimal text for raw test blobs: the dump format the conversion tool
//! writes, and the field format the Wycheproof files hold bytes in.

use vstd::prelude::*;

use crate::wycheproof::{dec_digit, TestInfo};

verus! {

/// Whether a character is a hexadecimal digit (either case).
pub open spec fn is_hex_digit(c: char) -> bool {
    (48 <= c as int && c as int <= 57) || (97 <= c as int && c as int <= 102) || (65 <= c as int
        && c as int <= 70)
}

/// The value of one hexadecimal digit (either case).
pub open spec fn hex_digit_val(c: char) -> int {
    if 48 <= c as int && c as int <= 57 {
        c as int - 48
    } else if 97 <= c as int && c as int <= 102 {
        c as int - 87
    } else {
        c as int - 55
    }
}

/// Whether a string is well-formed hexadecimal: an even count of digits.
pub open spec fn valid_hex(s: Seq<char>) -> bool {
    s.len() % 2 == 0 && (forall|i: int| 0 <= i < s.len() ==> is_hex_digit(#[trigger] s[i]))
}

/// The bytes a well-formed hexadecimal string stands for.
pub open spec fn hex_bytes(s: Seq<char>) -> Seq<u8> {
    Seq::new(
        s.len() / 2,
        |i: int| (hex_digit_val(s[2 * i]) * 16 + hex_digit_val(s[2 * i + 1])) as u8,
    )
}

/// The lowercase digit character of one value below 16.
pub open spec fn hex_digit_char(v: int) -> char {
    if v < 10 {
        dec_digit(v)
    } else if v == 10 { 'a' }
    else if v == 11 { 'b' }
    else if v == 12 { 'c' }
    else if v == 13 { 'd' }
    else if v == 14 { 'e' }
    else { 'f' }
}

/// The lowercase hexadecimal text of a byte run: two digits per byte.
pub open spec fn hex_chars(b: Seq<u8>) -> Seq<char> {
    Seq::new(
        2 * b.len(),
        |i: int| if i % 2 == 0 {
            hex_digit_char(b[i / 2] as int / 16)
        } else {
            hex_digit_char(b[i / 2] as int % 16)
        },
    )
}

/// Relies on hex::encode: it renders each byte as two lowercase
/// hexadecimal digits, in order.
#[verifier::external_body]
fn hex_encode(data: &[u8]) -> (r: String)
    ensures
        r@ == hex_chars(data@),
{
    hex::encode(data)
}

/// Relies on hex::decode: it accepts upper and lower case digits, fails on
/// an odd count or any non-digit, and yields one byte per digit pair.
#[verifier::external_body]
fn hex_decode(s: &str) -> (r: Option<Vec<u8>>)
    ensures
        r is Some <==> valid_hex(s@),
        r matches Some(v) ==> v@ == hex_bytes(s@),
{
    hex::decode(s).ok()
}

/// Parse a hexadecimal field into its bytes; exactly the well-formed strings
/// (an even count of digits of either case) are accepted.
pub fn parse_hex(s: &str) -> (r: Option<Vec<u8>>)
    ensures
        r is Some <==> valid_hex(s@),
        r matches Some(v) ==> v@ == hex_bytes(s@),
{
    hex_decode(s)
}

/// The hexadecimal text of one byte run.
pub fn to_hex(data: &[u8]) -> (r: String)
    ensures
        r@ == hex_chars(data@),
{
    hex_encode(data)
}

/// One dump line per raw blob of a converted test, in order: each blob as
/// lowercase hexadecimal text.
pub fn hex_blob_lines(info: &TestInfo) -> (r: Vec<String>)
    ensures
        r@.len() == info.data@.len(),
        forall|i: int| 0 <= i < r@.len() ==> (#[trigger] r@[i])@ == hex_chars(info.data@[i]@),
{
    let mut lines: Vec<String> = Vec::new();
    let n = info.data.len();
    for i in 0..n
        invariant
            n == info.data@.len(),
            lines@.len() == i,
            forall|j: int| 0 <= j < i ==> (#[trigger] lines@[j])@ == hex_chars(info.data@[j]@),
    {
        lines.push(hex_encode(info.data[i].as_slice()));
    }
    lines
}

} // verus!
