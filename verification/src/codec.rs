use vstd::prelude::*;

use base64::Engine;
use vstd::utf8::{decode_utf8, valid_utf8};

verus! {

/// The error type of base64 decoding, kept opaque.
#[verifier::external_type_specification]
#[verifier::external_body]
pub struct ExDecodeError(base64::DecodeError);

/// The error type of hex decoding, kept opaque.
#[verifier::external_type_specification]
#[verifier::external_body]
pub struct ExFromHexError(hex::FromHexError);

/// What the standard padded base64 alphabet encodes a byte sequence to.
pub uninterp spec fn base64_encoding(data: Seq<u8>) -> Seq<char>;

/// What standard base64 decoding yields for a string, `None` when the
/// string is not well-formed base64.
pub uninterp spec fn base64_decoding(s: Seq<char>) -> Option<Seq<u8>>;

/// The lowercase hex digit for a value below 16.
pub open spec fn hex_char_of(v: int) -> char
    recommends
        0 <= v < 16,
{
    if v == 0 {
        '0'
    } else if v == 1 {
        '1'
    } else if v == 2 {
        '2'
    } else if v == 3 {
        '3'
    } else if v == 4 {
        '4'
    } else if v == 5 {
        '5'
    } else if v == 6 {
        '6'
    } else if v == 7 {
        '7'
    } else if v == 8 {
        '8'
    } else if v == 9 {
        '9'
    } else if v == 10 {
        'a'
    } else if v == 11 {
        'b'
    } else if v == 12 {
        'c'
    } else if v == 13 {
        'd'
    } else if v == 14 {
        'e'
    } else {
        'f'
    }
}

/// The value of a hex digit in either case, `None` for any other character.
pub open spec fn hex_nibble(c: char) -> Option<u8> {
    if c == '0' {
        Some(0u8)
    } else if c == '1' {
        Some(1u8)
    } else if c == '2' {
        Some(2u8)
    } else if c == '3' {
        Some(3u8)
    } else if c == '4' {
        Some(4u8)
    } else if c == '5' {
        Some(5u8)
    } else if c == '6' {
        Some(6u8)
    } else if c == '7' {
        Some(7u8)
    } else if c == '8' {
        Some(8u8)
    } else if c == '9' {
        Some(9u8)
    } else if c == 'a' || c == 'A' {
        Some(10u8)
    } else if c == 'b' || c == 'B' {
        Some(11u8)
    } else if c == 'c' || c == 'C' {
        Some(12u8)
    } else if c == 'd' || c == 'D' {
        Some(13u8)
    } else if c == 'e' || c == 'E' {
        Some(14u8)
    } else if c == 'f' || c == 'F' {
        Some(15u8)
    } else {
        None
    }
}

/// Hex encoding: two lowercase digits per byte, high nibble first.
pub open spec fn hex_encoding(data: Seq<u8>) -> Seq<char> {
    Seq::new(
        2 * data.len(),
        |i: int|
            if i % 2 == 0 {
                hex_char_of(data[i / 2] as int / 16)
            } else {
                hex_char_of(data[i / 2] as int % 16)
            },
    )
}

/// A string hex decoding accepts: even length, hex digits only.
pub open spec fn valid_hex(s: Seq<char>) -> bool {
    s.len() % 2 == 0 && forall|i: int| 0 <= i < s.len() ==> #[trigger] hex_nibble(s[i]) is Some
}

/// Hex decoding of a valid string: each digit pair becomes one byte,
/// high nibble first.
pub open spec fn hex_decoding(s: Seq<char>) -> Seq<u8>
    recommends
        valid_hex(s),
{
    Seq::new(
        s.len() / 2,
        |i: int| (hex_nibble(s[2 * i])->Some_0 * 16 + hex_nibble(s[2 * i + 1])->Some_0) as u8,
    )
}

/// Encode a byte slice into a base64 string using the default engine.
///
/// Relies on base64's STANDARD engine (RFC 4648 with padding): the encoding
/// depends on the input bytes alone and spans 4 characters per 3 input
/// bytes, rounded up; it carries canonical padding, which the same engine's
/// decoding accepts and inverts back to the input bytes.
#[verifier::external_body]
pub fn encode_base64(data: &[u8]) -> (r: String)
    requires
        4 * (data@.len() as int / 3) + 4 <= usize::MAX,
    ensures
        r@ == base64_encoding(data@),
        r@.len() == 4 * ((data@.len() + 2) / 3),
        base64_decoding(r@) == Some(data@),
{
    base64::engine::general_purpose::STANDARD.encode(data)
}

/// Relies on base64's STANDARD engine: whether decoding succeeds and what
/// it yields depend on the input string alone.
#[verifier::external_body]
fn base64_decode_str(s: &str) -> (r: Result<Vec<u8>, base64::DecodeError>)
    ensures
        base64_decoding(s@) is Some ==> r is Ok && base64_decoding(s@) == Some(r->Ok_0@),
        base64_decoding(s@) is None ==> r is Err,
{
    base64::engine::general_purpose::STANDARD.decode(s)
}

/// Relies on String::from_utf8: it succeeds exactly on valid UTF-8 and
/// yields the characters the bytes encode.
#[verifier::external_body]
fn utf8_to_string(bytes: Vec<u8>) -> (r: Option<String>)
    ensures
        match r {
            Some(s) => valid_utf8(bytes@) && s@ == decode_utf8(bytes@),
            None => !valid_utf8(bytes@),
        },
{
    match String::from_utf8(bytes) {
        Ok(s) => Some(s),
        Err(_) => None,
    }
}

/// Decode a base64 string into a regular UTF-8 string.
///
/// Fails with "invalid base64" when the input is not well-formed base64 and
/// with "invalid UTF-8" when the decoded bytes are not valid UTF-8.
pub fn decode_base64(encoded: &str) -> (r: Result<String, String>)
    ensures
        base64_decoding(encoded@) is None ==> r is Err && r->Err_0@ == "invalid base64"@,
        base64_decoding(encoded@) is Some && !valid_utf8(base64_decoding(encoded@)->Some_0)
            ==> r is Err && r->Err_0@ == "invalid UTF-8"@,
        base64_decoding(encoded@) is Some && valid_utf8(base64_decoding(encoded@)->Some_0)
            ==> r is Ok && r->Ok_0@ == decode_utf8(base64_decoding(encoded@)->Some_0),
{
    match base64_decode_str(encoded) {
        Ok(bytes) => match utf8_to_string(bytes) {
            Some(s) => Ok(s),
            None => Err("invalid UTF-8".to_owned()),
        },
        Err(_) => Err("invalid base64".to_owned()),
    }
}

/// Encode a byte slice into a hex string.
///
/// Relies on hex::encode: two lowercase digits per byte, high nibble first.
#[verifier::external_body]
pub fn encode_hex(data: &[u8]) -> (r: String)
    requires
        2 * data@.len() <= usize::MAX,
    ensures
        r@ == hex_encoding(data@),
{
    hex::encode(data)
}

/// Relies on hex::decode: it succeeds exactly on an even-length string of
/// hex digits of either case, pairing the digits high nibble first.
#[verifier::external_body]
fn hex_decode_str(s: &str) -> (r: Result<Vec<u8>, hex::FromHexError>)
    ensures
        valid_hex(s@) ==> r is Ok && r->Ok_0@ == hex_decoding(s@),
        !valid_hex(s@) ==> r is Err,
{
    hex::decode(s)
}

/// Decode a hex string into a regular UTF-8 string.
///
/// Fails with "invalid hex" when the input is not an even-length string of
/// hex digits, and with "invalid UTF-8" when the decoded bytes are not
/// valid UTF-8.
pub fn decode_hex(encoded: &str) -> (r: Result<String, String>)
    ensures
        !valid_hex(encoded@) ==> r is Err && r->Err_0@ == "invalid hex"@,
        valid_hex(encoded@) && !valid_utf8(hex_decoding(encoded@)) ==> r is Err && r->Err_0@
            == "invalid UTF-8"@,
        valid_hex(encoded@) && valid_utf8(hex_decoding(encoded@)) ==> r is Ok && r->Ok_0@
            == decode_utf8(hex_decoding(encoded@)),
{
    match hex_decode_str(encoded) {
        Ok(bytes) => match utf8_to_string(bytes) {
            Some(s) => Ok(s),
            None => Err("invalid UTF-8".to_owned()),
        },
        Err(_) => Err("invalid hex".to_owned()),
    }
}

} // verus!
