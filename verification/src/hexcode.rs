//! Bytes written as hexadecimal digits.

use vstd::prelude::*;

verus! {

/// The error of `hex::decode`; nothing is read from it.
#[verifier::external_type_specification]
#[verifier::external_body]
pub struct ExFromHexError(hex::FromHexError);

/// Whether a character is a hexadecimal digit, of either case.
pub open spec fn is_hex_digit(c: char) -> bool {
    '0' <= c <= '9' || 'a' <= c <= 'f' || 'A' <= c <= 'F'
}

/// The value of a hexadecimal digit.
pub open spec fn hex_digit_value(c: char) -> int {
    if '0' <= c <= '9' {
        c as int - '0' as int
    } else if 'a' <= c <= 'f' {
        c as int - 'a' as int + 10
    } else {
        c as int - 'A' as int + 10
    }
}

/// The lower-case hexadecimal digit of a value below sixteen.
pub open spec fn hex_char(value: int) -> char {
    if value < 10 {
        ('0' as int + value) as char
    } else {
        ('a' as int + value - 10) as char
    }
}

/// Two hexadecimal digits for each byte, the high one first.
pub open spec fn hex_text(bytes: Seq<u8>) -> Seq<char> {
    Seq::new(
        2 * bytes.len(),
        |i: int|
            hex_char(
                if i % 2 == 0 {
                    bytes[i / 2] as int / 16
                } else {
                    bytes[i / 2] as int % 16
                },
            ),
    )
}

/// Whether a text is an even number of hexadecimal digits.
pub open spec fn is_hex_text(text: Seq<char>) -> bool {
    &&& text.len() % 2 == 0
    &&& forall|i: int| 0 <= i < text.len() ==> is_hex_digit(#[trigger] text[i])
}

/// The bytes that pairs of hexadecimal digits stand for.
pub open spec fn hex_bytes(text: Seq<char>) -> Seq<u8> {
    Seq::new(
        text.len() / 2,
        |i: int| (16 * hex_digit_value(text[2 * i]) + hex_digit_value(text[2 * i + 1])) as u8,
    )
}

/// The bytes of a hexadecimal text, or nothing where the text is malformed.
pub open spec fn decoded(text: Seq<char>) -> Option<Seq<u8>> {
    if is_hex_text(text) {
        Some(hex_bytes(text))
    } else {
        None
    }
}

/// The bytes of a hexadecimal text, or no bytes where the text is malformed.
pub open spec fn decoded_or_empty(text: Seq<char>) -> Seq<u8> {
    match decoded(text) {
        Some(bytes) => bytes,
        None => Seq::empty(),
    }
}

/// Calls `hex::encode`, which writes each byte as two lower-case hexadecimal
/// digits, the high one first.
#[verifier::external_body]
fn hex_encode(bytes: &[u8]) -> (text: String)
    ensures
        text@ == hex_text(bytes@),
{
    hex::encode(bytes)
}

/// Calls `hex::decode`, which reads pairs of hexadecimal digits of either case.
/// It fails exactly where the text has an odd number of bytes or holds anything
/// but such digits; a character outside ASCII is never a digit.
#[verifier::external_body]
fn hex_decode(text: &str) -> (bytes: Result<Vec<u8>, hex::FromHexError>)
    ensures
        bytes is Ok <==> is_hex_text(text@),
        bytes matches Ok(b) ==> b@ == hex_bytes(text@),
{
    hex::decode(text)
}

/// The lower-case hexadecimal text of bytes.
pub fn encode_hex(bytes: &[u8]) -> (text: String)
    ensures
        text@ == hex_text(bytes@),
{
    hex_encode(bytes)
}

/// The bytes of a hexadecimal text, or `None` where the text is not an even
/// number of hexadecimal digits.
pub fn decode_hex(text: &str) -> (bytes: Option<Vec<u8>>)
    ensures
        bytes is Some <==> decoded(text@) is Some,
        bytes matches Some(b) ==> decoded(text@) == Some(b@),
{
    match hex_decode(text) {
        Ok(bytes) => Some(bytes),
        Err(_) => None,
    }
}

/// The bytes of a hexadecimal text, or no bytes where the text is malformed.
pub fn decode_hex_or_empty(text: &str) -> (bytes: Vec<u8>)
    ensures
        bytes@ == decoded_or_empty(text@),
{
    match decode_hex(text) {
        Some(bytes) => bytes,
        None => Vec::new(),
    }
}

/// Decoding what was encoded gives the bytes back.
pub proof fn law_decode_undoes_encode(bytes: Seq<u8>)
    ensures
        decoded(hex_text(bytes)) == Some(bytes),
{
    let text = hex_text(bytes);
    assert forall|i: int| 0 <= i < text.len() implies is_hex_digit(#[trigger] text[i]) by {
        assert(0 <= i / 2 < bytes.len());
    }
    assert forall|i: int| 0 <= i < bytes.len() implies #[trigger] hex_bytes(text)[i]
        == bytes[i] by {
        let high = bytes[i] as int / 16;
        let low = bytes[i] as int % 16;
        assert((2 * i) / 2 == i && (2 * i + 1) / 2 == i);
        assert(text[2 * i] == hex_char(high));
        assert(text[2 * i + 1] == hex_char(low));
        assert(hex_digit_value(hex_char(high)) == high);
        assert(hex_digit_value(hex_char(low)) == low);
    }
    assert(hex_bytes(text) =~= bytes);
}

/// A text with the upper-case digits A to F in lower case.
pub open spec fn lower_case(text: Seq<char>) -> Seq<char> {
    Seq::new(
        text.len(),
        |i: int|
            if 'A' <= text[i] <= 'F' {
                (text[i] as int + 32) as char
            } else {
                text[i]
            },
    )
}

/// Whether bytes are what a text of hexadecimal digits stands for: written out
/// again they give that text, in lower case.
pub open spec fn are_bytes_of(bytes: Seq<u8>, text: Seq<char>) -> bool {
    &&& 2 * bytes.len() == text.len()
    &&& hex_text(bytes) == lower_case(text)
}

/// Each pair of digits stands for one byte, and writing the bytes out again gives
/// the digits. What is not an even number of digits stands for nothing.
pub proof fn law_encode_undoes_decode(text: Seq<char>)
    ensures
        decoded(text) is Some <==> text.len() % 2 == 0 && forall|i: int|
            0 <= i < text.len() ==> is_hex_digit(#[trigger] text[i]),
        decoded(text) matches Some(bytes) ==> are_bytes_of(bytes, text) && decoded_or_empty(text)
            == bytes,
        decoded(text) is None ==> decoded_or_empty(text).len() == 0,
{
    if is_hex_text(text) {
        let bytes = hex_bytes(text);
        assert forall|i: int| 0 <= i < text.len() implies #[trigger] hex_text(bytes)[i]
            == lower_case(text)[i] by {
            let k = i / 2;
            let high = hex_digit_value(text[2 * k]);
            let low = hex_digit_value(text[2 * k + 1]);
            assert(is_hex_digit(text[2 * k]) && is_hex_digit(text[2 * k + 1]));
            assert(0 <= high < 16 && 0 <= low < 16);
            assert(bytes[k] == (16 * high + low) as u8);
            assert(bytes[k] as int / 16 == high && bytes[k] as int % 16 == low);
            assert(is_hex_digit(text[i]));
            assert(i == 2 * k || i == 2 * k + 1);
        }
        assert(hex_text(bytes) =~= lower_case(text));
    }
}

/// Decoding gives the bytes that the digits stand for, for every text of an even
/// number of digits, and `None` for every other text.
pub proof fn law_decoding_reads_the_digits(text: &str, bytes: Option<Vec<u8>>)
    requires
        call_ensures(decode_hex, (text,), bytes),
    ensures
        bytes is Some <==> text@.len() % 2 == 0 && forall|i: int|
            0 <= i < text@.len() ==> is_hex_digit(#[trigger] text@[i]),
        bytes matches Some(b) ==> are_bytes_of(b@, text@),
{
    law_encode_undoes_decode(text@);
}

/// What was encoded is decoded to the same bytes, and nothing is lost where a
/// malformed text counts as no bytes.
pub proof fn law_bytes_survive_as_text(
    bytes: &[u8],
    encoded: String,
    text: &str,
    strict: Option<Vec<u8>>,
    lenient: Vec<u8>,
)
    requires
        call_ensures(encode_hex, (bytes,), encoded),
        text@ == encoded@,
        call_ensures(decode_hex, (text,), strict),
        call_ensures(decode_hex_or_empty, (text,), lenient),
    ensures
        encoded@.len() == 2 * bytes@.len(),
        strict matches Some(b) && b@ == bytes@,
        lenient@ == bytes@,
{
    law_decode_undoes_encode(bytes@);
}

} // verus!
