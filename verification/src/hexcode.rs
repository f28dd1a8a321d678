//! Hexadecimal text for byte strings.
//!
//! The text is produced and read by the `hex` crate; this module states what
//! its two functions compute.

use hex::FromHexError;
use vstd::prelude::*;
use vstd::utf8::{encode_utf8, is_ascii_chars_encode_utf8};

verus! {

#[verifier::external_type_specification]
#[verifier::external_body]
pub struct ExFromHexError(FromHexError);

/// The lower-case hexadecimal digit for a value below sixteen, as an ASCII
/// byte.
pub open spec fn hex_digit(n: nat) -> u8 {
    if n < 10 {
        (48 + n) as u8
    } else {
        (87 + n) as u8
    }
}

/// The value of a hexadecimal digit given as an ASCII byte, in either case;
/// `None` for any other byte.
pub open spec fn digit_value(c: u8) -> Option<nat> {
    if 48 <= c <= 57 {
        Some((c - 48) as nat)
    } else if 97 <= c <= 102 {
        Some((c - 87) as nat)
    } else if 65 <= c <= 70 {
        Some((c - 55) as nat)
    } else {
        None
    }
}

/// The text has an even number of bytes, all of them hexadecimal digits.
pub open spec fn is_hex_text(text: Seq<u8>) -> bool {
    text.len() % 2 == 0 && forall|i: int| 0 <= i < text.len() ==> digit_value(#[trigger] text[i])
        is Some
}

/// The bytes that a hexadecimal text stands for: two digits per byte, the high
/// half first.
pub open spec fn hex_bytes(text: Seq<u8>) -> Seq<u8> {
    Seq::new(
        text.len() / 2,
        |k: int| (16 * digit_value(text[2 * k]).unwrap() + digit_value(text[2 * k + 1]).unwrap()) as u8,
    )
}

/// The lower-case hexadecimal text of a byte string, as ASCII bytes.
pub open spec fn hex_text(bytes: Seq<u8>) -> Seq<u8> {
    Seq::new(
        2 * bytes.len(),
        |i: int|
            if i % 2 == 0 {
                hex_digit((bytes[i / 2] / 16) as nat)
            } else {
                hex_digit((bytes[i / 2] % 16) as nat)
            },
    )
}

/// The characters of an ASCII byte string.
pub open spec fn ascii_chars(bytes: Seq<u8>) -> Seq<char> {
    Seq::new(bytes.len(), |i: int| bytes[i] as char)
}

/// Reading back the text written for a byte string gives the byte string.
pub proof fn lemma_hex_round_trip(bytes: Seq<u8>)
    ensures
        is_hex_text(hex_text(bytes)),
        hex_bytes(hex_text(bytes)) == bytes,
{
    let text = hex_text(bytes);
    assert forall|i: int| 0 <= i < text.len() implies digit_value(#[trigger] text[i]) is Some by {
        lemma_digit_round_trip((bytes[i / 2] / 16) as nat);
        lemma_digit_round_trip((bytes[i / 2] % 16) as nat);
    }
    assert forall|k: int| 0 <= k < bytes.len() implies hex_bytes(text)[k] == bytes[k] by {
        lemma_digit_round_trip((bytes[k] / 16) as nat);
        lemma_digit_round_trip((bytes[k] % 16) as nat);
        assert(text[2 * k] == hex_digit((bytes[k] / 16) as nat));
        assert(text[2 * k + 1] == hex_digit((bytes[k] % 16) as nat));
    }
    assert(hex_bytes(text) =~= bytes);
}

/// The text written for a byte string is ASCII, so that its characters
/// encode to the same bytes.
pub proof fn lemma_hex_text_ascii(bytes: Seq<u8>)
    ensures
        encode_utf8(ascii_chars(hex_text(bytes))) == hex_text(bytes),
{
    let text = hex_text(bytes);
    let chars = ascii_chars(text);
    assert forall|i: int| 0 <= i < chars.len() implies '\0' <= #[trigger] chars[i] <= '\u{7f}' by {
        assert(text[i] < 128);
    }
    is_ascii_chars_encode_utf8(chars);
    assert(encode_utf8(chars) =~= text);
}

/// A digit written for a value below sixteen reads back as that value.
pub proof fn lemma_digit_round_trip(n: nat)
    requires
        n < 16,
    ensures
        digit_value(hex_digit(n)) == Some(n),
{
}

/// `hex::encode`: two lower-case hexadecimal digits for each byte, the high
/// half first.
#[verifier::external_body]
pub(crate) fn encode_hex(data: &[u8]) -> (r: String)
    ensures
        r@ == ascii_chars(hex_text(data@)),
{
    hex::encode(data)
}

/// `hex::decode`: the bytes that the text stands for when it has an even
/// length and holds hexadecimal digits only, in either case; an error
/// otherwise.
#[verifier::external_body]
pub(crate) fn decode_hex(text: &[u8]) -> (r: Result<Vec<u8>, FromHexError>)
    ensures
        match r {
            Ok(bytes) => is_hex_text(text@) && bytes@ == hex_bytes(text@),
            Err(_) => !is_hex_text(text@),
        },
{
    hex::decode(text)
}

} // verus!
