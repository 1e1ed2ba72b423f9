//! Hexadecimal text for node identifiers, hashes and transaction ids.

use vstd::prelude::*;
use vstd::string::StringSliceAdditionalSpecFns;

verus! {

/// Why a text is not the hexadecimal form of a byte string.
#[derive(Clone, Copy, Debug, PartialEq, Eq)]
pub enum HexError {
    /// The byte at `index` is not a hexadecimal digit; `c` is that byte.
    InvalidHexCharacter { c: char, index: usize },
    /// The text has an odd number of bytes.
    OddLength,
    /// The text does not fit a container of fixed size.
    InvalidStringLength,
}

/// The value of one ASCII hexadecimal digit, upper or lower case.
pub open spec fn digit_value(c: u8) -> Option<int> {
    if 0x30 <= c <= 0x39 {
        Some(c - 0x30)
    } else if 0x61 <= c <= 0x66 {
        Some(c - 0x61 + 10)
    } else if 0x41 <= c <= 0x46 {
        Some(c - 0x41 + 10)
    } else {
        None
    }
}

pub open spec fn is_digit(c: u8) -> bool {
    digit_value(c).is_some()
}

/// Every byte before `end` is a hexadecimal digit.
pub open spec fn digits_before(text: Seq<u8>, end: int) -> bool {
    forall|i: int| 0 <= i < end && i < text.len() ==> is_digit(#[trigger] text[i])
}

/// The text is the hexadecimal form of some byte string.
pub open spec fn is_hex_text(text: Seq<u8>) -> bool {
    text.len() % 2 == 0 && digits_before(text, text.len() as int)
}

/// The byte string that a hexadecimal text stands for: two digits per byte,
/// the high one first.
pub open spec fn decoded(text: Seq<u8>) -> Seq<u8> {
    Seq::new(
        text.len() / 2,
        |i: int| (16 * digit_value(text[2 * i]).unwrap() + digit_value(text[2 * i + 1]).unwrap()) as u8,
    )
}

/// The lower-case ASCII digit for a value below sixteen.
pub open spec fn digit_of(value: int) -> u8 {
    if value < 10 {
        (0x30 + value) as u8
    } else {
        (0x61 + value - 10) as u8
    }
}

/// The lower-case hexadecimal text of a byte string, as ASCII bytes.
pub open spec fn encoded(data: Seq<u8>) -> Seq<u8> {
    Seq::new(
        2 * data.len(),
        |i: int| if i % 2 == 0 { digit_of(data[i / 2] as int / 16) } else { digit_of(data[i / 2] as int % 16) },
    )
}

/// The same text as characters.
pub open spec fn encoded_text(data: Seq<u8>) -> Seq<char> {
    Seq::new(2 * data.len(), |i: int| encoded(data)[i] as char)
}

/// What decoding `text` yields: an odd length is reported first, then the
/// first byte that is no digit, and a well-formed text gives its bytes.
pub open spec fn decode_outcome(text: Seq<u8>, outcome: Result<Vec<u8>, HexError>) -> bool {
    if text.len() % 2 != 0 {
        outcome == Err::<Vec<u8>, HexError>(HexError::OddLength)
    } else if digits_before(text, text.len() as int) {
        outcome is Ok && outcome->Ok_0@ == decoded(text)
    } else {
        &&& outcome is Err
        &&& outcome->Err_0 is InvalidHexCharacter
        &&& 0 <= outcome->Err_0->index < text.len()
        &&& !is_digit(text[outcome->Err_0->index as int])
        &&& digits_before(text, outcome->Err_0->index as int)
        &&& outcome->Err_0->c == text[outcome->Err_0->index as int] as char
    }
}

/// Calls `hex::decode`. Trusted: the crate rejects an odd length before it
/// looks at any byte, then reports the first byte that is not a digit, and
/// otherwise returns one byte per digit pair, high digit first.
#[verifier::external_body]
fn hex_decode(text: &[u8]) -> (outcome: Result<Vec<u8>, HexError>)
    ensures
        decode_outcome(text@, outcome),
{
    match hex::decode(text) {
        Ok(bytes) => Ok(bytes),
        Err(hex::FromHexError::InvalidHexCharacter { c, index }) => Err(
            HexError::InvalidHexCharacter { c, index },
        ),
        Err(hex::FromHexError::OddLength) => Err(HexError::OddLength),
        Err(hex::FromHexError::InvalidStringLength) => Err(HexError::InvalidStringLength),
    }
}

/// Calls `hex::encode`. Trusted: the crate writes two lower-case digits per
/// byte, high digit first.
#[verifier::external_body]
fn hex_encode(data: &[u8]) -> (text: String)
    ensures
        text@ == encoded_text(data@),
{
    hex::encode(data)
}

/// Decodes a hexadecimal text, reporting why it is malformed if it is.
pub fn try_decode_hex(s: &str) -> (outcome: Result<Vec<u8>, HexError>)
    ensures
        decode_outcome(s.spec_bytes(), outcome),
        outcome is Ok <==> is_hex_text(s.spec_bytes()),
{
    hex_decode(s.as_bytes())
}

/// Decodes a text that is known to be hexadecimal.
pub fn decode_hex(s: &str) -> (bytes: Vec<u8>)
    requires
        is_hex_text(s.spec_bytes()),
    ensures
        bytes@ == decoded(s.spec_bytes()),
{
    match hex_decode(s.as_bytes()) {
        Ok(bytes) => bytes,
        Err(_) => Vec::new(),
    }
}

/// Writes a byte string as lower-case hexadecimal text.
pub fn encode_hex(data: &[u8]) -> (text: String)
    ensures
        text@ == encoded_text(data@),
        text@.len() == 2 * data@.len(),
{
    hex_encode(data)
}

/// Decoding undoes encoding: the text written for a byte string is
/// well-formed and stands for exactly that byte string.
pub proof fn lemma_decode_inverts_encode(data: Seq<u8>)
    ensures
        is_hex_text(encoded(data)),
        decoded(encoded(data)) == data,
{
    let text = encoded(data);
    assert forall|i: int| 0 <= i < text.len() implies is_digit(#[trigger] text[i]) by {
        let b = data[i / 2] as int;
        assert(0 <= b / 16 < 16 && 0 <= b % 16 < 16);
    }
    assert forall|i: int| 0 <= i < data.len() implies decoded(text)[i] == data[i] by {
        let b = data[i] as int;
        assert((2 * i) / 2 == i && (2 * i + 1) / 2 == i);
        assert((2 * i) % 2 == 0 && (2 * i + 1) % 2 == 1);
        assert(0 <= b / 16 < 16 && 0 <= b % 16 < 16);
        assert(text[2 * i] == digit_of(b / 16));
        assert(text[2 * i + 1] == digit_of(b % 16));
        assert(digit_value(digit_of(b / 16)) == Some(b / 16));
        assert(digit_value(digit_of(b % 16)) == Some(b % 16));
        assert(16 * (b / 16) + b % 16 == b);
    }
    assert(decoded(text) =~= data);
}

} // verus!
