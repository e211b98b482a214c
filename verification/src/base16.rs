//! Bytes written in hexadecimal.
use vstd::prelude::*;
use vstd::utf8::{encode_utf8, is_ascii_chars, is_ascii_chars_encode_utf8};

verus! {

/// The lowercase hexadecimal digit that stands for `d`, for `d` below sixteen.
pub open spec fn hex_digit(d: nat) -> char {
    if d == 0 {
        '0'
    } else if d == 1 {
        '1'
    } else if d == 2 {
        '2'
    } else if d == 3 {
        '3'
    } else if d == 4 {
        '4'
    } else if d == 5 {
        '5'
    } else if d == 6 {
        '6'
    } else if d == 7 {
        '7'
    } else if d == 8 {
        '8'
    } else if d == 9 {
        '9'
    } else if d == 10 {
        'a'
    } else if d == 11 {
        'b'
    } else if d == 12 {
        'c'
    } else if d == 13 {
        'd'
    } else if d == 14 {
        'e'
    } else {
        'f'
    }
}

/// Bytes in hexadecimal: two lowercase digits for each byte, the high half first.
pub open spec fn hex_text(bytes: Seq<u8>) -> Seq<char> {
    Seq::new(
        2 * bytes.len(),
        |i: int|
            if i % 2 == 0 {
                hex_digit((bytes[i / 2] / 16) as nat)
            } else {
                hex_digit((bytes[i / 2] % 16) as nat)
            },
    )
}

/// `hex::encode`: the text is twice as long as the bytes, and each byte gives
/// two lowercase hexadecimal digits, the high half first.
#[verifier::external_body]
pub(crate) fn encode(bytes: &[u8]) -> (s: String)
    ensures
        s@ == hex_text(bytes@),
{
    ::hex::encode(bytes)
}

/// Why a text is not bytes in hexadecimal.
#[derive(Clone, Copy, Debug, PartialEq, Eq)]
pub enum HexError {
    /// The character at `index` is no hexadecimal digit.
    InvalidHexCharacter { index: usize },
    /// The text has an odd number of characters.
    OddLength,
    /// The text has not the length that was asked for.
    InvalidStringLength,
}

/// What a hexadecimal digit, of either case, stands for.
pub open spec fn hex_value(c: u8) -> Option<u8> {
    if 0x30 <= c <= 0x39 {
        Some((c - 0x30) as u8)
    } else if 0x61 <= c <= 0x66 {
        Some((c - 0x61 + 10) as u8)
    } else if 0x41 <= c <= 0x46 {
        Some((c - 0x41 + 10) as u8)
    } else {
        None
    }
}

/// Whether a text, given as its bytes, is bytes in hexadecimal: an even number
/// of hexadecimal digits.
pub open spec fn is_hex(text: Seq<u8>) -> bool {
    text.len() % 2 == 0 && forall|i: int| 0 <= i < text.len() ==> hex_value(text[i]) is Some
}

/// Whether the first character that is no hexadecimal digit stands at `index`.
pub open spec fn first_bad_at(text: Seq<u8>, index: int) -> bool {
    &&& 0 <= index < text.len()
    &&& hex_value(text[index]) is None
    &&& forall|j: int| 0 <= j < index ==> hex_value(text[j]) is Some
}

/// The bytes that a text in hexadecimal stands for: one for each two digits,
/// the high half first.
pub open spec fn unhex(text: Seq<u8>) -> Seq<u8> {
    Seq::new(
        text.len() / 2,
        |i: int| (hex_value(text[2 * i])->0 * 16 + hex_value(text[2 * i + 1])->0) as u8,
    )
}

/// `hex::decode`: the bytes that the text stands for, where it is an even
/// number of hexadecimal digits of either case. A text of odd length is
/// refused for its length; any other for the first character that is no digit.
#[verifier::external_body]
pub(crate) fn decode(text: &[u8]) -> (outcome: Result<Vec<u8>, HexError>)
    ensures
        match outcome {
            Ok(bytes) => is_hex(text@) && bytes@ == unhex(text@),
            Err(HexError::OddLength) => text@.len() % 2 == 1,
            Err(HexError::InvalidHexCharacter { index }) => text@.len() % 2 == 0 && first_bad_at(
                text@,
                index as int,
            ),
            Err(HexError::InvalidStringLength) => false,
        },
{
    match ::hex::decode(text) {
        Ok(bytes) => Ok(bytes),
        Err(::hex::FromHexError::InvalidHexCharacter { c: _, index }) => Err(
            HexError::InvalidHexCharacter { index },
        ),
        Err(::hex::FromHexError::OddLength) => Err(HexError::OddLength),
        Err(::hex::FromHexError::InvalidStringLength) => Err(HexError::InvalidStringLength),
    }
}

/// Whether `outcome` is what a text, given as its bytes, gives when it is read
/// as hexadecimal: the bytes it stands for; or that its length is odd; or,
/// where its length is even, the first character that is no digit.
pub open spec fn reads_as(text: Seq<u8>, outcome: Result<Vec<u8>, HexError>) -> bool {
    match outcome {
        Ok(bytes) => is_hex(text) && bytes@ == unhex(text),
        Err(HexError::OddLength) => text.len() % 2 == 1,
        Err(HexError::InvalidHexCharacter { index }) => text.len() % 2 == 0 && first_bad_at(
            text,
            index as int,
        ),
        Err(HexError::InvalidStringLength) => false,
    }
}

/// A hexadecimal digit is a character of one byte, and stands for the number
/// that it was written for.
proof fn lemma_hex_digit_value(d: nat)
    requires
        d < 16,
    ensures
        '\0' <= hex_digit(d) <= '\u{7f}',
        hex_value(hex_digit(d) as u8) == Some(d as u8),
{
}

/// What `hex_text` writes, `unhex` reads back: bytes in hexadecimal are an
/// even number of hexadecimal digits, and they stand for the same bytes.
pub proof fn lemma_hex_round_trip(bytes: Seq<u8>)
    ensures
        is_hex(encode_utf8(hex_text(bytes))),
        unhex(encode_utf8(hex_text(bytes))) == bytes,
{
    let text = hex_text(bytes);
    assert forall|i: int| 0 <= i < text.len() implies '\0' <= #[trigger] text[i] <= '\u{7f}' by {
        lemma_hex_digit_value((bytes[i / 2] / 16) as nat);
        lemma_hex_digit_value((bytes[i / 2] % 16) as nat);
    }
    assert(is_ascii_chars(text));
    is_ascii_chars_encode_utf8(text);
    let raw = encode_utf8(text);
    assert forall|i: int| 0 <= i < raw.len() implies hex_value(#[trigger] raw[i]) is Some by {
        lemma_hex_digit_value((bytes[i / 2] / 16) as nat);
        lemma_hex_digit_value((bytes[i / 2] % 16) as nat);
        assert(text[i] as u8 == raw[i]);
    }
    assert forall|i: int| 0 <= i < bytes.len() implies #[trigger] unhex(raw)[i] == bytes[i] by {
        lemma_hex_digit_value((bytes[i] / 16) as nat);
        lemma_hex_digit_value((bytes[i] % 16) as nat);
        assert(text[2 * i] as u8 == raw[2 * i]);
        assert(text[2 * i + 1] as u8 == raw[2 * i + 1]);
        assert(text[2 * i] == hex_digit((bytes[i] / 16) as nat));
        assert(text[2 * i + 1] == hex_digit((bytes[i] % 16) as nat));
    }
    assert(unhex(raw) =~= bytes);
}

} // verus!
