//! Where the bytes of the transaction come from.
use crate::base16::{decode, first_bad_at, is_hex, unhex, HexError};
use crate::text::{trim, trimmed};
use vstd::prelude::*;
use vstd::string::*;
use vstd::utf8::encode_utf8;

verus! {

/// Why there are no bytes of a transaction.
#[derive(Clone, Copy, Debug, PartialEq, Eq)]
pub enum InputError {
    /// Neither a file nor a text in hexadecimal was given.
    NoInput,
    /// Both a file and a text in hexadecimal were given.
    ConflictingInput,
    /// The text is not bytes in hexadecimal.
    InvalidHex(HexError),
}

impl InputError {
    /// The error in words.
    pub open spec fn text(self) -> Seq<char> {
        match self {
            InputError::NoInput => "No input provided. Use either --tx-file or --bytes"@,
            InputError::ConflictingInput =>
                "Conflicting input. Use either --tx-file or --bytes, not both"@,
            InputError::InvalidHex(_) =>
                "Failed to decode hex string. Ensure it contains valid hexadecimal characters"@,
        }
    }

    /// The error in words.
    pub fn message(&self) -> (out: String)
        ensures
            out@ == self.text(),
    {
        match self {
            InputError::NoInput => String::from_str(
                "No input provided. Use either --tx-file or --bytes",
            ),
            InputError::ConflictingInput => String::from_str(
                "Conflicting input. Use either --tx-file or --bytes, not both",
            ),
            InputError::InvalidHex(_) => String::from_str(
                "Failed to decode hex string. Ensure it contains valid hexadecimal characters",
            ),
        }
    }
}

/// The bytes of a text in hexadecimal, without the white space around it.
pub open spec fn hex_input(hex: Seq<char>) -> Seq<u8> {
    encode_utf8(trimmed(hex))
}

/// Whether `outcome` is what a text in hexadecimal gives, white space around
/// it left aside: the bytes it stands for, or why it stands for none.
pub open spec fn decodes_to(hex: Seq<char>, outcome: Result<Vec<u8>, InputError>) -> bool {
    let text = hex_input(hex);
    match outcome {
        Ok(bytes) => is_hex(text) && bytes@ == unhex(text),
        Err(InputError::InvalidHex(HexError::OddLength)) => text.len() % 2 == 1,
        Err(InputError::InvalidHex(HexError::InvalidHexCharacter { index })) => text.len() % 2
            == 0 && first_bad_at(text, index as int),
        Err(_) => false,
    }
}

/// The bytes that a text in hexadecimal stands for, white space around it
/// left aside.
pub fn decode_hex_input(hex: &str) -> (outcome: Result<Vec<u8>, InputError>)
    ensures
        decodes_to(hex@, outcome),
{
    let text = trim(hex);
    match decode(text.as_str().as_bytes()) {
        Ok(bytes) => Ok(bytes),
        Err(error) => Err(InputError::InvalidHex(error)),
    }
}

/// The bytes of the transaction: what was read from the file, or what the
/// text in hexadecimal stands for. Exactly one of the two must be given.
pub fn load_transaction_bytes(file: Option<Vec<u8>>, hex: Option<&str>) -> (outcome: Result<
    Vec<u8>,
    InputError,
>)
    ensures
        match (file, hex) {
            (Some(content), None) => outcome == Ok::<Vec<u8>, InputError>(content),
            (None, Some(hex)) => decodes_to(hex@, outcome),
            (Some(_), Some(_)) => outcome == Err::<Vec<u8>, InputError>(
                InputError::ConflictingInput,
            ),
            (None, None) => outcome == Err::<Vec<u8>, InputError>(InputError::NoInput),
        },
{
    match (file, hex) {
        (Some(content), None) => Ok(content),
        (None, Some(hex)) => decode_hex_input(hex),
        (Some(_), Some(_)) => Err(InputError::ConflictingInput),
        (None, None) => Err(InputError::NoInput),
    }
}

} // verus!
