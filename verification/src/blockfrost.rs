//! What is asked of the resolution service, and what is made of its answers.
use crate::base16::{decode, encode, hex_text, reads_as, HexError};
use crate::ledger::TransactionInput;
use vstd::prelude::*;
use vstd::string::*;
use vstd::utf8::encode_utf8;

verus! {

/// The settings of the client: the key of the project.
#[derive(Clone, Debug)]
pub struct BlockfrostConfig {
    pub key: String,
}

/// A client of the resolution service.
#[derive(Debug)]
pub struct Blockfrost {
    key: String,
}

/// Why the tip of the chain is not known.
#[derive(Clone, Copy, Debug, PartialEq, Eq)]
pub enum TipError {
    /// The latest block has no slot.
    NoTip,
}

impl TipError {
    /// The error in words.
    pub open spec fn text(self) -> Seq<char> {
        "no tip found for latest block"@
    }

    /// The error in words.
    pub fn message(&self) -> (out: String)
        ensures
            out@ == self.text(),
    {
        String::from_str("no tip found for latest block")
    }
}

/// A signed number of 32 bits read as an unsigned number of 64 bits.
pub open spec fn slot_of(slot: i32) -> u64 {
    if slot >= 0 {
        slot as u64
    } else {
        (slot + 0x1_0000_0000_0000_0000) as u64
    }
}

impl Blockfrost {
    /// The key of the project, with which the client asks.
    pub closed spec fn project_key(&self) -> Seq<char> {
        self.key@
    }

    /// A client with the key of the settings.
    pub fn new(config: &BlockfrostConfig) -> (client: Self)
        ensures
            client.project_key() == config.key@,
    {
        Blockfrost { key: config.key.clone() }
    }

    /// The key of the project.
    pub fn key(&self) -> (key: &str)
        ensures
            key@ == self.project_key(),
    {
        self.key.as_str()
    }

    /// The name under which the service knows the transaction of an input:
    /// its id in hexadecimal.
    pub fn transaction_hash(input: &TransactionInput) -> (name: String)
        ensures
            name@ == hex_text(input.transaction_id@),
    {
        encode(input.transaction_id.as_slice())
    }

    /// The bytes of a transaction, from the hexadecimal in which the service
    /// answers.
    pub fn transaction_bytes(cbor: &str) -> (outcome: Result<Vec<u8>, HexError>)
        ensures
            reads_as(encode_utf8(cbor@), outcome),
    {
        decode(cbor.as_bytes())
    }

    /// The slot of the tip, from the slot of the latest block.
    pub fn tip_slot(slot: Option<i32>) -> (outcome: Result<u64, TipError>)
        ensures
            outcome == match slot {
                Some(slot) => Ok::<u64, TipError>(slot_of(slot)),
                None => Err::<u64, TipError>(TipError::NoTip),
            },
    {
        match slot {
            Some(slot) => if slot >= 0 {
                Ok(slot as u64)
            } else {
                Ok(u64::MAX - ((-(slot + 1)) as u64))
            },
            None => Err(TipError::NoTip),
        }
    }
}

} // verus!
