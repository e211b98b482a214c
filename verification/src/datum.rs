//! The datum that a spending script is handed.
use crate::base16::{encode, hex_text};
use crate::data::Data;
use crate::ledger::{DatumOption, Redeemer, RedeemerTag, TransactionInput, TransactionOutput};
use crate::resolver::UtxoSet;
use crate::text::{decimal_text, push_decimal};
use vstd::prelude::*;
use vstd::string::*;

verus! {

/// The datum for a redeemer. Only a redeemer that spends an output has one to
/// ask for; the output it spends may carry none.
#[derive(Clone, Debug, PartialEq, Eq)]
pub enum SpendingDatum<'a> {
    /// The redeemer spends nothing, so there is no datum to speak of.
    NotApplicable,
    /// The spent output carries no datum.
    Absent,
    /// The spent output carries the hash of its datum alone: the bytes of the
    /// hash stand for the datum.
    HashBytes(Vec<u8>),
    /// The datum that the spent output carries.
    Inline(&'a Data),
}

/// Why the datum for a redeemer could not be found.
#[derive(Clone, Copy, Debug, PartialEq, Eq)]
pub enum DatumError {
    /// The transaction spends only `available` inputs.
    InvalidSpendIndex { index: u32, available: usize },
    /// The set of resolved outputs lacks the spent input.
    MissingUtxo { input: TransactionInput },
}

impl DatumError {
    /// The error in words: for an index out of range the index and how many
    /// inputs the transaction spends, for a missing output the input that
    /// points to it.
    pub open spec fn text(self) -> Seq<char> {
        match self {
            DatumError::InvalidSpendIndex { index, available } => "Invalid redeemer index "@
                + decimal_text(index as nat) + " for spending input. Transaction has "@
                + decimal_text(available as nat) + " input(s)"@,
            DatumError::MissingUtxo { input } => "Missing UTxO for spending input "@ + hex_text(
                input.transaction_id@,
            ) + "#"@ + decimal_text(input.index as nat),
        }
    }

    /// The error in words.
    pub fn message(&self) -> (out: String)
        ensures
            out@ == self.text(),
    {
        match self {
            DatumError::InvalidSpendIndex { index, available } => {
                let mut out = String::from_str("Invalid redeemer index ");
                push_decimal(&mut out, *index as u128);
                out.append(" for spending input. Transaction has ");
                push_decimal(&mut out, *available as u128);
                out.append(" input(s)");
                out
            },
            DatumError::MissingUtxo { input } => {
                let mut out = String::from_str("Missing UTxO for spending input ");
                out.append(encode(input.transaction_id.as_slice()).as_str());
                out.append("#");
                push_decimal(&mut out, input.index as u128);
                out
            },
        }
    }
}

/// Whether `datum` is what an output's datum gives a spending script.
pub open spec fn datum_from(carried: DatumOption, datum: SpendingDatum) -> bool {
    match carried {
        DatumOption::Absent => datum is Absent,
        DatumOption::Hash(hash) => datum matches SpendingDatum::HashBytes(bytes) && bytes@
            == hash@,
        DatumOption::Inline(data) => datum matches SpendingDatum::Inline(inline) && *inline
            == data,
    }
}

/// The error, if any, with which the search for a redeemer's datum ends.
/// The inputs stand in the order in which the redeemer's index counts them.
pub open spec fn datum_failure(
    inputs: Seq<TransactionInput>,
    utxos: Map<TransactionInput, TransactionOutput>,
    redeemer: Redeemer,
) -> Option<DatumError> {
    if !(redeemer.tag is Spend) {
        None
    } else if redeemer.index >= inputs.len() {
        Some(
            DatumError::InvalidSpendIndex {
                index: redeemer.index,
                available: inputs.len() as usize,
            },
        )
    } else if !utxos.contains_key(inputs[redeemer.index as int]) {
        Some(DatumError::MissingUtxo { input: inputs[redeemer.index as int] })
    } else {
        None
    }
}

/// Whether `datum` is the datum for a redeemer whose search does not fail:
/// not applicable unless the redeemer spends, and else what the output of the
/// input at the redeemer's index carries.
pub open spec fn datum_found(
    inputs: Seq<TransactionInput>,
    utxos: Map<TransactionInput, TransactionOutput>,
    redeemer: Redeemer,
    datum: SpendingDatum,
) -> bool {
    if redeemer.tag is Spend {
        datum_from(utxos[inputs[redeemer.index as int]].datum, datum)
    } else {
        datum is NotApplicable
    }
}

/// The bytes of a hash.
fn hash_bytes(hash: &[u8; 32]) -> (bytes: Vec<u8>)
    ensures
        bytes@ == hash@,
{
    let mut bytes: Vec<u8> = Vec::new();
    let mut i: usize = 0;
    while i < 32
        invariant
            i <= 32,
            bytes@ == hash@.take(i as int),
        decreases 32 - i,
    {
        bytes.push(hash[i]);
        assert(bytes@ =~= hash@.take(i + 1));
        i += 1;
    }
    assert(hash@.take(32) =~= hash@);
    bytes
}

/// The datum for a redeemer: that of the output which the input at the
/// redeemer's index spends, where the redeemer spends at all. The inputs
/// stand in the order in which the index counts them: a script context counts
/// the spent inputs in ascending order.
pub fn extract_datum<'a>(
    inputs: &Vec<TransactionInput>,
    utxos: &'a UtxoSet,
    redeemer: &Redeemer,
) -> (outcome: Result<SpendingDatum<'a>, DatumError>)
    ensures
        outcome matches Err(error) ==> datum_failure(inputs@, utxos@, *redeemer) == Some(error),
        outcome matches Ok(datum) ==> datum_failure(inputs@, utxos@, *redeemer) is None
            && datum_found(inputs@, utxos@, *redeemer, datum),
{
    match redeemer.tag {
        RedeemerTag::Spend => {},
        _ => {
            return Ok(SpendingDatum::NotApplicable);
        },
    }
    if redeemer.index as u64 >= inputs.len() as u64 {
        return Err(
            DatumError::InvalidSpendIndex { index: redeemer.index, available: inputs.len() },
        );
    }
    let input = inputs[redeemer.index as usize];
    match utxos.get(&input) {
        None => Err(DatumError::MissingUtxo { input }),
        Some(output) => match &output.datum {
            DatumOption::Absent => Ok(SpendingDatum::Absent),
            DatumOption::Hash(hash) => Ok(SpendingDatum::HashBytes(hash_bytes(hash))),
            DatumOption::Inline(data) => Ok(SpendingDatum::Inline(data)),
        },
    }
}

} // verus!
