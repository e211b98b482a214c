//! The script context: what it holds, and how it is put together.
use crate::base16::{encode, hex_text};
use crate::datum::{datum_failure, datum_found, extract_datum, DatumError, SpendingDatum};
use crate::inputs::{
    ascending, distinct_inputs, input_before, lemma_input_before_irreflexive,
    lemma_input_before_transitive, strictly_ascending,
};
use crate::ledger::{
    Certificate, Mint, Redeemer, RedeemerTag, TimeRange, Transaction, TransactionInput,
    TransactionOutput, Withdrawals,
};
use crate::redeemers::{
    canonical_of, get_redeemers, lemma_canonical_unique, no_redeemers, normalize_redeemers,
    position_of_purpose, same_purpose, select_redeemer, values, RedeemerError,
};
use crate::resolver::UtxoSet;
use crate::text::{decimal_text, push_decimal};
use vstd::prelude::*;
use vstd::string::*;

verus! {

/// The version of the contract language.
#[derive(Clone, Copy, Debug, PartialEq, Eq)]
pub enum PlutusVersion {
    PlutusV1,
    PlutusV2,
    PlutusV3,
}

impl Default for PlutusVersion {
    /// The newest version.
    fn default() -> (version: Self)
        ensures
            version is PlutusV3,
    {
        PlutusVersion::PlutusV3
    }
}

/// What a run writes: the report, the bytes, or both.
#[derive(Clone, Copy, Debug, PartialEq, Eq)]
pub enum OutputFormat {
    Pretty,
    Cbor,
    Both,
}

impl Default for OutputFormat {
    /// Both.
    fn default() -> (format: Self)
        ensures
            format is Both,
    {
        OutputFormat::Both
    }
}

/// An input with the output it points to.
#[derive(Clone, Debug, PartialEq, Eq)]
pub struct OutputRef<'a> {
    pub input: TransactionInput,
    pub output: &'a TransactionOutput,
}

/// The redeemers of a transaction, in canonical order.
#[derive(Clone, Debug, PartialEq, Eq)]
pub struct Redeemers<'a>(pub Vec<&'a Redeemer>);

/// What a script sees of the transaction.
#[derive(Clone, Debug, PartialEq, Eq)]
pub struct TxInfo<'a> {
    pub id: [u8; 32],
    pub inputs: Vec<OutputRef<'a>>,
    pub reference_inputs: Vec<OutputRef<'a>>,
    pub outputs: &'a Vec<TransactionOutput>,
    pub fee: u64,
    pub mint: &'a Mint,
    pub certificates: &'a Vec<Certificate>,
    pub withdrawals: &'a Withdrawals,
    pub valid_range: TimeRange,
    pub signatories: &'a Vec<[u8; 28]>,
    pub redeemers: Redeemers<'a>,
}

/// What a script is handed when it runs for one redeemer.
#[derive(Clone, Debug, PartialEq, Eq)]
pub struct ScriptContext<'a> {
    pub version: PlutusVersion,
    pub tx_info: TxInfo<'a>,
    pub redeemer: &'a Redeemer,
    pub datum: SpendingDatum<'a>,
}

/// The part of a transaction in which an input was looked for.
#[derive(Clone, Copy, Debug, PartialEq, Eq)]
pub enum InputField {
    Inputs,
    ReferenceInputs,
}

/// Why no script context could be built.
#[derive(Clone, Copy, Debug, PartialEq, Eq)]
pub enum BuildError {
    /// Contexts of this version are not built.
    NotImplemented { version: PlutusVersion },
    /// The datum of the spent output could not be found.
    Datum(DatumError),
    /// The set of resolved outputs lacks an input of the transaction.
    MissingInput { version: PlutusVersion, field: InputField, input: TransactionInput },
    /// The transaction has no redeemer for what the chosen one is for.
    UnknownRedeemer { version: PlutusVersion, tag: RedeemerTag, index: u32 },
}

/// The name of a version of the contract language.
pub open spec fn version_name(version: PlutusVersion) -> Seq<char> {
    match version {
        PlutusVersion::PlutusV1 => "V1"@,
        PlutusVersion::PlutusV2 => "V2"@,
        PlutusVersion::PlutusV3 => "V3"@,
    }
}

/// The name of a redeemer's tag.
pub open spec fn tag_name(tag: RedeemerTag) -> Seq<char> {
    match tag {
        RedeemerTag::Spend => "Spend"@,
        RedeemerTag::Mint => "Mint"@,
        RedeemerTag::Cert => "Cert"@,
        RedeemerTag::Reward => "Reward"@,
        RedeemerTag::Vote => "Vote"@,
        RedeemerTag::Propose => "Propose"@,
    }
}

/// The name of a version of the contract language.
pub fn format_version(version: PlutusVersion) -> (out: &'static str)
    ensures
        out@ == version_name(version),
{
    match version {
        PlutusVersion::PlutusV1 => "V1",
        PlutusVersion::PlutusV2 => "V2",
        PlutusVersion::PlutusV3 => "V3",
    }
}

/// The name of a redeemer's tag.
pub fn format_tag(tag: RedeemerTag) -> (out: &'static str)
    ensures
        out@ == tag_name(tag),
{
    match tag {
        RedeemerTag::Spend => "Spend",
        RedeemerTag::Mint => "Mint",
        RedeemerTag::Cert => "Cert",
        RedeemerTag::Reward => "Reward",
        RedeemerTag::Vote => "Vote",
        RedeemerTag::Propose => "Propose",
    }
}

impl BuildError {
    /// The error in words: the version, and for a missing input the part of
    /// the transaction and the input, for an unknown redeemer its tag and
    /// index.
    pub open spec fn text(self) -> Seq<char> {
        match self {
            BuildError::NotImplemented { version } => "Plutus"@ + version_name(version)
                + " is not yet implemented"@,
            BuildError::Datum(error) => error.text(),
            BuildError::MissingInput { version, field, input } => "Failed to construct Plutus"@
                + version_name(version) + " script context: missing "@ + match field {
                InputField::Inputs => "input "@,
                InputField::ReferenceInputs => "reference input "@,
            } + hex_text(input.transaction_id@) + "#"@ + decimal_text(
                input.index as nat,
            ),
            BuildError::UnknownRedeemer { version, tag, index } => "Failed to construct Plutus"@
                + version_name(version) + " script context: no redeemer "@ + tag_name(tag) + " "@
                + decimal_text(index as nat),
        }
    }

    /// The error in words.
    pub fn message(&self) -> (out: String)
        ensures
            out@ == self.text(),
    {
        match self {
            BuildError::NotImplemented { version } => {
                let mut out = String::from_str("Plutus");
                out.append(format_version(*version));
                out.append(" is not yet implemented");
                out
            },
            BuildError::Datum(error) => error.message(),
            BuildError::MissingInput { version, field, input } => {
                let mut out = String::from_str("Failed to construct Plutus");
                out.append(format_version(*version));
                out.append(" script context: missing ");
                out.append(
                    match field {
                        InputField::Inputs => "input ",
                        InputField::ReferenceInputs => "reference input ",
                    },
                );
                out.append(encode(input.transaction_id.as_slice()).as_str());
                out.append("#");
                push_decimal(&mut out, input.index as u128);
                out
            },
            BuildError::UnknownRedeemer { version, tag, index } => {
                let mut out = String::from_str("Failed to construct Plutus");
                out.append(format_version(*version));
                out.append(" script context: no redeemer ");
                out.append(format_tag(*tag));
                out.append(" ");
                push_decimal(&mut out, *index as u128);
                out
            },
        }
    }
}

/// Whether the set lacks one of the inputs.
pub open spec fn lacks(
    inputs: Seq<TransactionInput>,
    utxos: Map<TransactionInput, TransactionOutput>,
) -> bool {
    exists|i: int| 0 <= i < inputs.len() && !utxos.contains_key(#[trigger] inputs[i])
}

/// Whether `x` is, in the order of inputs, the first of the inputs that the
/// set lacks.
pub open spec fn first_lacking(
    inputs: Seq<TransactionInput>,
    utxos: Map<TransactionInput, TransactionOutput>,
    x: TransactionInput,
) -> bool {
    &&& inputs.contains(x)
    &&& !utxos.contains_key(x)
    &&& forall|i: int|
        0 <= i < inputs.len() && !utxos.contains_key(#[trigger] inputs[i]) ==> !input_before(
            inputs[i],
            x,
        )
}

/// Whether `refs` are the inputs, each once and in ascending order, each with
/// the output that the set holds for it.
pub open spec fn resolves(
    refs: Seq<OutputRef>,
    inputs: Seq<TransactionInput>,
    utxos: Map<TransactionInput, TransactionOutput>,
) -> bool {
    &&& strictly_ascending(inputs_of(refs))
    &&& forall|x: TransactionInput| inputs_of(refs).contains(x) <==> inputs.contains(x)
    &&& forall|i: int|
        0 <= i < refs.len() ==> utxos.contains_key((#[trigger] refs[i]).input) && *refs[i].output
            == utxos[refs[i].input]
}

/// The inputs of some resolved inputs.
pub open spec fn inputs_of(refs: Seq<OutputRef>) -> Seq<TransactionInput> {
    Seq::new(refs.len(), |i: int| refs[i].input)
}

/// The redeemers that a transaction carries; none where it carries no table.
pub open spec fn raw_redeemers(tx: Transaction) -> Seq<Redeemer> {
    match tx.redeemers {
        Some(raw) => raw@,
        None => Seq::empty(),
    }
}

/// Whether the transaction has a redeemer for what `redeemer` is for.
pub open spec fn in_table(tx: Transaction, redeemer: Redeemer) -> bool {
    exists|j: int|
        0 <= j < raw_redeemers(tx).len() && same_purpose(
            #[trigger] raw_redeemers(tx)[j],
            redeemer,
        )
}

/// Whether a context of this version can be built: the version is one that
/// is built, the datum is found where the version has one, the set holds
/// each input that the version shows, and the transaction has the redeemer.
pub open spec fn can_build(
    version: PlutusVersion,
    tx: Transaction,
    utxos: Map<TransactionInput, TransactionOutput>,
    redeemer: Redeemer,
) -> bool {
    match version {
        PlutusVersion::PlutusV1 => !lacks(tx.inputs@, utxos) && in_table(tx, redeemer),
        PlutusVersion::PlutusV2 => false,
        PlutusVersion::PlutusV3 => datum_failure(ascending(tx.inputs@), utxos, redeemer) is None
            && !lacks(
            tx.inputs@,
            utxos,
        ) && !lacks(tx.reference_inputs@, utxos) && in_table(tx, redeemer),
    }
}

/// Whether `error` is the error with which building ends: the first, in the
/// order of the steps, of the reasons for which `can_build` fails.
pub open spec fn build_fails_with(
    version: PlutusVersion,
    tx: Transaction,
    utxos: Map<TransactionInput, TransactionOutput>,
    redeemer: Redeemer,
    error: BuildError,
) -> bool {
    if version is PlutusV2 {
        error == (BuildError::NotImplemented { version })
    } else if version is PlutusV3 && datum_failure(ascending(tx.inputs@), utxos, redeemer) is Some {
        error == BuildError::Datum(datum_failure(ascending(tx.inputs@), utxos, redeemer)->0)
    } else if lacks(tx.inputs@, utxos) {
        error matches BuildError::MissingInput { version: v, field, input } && v == version
            && field is Inputs && first_lacking(tx.inputs@, utxos, input)
    } else if version is PlutusV3 && lacks(tx.reference_inputs@, utxos) {
        error matches BuildError::MissingInput { version: v, field, input } && v == version
            && field is ReferenceInputs && first_lacking(tx.reference_inputs@, utxos, input)
    } else {
        !in_table(tx, redeemer) && error == (BuildError::UnknownRedeemer {
            version,
            tag: redeemer.tag,
            index: redeemer.index,
        })
    }
}

/// Whether `context` is the context of this version for the redeemer.
///
/// Every version shows the transaction's id, its outputs, fee, mint,
/// certificates, withdrawals, validity range and signatories, and its inputs
/// in ascending order with their outputs. The third version also shows the
/// reference inputs with their outputs, the redeemers in canonical order, and
/// the datum of the spent output: a redeemer that spends counts the inputs in
/// that same ascending order, so the datum is that of the input which the
/// report names.
pub open spec fn is_context_of(
    context: ScriptContext,
    version: PlutusVersion,
    tx: Transaction,
    utxos: Map<TransactionInput, TransactionOutput>,
    redeemer: Redeemer,
) -> bool {
    let info = context.tx_info;
    &&& context.version == version
    &&& *context.redeemer == redeemer
    &&& info.id == tx.id
    &&& *info.outputs == tx.outputs
    &&& info.fee == tx.fee
    &&& *info.mint == tx.mint
    &&& *info.certificates == tx.certificates
    &&& *info.withdrawals == tx.withdrawals
    &&& info.valid_range == tx.valid_range
    &&& *info.signatories == tx.signatories
    &&& resolves(info.inputs@, tx.inputs@, utxos)
    &&& if version is PlutusV3 {
        &&& resolves(info.reference_inputs@, tx.reference_inputs@, utxos)
        &&& canonical_of(values(info.redeemers.0@), raw_redeemers(tx))
        &&& datum_found(ascending(tx.inputs@), utxos, redeemer, context.datum)
    } else {
        &&& info.reference_inputs@.len() == 0
        &&& info.redeemers.0@.len() == 0
        &&& context.datum is NotApplicable
    }
}

/// The inputs, each once and in ascending order, each with the output that
/// the set holds for it; or the first of them, in that order, that the set
/// lacks.
pub fn resolve_inputs<'a>(inputs: &Vec<TransactionInput>, utxos: &'a UtxoSet) -> (outcome: Result<
    Vec<OutputRef<'a>>,
    TransactionInput,
>)
    ensures
        outcome is Ok <==> !lacks(inputs@, utxos@),
        outcome matches Ok(refs) ==> resolves(refs@, inputs@, utxos@),
        outcome matches Err(missing) ==> first_lacking(inputs@, utxos@, missing),
{
    let sorted = distinct_inputs(inputs);
    let mut refs: Vec<OutputRef<'a>> = Vec::new();
    let mut i: usize = 0;
    assert(inputs_of(refs@) =~= sorted@.take(0));
    while i < sorted.len()
        invariant
            i <= sorted@.len(),
            strictly_ascending(sorted@),
            forall|x: TransactionInput| sorted@.contains(x) <==> inputs@.contains(x),
            inputs_of(refs@) == sorted@.take(i as int),
            refs@.len() == i,
            forall|j: int|
                0 <= j < refs@.len() ==> utxos@.contains_key((#[trigger] refs@[j]).input)
                    && *refs@[j].output == utxos@[refs@[j].input],
        decreases sorted@.len() - i,
    {
        let input = sorted[i];
        match utxos.get(&input) {
            None => {
                proof {
                    assert(sorted@.contains(input));
                    assert forall|k: int|
                        0 <= k < inputs@.len() && !utxos@.contains_key(
                            #[trigger] inputs@[k],
                        ) implies !input_before(inputs@[k], input) by {
                        assert(inputs@.contains(inputs@[k]));
                        assert(sorted@.contains(inputs@[k]));
                        let m = choose|m: int| 0 <= m < sorted@.len() && sorted@[m] == inputs@[k];
                        if m < i {
                            assert(inputs_of(refs@)[m] == refs@[m].input);
                            assert(sorted@.take(i as int)[m] == sorted@[m]);
                            assert(refs@[m].input == inputs@[k]);
                        } else if m > i {
                            assert(input_before(sorted@[i as int], sorted@[m]));
                            if input_before(inputs@[k], input) {
                                lemma_input_before_transitive(
                                    input,
                                    inputs@[k],
                                    input,
                                );
                                lemma_input_before_irreflexive(input);
                            }
                        } else {
                            lemma_input_before_irreflexive(input);
                        }
                    }
                    let w = choose|w: int| 0 <= w < inputs@.len() && inputs@[w] == input;
                    assert(!utxos@.contains_key(inputs@[w]));
                }
                return Err(input);
            },
            Some(output) => {
                refs.push(OutputRef { input, output });
                assert(inputs_of(refs@) =~= sorted@.take(i + 1));
            },
        }
        i += 1;
    }
    proof {
        assert(sorted@.take(sorted@.len() as int) =~= sorted@);
        assert forall|k: int| 0 <= k < inputs@.len() implies utxos@.contains_key(
            #[trigger] inputs@[k],
        ) by {
            assert(inputs@.contains(inputs@[k]));
            assert(sorted@.contains(inputs@[k]));
            let m = choose|m: int| 0 <= m < sorted@.len() && sorted@[m] == inputs@[k];
            assert(inputs_of(refs@)[m] == refs@[m].input);
            assert(refs@[m].input == inputs@[k]);
        }
    }
    Ok(refs)
}

/// Whether the transaction has a redeemer for what `redeemer` is for.
fn has_redeemer_for(tx: &Transaction, redeemer: &Redeemer) -> (found: bool)
    ensures
        found == in_table(*tx, *redeemer),
{
    match &tx.redeemers {
        None => false,
        Some(raw) => {
            let place = position_of_purpose(raw, redeemer);
            proof {
                let table = raw_redeemers(*tx);
                assert(table == raw@);
                match place {
                    Some(j) => {
                        assert(same_purpose(table[j as int], *redeemer));
                    },
                    None => {
                        if in_table(*tx, *redeemer) {
                            let j = choose|j: int|
                                0 <= j < table.len() && same_purpose(#[trigger] table[j], *redeemer);
                            assert(same_purpose(raw@[j], *redeemer));
                        }
                    },
                }
            }
            place.is_some()
        },
    }
}

/// Builds the script context of one version for one redeemer of a
/// transaction, from the transaction and the outputs that its inputs point to.
///
/// Contexts of the second version are not built. Building fails as well
/// where the datum of the spent output cannot be found, where the set lacks
/// an input that the context shows, and where the transaction has no redeemer
/// for what the chosen one is for.
pub fn build_script_context<'a>(
    version: PlutusVersion,
    tx: &'a Transaction,
    utxos: &'a UtxoSet,
    redeemer: &'a Redeemer,
) -> (outcome: Result<ScriptContext<'a>, BuildError>)
    ensures
        outcome is Ok <==> can_build(version, *tx, utxos@, *redeemer),
        outcome matches Ok(context) ==> is_context_of(context, version, *tx, utxos@, *redeemer),
        outcome matches Err(error) ==> build_fails_with(version, *tx, utxos@, *redeemer, error),
{
    let third = match version {
        PlutusVersion::PlutusV1 => false,
        PlutusVersion::PlutusV2 => {
            return Err(BuildError::NotImplemented { version });
        },
        PlutusVersion::PlutusV3 => true,
    };
    let datum = if third {
        let counted = distinct_inputs(&tx.inputs);
        match extract_datum(&counted, utxos, redeemer) {
            Ok(datum) => datum,
            Err(error) => {
                return Err(BuildError::Datum(error));
            },
        }
    } else {
        SpendingDatum::NotApplicable
    };
    let inputs = match resolve_inputs(&tx.inputs, utxos) {
        Ok(refs) => refs,
        Err(input) => {
            return Err(BuildError::MissingInput { version, field: InputField::Inputs, input });
        },
    };
    let reference_inputs = if third {
        match resolve_inputs(&tx.reference_inputs, utxos) {
            Ok(refs) => refs,
            Err(input) => {
                return Err(
                    BuildError::MissingInput { version, field: InputField::ReferenceInputs, input },
                );
            },
        }
    } else {
        Vec::new()
    };
    if !has_redeemer_for(tx, redeemer) {
        return Err(
            BuildError::UnknownRedeemer { version, tag: redeemer.tag, index: redeemer.index },
        );
    }
    let redeemers = if third {
        match &tx.redeemers {
            Some(raw) => normalize_redeemers(raw),
            None => Vec::new(),
        }
    } else {
        Vec::new()
    };
    Ok(
        ScriptContext {
            version,
            tx_info: TxInfo {
                id: tx.id,
                inputs,
                reference_inputs,
                outputs: &tx.outputs,
                fee: tx.fee,
                mint: &tx.mint,
                certificates: &tx.certificates,
                withdrawals: &tx.withdrawals,
                valid_range: tx.valid_range,
                signatories: &tx.signatories,
                redeemers: Redeemers(redeemers),
            },
            redeemer,
            datum,
        },
    )
}

/// Why a run ends without a script context.
#[derive(Clone, Copy, Debug, PartialEq, Eq)]
pub enum ContextError {
    /// No redeemer could be chosen.
    Redeemer(RedeemerError),
    /// No context could be built for the chosen redeemer.
    Build(BuildError),
}

impl ContextError {
    /// The error in words.
    pub open spec fn text(self) -> Seq<char> {
        match self {
            ContextError::Redeemer(error) => error.text(),
            ContextError::Build(error) => error.text(),
        }
    }

    /// The error in words.
    pub fn message(&self) -> (out: String)
        ensures
            out@ == self.text(),
    {
        match self {
            ContextError::Redeemer(error) => error.message(),
            ContextError::Build(error) => error.message(),
        }
    }
}

/// The canonical sequence of some redeemers.
pub open spec fn canonical(raw: Seq<Redeemer>) -> Seq<Redeemer> {
    choose|out: Seq<Redeemer>| canonical_of(out, raw)
}

/// Whether `outcome` is how the search for a script context ends.
///
/// It fails where the transaction carries no redeemer at all, its table
/// being absent or empty, and where the canonical sequence of its redeemers
/// has no place `index`. With the redeemer at that place it ends as building
/// does.
pub open spec fn reconstructs(
    version: PlutusVersion,
    tx: Transaction,
    utxos: Map<TransactionInput, TransactionOutput>,
    index: usize,
    outcome: Result<ScriptContext, ContextError>,
) -> bool {
    if no_redeemers(tx.redeemers) {
        outcome == Err::<ScriptContext, ContextError>(
            ContextError::Redeemer(RedeemerError::NoRedeemers),
        )
    } else {
        let all = canonical(tx.redeemers->Some_0@);
        if index >= all.len() {
            outcome == Err::<ScriptContext, ContextError>(
                ContextError::Redeemer(
                    RedeemerError::IndexOutOfBounds {
                        requested: index,
                        available: all.len() as usize,
                    },
                ),
            )
        } else {
            let redeemer = all[index as int];
            match outcome {
                Ok(context) => can_build(version, tx, utxos, redeemer) && is_context_of(
                    context,
                    version,
                    tx,
                    utxos,
                    redeemer,
                ),
                Err(ContextError::Build(error)) => !can_build(version, tx, utxos, redeemer)
                    && build_fails_with(version, tx, utxos, redeemer, error),
                Err(ContextError::Redeemer(_)) => false,
            }
        }
    }
}

/// The script context of one version for the redeemer at place `index` of
/// the canonical sequence of a transaction's redeemers.
pub fn reconstruct<'a>(
    version: PlutusVersion,
    tx: &'a Transaction,
    utxos: &'a UtxoSet,
    index: usize,
) -> (outcome: Result<ScriptContext<'a>, ContextError>)
    ensures
        reconstructs(version, *tx, utxos@, index, outcome),
{
    let all = match get_redeemers(&tx.redeemers) {
        Ok(all) => all,
        Err(error) => {
            return Err(ContextError::Redeemer(error));
        },
    };
    proof {
        let raw = tx.redeemers->Some_0@;
        lemma_canonical_unique(values(all@), canonical(raw), raw);
    }
    let redeemer = match select_redeemer(&all, index) {
        Ok(redeemer) => redeemer,
        Err(error) => {
            return Err(ContextError::Redeemer(error));
        },
    };
    assert(*redeemer == values(all@)[index as int]);
    match build_script_context(version, tx, utxos, redeemer) {
        Ok(context) => Ok(context),
        Err(error) => Err(ContextError::Build(error)),
    }
}

} // verus!
