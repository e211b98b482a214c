//! The outputs that the inputs of a transaction point to.
use crate::base16::{encode, hex_text, HexError};
use crate::inputs::{
    input_before, lemma_ascending_distinct, lemma_input_before_irreflexive,
    lemma_input_before_transitive, lemma_insert_contains, lemma_insert_keeps_order, place_of,
    strictly_ascending, Place,
};
use crate::ledger::{TransactionInput, TransactionOutput};
use crate::text::{decimal_text, push_decimal};
use vstd::prelude::*;
use vstd::std_specs::iter::IteratorSpec;
use vstd::string::*;

verus! {

/// The inputs of some entries, in their order.
pub open spec fn keys_of(entries: Seq<(TransactionInput, TransactionOutput)>) -> Seq<
    TransactionInput,
> {
    Seq::new(entries.len(), |i: int| entries[i].0)
}

/// The map that entries with distinct inputs stand for.
pub open spec fn map_of(entries: Seq<(TransactionInput, TransactionOutput)>) -> Map<
    TransactionInput,
    TransactionOutput,
> {
    Map::new(
        |k: TransactionInput| keys_of(entries).contains(k),
        |k: TransactionInput| entries[keys_of(entries).index_of(k)].1,
    )
}

/// A map from inputs to the outputs they point to, kept in the order of the
/// inputs.
#[derive(Debug, PartialEq, Eq)]
pub struct UtxoSet {
    entries: Vec<(TransactionInput, TransactionOutput)>,
}

impl View for UtxoSet {
    type V = Map<TransactionInput, TransactionOutput>;

    closed spec fn view(&self) -> Map<TransactionInput, TransactionOutput> {
        map_of(self.entries@)
    }
}

/// The entry at a place is what the map holds for the input at that place.
proof fn lemma_map_of_entry(entries: Seq<(TransactionInput, TransactionOutput)>, i: int)
    requires
        strictly_ascending(keys_of(entries)),
        0 <= i < entries.len(),
    ensures
        map_of(entries).contains_key(entries[i].0),
        map_of(entries)[entries[i].0] == entries[i].1,
{
    let keys = keys_of(entries);
    assert(keys[i] == entries[i].0);
    let j = keys.index_of(entries[i].0);
    lemma_ascending_distinct(keys, i, j);
}

impl UtxoSet {
    /// Each input stands once, before all that come after it.
    #[verifier::type_invariant]
    closed spec fn ordered(&self) -> bool {
        strictly_ascending(keys_of(self.entries@))
    }

    /// The inputs of the set, in their order.
    pub closed spec fn inputs(&self) -> Seq<TransactionInput> {
        keys_of(self.entries@)
    }

    /// A set that holds nothing.
    pub fn new() -> (set: Self)
        ensures
            set@ == Map::<TransactionInput, TransactionOutput>::empty(),
            set.inputs().len() == 0,
    {
        let set = UtxoSet { entries: Vec::new() };
        assert(set@ =~= Map::<TransactionInput, TransactionOutput>::empty());
        set
    }

    /// The inputs of the set: in ascending order, each once.
    pub fn keys(&self) -> (keys: Vec<TransactionInput>)
        ensures
            keys@ == self.inputs(),
            strictly_ascending(keys@),
            forall|k: TransactionInput| keys@.contains(k) <==> self@.contains_key(k),
    {
        proof {
            use_type_invariant(self);
        }
        let mut keys: Vec<TransactionInput> = Vec::new();
        let mut i: usize = 0;
        while i < self.entries.len()
            invariant
                i <= self.entries@.len(),
                keys@ == keys_of(self.entries@).take(i as int),
            decreases self.entries@.len() - i,
        {
            keys.push(self.entries[i].0);
            assert(keys@ =~= keys_of(self.entries@).take(i + 1));
            i += 1;
        }
        assert(keys@ =~= keys_of(self.entries@));
        keys
    }

    /// How many inputs the set holds.
    pub fn len(&self) -> (n: usize)
        ensures
            n == self.inputs().len(),
    {
        self.entries.len()
    }

    /// The output that an input points to, where the set holds the input.
    pub fn get(&self, input: &TransactionInput) -> (found: Option<&TransactionOutput>)
        ensures
            found is Some <==> self@.contains_key(*input),
            found matches Some(output) ==> *output == self@[*input],
    {
        proof {
            use_type_invariant(self);
        }
        let ghost keys = keys_of(self.entries@);
        let mut i: usize = 0;
        while i < self.entries.len()
            invariant
                i <= self.entries@.len(),
                keys == keys_of(self.entries@),
                strictly_ascending(keys),
                forall|j: int| 0 <= j < i ==> keys[j] != *input,
            decreases self.entries@.len() - i,
        {
            if same_input(&self.entries[i].0, input) {
                proof {
                    lemma_map_of_entry(self.entries@, i as int);
                }
                return Some(&self.entries[i].1);
            }
            assert(keys[i as int] == self.entries@[i as int].0);
            i += 1;
        }
        assert(!keys.contains(*input));
        None
    }

    /// Puts an output under an input, in place of what stood there.
    pub fn insert(&mut self, input: TransactionInput, output: TransactionOutput)
        ensures
            final(self)@ == old(self)@.insert(input, output),
    {
        proof {
            use_type_invariant(&*self);
        }
        let ghost before = self.entries@;
        let ghost keys = keys_of(before);
        let mut entries: Vec<(TransactionInput, TransactionOutput)> = Vec::new();
        assert(keys_of(entries@) =~= Seq::empty());
        std::mem::swap(&mut self.entries, &mut entries);
        let (at, found) = entry_slot(&entries, &input);
        if found {
            entries[at] = (input, output);
            proof {
                let after = entries@;
                assert(keys_of(after) =~= keys);
                assert(keys[at as int] == input);
                assert forall|k: TransactionInput| map_of(after).contains_key(k) implies map_of(
                    after,
                )[k] == map_of(before).insert(input, output)[k] by {
                    let j = keys.index_of(k);
                    if k == input {
                        lemma_ascending_distinct(keys, j, at as int);
                    } else {
                        assert(after[j] == before[j]);
                    }
                }
                assert(map_of(after) =~= map_of(before).insert(input, output));
            }
        } else {
            entries.insert(at, (input, output));
            proof {
                let after = entries@;
                assert(keys_of(after) =~= keys.insert(at as int, input));
                lemma_insert_keeps_order(keys, at as int, input);
                lemma_input_before_irreflexive(input);
                assert(!keys.contains(input)) by {
                    if keys.contains(input) {
                        let j = choose|j: int| 0 <= j < keys.len() && keys[j] == input;
                        if j < at {
                            assert(input_before(keys[j], input));
                        } else if j > at {
                            assert(input_before(keys[at as int], keys[j]));
                            lemma_input_before_transitive(input, keys[at as int], keys[j]);
                        }
                    }
                }
                assert forall|k: TransactionInput|
                    map_of(after).contains_key(k) <==> map_of(before).insert(
                        input,
                        output,
                    ).contains_key(k) by {
                    lemma_insert_contains(keys, at as int, input, k);
                }
                assert forall|k: TransactionInput| map_of(after).contains_key(k) implies map_of(
                    after,
                )[k] == map_of(before).insert(input, output)[k] by {
                    let j = keys_of(after).index_of(k);
                    if k == input {
                        lemma_ascending_distinct(keys_of(after), j, at as int);
                    } else {
                        lemma_insert_contains(keys, at as int, input, k);
                        let i = keys.index_of(k);
                        if i < at {
                            assert(keys_of(after)[i] == k);
                            lemma_ascending_distinct(keys_of(after), j, i);
                        } else {
                            assert(keys_of(after)[i + 1] == k);
                            lemma_ascending_distinct(keys_of(after), j, i + 1);
                        }
                    }
                }
                assert(map_of(after) =~= map_of(before).insert(input, output));
            }
        }
        std::mem::swap(&mut self.entries, &mut entries);
    }
}

/// Where `input` belongs among entries: the first place whose input does not
/// come before it, and whether `input` itself stands there.
fn entry_slot(entries: &Vec<(TransactionInput, TransactionOutput)>, input: &TransactionInput) -> (slot:
    (usize, bool))
    ensures
        slot.0 <= entries@.len(),
        forall|j: int| 0 <= j < slot.0 ==> input_before(#[trigger] keys_of(entries@)[j], *input),
        slot.1 == (slot.0 < entries@.len() && keys_of(entries@)[slot.0 as int] == *input),
        slot.0 < entries@.len() && !slot.1 ==> input_before(
            *input,
            keys_of(entries@)[slot.0 as int],
        ),
{
    let ghost keys = keys_of(entries@);
    let mut i: usize = 0;
    while i < entries.len()
        invariant
            i <= entries@.len(),
            keys == keys_of(entries@),
            forall|j: int| 0 <= j < i ==> input_before(#[trigger] keys[j], *input),
        decreases entries@.len() - i,
    {
        assert(keys[i as int] == entries@[i as int].0);
        match place_of(&entries[i].0, input) {
            Place::Before => {},
            Place::Same => {
                return (i, true);
            },
            Place::After => {
                return (i, false);
            },
        }
        i += 1;
    }
    (i, false)
}

/// Whether two inputs are the same.
pub fn same_input(a: &TransactionInput, b: &TransactionInput) -> (same: bool)
    ensures
        same == (*a == *b),
{
    match place_of(a, b) {
        Place::Same => true,
        _ => false,
    }
}

/// What the resolution service answered about the transaction of an input:
/// its outputs, that it knows no such transaction, that the request failed,
/// or that its answer was no hexadecimal or could not be decoded.
#[derive(Debug, PartialEq, Eq)]
pub enum Lookup {
    Outputs(Vec<TransactionOutput>),
    NotFound,
    Transport(String),
    InvalidHex(HexError),
    Decoding(String),
}

/// Why an input could not be resolved.
#[derive(Clone, Debug, PartialEq, Eq)]
pub enum ResolutionFailure {
    /// The service knows no transaction of that id.
    TransactionNotFound,
    /// The transaction has only `available` outputs.
    OutputIndexOutOfRange { available: usize },
    /// The request failed.
    Transport(String),
    /// The answer was not bytes in hexadecimal.
    InvalidHex(HexError),
    /// The answer could not be decoded.
    Decoding(String),
}

/// An input that could not be resolved, and why.
#[derive(Clone, Debug, PartialEq, Eq)]
pub struct ResolutionError {
    pub input: TransactionInput,
    pub failure: ResolutionFailure,
}

impl ResolutionError {
    /// The error in words: the transaction and the output that were asked
    /// for, and what went wrong; for an index out of range also how many
    /// outputs the transaction has.
    pub open spec fn text(self) -> Seq<char> {
        let name = hex_text(self.input.transaction_id@);
        let index = decimal_text(self.input.index as nat);
        match self.failure {
            ResolutionFailure::TransactionNotFound => "Failed to fetch transaction "@ + name
                + " (output "@ + index + "): transaction not found"@,
            ResolutionFailure::OutputIndexOutOfRange { available } => "Invalid output index "@
                + index + " for transaction "@ + name + ". Transaction has "@ + decimal_text(
                available as nat,
            ) + " output(s)"@,
            ResolutionFailure::Transport(reason) => "Failed to fetch transaction "@ + name
                + " (output "@ + index + "): "@ + reason@,
            ResolutionFailure::InvalidHex(_) =>
                "Invalid CBOR hex from Blockfrost for transaction "@ + name + " (output "@ + index
                    + ")"@,
            ResolutionFailure::Decoding(reason) => "Failed to decode transaction CBOR for "@
                + name + " (output "@ + index + "): "@ + reason@,
        }
    }

    /// The error in words.
    pub fn message(&self) -> (out: String)
        ensures
            out@ == self.text(),
    {
        let name = encode(self.input.transaction_id.as_slice());
        match &self.failure {
            ResolutionFailure::TransactionNotFound => {
                let mut out = String::from_str("Failed to fetch transaction ");
                out.append(name.as_str());
                out.append(" (output ");
                push_decimal(&mut out, self.input.index as u128);
                out.append("): transaction not found");
                out
            },
            ResolutionFailure::OutputIndexOutOfRange { available } => {
                let mut out = String::from_str("Invalid output index ");
                push_decimal(&mut out, self.input.index as u128);
                out.append(" for transaction ");
                out.append(name.as_str());
                out.append(". Transaction has ");
                push_decimal(&mut out, *available as u128);
                out.append(" output(s)");
                out
            },
            ResolutionFailure::Transport(reason) => {
                let mut out = String::from_str("Failed to fetch transaction ");
                out.append(name.as_str());
                out.append(" (output ");
                push_decimal(&mut out, self.input.index as u128);
                out.append("): ");
                out.append(reason.as_str());
                out
            },
            ResolutionFailure::InvalidHex(_) => {
                let mut out = String::from_str("Invalid CBOR hex from Blockfrost for transaction ");
                out.append(name.as_str());
                out.append(" (output ");
                push_decimal(&mut out, self.input.index as u128);
                out.append(")");
                out
            },
            ResolutionFailure::Decoding(reason) => {
                let mut out = String::from_str("Failed to decode transaction CBOR for ");
                out.append(name.as_str());
                out.append(" (output ");
                push_decimal(&mut out, self.input.index as u128);
                out.append("): ");
                out.append(reason.as_str());
                out
            },
        }
    }
}

/// The output at an index of the outputs of a transaction, or how many
/// outputs there are where the index is out of range.
pub open spec fn picked<T>(outputs: Seq<T>, index: u64) -> Result<T, usize> {
    if index < outputs.len() {
        Ok(outputs[index as int])
    } else {
        Err(outputs.len() as usize)
    }
}

/// The output at an index of the outputs of a transaction, or how many
/// outputs there are where the index is out of range.
pub fn output_at<T>(outputs: Vec<T>, index: u64) -> (outcome: Result<T, usize>)
    ensures
        outcome == picked(outputs@, index),
{
    let mut outputs = outputs;
    let available = outputs.len();
    if index < available as u64 {
        Ok(outputs.remove(index as usize))
    } else {
        Err(available)
    }
}

/// The output that an input points to, given what the service answered about
/// its transaction.
pub open spec fn resolved(input: TransactionInput, lookup: Lookup) -> Result<
    TransactionOutput,
    ResolutionError,
> {
    match lookup {
        Lookup::Outputs(outputs) => match picked(outputs@, input.index) {
            Ok(output) => Ok(output),
            Err(available) => Err(
                ResolutionError {
                    input,
                    failure: ResolutionFailure::OutputIndexOutOfRange { available },
                },
            ),
        },
        Lookup::NotFound => Err(
            ResolutionError { input, failure: ResolutionFailure::TransactionNotFound },
        ),
        Lookup::Transport(reason) => Err(
            ResolutionError { input, failure: ResolutionFailure::Transport(reason) },
        ),
        Lookup::InvalidHex(error) => Err(
            ResolutionError { input, failure: ResolutionFailure::InvalidHex(error) },
        ),
        Lookup::Decoding(reason) => Err(
            ResolutionError { input, failure: ResolutionFailure::Decoding(reason) },
        ),
    }
}

/// The output that an input points to, given what the service answered about
/// its transaction.
pub fn resolve(input: TransactionInput, lookup: Lookup) -> (outcome: Result<
    TransactionOutput,
    ResolutionError,
>)
    ensures
        outcome == resolved(input, lookup),
{
    match lookup {
        Lookup::Outputs(outputs) => match output_at(outputs, input.index) {
            Ok(output) => Ok(output),
            Err(available) => Err(
                ResolutionError {
                    input,
                    failure: ResolutionFailure::OutputIndexOutOfRange { available },
                },
            ),
        },
        Lookup::NotFound => Err(
            ResolutionError { input, failure: ResolutionFailure::TransactionNotFound },
        ),
        Lookup::Transport(reason) => Err(
            ResolutionError { input, failure: ResolutionFailure::Transport(reason) },
        ),
        Lookup::InvalidHex(error) => Err(
            ResolutionError { input, failure: ResolutionFailure::InvalidHex(error) },
        ),
        Lookup::Decoding(reason) => Err(
            ResolutionError { input, failure: ResolutionFailure::Decoding(reason) },
        ),
    }
}

/// Whether an input cannot be resolved, given what the service answered about
/// its transaction.
pub fn fails(input: &TransactionInput, lookup: &Lookup) -> (failed: bool)
    ensures
        failed == resolved(*input, *lookup) is Err,
{
    match lookup {
        Lookup::Outputs(outputs) => input.index >= outputs.len() as u64,
        _ => true,
    }
}

/// The inputs that were asked for.
pub open spec fn requested(requests: Seq<(TransactionInput, Lookup)>) -> Set<TransactionInput> {
    Set::new(|k: TransactionInput| exists|i: int| 0 <= i < requests.len() && requests[i].0 == k)
}

/// Whether the request at place `i` is the first that fails.
pub open spec fn first_failure_at(requests: Seq<(TransactionInput, Lookup)>, i: int) -> bool {
    &&& 0 <= i < requests.len()
    &&& resolved(requests[i].0, requests[i].1) is Err
    &&& forall|j: int| 0 <= j < i ==> resolved(requests[j].0, requests[j].1) is Ok
}

/// Whether each request succeeds.
pub open spec fn all_resolve(requests: Seq<(TransactionInput, Lookup)>) -> bool {
    forall|i: int| 0 <= i < requests.len() ==> resolved(requests[i].0, requests[i].1) is Ok
}

/// The map that takes each requested input to its output; where an input was
/// asked for twice, to the output of the later request.
pub open spec fn gathered(requests: Seq<(TransactionInput, Lookup)>) -> Map<
    TransactionInput,
    TransactionOutput,
>
    decreases requests.len(),
{
    if requests.len() == 0 {
        Map::empty()
    } else {
        gathered(requests.drop_last()).insert(
            requests.last().0,
            resolved(requests.last().0, requests.last().1)->Ok_0,
        )
    }
}

/// The gathered map holds the requested inputs and no others.
pub proof fn lemma_gathered_inputs(requests: Seq<(TransactionInput, Lookup)>)
    ensures
        gathered(requests).dom() == requested(requests),
    decreases requests.len(),
{
    if requests.len() == 0 {
        assert(gathered(requests).dom() =~= requested(requests));
    } else {
        let front = requests.drop_last();
        lemma_gathered_inputs(front);
        assert forall|k: TransactionInput|
            gathered(requests).dom().contains(k) <==> requested(requests).contains(k) by {
            if requested(front).contains(k) {
                let i = choose|i: int| 0 <= i < front.len() && front[i].0 == k;
                assert(requests[i].0 == k);
            }
            if requested(requests).contains(k) {
                let i = choose|i: int| 0 <= i < requests.len() && requests[i].0 == k;
                if i < front.len() {
                    assert(front[i].0 == k);
                }
            }
            if k == requests.last().0 {
                assert(requests[requests.len() - 1].0 == k);
            }
        }
        assert(gathered(requests).dom() =~= requested(requests));
    }
}

/// Where one request fails, some request is the first that fails.
pub proof fn lemma_some_failure_is_first(requests: Seq<(TransactionInput, Lookup)>, i: int)
    requires
        0 <= i < requests.len(),
        resolved(requests[i].0, requests[i].1) is Err,
    ensures
        !all_resolve(requests),
        exists|k: int| 0 <= k <= i && first_failure_at(requests, k),
    decreases i,
{
    if forall|j: int| 0 <= j < i ==> resolved(requests[j].0, requests[j].1) is Ok {
        assert(first_failure_at(requests, i));
    } else {
        let j = choose|j: int| 0 <= j < i && !(resolved(requests[j].0, requests[j].1) is Ok);
        lemma_some_failure_is_first(requests, j);
    }
}

/// Gathers the outputs of a batch of lookups into one set.
///
/// Where each request succeeds, the set holds exactly the requested inputs,
/// each with its output. Where one fails, the whole fails with the error of
/// the first request that fails, and there is no set.
pub fn gather(requests: Vec<(TransactionInput, Lookup)>) -> (outcome: Result<
    UtxoSet,
    ResolutionError,
>)
    ensures
        outcome is Ok <==> all_resolve(requests@),
        outcome matches Ok(set) ==> set@ == gathered(requests@) && set@.dom() == requested(
            requests@,
        ),
        outcome matches Err(error) ==> exists|i: int|
            first_failure_at(requests@, i) && resolved(requests@[i].0, requests@[i].1) == Err::<
                TransactionOutput,
                ResolutionError,
            >(error),
{
    let mut set = UtxoSet::new();
    let ghost all = requests@;
    for request in it: requests
        invariant
            it.seq() == all,
            set@ == gathered(all.take(it.index() as int)),
            forall|j: int| 0 <= j < it.index() ==> resolved(all[j].0, all[j].1) is Ok,
    {
        let ghost i = it.index() as int;
        let (input, lookup) = request;
        match resolve(input, lookup) {
            Ok(output) => {
                set.insert(input, output);
                assert(all.take(i + 1).drop_last() =~= all.take(i));
                assert(all.take(i + 1).last() == all[i]);
            },
            Err(error) => {
                assert(first_failure_at(all, i));
                return Err(error);
            },
        }
    }
    proof {
        assert(all.take(all.len() as int) =~= all);
        lemma_gathered_inputs(all);
    }
    Ok(set)
}

} // verus!
