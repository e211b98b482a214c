use nawi::blockfrost::{Blockfrost, BlockfrostConfig, TipError};
use nawi::inputs::{collect_all_inputs, distinct_inputs, place_of, slot_of, Place};
use nawi::ledger::{
    Address, AssetName, CurrencySymbol, DatumOption, TransactionInput, TransactionOutput, Value,
};
use nawi::base16::HexError;
use nawi::resolver::{
    fails, gather, output_at, resolve, same_input, Lookup, ResolutionError, ResolutionFailure,
    UtxoSet,
};

fn input(id: u8, index: u64) -> TransactionInput {
    TransactionInput { transaction_id: [id; 32], index }
}

fn output(lovelace: u64) -> TransactionOutput {
    TransactionOutput {
        address: Address::Byron,
        value: Value(vec![(CurrencySymbol::Lovelace, vec![(AssetName(vec![]), lovelace)])]),
        datum: DatumOption::Absent,
        script: None,
    }
}

#[test]
fn inputs_are_ordered_by_id_then_index() {
    assert_eq!(place_of(&input(1, 0), &input(2, 0)), Place::Before);
    assert_eq!(place_of(&input(2, 0), &input(1, 9)), Place::After);
    assert_eq!(place_of(&input(1, 0), &input(1, 1)), Place::Before);
    assert_eq!(place_of(&input(1, 1), &input(1, 0)), Place::After);
    assert_eq!(place_of(&input(1, 1), &input(1, 1)), Place::Same);
    let mut low = input(0, 0);
    low.transaction_id[31] = 1;
    let mut high = input(0, 0);
    high.transaction_id[0] = 1;
    assert_eq!(place_of(&low, &high), Place::Before);
    assert!(same_input(&low, &low));
    assert!(!same_input(&low, &high));
}

#[test]
fn slot_of_finds_where_an_input_belongs() {
    let keys = vec![input(1, 0), input(3, 0), input(5, 0)];
    assert_eq!(slot_of(&keys, &input(0, 0)), (0, false));
    assert_eq!(slot_of(&keys, &input(3, 0)), (1, true));
    assert_eq!(slot_of(&keys, &input(4, 0)), (2, false));
    assert_eq!(slot_of(&keys, &input(9, 0)), (3, false));
}

#[test]
fn distinct_inputs_are_sorted_and_unique() {
    let inputs = vec![input(3, 0), input(1, 1), input(3, 0), input(1, 0), input(2, 5)];
    assert_eq!(
        distinct_inputs(&inputs),
        vec![input(1, 0), input(1, 1), input(2, 5), input(3, 0)]
    );
    assert_eq!(distinct_inputs(&vec![]), vec![]);
}

#[test]
fn all_inputs_are_spent_then_referenced() {
    let spent = vec![input(2, 0), input(1, 0)];
    let referenced = vec![input(3, 0), input(2, 0)];
    assert_eq!(
        collect_all_inputs(&spent, &referenced),
        vec![input(2, 0), input(1, 0), input(3, 0), input(2, 0)]
    );
    assert_eq!(collect_all_inputs(&vec![], &vec![]), vec![]);
}

#[test]
fn utxo_set_keeps_the_order_of_inputs() {
    let mut set = UtxoSet::new();
    assert_eq!(set.len(), 0);
    set.insert(input(2, 0), output(20));
    set.insert(input(1, 0), output(10));
    set.insert(input(3, 0), output(30));
    assert_eq!(set.keys(), vec![input(1, 0), input(2, 0), input(3, 0)]);
    assert_eq!(set.len(), 3);
    assert_eq!(set.get(&input(2, 0)), Some(&output(20)));
    assert_eq!(set.get(&input(4, 0)), None);
}

#[test]
fn utxo_set_replaces_what_stood_under_an_input() {
    let mut set = UtxoSet::new();
    set.insert(input(1, 0), output(10));
    set.insert(input(1, 0), output(11));
    assert_eq!(set.len(), 1);
    assert_eq!(set.get(&input(1, 0)), Some(&output(11)));
}

#[test]
fn resolve_picks_the_output_at_the_index() {
    assert_eq!(
        resolve(input(1, 1), Lookup::Outputs(vec![output(1), output(2), output(3)])),
        Ok(output(2))
    );
}

#[test]
fn resolve_reports_an_index_out_of_range_with_the_count() {
    let error = resolve(input(1, 5), Lookup::Outputs(vec![output(1), output(2)])).unwrap_err();
    assert_eq!(
        error,
        ResolutionError {
            input: input(1, 5),
            failure: ResolutionFailure::OutputIndexOutOfRange { available: 2 },
        }
    );
    assert_eq!(
        error.message(),
        format!(
            "Invalid output index 5 for transaction {}. Transaction has 2 output(s)",
            "01".repeat(32)
        )
    );
}

#[test]
fn resolve_tells_not_found_from_other_failures() {
    let missing = resolve(input(7, 0), Lookup::NotFound).unwrap_err();
    assert_eq!(missing.failure, ResolutionFailure::TransactionNotFound);
    assert_eq!(
        missing.message(),
        format!("Failed to fetch transaction {} (output 0): transaction not found", "07".repeat(32))
    );
    let transport = resolve(input(7, 4), Lookup::Transport("timed out".to_string())).unwrap_err();
    assert_eq!(transport.failure, ResolutionFailure::Transport("timed out".to_string()));
    assert_eq!(
        transport.message(),
        format!("Failed to fetch transaction {} (output 4): timed out", "07".repeat(32))
    );
    let decoding = resolve(input(7, 2), Lookup::Decoding("bad bytes".to_string())).unwrap_err();
    assert_eq!(decoding.failure, ResolutionFailure::Decoding("bad bytes".to_string()));
    assert_eq!(
        decoding.message(),
        format!("Failed to decode transaction CBOR for {} (output 2): bad bytes", "07".repeat(32))
    );
    let hexadecimal = resolve(input(7, 1), Lookup::InvalidHex(HexError::OddLength)).unwrap_err();
    assert_eq!(hexadecimal.failure, ResolutionFailure::InvalidHex(HexError::OddLength));
    assert_eq!(
        hexadecimal.message(),
        format!("Invalid CBOR hex from Blockfrost for transaction {} (output 1)", "07".repeat(32))
    );
}

#[test]
fn output_at_picks_or_counts() {
    assert_eq!(output_at(vec![10, 20, 30], 0), Ok(10));
    assert_eq!(output_at(vec![10, 20, 30], 2), Ok(30));
    assert_eq!(output_at(vec![10, 20, 30], 3), Err(3));
    assert_eq!(output_at(Vec::<u8>::new(), 0), Err(0));
    assert_eq!(output_at(vec![1], u64::MAX), Err(1));
}

#[test]
fn fails_tells_which_lookups_resolve() {
    assert!(!fails(&input(1, 1), &Lookup::Outputs(vec![output(1), output(2)])));
    assert!(fails(&input(1, 2), &Lookup::Outputs(vec![output(1), output(2)])));
    assert!(fails(&input(1, 0), &Lookup::Outputs(vec![])));
    assert!(fails(&input(1, 0), &Lookup::NotFound));
    assert!(fails(&input(1, 0), &Lookup::Transport(String::new())));
    assert!(fails(&input(1, 0), &Lookup::InvalidHex(HexError::OddLength)));
    assert!(fails(&input(1, 0), &Lookup::Decoding(String::new())));
}

#[test]
fn the_answer_of_the_service_is_read_as_hexadecimal() {
    assert_eq!(Blockfrost::transaction_bytes("84A400"), Ok(vec![0x84, 0xa4, 0x00]));
    assert_eq!(Blockfrost::transaction_bytes(""), Ok(vec![]));
    assert_eq!(Blockfrost::transaction_bytes("84a"), Err(HexError::OddLength));
    assert_eq!(
        Blockfrost::transaction_bytes("84 4"),
        Err(HexError::InvalidHexCharacter { index: 2 })
    );
    assert_eq!(
        Blockfrost::transaction_bytes(" 84a400"),
        Err(HexError::OddLength)
    );
}

#[test]
fn gather_holds_exactly_the_requested_inputs() {
    let requests = vec![
        (input(2, 1), Lookup::Outputs(vec![output(1), output(2)])),
        (input(1, 0), Lookup::Outputs(vec![output(3)])),
        (input(3, 2), Lookup::Outputs(vec![output(4), output(5), output(6)])),
    ];
    let set = gather(requests).unwrap();
    assert_eq!(set.keys(), vec![input(1, 0), input(2, 1), input(3, 2)]);
    assert_eq!(set.get(&input(2, 1)), Some(&output(2)));
    assert_eq!(set.get(&input(1, 0)), Some(&output(3)));
    assert_eq!(set.get(&input(3, 2)), Some(&output(6)));
    assert_eq!(set.get(&input(2, 0)), None);
}

#[test]
fn gather_of_nothing_is_empty() {
    let set = gather(vec![]).unwrap();
    assert_eq!(set.len(), 0);
}

#[test]
fn gather_treats_a_repeated_input_as_one() {
    let requests = vec![
        (input(1, 0), Lookup::Outputs(vec![output(3)])),
        (input(1, 0), Lookup::Outputs(vec![output(3)])),
    ];
    let set = gather(requests).unwrap();
    assert_eq!(set.keys(), vec![input(1, 0)]);
}

#[test]
fn gather_fails_as_a_whole_when_one_lookup_fails() {
    let requests = vec![
        (input(1, 0), Lookup::Outputs(vec![output(3)])),
        (input(2, 0), Lookup::Transport("refused".to_string())),
        (input(3, 0), Lookup::Outputs(vec![output(4)])),
    ];
    assert_eq!(
        gather(requests),
        Err(ResolutionError {
            input: input(2, 0),
            failure: ResolutionFailure::Transport("refused".to_string()),
        })
    );
}

#[test]
fn gather_fails_with_the_first_failure() {
    let requests = vec![
        (input(1, 4), Lookup::Outputs(vec![output(3)])),
        (input(2, 0), Lookup::NotFound),
    ];
    assert_eq!(
        gather(requests),
        Err(ResolutionError {
            input: input(1, 4),
            failure: ResolutionFailure::OutputIndexOutOfRange { available: 1 },
        })
    );
}

#[test]
fn an_input_that_is_not_found_aborts_the_run_and_is_named() {
    let requests = vec![
        (input(1, 0), Lookup::Outputs(vec![output(3)])),
        (input(9, 0), Lookup::NotFound),
    ];
    let error = gather(requests).unwrap_err();
    assert_eq!(error.input, input(9, 0));
    assert_eq!(error.failure, ResolutionFailure::TransactionNotFound);
    assert!(error.message().contains(&"09".repeat(32)));
}

#[test]
fn client_keeps_the_key_of_its_settings() {
    let config = BlockfrostConfig { key: "mainnetABC".to_string() };
    let client = Blockfrost::new(&config);
    assert_eq!(client.key(), "mainnetABC");
}

#[test]
fn transaction_is_asked_for_by_its_id_in_hexadecimal() {
    let mut asked = input(0, 3);
    asked.transaction_id[0] = 0xde;
    asked.transaction_id[31] = 0x0f;
    assert_eq!(
        Blockfrost::transaction_hash(&asked),
        format!("de{}0f", "00".repeat(30))
    );
}

#[test]
fn tip_is_the_slot_of_the_latest_block() {
    assert_eq!(Blockfrost::tip_slot(Some(5)), Ok(5));
    assert_eq!(Blockfrost::tip_slot(Some(0)), Ok(0));
    assert_eq!(Blockfrost::tip_slot(Some(-1)), Ok(u64::MAX));
    assert_eq!(Blockfrost::tip_slot(Some(i32::MIN)), Ok(i32::MIN as u64));
    assert_eq!(Blockfrost::tip_slot(None), Err(TipError::NoTip));
    assert_eq!(TipError::NoTip.message(), "no tip found for latest block");
}
