use nawi::context::{
    build_script_context, reconstruct, resolve_inputs, BuildError, ContextError,
    InputField, OutputFormat, PlutusVersion, ScriptContext,
};
use nawi::data::Data;
use nawi::datum::{extract_datum, DatumError, SpendingDatum};
use nawi::formatter::{format_script_info, ReadableFormatter};
use nawi::ledger::{
    Address, AssetName, Certificate, CurrencySymbol, DatumOption, ExUnits, Mint, Network,
    Redeemer, RedeemerTag, ShelleyDelegationPart, StakeAddress, StakeCredential, TimeRange,
    Transaction, TransactionInput, TransactionOutput, Value, Withdrawals,
};
use nawi::redeemers::RedeemerError;
use nawi::resolver::UtxoSet;

fn input(id: u8, index: u64) -> TransactionInput {
    TransactionInput { transaction_id: [id; 32], index }
}

fn locked_output(lovelace: u64, datum: DatumOption) -> TransactionOutput {
    TransactionOutput {
        address: Address::Shelley {
            payment: StakeCredential::ScriptHash([0x02; 28]),
            delegation: ShelleyDelegationPart::Null,
        },
        value: Value(vec![(CurrencySymbol::Lovelace, vec![(AssetName(vec![]), lovelace)])]),
        datum,
        script: None,
    }
}

fn redeemer(tag: RedeemerTag, index: u32) -> Redeemer {
    Redeemer { tag, index, data: Data::Int(1), ex_units: ExUnits { mem: 100, steps: 200 } }
}

fn empty_constr() -> Data {
    Data::Constr { tag: 0, fields: vec![] }
}

fn transaction(inputs: Vec<TransactionInput>, redeemers: Option<Vec<Redeemer>>) -> Transaction {
    Transaction {
        id: [0xaa; 32],
        inputs,
        reference_inputs: vec![],
        outputs: vec![],
        fee: 170000,
        mint: Mint(vec![]),
        certificates: vec![],
        withdrawals: Withdrawals(vec![]),
        valid_range: TimeRange { lower_bound: None, upper_bound: None },
        signatories: vec![],
        redeemers,
    }
}

fn one_spend() -> (Transaction, UtxoSet) {
    let tx = transaction(vec![input(1, 0)], Some(vec![redeemer(RedeemerTag::Spend, 0)]));
    let mut utxos = UtxoSet::new();
    utxos.insert(input(1, 0), locked_output(2000000, DatumOption::Inline(empty_constr())));
    (tx, utxos)
}

fn scenario_report(version: &str) -> String {
    let rule = "=".repeat(80);
    let mut expected = String::new();
    expected.push('\n');
    expected.push_str(&rule);
    expected.push_str(&format!("\nScript Context (Plutus {})\n", version));
    expected.push_str(&rule);
    expected.push_str("\n\nTransaction Info:\n");
    expected.push_str(&format!("  Transaction ID: {}\n", "aa".repeat(32)));
    expected.push_str("\n  Inputs: 1 input(s)\n");
    expected.push_str(&format!("    [0] {}#0\n", "01".repeat(32)));
    expected.push_str(&format!(
        "        Address: Shelley {{ payment: Script({}), stake: Null }}\n",
        "02".repeat(28)
    ));
    expected.push_str("        Value:\n");
    expected.push_str("          ADA: 2000000 lovelace\n");
    expected.push_str("        Datum: Inline(Constr(0, []))\n");
    expected.push_str("        Script: None\n");
    expected.push_str("\n  Outputs: 0 output(s)\n");
    expected.push_str("\n  Fee: 170000 lovelace\n");
    expected.push_str("\n  Minted Assets:\n");
    expected.push_str("    (none)\n");
    expected.push_str("\n  Certificates: 0 certificate(s)\n");
    expected.push_str("\n  Withdrawals: 0 withdrawal(s)\n");
    expected.push_str("    (none)\n");
    expected.push_str("\n  Validity Range:\n");
    expected.push_str("    Lower: ∞\n");
    expected.push_str("    Upper: ∞\n");
    expected.push_str("\n  Required Signers: 0 signer(s)\n");
    if version == "V3" {
        expected.push_str("\n  Redeemers: 1 redeemer(s)\n");
        expected.push_str("    [0] Spend\n");
        expected.push_str("        Index: 0\n");
        expected.push_str("        Data: Int(1)\n");
        expected.push_str("        Ex Units: 200 steps, 100 mem\n");
    } else {
        expected.push_str("\n  Redeemers: 0 redeemer(s)\n");
    }
    expected.push_str("\nRedeemer:\n  Purpose: Spend\n  Index: 0\n\nScript Info:\n");
    expected.push_str(&format!("  Type: Spending\n  Input: {}#0\n", "01".repeat(32)));
    expected.push('\n');
    expected.push_str(&rule);
    expected.push('\n');
    expected
}

#[test]
fn scenario_a_one_spend_redeemer_with_inline_datum() {
    let (tx, utxos) = one_spend();
    let context = reconstruct(PlutusVersion::PlutusV3, &tx, &utxos, 0).unwrap();
    assert_eq!(context.version, PlutusVersion::PlutusV3);
    assert_eq!(context.datum, SpendingDatum::Inline(&empty_constr()));
    assert_eq!(context.tx_info.redeemers.0.len(), 1);
    let report = context.format_readable();
    assert_eq!(report, scenario_report("V3"));
    assert!(report.contains("  Redeemers: 1 redeemer(s)\n    [0] Spend\n"));
    assert_eq!(report.matches("] Spend\n").count(), 1);
    assert!(report.contains("        Datum: Inline(Constr(0, []))\n"));
}

#[test]
fn scenario_b_version_two_is_not_implemented() {
    let (tx, utxos) = one_spend();
    let error = reconstruct(PlutusVersion::PlutusV2, &tx, &utxos, 0).unwrap_err();
    assert_eq!(
        error,
        ContextError::Build(BuildError::NotImplemented { version: PlutusVersion::PlutusV2 })
    );
    assert_eq!(error.message(), "PlutusV2 is not yet implemented");
    let chosen = redeemer(RedeemerTag::Spend, 0);
    assert_eq!(
        build_script_context(PlutusVersion::PlutusV2, &tx, &utxos, &chosen),
        Err(BuildError::NotImplemented { version: PlutusVersion::PlutusV2 })
    );
}

#[test]
fn scenario_b_version_two_fails_before_anything_is_looked_up() {
    let tx = transaction(vec![input(1, 0)], Some(vec![redeemer(RedeemerTag::Spend, 0)]));
    let utxos = UtxoSet::new();
    let chosen = redeemer(RedeemerTag::Spend, 0);
    assert_eq!(
        build_script_context(PlutusVersion::PlutusV2, &tx, &utxos, &chosen),
        Err(BuildError::NotImplemented { version: PlutusVersion::PlutusV2 })
    );
}

#[test]
fn scenario_c_index_five_of_two_redeemers() {
    let tx = transaction(
        vec![input(1, 0)],
        Some(vec![redeemer(RedeemerTag::Spend, 0), redeemer(RedeemerTag::Mint, 0)]),
    );
    let mut utxos = UtxoSet::new();
    utxos.insert(input(1, 0), locked_output(2000000, DatumOption::Absent));
    let error = reconstruct(PlutusVersion::PlutusV3, &tx, &utxos, 5).unwrap_err();
    assert_eq!(
        error,
        ContextError::Redeemer(RedeemerError::IndexOutOfBounds { requested: 5, available: 2 })
    );
    assert_eq!(error.message(), "Invalid redeemer index 5. Transaction has 2 redeemer(s)");
}

#[test]
fn a_transaction_without_redeemers_has_no_context() {
    let tx = transaction(vec![input(1, 0)], None);
    let utxos = UtxoSet::new();
    assert_eq!(
        reconstruct(PlutusVersion::PlutusV3, &tx, &utxos, 0),
        Err(ContextError::Redeemer(RedeemerError::NoRedeemers))
    );
    let empty = transaction(vec![input(1, 0)], Some(vec![]));
    for index in [0, 1, 5] {
        assert_eq!(
            reconstruct(PlutusVersion::PlutusV3, &empty, &utxos, index),
            Err(ContextError::Redeemer(RedeemerError::NoRedeemers))
        );
    }
}

#[test]
fn version_one_shows_no_reference_inputs_no_redeemers_and_no_datum() {
    let (mut tx, mut utxos) = one_spend();
    tx.reference_inputs = vec![input(5, 0)];
    utxos.insert(input(5, 0), locked_output(1, DatumOption::Absent));
    let context = reconstruct(PlutusVersion::PlutusV1, &tx, &utxos, 0).unwrap();
    assert_eq!(context.version, PlutusVersion::PlutusV1);
    assert_eq!(context.datum, SpendingDatum::NotApplicable);
    assert!(context.tx_info.reference_inputs.is_empty());
    assert!(context.tx_info.redeemers.0.is_empty());
    assert_eq!(context.format_readable(), scenario_report("V1"));
}

#[test]
fn version_one_does_not_need_the_reference_inputs() {
    let (mut tx, utxos) = one_spend();
    tx.reference_inputs = vec![input(5, 0)];
    assert!(reconstruct(PlutusVersion::PlutusV1, &tx, &utxos, 0).is_ok());
    assert_eq!(
        reconstruct(PlutusVersion::PlutusV3, &tx, &utxos, 0),
        Err(ContextError::Build(BuildError::MissingInput {
            version: PlutusVersion::PlutusV3,
            field: InputField::ReferenceInputs,
            input: input(5, 0),
        }))
    );
}

#[test]
fn inputs_show_in_ascending_order_with_their_outputs() {
    let tx = transaction(
        vec![input(3, 0), input(1, 1), input(1, 0)],
        Some(vec![redeemer(RedeemerTag::Mint, 0)]),
    );
    let mut utxos = UtxoSet::new();
    utxos.insert(input(3, 0), locked_output(30, DatumOption::Absent));
    utxos.insert(input(1, 0), locked_output(10, DatumOption::Absent));
    utxos.insert(input(1, 1), locked_output(11, DatumOption::Absent));
    utxos.insert(input(9, 9), locked_output(99, DatumOption::Absent));
    let context = reconstruct(PlutusVersion::PlutusV3, &tx, &utxos, 0).unwrap();
    let shown: Vec<TransactionInput> =
        context.tx_info.inputs.iter().map(|resolved| resolved.input).collect();
    assert_eq!(shown, vec![input(1, 0), input(1, 1), input(3, 0)]);
    assert_eq!(context.tx_info.inputs[0].output, &locked_output(10, DatumOption::Absent));
    assert_eq!(context.tx_info.inputs[1].output, &locked_output(11, DatumOption::Absent));
    assert_eq!(context.tx_info.inputs[2].output, &locked_output(30, DatumOption::Absent));
    assert_eq!(context.datum, SpendingDatum::NotApplicable);
}

#[test]
fn a_missing_input_is_named_with_version_and_field() {
    let tx = transaction(
        vec![input(3, 0), input(2, 0), input(1, 0)],
        Some(vec![redeemer(RedeemerTag::Mint, 0)]),
    );
    let mut utxos = UtxoSet::new();
    utxos.insert(input(1, 0), locked_output(10, DatumOption::Absent));
    let error = build_script_context(
        PlutusVersion::PlutusV3,
        &tx,
        &utxos,
        &redeemer(RedeemerTag::Mint, 0),
    )
    .unwrap_err();
    assert_eq!(
        error,
        BuildError::MissingInput {
            version: PlutusVersion::PlutusV3,
            field: InputField::Inputs,
            input: input(2, 0),
        }
    );
    assert_eq!(
        error.message(),
        format!("Failed to construct PlutusV3 script context: missing input {}#0", "02".repeat(32))
    );
    let reference = BuildError::MissingInput {
        version: PlutusVersion::PlutusV1,
        field: InputField::ReferenceInputs,
        input: input(4, 7),
    };
    assert_eq!(
        reference.message(),
        format!(
            "Failed to construct PlutusV1 script context: missing reference input {}#7",
            "04".repeat(32)
        )
    );
}

#[test]
fn resolve_inputs_reports_the_first_missing_in_order() {
    let mut utxos = UtxoSet::new();
    utxos.insert(input(2, 0), locked_output(10, DatumOption::Absent));
    assert_eq!(
        resolve_inputs(&vec![input(5, 0), input(2, 0), input(4, 0)], &utxos),
        Err(input(4, 0))
    );
    let found = resolve_inputs(&vec![input(2, 0), input(2, 0)], &utxos).unwrap();
    assert_eq!(found.len(), 1);
    assert_eq!(found[0].input, input(2, 0));
}

#[test]
fn a_redeemer_that_the_transaction_lacks_is_refused() {
    let (tx, utxos) = one_spend();
    let stranger = redeemer(RedeemerTag::Mint, 3);
    let error =
        build_script_context(PlutusVersion::PlutusV3, &tx, &utxos, &stranger).unwrap_err();
    assert_eq!(
        error,
        BuildError::UnknownRedeemer {
            version: PlutusVersion::PlutusV3,
            tag: RedeemerTag::Mint,
            index: 3,
        }
    );
    assert_eq!(
        error.message(),
        "Failed to construct PlutusV3 script context: no redeemer Mint 3"
    );
}

#[test]
fn datum_errors_come_before_input_errors() {
    let tx = transaction(
        vec![input(3, 0), input(2, 0), input(1, 0)],
        Some(vec![redeemer(RedeemerTag::Spend, 2)]),
    );
    let mut utxos = UtxoSet::new();
    utxos.insert(input(1, 0), locked_output(10, DatumOption::Absent));
    assert_eq!(
        reconstruct(PlutusVersion::PlutusV3, &tx, &utxos, 0),
        Err(ContextError::Build(BuildError::Datum(DatumError::MissingUtxo {
            input: input(3, 0),
        })))
    );
    assert_eq!(
        reconstruct(PlutusVersion::PlutusV1, &tx, &utxos, 0),
        Err(ContextError::Build(BuildError::MissingInput {
            version: PlutusVersion::PlutusV1,
            field: InputField::Inputs,
            input: input(2, 0),
        }))
    );
}

#[test]
fn the_datum_is_that_of_the_input_which_the_report_names() {
    let tx = transaction(
        vec![input(3, 0), input(1, 0)],
        Some(vec![redeemer(RedeemerTag::Spend, 0)]),
    );
    let mut utxos = UtxoSet::new();
    utxos.insert(input(1, 0), locked_output(1, DatumOption::Hash([7; 32])));
    utxos.insert(input(3, 0), locked_output(3, DatumOption::Inline(empty_constr())));
    let context = reconstruct(PlutusVersion::PlutusV3, &tx, &utxos, 0).unwrap();
    assert_eq!(context.tx_info.inputs[0].input, input(1, 0));
    assert_eq!(context.datum, SpendingDatum::HashBytes(vec![7; 32]));
    assert_eq!(
        format_script_info(&context),
        format!("  Type: Spending\n  Input: {}#0\n", "01".repeat(32))
    );
    let second = transaction(
        vec![input(3, 0), input(1, 0)],
        Some(vec![redeemer(RedeemerTag::Spend, 1)]),
    );
    let context = reconstruct(PlutusVersion::PlutusV3, &second, &utxos, 0).unwrap();
    assert_eq!(context.datum, SpendingDatum::Inline(&empty_constr()));
    assert_eq!(
        format_script_info(&context),
        format!("  Type: Spending\n  Input: {}#0\n", "03".repeat(32))
    );
}

#[test]
fn a_spend_index_counts_each_input_once() {
    let tx = transaction(
        vec![input(1, 0), input(1, 0), input(2, 0)],
        Some(vec![redeemer(RedeemerTag::Spend, 2)]),
    );
    let mut utxos = UtxoSet::new();
    utxos.insert(input(1, 0), locked_output(1, DatumOption::Absent));
    utxos.insert(input(2, 0), locked_output(2, DatumOption::Absent));
    assert_eq!(
        reconstruct(PlutusVersion::PlutusV3, &tx, &utxos, 0),
        Err(ContextError::Build(BuildError::Datum(DatumError::InvalidSpendIndex {
            index: 2,
            available: 2,
        })))
    );
}

#[test]
fn datum_is_not_applicable_unless_the_redeemer_spends() {
    let (tx, utxos) = one_spend();
    for tag in [
        RedeemerTag::Mint,
        RedeemerTag::Cert,
        RedeemerTag::Reward,
        RedeemerTag::Vote,
        RedeemerTag::Propose,
    ] {
        assert_eq!(
            extract_datum(&tx.inputs, &utxos, &redeemer(tag, 0)),
            Ok(SpendingDatum::NotApplicable)
        );
        assert_eq!(
            extract_datum(&tx.inputs, &utxos, &redeemer(tag, 99)),
            Ok(SpendingDatum::NotApplicable)
        );
    }
}

#[test]
fn datum_of_a_spend_is_what_the_output_carries() {
    let inputs = vec![input(1, 0), input(2, 0), input(3, 0)];
    let inline = Data::Mapping(vec![(Data::Int(1), Data::BoundedBytes(vec![9, 9]))]);
    let mut utxos = UtxoSet::new();
    utxos.insert(input(1, 0), locked_output(1, DatumOption::Absent));
    utxos.insert(input(2, 0), locked_output(2, DatumOption::Hash([0x5a; 32])));
    utxos.insert(
        input(3, 0),
        locked_output(
            3,
            DatumOption::Inline(Data::Mapping(vec![(Data::Int(1), Data::BoundedBytes(vec![9, 9]))])),
        ),
    );
    assert_eq!(
        extract_datum(&inputs, &utxos, &redeemer(RedeemerTag::Spend, 0)),
        Ok(SpendingDatum::Absent)
    );
    assert_eq!(
        extract_datum(&inputs, &utxos, &redeemer(RedeemerTag::Spend, 1)),
        Ok(SpendingDatum::HashBytes(vec![0x5a; 32]))
    );
    assert_eq!(
        extract_datum(&inputs, &utxos, &redeemer(RedeemerTag::Spend, 2)),
        Ok(SpendingDatum::Inline(&inline))
    );
}

#[test]
fn datum_of_a_spend_counts_the_inputs_as_they_are_given() {
    let inputs = vec![input(3, 0), input(1, 0)];
    let mut utxos = UtxoSet::new();
    utxos.insert(input(1, 0), locked_output(1, DatumOption::Absent));
    utxos.insert(input(3, 0), locked_output(3, DatumOption::Hash([7; 32])));
    assert_eq!(
        extract_datum(&inputs, &utxos, &redeemer(RedeemerTag::Spend, 0)),
        Ok(SpendingDatum::HashBytes(vec![7; 32]))
    );
}

#[test]
fn datum_errors_tell_a_bad_index_from_a_missing_output() {
    let inputs = vec![input(1, 0), input(2, 0)];
    let mut utxos = UtxoSet::new();
    utxos.insert(input(1, 0), locked_output(1, DatumOption::Absent));
    let bad_index = extract_datum(&inputs, &utxos, &redeemer(RedeemerTag::Spend, 2)).unwrap_err();
    assert_eq!(bad_index, DatumError::InvalidSpendIndex { index: 2, available: 2 });
    assert_eq!(
        bad_index.message(),
        "Invalid redeemer index 2 for spending input. Transaction has 2 input(s)"
    );
    let missing = extract_datum(&inputs, &utxos, &redeemer(RedeemerTag::Spend, 1)).unwrap_err();
    assert_eq!(missing, DatumError::MissingUtxo { input: input(2, 0) });
    assert_eq!(
        missing.message(),
        format!("Missing UTxO for spending input {}#0", "02".repeat(32))
    );
}

fn info_for(tag: RedeemerTag, index: u32) -> String {
    let tx = transaction(vec![input(1, 0)], Some(vec![redeemer(tag, index)]));
    let mut utxos = UtxoSet::new();
    utxos.insert(input(1, 0), locked_output(1, DatumOption::Absent));
    let chosen = redeemer(tag, index);
    let context: ScriptContext =
        build_script_context(PlutusVersion::PlutusV1, &tx, &utxos, &chosen).unwrap();
    format_script_info(&context)
}

#[test]
fn script_info_tells_what_the_redeemer_is_about() {
    assert_eq!(
        info_for(RedeemerTag::Spend, 0),
        format!("  Type: Spending\n  Input: {}#0\n", "01".repeat(32))
    );
    assert_eq!(info_for(RedeemerTag::Spend, 4), "  Type: Spending\n  Input: Invalid index 4\n");
    assert_eq!(info_for(RedeemerTag::Mint, 2), "  Type: Minting\n  Policy Index: 2\n");
    assert_eq!(info_for(RedeemerTag::Cert, 1), "  Type: Certificate\n  Certificate Index: 1\n");
    assert_eq!(info_for(RedeemerTag::Reward, 0), "  Type: Withdrawal\n  Withdrawal Index: 0\n");
    assert_eq!(info_for(RedeemerTag::Vote, 0), "  Type: Unknown\n");
    assert_eq!(info_for(RedeemerTag::Propose, 0), "  Type: Unknown\n");
}

#[test]
fn report_shows_every_section() {
    let tx = Transaction {
        id: [0xaa; 32],
        inputs: vec![input(1, 0)],
        reference_inputs: vec![input(2, 1)],
        outputs: vec![TransactionOutput {
            address: Address::Byron,
            value: Value(vec![(CurrencySymbol::Lovelace, vec![(AssetName(vec![]), 5)])]),
            datum: DatumOption::Hash([0xcd; 32]),
            script: None,
        }],
        fee: 1,
        mint: Mint(vec![([0x11; 28], vec![(AssetName(b"A".to_vec()), 5)])]),
        certificates: vec![
            Certificate::StakeRegistration(StakeCredential::AddrKeyhash([1; 28])),
            Certificate::PoolRetirement([6; 28], 9),
        ],
        withdrawals: Withdrawals(vec![(
            StakeAddress {
                network: Network::Testnet,
                payload: StakeCredential::AddrKeyhash([1; 28]),
            },
            10,
        )]),
        valid_range: TimeRange { lower_bound: Some(0), upper_bound: None },
        signatories: vec![[0x0a; 28], [0x0b; 28]],
        redeemers: Some(vec![redeemer(RedeemerTag::Mint, 0), redeemer(RedeemerTag::Spend, 0)]),
    };
    let mut utxos = UtxoSet::new();
    utxos.insert(input(1, 0), locked_output(7, DatumOption::Absent));
    utxos.insert(input(2, 1), locked_output(8, DatumOption::Absent));
    let context = reconstruct(PlutusVersion::PlutusV3, &tx, &utxos, 1).unwrap();
    let rule = "=".repeat(80);
    let script = "02".repeat(28);
    let expected = [
        "\n".to_string(),
        rule.clone(),
        "\nScript Context (Plutus V3)\n".to_string(),
        rule.clone(),
        "\n\nTransaction Info:\n".to_string(),
        format!("  Transaction ID: {}\n", "aa".repeat(32)),
        "\n  Inputs: 1 input(s)\n".to_string(),
        format!("    [0] {}#0\n", "01".repeat(32)),
        format!("        Address: Shelley {{ payment: Script({}), stake: Null }}\n", script),
        "        Value:\n          ADA: 7 lovelace\n        Datum: None\n        Script: None\n"
            .to_string(),
        "\n  Reference Inputs: 1 input(s)\n".to_string(),
        format!("    [0] {}#1\n", "02".repeat(32)),
        format!("        Address: Shelley {{ payment: Script({}), stake: Null }}\n", script),
        "        Value:\n          ADA: 8 lovelace\n        Datum: None\n        Script: None\n"
            .to_string(),
        "\n  Outputs: 1 output(s)\n    [0]\n".to_string(),
        "        Address: Byron(...)\n        Value:\n          ADA: 5 lovelace\n".to_string(),
        format!("        Datum: Hash({})\n        Script: None\n", "cd".repeat(32)),
        "\n  Fee: 1 lovelace\n".to_string(),
        "\n  Minted Assets:\n    Policies: 1\n".to_string(),
        format!("      Policy: {}\n        Minting:\n          A: +5\n", "11".repeat(28)),
        "\n  Certificates: 2 certificate(s)\n".to_string(),
        format!("    [0] StakeRegistration(Key({}))\n", "01".repeat(28)),
        format!("    [1] PoolRetirement\n          Pool: {}\n          Epoch: 9\n", "06".repeat(28)),
        "\n  Withdrawals: 1 withdrawal(s)\n".to_string(),
        format!("    [0] Testnet {{ Key({}) }}: 10 lovelace\n", "01".repeat(28)),
        "\n  Validity Range:\n    Lower: 1970-01-01 00:00:00 UTC\n    Upper: ∞\n".to_string(),
        "\n  Required Signers: 2 signer(s)\n".to_string(),
        format!("    [0] {}\n    [1] {}\n", "0a".repeat(28), "0b".repeat(28)),
        "\n  Redeemers: 2 redeemer(s)\n".to_string(),
        "    [0] Spend\n        Index: 0\n        Data: Int(1)\n        Ex Units: 200 steps, 100 mem\n"
            .to_string(),
        "    \n".to_string(),
        "    [1] Mint\n        Index: 0\n        Data: Int(1)\n        Ex Units: 200 steps, 100 mem\n"
            .to_string(),
        "\nRedeemer:\n  Purpose: Mint\n  Index: 0\n\nScript Info:\n".to_string(),
        "  Type: Minting\n  Policy Index: 0\n".to_string(),
        "\n".to_string(),
        rule.clone(),
        "\n".to_string(),
    ]
    .concat();
    assert_eq!(context.format_readable(), expected);
    assert_eq!(context.format_readable(), context.format_readable());
}

#[test]
fn defaults_are_the_newest_version_and_both_outputs() {
    assert_eq!(PlutusVersion::default(), PlutusVersion::PlutusV3);
    assert_eq!(OutputFormat::default(), OutputFormat::Both);
}
