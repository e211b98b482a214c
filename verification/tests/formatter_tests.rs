use amaru_kernel::ComputeHash;
use nawi::data::Data;
use nawi::formatter::ReadableFormatter;
use nawi::ledger::{
    Address, AssetName, Certificate, CurrencySymbol, DRep, DatumOption, Mint, Network, Pointer,
    Script, ScriptKind, ShelleyDelegationPart, StakeAddress, StakeCredential, TimeRange,
    TransactionInput, TransactionOutput, Value, Withdrawals,
};
use nawi::time::{format_time_ms_local, invalid_timestamp};

fn hex28(byte: &str) -> String {
    byte.repeat(28)
}

fn hex32(byte: &str) -> String {
    byte.repeat(32)
}

fn key(byte: u8) -> StakeCredential {
    StakeCredential::AddrKeyhash([byte; 28])
}

fn script(byte: u8) -> StakeCredential {
    StakeCredential::ScriptHash([byte; 28])
}

#[test]
fn stake_credential_shows_kind_and_hash() {
    assert_eq!(key(0xab).format_readable(), format!("Key({})", hex28("ab")));
    assert_eq!(script(0x01).format_readable(), format!("Script({})", hex28("01")));
}

#[test]
fn drep_shows_each_kind() {
    assert_eq!(DRep::Key([0x0f; 28]).format_readable(), format!("Key({})", hex28("0f")));
    assert_eq!(DRep::Script([0xf0; 28]).format_readable(), format!("Script({})", hex28("f0")));
    assert_eq!(DRep::Abstain.format_readable(), "Abstain");
    assert_eq!(DRep::NoConfidence.format_readable(), "NoConfidence");
}

#[test]
fn certificates_of_one_line() {
    assert_eq!(
        Certificate::StakeRegistration(key(1)).format_readable(),
        format!("StakeRegistration(Key({}))", hex28("01"))
    );
    assert_eq!(
        Certificate::StakeDeregistration(script(2)).format_readable(),
        format!("StakeDeregistration(Script({}))", hex28("02"))
    );
}

#[test]
fn certificates_about_pools() {
    assert_eq!(
        Certificate::StakeDelegation(key(1), [3; 28]).format_readable(),
        format!("StakeDelegation\n  Credential: Key({})\n  Pool: {}", hex28("01"), hex28("03"))
    );
    assert_eq!(
        Certificate::PoolRegistration { operator: [4; 28], vrf_keyhash: [5; 32] }
            .format_readable(),
        format!("PoolRegistration\n  Operator: {}\n  VRF Keyhash: {}", hex28("04"), hex32("05"))
    );
    assert_eq!(
        Certificate::PoolRetirement([6; 28], 512).format_readable(),
        format!("PoolRetirement\n  Pool: {}\n  Epoch: 512", hex28("06"))
    );
}

#[test]
fn certificates_with_deposits_and_refunds() {
    assert_eq!(
        Certificate::Reg(key(1), 2000000).format_readable(),
        format!("Reg\n  Credential: Key({})\n  Deposit: 2000000 lovelace", hex28("01"))
    );
    assert_eq!(
        Certificate::UnReg(key(1), 2000000).format_readable(),
        format!("UnReg\n  Credential: Key({})\n  Refund: 2000000 lovelace", hex28("01"))
    );
    assert_eq!(
        Certificate::RegDRepCert(script(7), 500).format_readable(),
        format!("RegDRepCert\n  Credential: Script({})\n  Deposit: 500 lovelace", hex28("07"))
    );
    assert_eq!(
        Certificate::UnRegDRepCert(script(7), 0).format_readable(),
        format!("UnRegDRepCert\n  Credential: Script({})\n  Refund: 0 lovelace", hex28("07"))
    );
    assert_eq!(
        Certificate::UpdateDRepCert(key(8)).format_readable(),
        format!("UpdateDRepCert\n  Credential: Key({})", hex28("08"))
    );
}

#[test]
fn certificates_that_delegate_votes() {
    assert_eq!(
        Certificate::VoteDeleg(key(1), DRep::Abstain).format_readable(),
        format!("VoteDeleg\n  Credential: Key({})\n  DRep: Abstain", hex28("01"))
    );
    assert_eq!(
        Certificate::StakeVoteDeleg(key(1), [2; 28], DRep::NoConfidence).format_readable(),
        format!(
            "StakeVoteDeleg\n  Credential: Key({})\n  Pool: {}\n  DRep: NoConfidence",
            hex28("01"),
            hex28("02")
        )
    );
    assert_eq!(
        Certificate::StakeRegDeleg(key(1), [2; 28], 7).format_readable(),
        format!(
            "StakeRegDeleg\n  Credential: Key({})\n  Pool: {}\n  Deposit: 7 lovelace",
            hex28("01"),
            hex28("02")
        )
    );
    assert_eq!(
        Certificate::VoteRegDeleg(key(1), DRep::Key([9; 28]), 7).format_readable(),
        format!(
            "VoteRegDeleg\n  Credential: Key({})\n  DRep: Key({})\n  Deposit: 7 lovelace",
            hex28("01"),
            hex28("09")
        )
    );
    assert_eq!(
        Certificate::StakeVoteRegDeleg(key(1), [2; 28], DRep::Script([9; 28]), 7)
            .format_readable(),
        format!(
            "StakeVoteRegDeleg\n  Credential: Key({})\n  Pool: {}\n  DRep: Script({})\n  Deposit: 7 lovelace",
            hex28("01"),
            hex28("02"),
            hex28("09")
        )
    );
}

#[test]
fn certificates_of_the_committee() {
    assert_eq!(
        Certificate::AuthCommitteeHot(key(1), script(2)).format_readable(),
        format!("AuthCommitteeHot\n  Cold: Key({})\n  Hot: Script({})", hex28("01"), hex28("02"))
    );
    assert_eq!(
        Certificate::ResignCommitteeCold(key(1)).format_readable(),
        format!("ResignCommitteeCold\n  Cold: Key({})", hex28("01"))
    );
}

#[test]
fn addresses_of_each_era() {
    assert_eq!(Address::Byron.format_readable(), "Byron(...)");
    assert_eq!(
        Address::Shelley { payment: key(1), delegation: ShelleyDelegationPart::Key([2; 28]) }
            .format_readable(),
        format!("Shelley {{ payment: Key({}), stake: Key({}) }}", hex28("01"), hex28("02"))
    );
    assert_eq!(
        Address::Shelley { payment: script(1), delegation: ShelleyDelegationPart::Script([2; 28]) }
            .format_readable(),
        format!("Shelley {{ payment: Script({}), stake: Script({}) }}", hex28("01"), hex28("02"))
    );
    assert_eq!(
        Address::Shelley { payment: key(1), delegation: ShelleyDelegationPart::Null }
            .format_readable(),
        format!("Shelley {{ payment: Key({}), stake: Null }}", hex28("01"))
    );
    assert_eq!(
        Address::Shelley {
            payment: key(1),
            delegation: ShelleyDelegationPart::Pointer(Pointer { slot: 1, tx_idx: 2, cert_idx: 3 }),
        }
        .format_readable(),
        format!("Shelley {{ payment: Key({}), stake: Pointer(Pointer(1, 2, 3)) }}", hex28("01"))
    );
    assert_eq!(
        Address::Stake(StakeAddress { network: Network::Mainnet, payload: script(4) })
            .format_readable(),
        format!("Stake {{ Script({}) }}", hex28("04"))
    );
}

#[test]
fn stake_addresses_show_their_network() {
    assert_eq!(
        StakeAddress { network: Network::Testnet, payload: key(1) }.format_readable(),
        format!("Testnet {{ Key({}) }}", hex28("01"))
    );
    assert_eq!(
        StakeAddress { network: Network::Mainnet, payload: script(1) }.format_readable(),
        format!("Mainnet {{ Script({}) }}", hex28("01"))
    );
    assert_eq!(
        StakeAddress { network: Network::Other(9), payload: key(1) }.format_readable(),
        "Network(9)"
    );
}

#[test]
fn asset_names_show_as_text_or_in_hexadecimal() {
    assert_eq!(AssetName(vec![]).format_readable(), "<empty>");
    assert_eq!(AssetName(b"TokenA".to_vec()).format_readable(), "TokenA");
    assert_eq!(AssetName(b"  padded \n".to_vec()).format_readable(), "padded");
    assert_eq!(AssetName(vec![0xff, 0xfe]).format_readable(), "fffe");
    assert_eq!(AssetName(vec![0xc3, 0xa9]).format_readable(), "é");
    assert_eq!(AssetName(vec![0xc3]).format_readable(), "c3");
    assert_eq!(AssetName(b" ".to_vec()).format_readable(), "");
}

#[test]
fn transaction_input_shows_id_and_index() {
    let input = TransactionInput { transaction_id: [0x1f; 32], index: 3 };
    assert_eq!(input.format_readable(), format!("{}#3", hex32("1f")));
}

#[test]
fn datum_option_shows_each_kind() {
    assert_eq!(DatumOption::Absent.format_readable(), "None");
    assert_eq!(DatumOption::Hash([0xcd; 32]).format_readable(), format!("Hash({})", hex32("cd")));
    assert_eq!(
        DatumOption::Inline(Data::Constr { tag: 0, fields: vec![] }).format_readable(),
        "Inline(Constr(0, []))"
    );
    assert_eq!(
        DatumOption::Inline(Data::Array(vec![Data::Int(1), Data::Int(2), Data::Int(3), Data::Int(4)]))
            .format_readable(),
        "Inline([\n  Int(1),\n  Int(2),\n  Int(3),\n  Int(4)\n])"
    );
}

#[test]
fn script_shows_language_and_hash() {
    let none: Option<Script> = None;
    assert_eq!(none.format_readable(), "None");
    let bytes = vec![0x4e, 0x4d, 0x01, 0x00, 0x00, 0x33, 0x22, 0x22, 0x00, 0x51, 0x20, 0x01, 0x20, 0x01, 0x11];
    let first = amaru_kernel::PlutusScript::<1>(amaru_kernel::Bytes::from(bytes.clone()));
    assert_eq!(
        Some(Script { kind: ScriptKind::PlutusV1, bytes: bytes.clone() }).format_readable(),
        format!("PlutusV1({})", first.compute_hash())
    );
    let second = amaru_kernel::PlutusScript::<2>(amaru_kernel::Bytes::from(bytes.clone()));
    assert_eq!(
        Some(Script { kind: ScriptKind::PlutusV2, bytes: bytes.clone() }).format_readable(),
        format!("PlutusV2({})", second.compute_hash())
    );
    let third = amaru_kernel::PlutusScript::<3>(amaru_kernel::Bytes::from(bytes.clone()));
    assert_eq!(
        Some(Script { kind: ScriptKind::PlutusV3, bytes: bytes.clone() }).format_readable(),
        format!("PlutusV3({})", third.compute_hash())
    );
    let native = Some(Script { kind: ScriptKind::Native, bytes: bytes.clone() }).format_readable();
    assert_eq!(
        native,
        format!("Native({})", amaru_kernel::Hasher::<224>::hash_tagged(&bytes, 0))
    );
    assert_eq!(native.len(), "Native()".len() + 56);
    assert_ne!(native, format!("Native({})", hex::encode(&bytes)));
}

#[test]
fn time_shows_as_date_or_as_invalid() {
    assert_eq!(format_time_ms_local(0), "1970-01-01 00:00:00 UTC");
    assert_eq!(format_time_ms_local(1_700_000_000_123), "2023-11-14 22:13:20 UTC");
    assert_eq!(format_time_ms_local(u64::MAX), "1969-12-31 23:59:59 UTC");
    assert_eq!(
        format_time_ms_local(9223372036854775807),
        "Invalid timestamp: 9223372036854775807 ms"
    );
    assert_eq!(invalid_timestamp(5), "Invalid timestamp: 5 ms");
}

#[test]
fn time_range_shows_both_ends() {
    assert_eq!(
        TimeRange { lower_bound: None, upper_bound: None }.format_readable(),
        "Lower: ∞\nUpper: ∞"
    );
    assert_eq!(
        TimeRange { lower_bound: Some(0), upper_bound: Some(1000) }.format_readable(),
        "Lower: 1970-01-01 00:00:00 UTC\nUpper: 1970-01-01 00:00:01 UTC"
    );
    assert_eq!(
        TimeRange { lower_bound: Some(9223372036854775807), upper_bound: None }.format_readable(),
        "Lower: Invalid timestamp: 9223372036854775807 ms\nUpper: ∞"
    );
}

#[test]
fn value_shows_lovelace_and_assets() {
    let ada_only = Value(vec![(CurrencySymbol::Lovelace, vec![(AssetName(vec![]), 1500000)])]);
    assert_eq!(ada_only.format_readable(), "ADA: 1500000 lovelace");
    let mixed = Value(vec![
        (CurrencySymbol::Lovelace, vec![(AssetName(vec![]), 1500000)]),
        (
            CurrencySymbol::Native([0x11; 28]),
            vec![(AssetName(b"TokenA".to_vec()), 5), (AssetName(vec![0xff]), 7)],
        ),
        (CurrencySymbol::Native([0x22; 28]), vec![(AssetName(vec![]), 1)]),
    ]);
    assert_eq!(
        mixed.format_readable(),
        format!(
            "ADA: 1500000 lovelace\nAssets: 2 policies\n  Policy: {}\n    TokenA: 5\n    ff: 7\n  Policy: {}\n    <empty>: 1",
            hex28("11"),
            hex28("22")
        )
    );
}

#[test]
fn value_without_lovelace_shows_none() {
    assert_eq!(Value(vec![]).format_readable(), "");
    let zero = Value(vec![(CurrencySymbol::Lovelace, vec![(AssetName(vec![]), 0)])]);
    assert_eq!(zero.format_readable(), "");
    let assets_only = Value(vec![(CurrencySymbol::Native([0x33; 28]), vec![])]);
    assert_eq!(
        assets_only.format_readable(),
        format!("Assets: 1 policies\n  Policy: {}", hex28("33"))
    );
}

#[test]
fn mint_shows_what_is_minted_and_what_is_burnt() {
    assert_eq!(Mint(vec![]).format_readable(), "(none)");
    let mint = Mint(vec![
        (
            [0x11; 28],
            vec![
                (AssetName(b"A".to_vec()), 5),
                (AssetName(b"B".to_vec()), -3),
                (AssetName(b"C".to_vec()), 1),
            ],
        ),
        ([0x22; 28], vec![(AssetName(b"D".to_vec()), -9)]),
        ([0x33; 28], vec![(AssetName(b"E".to_vec()), 0)]),
    ]);
    assert_eq!(
        mint.format_readable(),
        format!(
            "Policies: 3\n  Policy: {}\n    Minting:\n      A: +5\n      C: +1\n    Burning:\n      B: -3\n  Policy: {}\n    Burning:\n      D: -9\n  Policy: {}",
            hex28("11"),
            hex28("22"),
            hex28("33")
        )
    );
}

#[test]
fn mint_shows_the_least_quantity() {
    let mint = Mint(vec![([0x11; 28], vec![(AssetName(b"A".to_vec()), i64::MIN)])]);
    assert_eq!(
        mint.format_readable(),
        format!("Policies: 1\n  Policy: {}\n    Burning:\n      A: -9223372036854775808", hex28("11"))
    );
}

#[test]
fn withdrawals_show_one_line_each() {
    assert_eq!(Withdrawals(vec![]).format_readable(), "(none)");
    let withdrawals = Withdrawals(vec![
        (StakeAddress { network: Network::Mainnet, payload: key(1) }, 10),
        (StakeAddress { network: Network::Other(5), payload: script(2) }, 20),
    ]);
    assert_eq!(
        withdrawals.format_readable(),
        format!("[0] Mainnet {{ Key({}) }}: 10 lovelace\n[1] Network(5): 20 lovelace", hex28("01"))
    );
}

#[test]
fn transaction_output_shows_each_part() {
    let output = TransactionOutput {
        address: Address::Shelley { payment: key(1), delegation: ShelleyDelegationPart::Null },
        value: Value(vec![
            (CurrencySymbol::Lovelace, vec![(AssetName(vec![]), 1500000)]),
            (CurrencySymbol::Native([0x11; 28]), vec![(AssetName(b"TokenA".to_vec()), 5)]),
        ]),
        datum: DatumOption::Inline(Data::Constr { tag: 0, fields: vec![] }),
        script: None,
    };
    assert_eq!(
        output.format_readable(),
        format!(
            "Address: Shelley {{ payment: Key({}), stake: Null }}\nValue:\n  ADA: 1500000 lovelace\n  Assets: 1 policies\n    Policy: {}\n      TokenA: 5\nDatum: Inline(Constr(0, []))\nScript: None",
            hex28("01"),
            hex28("11")
        )
    );
}
