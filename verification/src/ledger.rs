//! What a transaction and the outputs it spends are made of.
use crate::data::Data;
use vstd::prelude::*;

verus! {

/// A reference to one output of an earlier transaction.
#[derive(Clone, Copy, Debug, PartialEq, Eq)]
pub struct TransactionInput {
    pub transaction_id: [u8; 32],
    pub index: u64,
}

/// The hash of a key or of a script.
#[derive(Clone, Copy, Debug, PartialEq, Eq)]
pub enum StakeCredential {
    AddrKeyhash([u8; 28]),
    ScriptHash([u8; 28]),
}

/// A delegated representative.
#[derive(Clone, Copy, Debug, PartialEq, Eq)]
pub enum DRep {
    Key([u8; 28]),
    Script([u8; 28]),
    Abstain,
    NoConfidence,
}

/// Where on the chain a stake key was registered.
#[derive(Clone, Copy, Debug, PartialEq, Eq)]
pub struct Pointer {
    pub slot: u64,
    pub tx_idx: u64,
    pub cert_idx: u64,
}

/// The delegation part of a Shelley address.
#[derive(Clone, Copy, Debug, PartialEq, Eq)]
pub enum ShelleyDelegationPart {
    Key([u8; 28]),
    Script([u8; 28]),
    Pointer(Pointer),
    Null,
}

/// The network tag of an address.
#[derive(Clone, Copy, Debug, PartialEq, Eq)]
pub enum Network {
    Testnet,
    Mainnet,
    Other(u8),
}

/// A reward address.
#[derive(Clone, Copy, Debug, PartialEq, Eq)]
pub struct StakeAddress {
    pub network: Network,
    pub payload: StakeCredential,
}

/// An address of any era.
#[derive(Clone, Copy, Debug, PartialEq, Eq)]
pub enum Address {
    Byron,
    Shelley { payment: StakeCredential, delegation: ShelleyDelegationPart },
    Stake(StakeAddress),
}

/// The name of an asset under its policy.
#[derive(Clone, Debug, PartialEq, Eq)]
pub struct AssetName(pub Vec<u8>);

/// What a quantity counts: lovelace, or the assets of a policy.
#[derive(Clone, Copy, Debug, PartialEq, Eq)]
pub enum CurrencySymbol {
    Lovelace,
    Native([u8; 28]),
}

/// Quantities by currency and asset name, in the order of their keys.
#[derive(Clone, Debug, PartialEq, Eq)]
pub struct Value(pub Vec<(CurrencySymbol, Vec<(AssetName, u64)>)>);

/// Minted and burnt quantities by policy and asset name, in the order of their keys.
#[derive(Clone, Debug, PartialEq, Eq)]
pub struct Mint(pub Vec<([u8; 28], Vec<(AssetName, i64)>)>);

/// The datum of an output: none, its hash alone, or the value itself.
#[derive(Debug, PartialEq, Eq)]
pub enum DatumOption {
    Absent,
    Hash([u8; 32]),
    Inline(Data),
}

/// The language of a script.
#[derive(Clone, Copy, Debug, PartialEq, Eq)]
pub enum ScriptKind {
    Native,
    PlutusV1,
    PlutusV2,
    PlutusV3,
}

/// A script as an output carries it: its language and its bytes.
#[derive(Clone, Debug, PartialEq, Eq)]
pub struct Script {
    pub kind: ScriptKind,
    pub bytes: Vec<u8>,
}

/// An output of a transaction.
#[derive(Debug, PartialEq, Eq)]
pub struct TransactionOutput {
    pub address: Address,
    pub value: Value,
    pub datum: DatumOption,
    pub script: Option<Script>,
}

/// A certificate, with the fields that a report shows.
#[derive(Clone, Copy, Debug, PartialEq, Eq)]
pub enum Certificate {
    StakeRegistration(StakeCredential),
    StakeDeregistration(StakeCredential),
    StakeDelegation(StakeCredential, [u8; 28]),
    PoolRegistration { operator: [u8; 28], vrf_keyhash: [u8; 32] },
    PoolRetirement([u8; 28], u64),
    Reg(StakeCredential, u64),
    UnReg(StakeCredential, u64),
    VoteDeleg(StakeCredential, DRep),
    StakeVoteDeleg(StakeCredential, [u8; 28], DRep),
    StakeRegDeleg(StakeCredential, [u8; 28], u64),
    VoteRegDeleg(StakeCredential, DRep, u64),
    StakeVoteRegDeleg(StakeCredential, [u8; 28], DRep, u64),
    AuthCommitteeHot(StakeCredential, StakeCredential),
    ResignCommitteeCold(StakeCredential),
    RegDRepCert(StakeCredential, u64),
    UnRegDRepCert(StakeCredential, u64),
    UpdateDRepCert(StakeCredential),
}

/// Withdrawn rewards by reward address, in the order of the addresses.
#[derive(Clone, Debug, PartialEq, Eq)]
pub struct Withdrawals(pub Vec<(StakeAddress, u64)>);

/// The time during which a transaction is valid, in milliseconds since the epoch.
#[derive(Clone, Copy, Debug, PartialEq, Eq)]
pub struct TimeRange {
    pub lower_bound: Option<u64>,
    pub upper_bound: Option<u64>,
}

/// What a redeemer is for.
#[derive(Clone, Copy, Debug, PartialEq, Eq)]
pub enum RedeemerTag {
    Spend,
    Mint,
    Cert,
    Reward,
    Vote,
    Propose,
}

/// The budget that a redeemer declares.
#[derive(Clone, Copy, Debug, PartialEq, Eq)]
pub struct ExUnits {
    pub mem: u64,
    pub steps: u64,
}

/// The argument that a transaction hands to one of its scripts.
#[derive(Debug, PartialEq, Eq)]
pub struct Redeemer {
    pub tag: RedeemerTag,
    pub index: u32,
    pub data: Data,
    pub ex_units: ExUnits,
}

/// A transaction, as far as a script context shows it.
#[derive(Debug, PartialEq, Eq)]
pub struct Transaction {
    pub id: [u8; 32],
    pub inputs: Vec<TransactionInput>,
    pub reference_inputs: Vec<TransactionInput>,
    pub outputs: Vec<TransactionOutput>,
    pub fee: u64,
    pub mint: Mint,
    pub certificates: Vec<Certificate>,
    pub withdrawals: Withdrawals,
    pub valid_range: TimeRange,
    pub signatories: Vec<[u8; 28]>,
    pub redeemers: Option<Vec<Redeemer>>,
}

} // verus!
