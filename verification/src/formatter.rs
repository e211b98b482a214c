//! The report of a script context, and of each thing in it.
use crate::base16::{encode, hex_text};
use crate::context::{
    format_tag, format_version, tag_name, version_name, OutputRef, Redeemers, ScriptContext,
    TxInfo,
};
use crate::data::{data_text, format_plutus_data, Data};
use crate::digest::{hash_tagged, tagged_digest};
use crate::ledger::{
    Address, AssetName, Certificate, CurrencySymbol, DRep, DatumOption, Mint, Network, Pointer,
    Redeemer, RedeemerTag, Script, ScriptKind, ShelleyDelegationPart, StakeAddress,
    StakeCredential, TimeRange, TransactionInput, TransactionOutput, Value, Withdrawals,
};
use crate::text::{
    decimal_text, framed_lines, from_utf8, hanging_lines, indent_lines, indented_text, int_text,
    joined, lemma_joined_step, lines_of, push_decimal, push_framed_lines, push_hanging_lines,
    push_int, repeat, repeat_text, trim, trim_end, trimmed, trimmed_end,
};
use crate::time::{format_time_ms_local, time_text};
use vstd::prelude::*;
use vstd::string::*;
use vstd::utf8::{decode_utf8, valid_utf8};

verus! {

/// A value that has a report for people to read.
pub trait ReadableFormatter {
    /// The report of the value.
    spec fn readable(&self) -> Seq<char>;

    /// Writes the report of the value.
    fn format_readable(&self) -> (out: String)
        ensures
            out@ == self.readable(),
    ;
}

/// Appends the bytes in hexadecimal.
fn push_hex(out: &mut String, bytes: &[u8])
    ensures
        final(out)@ == old(out)@ + hex_text(bytes@),
{
    let hex = encode(bytes);
    out.append(hex.as_str());
}

/// Appends the report of a value.
fn push_readable<T: ReadableFormatter>(out: &mut String, value: &T)
    ensures
        final(out)@ == old(out)@ + value.readable(),
{
    let report = value.format_readable();
    out.append(report.as_str());
}

/// Appends a number in decimal.
fn push_u64(out: &mut String, n: u64)
    ensures
        final(out)@ == old(out)@ + decimal_text(n as nat),
{
    push_decimal(out, n as u128);
}

impl ReadableFormatter for StakeCredential {
    open spec fn readable(&self) -> Seq<char> {
        match *self {
            StakeCredential::AddrKeyhash(hash) => "Key("@ + hex_text(hash@) + ")"@,
            StakeCredential::ScriptHash(hash) => "Script("@ + hex_text(hash@) + ")"@,
        }
    }

    fn format_readable(&self) -> (out: String) {
        match self {
            StakeCredential::AddrKeyhash(hash) => {
                let mut out = String::from_str("Key(");
                push_hex(&mut out, hash.as_slice());
                out.append(")");
                out
            },
            StakeCredential::ScriptHash(hash) => {
                let mut out = String::from_str("Script(");
                push_hex(&mut out, hash.as_slice());
                out.append(")");
                out
            },
        }
    }
}

impl ReadableFormatter for DRep {
    open spec fn readable(&self) -> Seq<char> {
        match *self {
            DRep::Key(hash) => "Key("@ + hex_text(hash@) + ")"@,
            DRep::Script(hash) => "Script("@ + hex_text(hash@) + ")"@,
            DRep::Abstain => "Abstain"@,
            DRep::NoConfidence => "NoConfidence"@,
        }
    }

    fn format_readable(&self) -> (out: String) {
        match self {
            DRep::Key(hash) => {
                let mut out = String::from_str("Key(");
                push_hex(&mut out, hash.as_slice());
                out.append(")");
                out
            },
            DRep::Script(hash) => {
                let mut out = String::from_str("Script(");
                push_hex(&mut out, hash.as_slice());
                out.append(")");
                out
            },
            DRep::Abstain => String::from_str("Abstain"),
            DRep::NoConfidence => String::from_str("NoConfidence"),
        }
    }
}

impl ReadableFormatter for Certificate {
    open spec fn readable(&self) -> Seq<char> {
        match *self {
            Certificate::StakeRegistration(cred) => "StakeRegistration("@ + cred.readable() + ")"@,
            Certificate::StakeDeregistration(cred) => "StakeDeregistration("@ + cred.readable()
                + ")"@,
            Certificate::StakeDelegation(cred, pool) => "StakeDelegation\n  Credential: "@
                + cred.readable() + "\n  Pool: "@ + hex_text(pool@),
            Certificate::PoolRegistration { operator, vrf_keyhash } =>
                "PoolRegistration\n  Operator: "@ + hex_text(operator@) + "\n  VRF Keyhash: "@
                    + hex_text(vrf_keyhash@),
            Certificate::PoolRetirement(pool, epoch) => "PoolRetirement\n  Pool: "@ + hex_text(
                pool@,
            ) + "\n  Epoch: "@ + decimal_text(epoch as nat),
            Certificate::Reg(cred, coin) => "Reg\n  Credential: "@ + cred.readable()
                + "\n  Deposit: "@ + decimal_text(coin as nat) + " lovelace"@,
            Certificate::UnReg(cred, coin) => "UnReg\n  Credential: "@ + cred.readable()
                + "\n  Refund: "@ + decimal_text(coin as nat) + " lovelace"@,
            Certificate::VoteDeleg(cred, drep) => "VoteDeleg\n  Credential: "@ + cred.readable()
                + "\n  DRep: "@ + drep.readable(),
            Certificate::StakeVoteDeleg(cred, pool, drep) => "StakeVoteDeleg\n  Credential: "@
                + cred.readable() + "\n  Pool: "@ + hex_text(pool@) + "\n  DRep: "@
                + drep.readable(),
            Certificate::StakeRegDeleg(cred, pool, coin) => "StakeRegDeleg\n  Credential: "@
                + cred.readable() + "\n  Pool: "@ + hex_text(pool@) + "\n  Deposit: "@
                + decimal_text(coin as nat) + " lovelace"@,
            Certificate::VoteRegDeleg(cred, drep, coin) => "VoteRegDeleg\n  Credential: "@
                + cred.readable() + "\n  DRep: "@ + drep.readable() + "\n  Deposit: "@
                + decimal_text(coin as nat) + " lovelace"@,
            Certificate::StakeVoteRegDeleg(cred, pool, drep, coin) =>
                "StakeVoteRegDeleg\n  Credential: "@ + cred.readable() + "\n  Pool: "@ + hex_text(
                    pool@,
                ) + "\n  DRep: "@ + drep.readable() + "\n  Deposit: "@ + decimal_text(coin as nat)
                    + " lovelace"@,
            Certificate::AuthCommitteeHot(cold, hot) => "AuthCommitteeHot\n  Cold: "@
                + cold.readable() + "\n  Hot: "@ + hot.readable(),
            Certificate::ResignCommitteeCold(cold) => "ResignCommitteeCold\n  Cold: "@
                + cold.readable(),
            Certificate::RegDRepCert(cred, coin) => "RegDRepCert\n  Credential: "@
                + cred.readable() + "\n  Deposit: "@ + decimal_text(coin as nat) + " lovelace"@,
            Certificate::UnRegDRepCert(cred, coin) => "UnRegDRepCert\n  Credential: "@
                + cred.readable() + "\n  Refund: "@ + decimal_text(coin as nat) + " lovelace"@,
            Certificate::UpdateDRepCert(cred) => "UpdateDRepCert\n  Credential: "@
                + cred.readable(),
        }
    }

    fn format_readable(&self) -> (out: String) {
        match self {
            Certificate::StakeRegistration(cred) => {
                let mut out = String::from_str("StakeRegistration(");
                push_readable(&mut out, cred);
                out.append(")");
                out
            },
            Certificate::StakeDeregistration(cred) => {
                let mut out = String::from_str("StakeDeregistration(");
                push_readable(&mut out, cred);
                out.append(")");
                out
            },
            Certificate::StakeDelegation(cred, pool) => {
                let mut out = String::from_str("StakeDelegation\n  Credential: ");
                push_readable(&mut out, cred);
                out.append("\n  Pool: ");
                push_hex(&mut out, pool.as_slice());
                out
            },
            Certificate::PoolRegistration { operator, vrf_keyhash } => {
                let mut out = String::from_str("PoolRegistration\n  Operator: ");
                push_hex(&mut out, operator.as_slice());
                out.append("\n  VRF Keyhash: ");
                push_hex(&mut out, vrf_keyhash.as_slice());
                out
            },
            Certificate::PoolRetirement(pool, epoch) => {
                let mut out = String::from_str("PoolRetirement\n  Pool: ");
                push_hex(&mut out, pool.as_slice());
                out.append("\n  Epoch: ");
                push_u64(&mut out, *epoch);
                out
            },
            Certificate::Reg(cred, coin) => {
                let mut out = String::from_str("Reg\n  Credential: ");
                push_readable(&mut out, cred);
                out.append("\n  Deposit: ");
                push_u64(&mut out, *coin);
                out.append(" lovelace");
                out
            },
            Certificate::UnReg(cred, coin) => {
                let mut out = String::from_str("UnReg\n  Credential: ");
                push_readable(&mut out, cred);
                out.append("\n  Refund: ");
                push_u64(&mut out, *coin);
                out.append(" lovelace");
                out
            },
            Certificate::VoteDeleg(cred, drep) => {
                let mut out = String::from_str("VoteDeleg\n  Credential: ");
                push_readable(&mut out, cred);
                out.append("\n  DRep: ");
                push_readable(&mut out, drep);
                out
            },
            Certificate::StakeVoteDeleg(cred, pool, drep) => {
                let mut out = String::from_str("StakeVoteDeleg\n  Credential: ");
                push_readable(&mut out, cred);
                out.append("\n  Pool: ");
                push_hex(&mut out, pool.as_slice());
                out.append("\n  DRep: ");
                push_readable(&mut out, drep);
                out
            },
            Certificate::StakeRegDeleg(cred, pool, coin) => {
                let mut out = String::from_str("StakeRegDeleg\n  Credential: ");
                push_readable(&mut out, cred);
                out.append("\n  Pool: ");
                push_hex(&mut out, pool.as_slice());
                out.append("\n  Deposit: ");
                push_u64(&mut out, *coin);
                out.append(" lovelace");
                out
            },
            Certificate::VoteRegDeleg(cred, drep, coin) => {
                let mut out = String::from_str("VoteRegDeleg\n  Credential: ");
                push_readable(&mut out, cred);
                out.append("\n  DRep: ");
                push_readable(&mut out, drep);
                out.append("\n  Deposit: ");
                push_u64(&mut out, *coin);
                out.append(" lovelace");
                out
            },
            Certificate::StakeVoteRegDeleg(cred, pool, drep, coin) => {
                let mut out = String::from_str("StakeVoteRegDeleg\n  Credential: ");
                push_readable(&mut out, cred);
                out.append("\n  Pool: ");
                push_hex(&mut out, pool.as_slice());
                out.append("\n  DRep: ");
                push_readable(&mut out, drep);
                out.append("\n  Deposit: ");
                push_u64(&mut out, *coin);
                out.append(" lovelace");
                out
            },
            Certificate::AuthCommitteeHot(cold, hot) => {
                let mut out = String::from_str("AuthCommitteeHot\n  Cold: ");
                push_readable(&mut out, cold);
                out.append("\n  Hot: ");
                push_readable(&mut out, hot);
                out
            },
            Certificate::ResignCommitteeCold(cold) => {
                let mut out = String::from_str("ResignCommitteeCold\n  Cold: ");
                push_readable(&mut out, cold);
                out
            },
            Certificate::RegDRepCert(cred, coin) => {
                let mut out = String::from_str("RegDRepCert\n  Credential: ");
                push_readable(&mut out, cred);
                out.append("\n  Deposit: ");
                push_u64(&mut out, *coin);
                out.append(" lovelace");
                out
            },
            Certificate::UnRegDRepCert(cred, coin) => {
                let mut out = String::from_str("UnRegDRepCert\n  Credential: ");
                push_readable(&mut out, cred);
                out.append("\n  Refund: ");
                push_u64(&mut out, *coin);
                out.append(" lovelace");
                out
            },
            Certificate::UpdateDRepCert(cred) => {
                let mut out = String::from_str("UpdateDRepCert\n  Credential: ");
                push_readable(&mut out, cred);
                out
            },
        }
    }
}

impl ReadableFormatter for Data {
    open spec fn readable(&self) -> Seq<char> {
        data_text(*self, 0)
    }

    fn format_readable(&self) -> (out: String) {
        format_plutus_data(self, 0)
    }
}

impl ReadableFormatter for Pointer {
    open spec fn readable(&self) -> Seq<char> {
        "Pointer("@ + decimal_text(self.slot as nat) + ", "@ + decimal_text(self.tx_idx as nat)
            + ", "@ + decimal_text(self.cert_idx as nat) + ")"@
    }

    fn format_readable(&self) -> (out: String) {
        let mut out = String::from_str("Pointer(");
        push_u64(&mut out, self.slot);
        out.append(", ");
        push_u64(&mut out, self.tx_idx);
        out.append(", ");
        push_u64(&mut out, self.cert_idx);
        out.append(")");
        out
    }
}

impl ReadableFormatter for ShelleyDelegationPart {
    open spec fn readable(&self) -> Seq<char> {
        match *self {
            ShelleyDelegationPart::Key(hash) => "Key("@ + hex_text(hash@) + ")"@,
            ShelleyDelegationPart::Script(hash) => "Script("@ + hex_text(hash@) + ")"@,
            ShelleyDelegationPart::Pointer(pointer) => "Pointer("@ + pointer.readable() + ")"@,
            ShelleyDelegationPart::Null => "Null"@,
        }
    }

    fn format_readable(&self) -> (out: String) {
        match self {
            ShelleyDelegationPart::Key(hash) => {
                let mut out = String::from_str("Key(");
                push_hex(&mut out, hash.as_slice());
                out.append(")");
                out
            },
            ShelleyDelegationPart::Script(hash) => {
                let mut out = String::from_str("Script(");
                push_hex(&mut out, hash.as_slice());
                out.append(")");
                out
            },
            ShelleyDelegationPart::Pointer(pointer) => {
                let mut out = String::from_str("Pointer(");
                push_readable(&mut out, pointer);
                out.append(")");
                out
            },
            ShelleyDelegationPart::Null => String::from_str("Null"),
        }
    }
}

impl ReadableFormatter for Address {
    open spec fn readable(&self) -> Seq<char> {
        match *self {
            Address::Byron => "Byron(...)"@,
            Address::Shelley { payment, delegation } => "Shelley { payment: "@
                + payment.readable() + ", stake: "@ + delegation.readable() + " }"@,
            Address::Stake(address) => "Stake { "@ + address.payload.readable() + " }"@,
        }
    }

    fn format_readable(&self) -> (out: String) {
        match self {
            Address::Byron => String::from_str("Byron(...)"),
            Address::Shelley { payment, delegation } => {
                let mut out = String::from_str("Shelley { payment: ");
                push_readable(&mut out, payment);
                out.append(", stake: ");
                push_readable(&mut out, delegation);
                out.append(" }");
                out
            },
            Address::Stake(address) => {
                let mut out = String::from_str("Stake { ");
                push_readable(&mut out, &address.payload);
                out.append(" }");
                out
            },
        }
    }
}

impl ReadableFormatter for StakeAddress {
    open spec fn readable(&self) -> Seq<char> {
        match self.network {
            Network::Testnet => "Testnet"@ + " { "@ + self.payload.readable() + " }"@,
            Network::Mainnet => "Mainnet"@ + " { "@ + self.payload.readable() + " }"@,
            Network::Other(tag) => "Network("@ + decimal_text(tag as nat) + ")"@,
        }
    }

    fn format_readable(&self) -> (out: String) {
        let mut out = match self.network {
            Network::Testnet => String::from_str("Testnet"),
            Network::Mainnet => String::from_str("Mainnet"),
            Network::Other(tag) => {
                let mut out = String::from_str("Network(");
                push_u64(&mut out, tag as u64);
                out.append(")");
                return out;
            },
        };
        out.append(" { ");
        push_readable(&mut out, &self.payload);
        out.append(" }");
        out
    }
}

impl ReadableFormatter for AssetName {
    /// A name shows as text without the white space around it where its bytes
    /// are well-formed UTF-8, and in hexadecimal where they are not.
    open spec fn readable(&self) -> Seq<char> {
        if self.0@.len() == 0 {
            "<empty>"@
        } else if valid_utf8(self.0@) {
            trimmed(decode_utf8(self.0@))
        } else {
            hex_text(self.0@)
        }
    }

    fn format_readable(&self) -> (out: String) {
        if self.0.len() == 0 {
            return String::from_str("<empty>");
        }
        match from_utf8(self.0.as_slice()) {
            Some(text) => trim(text),
            None => encode(self.0.as_slice()),
        }
    }
}

impl ReadableFormatter for TransactionInput {
    open spec fn readable(&self) -> Seq<char> {
        hex_text(self.transaction_id@) + "#"@ + decimal_text(self.index as nat)
    }

    fn format_readable(&self) -> (out: String) {
        let mut out = encode(self.transaction_id.as_slice());
        out.append("#");
        push_u64(&mut out, self.index);
        out
    }
}

impl ReadableFormatter for DatumOption {
    open spec fn readable(&self) -> Seq<char> {
        match *self {
            DatumOption::Absent => "None"@,
            DatumOption::Hash(hash) => "Hash("@ + hex_text(hash@) + ")"@,
            DatumOption::Inline(data) => "Inline("@ + data.readable() + ")"@,
        }
    }

    fn format_readable(&self) -> (out: String) {
        match self {
            DatumOption::Absent => String::from_str("None"),
            DatumOption::Hash(hash) => {
                let mut out = String::from_str("Hash(");
                push_hex(&mut out, hash.as_slice());
                out.append(")");
                out
            },
            DatumOption::Inline(data) => {
                let mut out = String::from_str("Inline(");
                push_readable(&mut out, data);
                out.append(")");
                out
            },
        }
    }
}

/// The tag that goes before a script's bytes when its hash is taken.
pub open spec fn language_tag(kind: ScriptKind) -> u8 {
    match kind {
        ScriptKind::Native => 0,
        ScriptKind::PlutusV1 => 1,
        ScriptKind::PlutusV2 => 2,
        ScriptKind::PlutusV3 => 3,
    }
}

/// The name of a script's language.
pub open spec fn language_name(kind: ScriptKind) -> Seq<char> {
    match kind {
        ScriptKind::Native => "Native"@,
        ScriptKind::PlutusV1 => "PlutusV1"@,
        ScriptKind::PlutusV2 => "PlutusV2"@,
        ScriptKind::PlutusV3 => "PlutusV3"@,
    }
}

impl ReadableFormatter for Option<Script> {
    /// A script shows as its language and its hash.
    open spec fn readable(&self) -> Seq<char> {
        match *self {
            None => "None"@,
            Some(script) => language_name(script.kind) + "("@ + hex_text(
                tagged_digest(script.bytes@, language_tag(script.kind)),
            ) + ")"@,
        }
    }

    fn format_readable(&self) -> (out: String) {
        match self {
            None => String::from_str("None"),
            Some(script) => {
                let (mut out, tag): (String, u8) = match script.kind {
                    ScriptKind::Native => (String::from_str("Native"), 0),
                    ScriptKind::PlutusV1 => (String::from_str("PlutusV1"), 1),
                    ScriptKind::PlutusV2 => (String::from_str("PlutusV2"), 2),
                    ScriptKind::PlutusV3 => (String::from_str("PlutusV3"), 3),
                };
                out.append("(");
                let digest = hash_tagged(script.bytes.as_slice(), tag);
                push_hex(&mut out, digest.as_slice());
                out.append(")");
                out
            },
        }
    }
}

/// The text of one end of a time range: a point in time, or the sign for none.
pub open spec fn bound_text(bound: Option<u64>) -> Seq<char> {
    match bound {
        None => "∞"@,
        Some(time_ms) => time_text(time_ms),
    }
}

/// The text of one end of a time range.
fn format_bound(bound: &Option<u64>) -> (out: String)
    ensures
        out@ == bound_text(*bound),
{
    match bound {
        None => String::from_str("∞"),
        Some(time_ms) => format_time_ms_local(*time_ms),
    }
}

impl ReadableFormatter for TimeRange {
    open spec fn readable(&self) -> Seq<char> {
        "Lower: "@ + bound_text(self.lower_bound) + "\nUpper: "@ + bound_text(self.upper_bound)
    }

    fn format_readable(&self) -> (out: String) {
        let mut out = String::from_str("Lower: ");
        out.append(format_bound(&self.lower_bound).as_str());
        out.append("\nUpper: ");
        out.append(format_bound(&self.upper_bound).as_str());
        out
    }
}

/// The name of what a redeemer with this tag is for.
pub open spec fn purpose_name(tag: RedeemerTag) -> Seq<char> {
    match tag {
        RedeemerTag::Spend => "Spend"@,
        RedeemerTag::Mint => "Mint"@,
        RedeemerTag::Cert => "Certificate"@,
        RedeemerTag::Reward => "Reward"@,
        RedeemerTag::Vote => "Voting"@,
        RedeemerTag::Propose => "Proposing"@,
    }
}

/// The first quantity that is not zero under the empty name.
pub open spec fn lovelace_in(assets: Seq<(AssetName, u64)>) -> Option<u64>
    decreases assets.len(),
{
    if assets.len() == 0 {
        None
    } else if assets[0].0.0@.len() == 0 && assets[0].1 != 0 {
        Some(assets[0].1)
    } else {
        lovelace_in(assets.skip(1))
    }
}

/// The lovelace of a value: what its first entry for lovelace holds under the
/// empty name, unless that is zero.
pub open spec fn ada_of(entries: Seq<(CurrencySymbol, Vec<(AssetName, u64)>)>) -> Option<u64>
    decreases entries.len(),
{
    if entries.len() == 0 {
        None
    } else if entries[0].0 is Lovelace {
        lovelace_in(entries[0].1@)
    } else {
        ada_of(entries.skip(1))
    }
}

/// How many entries of a value are for a policy.
pub open spec fn native_count(entries: Seq<(CurrencySymbol, Vec<(AssetName, u64)>)>) -> nat
    decreases entries.len(),
{
    if entries.len() == 0 {
        0
    } else {
        native_count(entries.drop_last()) + if entries.last().0 is Lovelace {
            0nat
        } else {
            1nat
        }
    }
}

/// One line for each asset: its name and its quantity.
pub open spec fn tokens_text(assets: Seq<(AssetName, u64)>) -> Seq<char>
    decreases assets.len(),
{
    if assets.len() == 0 {
        Seq::empty()
    } else {
        tokens_text(assets.drop_last()) + "    "@ + assets.last().0.readable() + ": "@
            + decimal_text(assets.last().1 as nat) + "\n"@
    }
}

/// For each policy of a value, a line with its hash and the lines of its assets.
pub open spec fn policies_text(entries: Seq<(CurrencySymbol, Vec<(AssetName, u64)>)>) -> Seq<
    char,
>
    decreases entries.len(),
{
    if entries.len() == 0 {
        Seq::empty()
    } else {
        match entries.last().0 {
            CurrencySymbol::Lovelace => policies_text(entries.drop_last()),
            CurrencySymbol::Native(policy) => policies_text(entries.drop_last()) + "  Policy: "@
                + hex_text(policy@) + "\n"@ + tokens_text(entries.last().1@),
        }
    }
}

/// The line for the lovelace of a value, where it has any.
pub open spec fn ada_text(ada: Option<u64>) -> Seq<char> {
    match ada {
        Some(quantity) => "ADA: "@ + decimal_text(quantity as nat) + " lovelace\n"@,
        None => Seq::empty(),
    }
}

/// The lines for the policies of a value, under a line that counts them, where
/// it has any.
pub open spec fn assets_text(entries: Seq<(CurrencySymbol, Vec<(AssetName, u64)>)>) -> Seq<char> {
    if native_count(entries) == 0 {
        Seq::empty()
    } else {
        "Assets: "@ + decimal_text(native_count(entries)) + " policies\n"@ + policies_text(entries)
    }
}

/// The first quantity that is not zero under the empty name.
fn lovelace(assets: &Vec<(AssetName, u64)>) -> (found: Option<u64>)
    ensures
        found == lovelace_in(assets@),
{
    let mut j: usize = 0;
    assert(assets@.skip(0) =~= assets@);
    while j < assets.len()
        invariant
            j <= assets.len(),
            lovelace_in(assets@) == lovelace_in(assets@.skip(j as int)),
        decreases assets.len() - j,
    {
        assert(assets@.skip(j as int).skip(1) =~= assets@.skip(j + 1));
        assert(assets@.skip(j as int)[0] == assets@[j as int]);
        if assets[j].0.0.len() == 0 && assets[j].1 != 0 {
            return Some(assets[j].1);
        }
        j += 1;
    }
    None
}

/// The lovelace of a value.
fn ada(entries: &Vec<(CurrencySymbol, Vec<(AssetName, u64)>)>) -> (found: Option<u64>)
    ensures
        found == ada_of(entries@),
{
    let mut i: usize = 0;
    assert(entries@.skip(0) =~= entries@);
    while i < entries.len()
        invariant
            i <= entries.len(),
            ada_of(entries@) == ada_of(entries@.skip(i as int)),
        decreases entries.len() - i,
    {
        assert(entries@.skip(i as int).skip(1) =~= entries@.skip(i + 1));
        assert(entries@.skip(i as int)[0] == entries@[i as int]);
        match entries[i].0 {
            CurrencySymbol::Lovelace => {
                return lovelace(&entries[i].1);
            },
            CurrencySymbol::Native(_) => {},
        }
        i += 1;
    }
    None
}

/// Appends one line for each asset: its name and its quantity.
fn push_tokens(out: &mut String, assets: &Vec<(AssetName, u64)>)
    ensures
        final(out)@ == old(out)@ + tokens_text(assets@),
{
    let mut i: usize = 0;
    assert(assets@.take(0) =~= Seq::empty());
    assert(out@ + Seq::<char>::empty() =~= out@);
    while i < assets.len()
        invariant
            i <= assets.len(),
            out@ == old(out)@ + tokens_text(assets@.take(i as int)),
        decreases assets.len() - i,
    {
        assert(assets@.take(i + 1).drop_last() =~= assets@.take(i as int));
        assert(assets@.take(i + 1).last() == assets@[i as int]);
        out.append("    ");
        push_readable(out, &assets[i].0);
        out.append(": ");
        push_u64(out, assets[i].1);
        out.append("\n");
        assert(out@ =~= old(out)@ + tokens_text(assets@.take(i + 1)));
        i += 1;
    }
    assert(assets@.take(assets.len() as int) =~= assets@);
}

/// Appends the lines for the policies of a value, under a line that counts
/// them, where it has any.
fn push_assets(out: &mut String, entries: &Vec<(CurrencySymbol, Vec<(AssetName, u64)>)>)
    ensures
        final(out)@ == old(out)@ + assets_text(entries@),
{
    let mut count: usize = 0;
    let mut i: usize = 0;
    assert(entries@.take(0) =~= Seq::empty());
    while i < entries.len()
        invariant
            i <= entries.len(),
            count <= i,
            count == native_count(entries@.take(i as int)),
        decreases entries.len() - i,
    {
        assert(entries@.take(i + 1).drop_last() =~= entries@.take(i as int));
        assert(entries@.take(i + 1).last() == entries@[i as int]);
        match entries[i].0 {
            CurrencySymbol::Lovelace => {},
            CurrencySymbol::Native(_) => {
                count += 1;
            },
        }
        i += 1;
    }
    assert(entries@.take(entries.len() as int) =~= entries@);
    if count == 0 {
        assert(out@ + Seq::<char>::empty() =~= out@);
        return ;
    }
    out.append("Assets: ");
    push_decimal(out, count as u128);
    out.append(" policies\n");
    let ghost head = out@;
    let mut i: usize = 0;
    assert(head + Seq::<char>::empty() =~= head);
    while i < entries.len()
        invariant
            i <= entries.len(),
            out@ == head + policies_text(entries@.take(i as int)),
        decreases entries.len() - i,
    {
        assert(entries@.take(i + 1).drop_last() =~= entries@.take(i as int));
        assert(entries@.take(i + 1).last() == entries@[i as int]);
        match &entries[i].0 {
            CurrencySymbol::Lovelace => {},
            CurrencySymbol::Native(policy) => {
                out.append("  Policy: ");
                push_hex(out, policy.as_slice());
                out.append("\n");
                push_tokens(out, &entries[i].1);
                assert(out@ =~= head + policies_text(entries@.take(i + 1)));
            },
        }
        i += 1;
    }
    assert(out@ =~= old(out)@ + assets_text(entries@));
}

impl ReadableFormatter for Value {
    /// A line for the lovelace, a line that counts the policies, then each
    /// policy with its assets; no white space after the last line.
    open spec fn readable(&self) -> Seq<char> {
        trimmed_end(ada_text(ada_of(self.0@)) + assets_text(self.0@))
    }

    fn format_readable(&self) -> (out: String) {
        let mut result = String::new();
        match ada(&self.0) {
            Some(quantity) => {
                result.append("ADA: ");
                push_u64(&mut result, quantity);
                result.append(" lovelace\n");
                assert(result@ =~= ada_text(ada_of(self.0@)));
            },
            None => {},
        }
        push_assets(&mut result, &self.0);
        trim_end(result.as_str())
    }
}

/// Whether a quantity above zero is among the assets.
pub open spec fn any_minted(assets: Seq<(AssetName, i64)>) -> bool {
    exists|i: int| 0 <= i < assets.len() && (#[trigger] assets[i]).1 > 0
}

/// Whether a quantity below zero is among the assets.
pub open spec fn any_burnt(assets: Seq<(AssetName, i64)>) -> bool {
    exists|i: int| 0 <= i < assets.len() && (#[trigger] assets[i]).1 < 0
}

/// One line for each asset with a quantity above zero: its name and the
/// quantity after a plus sign.
pub open spec fn minted_text(assets: Seq<(AssetName, i64)>) -> Seq<char>
    decreases assets.len(),
{
    if assets.len() == 0 {
        Seq::empty()
    } else if assets.last().1 > 0 {
        minted_text(assets.drop_last()) + "      "@ + assets.last().0.readable() + ": +"@
            + int_text(assets.last().1 as int) + "\n"@
    } else {
        minted_text(assets.drop_last())
    }
}

/// One line for each asset with a quantity below zero: its name and the
/// quantity.
pub open spec fn burnt_text(assets: Seq<(AssetName, i64)>) -> Seq<char>
    decreases assets.len(),
{
    if assets.len() == 0 {
        Seq::empty()
    } else if assets.last().1 < 0 {
        burnt_text(assets.drop_last()) + "      "@ + assets.last().0.readable() + ": "@
            + int_text(assets.last().1 as int) + "\n"@
    } else {
        burnt_text(assets.drop_last())
    }
}

/// What is minted under a policy, below a heading, where anything is.
pub open spec fn minting_text(assets: Seq<(AssetName, i64)>) -> Seq<char> {
    if any_minted(assets) {
        "    Minting:\n"@ + minted_text(assets)
    } else {
        Seq::empty()
    }
}

/// What is burnt under a policy, below a heading, where anything is.
pub open spec fn burning_text(assets: Seq<(AssetName, i64)>) -> Seq<char> {
    if any_burnt(assets) {
        "    Burning:\n"@ + burnt_text(assets)
    } else {
        Seq::empty()
    }
}

/// For each policy, a line with its hash, what is minted under it and what is
/// burnt under it.
pub open spec fn mint_policies_text(entries: Seq<([u8; 28], Vec<(AssetName, i64)>)>) -> Seq<char>
    decreases entries.len(),
{
    if entries.len() == 0 {
        Seq::empty()
    } else {
        mint_policies_text(entries.drop_last()) + "  Policy: "@ + hex_text(entries.last().0@)
            + "\n"@ + minting_text(entries.last().1@) + burning_text(entries.last().1@)
    }
}

/// Appends what is minted under a policy, below a heading, where anything is.
fn push_minting(out: &mut String, assets: &Vec<(AssetName, i64)>)
    ensures
        final(out)@ == old(out)@ + minting_text(assets@),
{
    let mut found = false;
    let mut i: usize = 0;
    while i < assets.len() && !found
        invariant
            i <= assets.len(),
            !found ==> forall|j: int| 0 <= j < i ==> (#[trigger] assets@[j]).1 <= 0,
            found ==> any_minted(assets@),
        decreases assets.len() - i,
    {
        if assets[i].1 > 0 {
            assert(assets@[i as int].1 > 0);
            found = true;
        }
        i += 1;
    }
    if !found {
        assert(out@ + Seq::<char>::empty() =~= out@);
        return ;
    }
    out.append("    Minting:\n");
    let ghost head = out@;
    let mut i: usize = 0;
    assert(assets@.take(0) =~= Seq::empty());
    assert(head + Seq::<char>::empty() =~= head);
    while i < assets.len()
        invariant
            i <= assets.len(),
            out@ == head + minted_text(assets@.take(i as int)),
        decreases assets.len() - i,
    {
        assert(assets@.take(i + 1).drop_last() =~= assets@.take(i as int));
        assert(assets@.take(i + 1).last() == assets@[i as int]);
        if assets[i].1 > 0 {
            out.append("      ");
            push_readable(out, &assets[i].0);
            out.append(": +");
            push_int(out, assets[i].1 as i128);
            out.append("\n");
            assert(out@ =~= head + minted_text(assets@.take(i + 1)));
        }
        i += 1;
    }
    assert(assets@.take(assets.len() as int) =~= assets@);
    assert(out@ =~= old(out)@ + minting_text(assets@));
}

/// Appends what is burnt under a policy, below a heading, where anything is.
fn push_burning(out: &mut String, assets: &Vec<(AssetName, i64)>)
    ensures
        final(out)@ == old(out)@ + burning_text(assets@),
{
    let mut found = false;
    let mut i: usize = 0;
    while i < assets.len() && !found
        invariant
            i <= assets.len(),
            !found ==> forall|j: int| 0 <= j < i ==> (#[trigger] assets@[j]).1 >= 0,
            found ==> any_burnt(assets@),
        decreases assets.len() - i,
    {
        if assets[i].1 < 0 {
            assert(assets@[i as int].1 < 0);
            found = true;
        }
        i += 1;
    }
    if !found {
        assert(out@ + Seq::<char>::empty() =~= out@);
        return ;
    }
    out.append("    Burning:\n");
    let ghost head = out@;
    let mut i: usize = 0;
    assert(assets@.take(0) =~= Seq::empty());
    assert(head + Seq::<char>::empty() =~= head);
    while i < assets.len()
        invariant
            i <= assets.len(),
            out@ == head + burnt_text(assets@.take(i as int)),
        decreases assets.len() - i,
    {
        assert(assets@.take(i + 1).drop_last() =~= assets@.take(i as int));
        assert(assets@.take(i + 1).last() == assets@[i as int]);
        if assets[i].1 < 0 {
            out.append("      ");
            push_readable(out, &assets[i].0);
            out.append(": ");
            push_int(out, assets[i].1 as i128);
            out.append("\n");
            assert(out@ =~= head + burnt_text(assets@.take(i + 1)));
        }
        i += 1;
    }
    assert(assets@.take(assets.len() as int) =~= assets@);
    assert(out@ =~= old(out)@ + burning_text(assets@));
}

impl ReadableFormatter for Mint {
    /// A line that counts the policies, then each policy with what is minted
    /// and what is burnt under it; no white space after the last line.
    open spec fn readable(&self) -> Seq<char> {
        if self.0@.len() == 0 {
            "(none)"@
        } else {
            trimmed_end(
                "Policies: "@ + decimal_text(self.0@.len()) + "\n"@ + mint_policies_text(self.0@),
            )
        }
    }

    fn format_readable(&self) -> (out: String) {
        if self.0.len() == 0 {
            return String::from_str("(none)");
        }
        let mut result = String::from_str("Policies: ");
        push_decimal(&mut result, self.0.len() as u128);
        result.append("\n");
        let ghost head = result@;
        let mut i: usize = 0;
        assert(self.0@.take(0) =~= Seq::empty());
        assert(head + Seq::<char>::empty() =~= head);
        while i < self.0.len()
            invariant
                i <= self.0.len(),
                result@ == head + mint_policies_text(self.0@.take(i as int)),
            decreases self.0.len() - i,
        {
            assert(self.0@.take(i + 1).drop_last() =~= self.0@.take(i as int));
            assert(self.0@.take(i + 1).last() == self.0@[i as int]);
            result.append("  Policy: ");
            push_hex(&mut result, self.0[i].0.as_slice());
            result.append("\n");
            push_minting(&mut result, &self.0[i].1);
            push_burning(&mut result, &self.0[i].1);
            assert(result@ =~= head + mint_policies_text(self.0@.take(i + 1)));
            i += 1;
        }
        assert(self.0@.take(self.0.len() as int) =~= self.0@);
        trim_end(result.as_str())
    }
}

/// The line of each withdrawal: its place, the address and the quantity.
pub open spec fn withdrawal_texts(entries: Seq<(StakeAddress, u64)>) -> Seq<Seq<char>> {
    Seq::new(
        entries.len(),
        |i: int|
            "["@ + decimal_text(i as nat) + "] "@ + entries[i].0.readable() + ": "@ + decimal_text(
                entries[i].1 as nat,
            ) + " lovelace"@,
    )
}

impl ReadableFormatter for Withdrawals {
    open spec fn readable(&self) -> Seq<char> {
        if self.0@.len() == 0 {
            "(none)"@
        } else {
            joined(withdrawal_texts(self.0@), "\n"@)
        }
    }

    fn format_readable(&self) -> (out: String) {
        if self.0.len() == 0 {
            return String::from_str("(none)");
        }
        let ghost parts = withdrawal_texts(self.0@);
        let mut out = String::new();
        let mut i: usize = 0;
        assert(parts.take(0) =~= Seq::empty());
        while i < self.0.len()
            invariant
                i <= self.0.len(),
                parts == withdrawal_texts(self.0@),
                out@ == joined(parts.take(i as int), "\n"@),
            decreases self.0.len() - i,
        {
            if i > 0 {
                out.append("\n");
            }
            out.append("[");
            push_decimal(&mut out, i as u128);
            out.append("] ");
            push_readable(&mut out, &self.0[i].0);
            out.append(": ");
            push_u64(&mut out, self.0[i].1);
            out.append(" lovelace");
            proof {
                lemma_joined_step(parts, "\n"@, i as int);
                assert(out@ =~= joined(parts.take(i + 1), "\n"@));
            }
            i += 1;
        }
        assert(parts.take(self.0.len() as int) =~= parts);
        out
    }
}

impl ReadableFormatter for TransactionOutput {
    open spec fn readable(&self) -> Seq<char> {
        "Address: "@ + self.address.readable() + "\nValue:\n"@ + indented_text(
            self.value.readable(),
            2,
        ) + "\nDatum: "@ + self.datum.readable() + "\nScript: "@ + self.script.readable()
    }

    fn format_readable(&self) -> (out: String) {
        let mut out = String::from_str("Address: ");
        push_readable(&mut out, &self.address);
        out.append("\nValue:\n");
        let value = self.value.format_readable();
        out.append(indent_lines(value.as_str(), 2).as_str());
        out.append("\nDatum: ");
        push_readable(&mut out, &self.datum);
        out.append("\nScript: ");
        push_readable(&mut out, &self.script);
        out
    }
}

/// The name of what a redeemer with this tag is for.
fn format_purpose(tag: RedeemerTag) -> (out: &'static str)
    ensures
        out@ == purpose_name(tag),
{
    match tag {
        RedeemerTag::Spend => "Spend",
        RedeemerTag::Mint => "Mint",
        RedeemerTag::Cert => "Certificate",
        RedeemerTag::Reward => "Reward",
        RedeemerTag::Vote => "Voting",
        RedeemerTag::Propose => "Proposing",
    }
}

/// The lines of each redeemer of a table of `total`: its place and what it is
/// for, its index, its data and its budget; and an empty line after each but
/// the last of the table.
pub open spec fn redeemer_entries_text(redeemers: Seq<&Redeemer>, total: int) -> Seq<char>
    decreases redeemers.len(),
{
    if redeemers.len() == 0 {
        Seq::empty()
    } else {
        let i = redeemers.len() - 1;
        let redeemer = *redeemers.last();
        redeemer_entries_text(redeemers.drop_last(), total) + "["@ + decimal_text(i as nat)
            + "] "@ + purpose_name(redeemer.tag) + "\n"@ + "    Index: "@ + decimal_text(
            redeemer.index as nat,
        ) + "\n"@ + "    Data: "@ + redeemer.data.readable() + "\n"@ + "    Ex Units: "@
            + decimal_text(redeemer.ex_units.steps as nat) + " steps, "@ + decimal_text(
            redeemer.ex_units.mem as nat,
        ) + " mem\n"@ + if i < total - 1 {
            "\n"@
        } else {
            Seq::empty()
        }
    }
}

impl<'a> ReadableFormatter for Redeemers<'a> {
    open spec fn readable(&self) -> Seq<char> {
        if self.0@.len() == 0 {
            "(none)"@
        } else {
            redeemer_entries_text(self.0@, self.0@.len() as int)
        }
    }

    fn format_readable(&self) -> (out: String) {
        let all = &self.0;
        if all.len() == 0 {
            return String::from_str("(none)");
        }
        let mut out = String::new();
        let mut i: usize = 0;
        assert(all@.take(0) =~= Seq::empty());
        while i < all.len()
            invariant
                i <= all@.len(),
                out@ == redeemer_entries_text(all@.take(i as int), all@.len() as int),
            decreases all@.len() - i,
        {
            assert(all@.take(i + 1).drop_last() =~= all@.take(i as int));
            assert(all@.take(i + 1).last() == all@[i as int]);
            let redeemer = all[i];
            out.append("[");
            push_decimal(&mut out, i as u128);
            out.append("] ");
            out.append(format_purpose(redeemer.tag));
            out.append("\n");
            out.append("    Index: ");
            push_u64(&mut out, redeemer.index as u64);
            out.append("\n");
            out.append("    Data: ");
            push_readable(&mut out, &redeemer.data);
            out.append("\n");
            out.append("    Ex Units: ");
            push_u64(&mut out, redeemer.ex_units.steps);
            out.append(" steps, ");
            push_u64(&mut out, redeemer.ex_units.mem);
            out.append(" mem\n");
            if i < all.len() - 1 {
                out.append("\n");
            } else {
                assert(out@ + Seq::<char>::empty() =~= out@);
            }
            i += 1;
        }
        assert(all@.take(all@.len() as int) =~= all@);
        out
    }
}

/// For each resolved input, a line with its place and the input, and the
/// lines of its output after eight spaces.
pub open spec fn refs_text(refs: Seq<OutputRef>) -> Seq<char>
    decreases refs.len(),
{
    if refs.len() == 0 {
        Seq::empty()
    } else {
        refs_text(refs.drop_last()) + "    ["@ + decimal_text((refs.len() - 1) as nat) + "] "@
            + refs.last().input.readable() + "\n"@ + framed_lines(
            lines_of(refs.last().output.readable()),
            "        "@,
        )
    }
}

/// The reference inputs under their heading, where there are any.
pub open spec fn reference_inputs_text(refs: Seq<OutputRef>) -> Seq<char> {
    if refs.len() == 0 {
        Seq::empty()
    } else {
        "\n  Reference Inputs: "@ + decimal_text(refs.len()) + " input(s)\n"@ + refs_text(refs)
    }
}

/// For each output, a line with its place, and its lines after eight spaces.
pub open spec fn outputs_text(outputs: Seq<TransactionOutput>) -> Seq<char>
    decreases outputs.len(),
{
    if outputs.len() == 0 {
        Seq::empty()
    } else {
        outputs_text(outputs.drop_last()) + "    ["@ + decimal_text((outputs.len() - 1) as nat)
            + "]\n"@ + framed_lines(lines_of(outputs.last().readable()), "        "@)
    }
}

/// For each certificate, its place and its first line, and its other lines
/// after eight spaces.
pub open spec fn certificates_text(certificates: Seq<Certificate>) -> Seq<char>
    decreases certificates.len(),
{
    if certificates.len() == 0 {
        Seq::empty()
    } else {
        certificates_text(certificates.drop_last()) + "    ["@ + decimal_text(
            (certificates.len() - 1) as nat,
        ) + "] "@ + hanging_lines(lines_of(certificates.last().readable()), "        "@)
    }
}

/// For each signer, a line with its place and its key hash.
pub open spec fn signers_text(signers: Seq<[u8; 28]>) -> Seq<char>
    decreases signers.len(),
{
    if signers.len() == 0 {
        Seq::empty()
    } else {
        signers_text(signers.drop_last()) + "    ["@ + decimal_text((signers.len() - 1) as nat)
            + "] "@ + hex_text(signers.last()@) + "\n"@
    }
}

/// The lines of the redeemers after four spaces, where there are any.
pub open spec fn redeemer_table_text(redeemers: Redeemers) -> Seq<char> {
    if redeemers.0@.len() == 0 {
        Seq::empty()
    } else {
        framed_lines(lines_of(redeemers.readable()), "    "@)
    }
}

/// Appends the lines of some resolved inputs.
fn push_refs(out: &mut String, refs: &Vec<OutputRef>)
    ensures
        final(out)@ == old(out)@ + refs_text(refs@),
{
    let mut i: usize = 0;
    assert(refs@.take(0) =~= Seq::empty());
    assert(out@ + Seq::<char>::empty() =~= out@);
    while i < refs.len()
        invariant
            i <= refs@.len(),
            out@ == old(out)@ + refs_text(refs@.take(i as int)),
        decreases refs@.len() - i,
    {
        assert(refs@.take(i + 1).drop_last() =~= refs@.take(i as int));
        assert(refs@.take(i + 1).last() == refs@[i as int]);
        out.append("    [");
        push_decimal(out, i as u128);
        out.append("] ");
        push_readable(out, &refs[i].input);
        out.append("\n");
        let report = refs[i].output.format_readable();
        push_framed_lines(out, report.as_str(), "        ");
        assert(out@ =~= old(out)@ + refs_text(refs@.take(i + 1)));
        i += 1;
    }
    assert(refs@.take(refs@.len() as int) =~= refs@);
}

/// Appends the reference inputs under their heading, where there are any.
fn push_reference_inputs(out: &mut String, refs: &Vec<OutputRef>)
    ensures
        final(out)@ == old(out)@ + reference_inputs_text(refs@),
{
    if refs.len() == 0 {
        assert(out@ + Seq::<char>::empty() =~= out@);
        return ;
    }
    out.append("\n  Reference Inputs: ");
    push_decimal(out, refs.len() as u128);
    out.append(" input(s)\n");
    push_refs(out, refs);
    assert(out@ =~= old(out)@ + reference_inputs_text(refs@));
}

/// Appends the lines of some outputs.
fn push_outputs(out: &mut String, outputs: &Vec<TransactionOutput>)
    ensures
        final(out)@ == old(out)@ + outputs_text(outputs@),
{
    let mut i: usize = 0;
    assert(outputs@.take(0) =~= Seq::empty());
    assert(out@ + Seq::<char>::empty() =~= out@);
    while i < outputs.len()
        invariant
            i <= outputs@.len(),
            out@ == old(out)@ + outputs_text(outputs@.take(i as int)),
        decreases outputs@.len() - i,
    {
        assert(outputs@.take(i + 1).drop_last() =~= outputs@.take(i as int));
        assert(outputs@.take(i + 1).last() == outputs@[i as int]);
        out.append("    [");
        push_decimal(out, i as u128);
        out.append("]\n");
        let report = outputs[i].format_readable();
        push_framed_lines(out, report.as_str(), "        ");
        assert(out@ =~= old(out)@ + outputs_text(outputs@.take(i + 1)));
        i += 1;
    }
    assert(outputs@.take(outputs@.len() as int) =~= outputs@);
}

/// Appends the lines of some certificates.
fn push_certificates(out: &mut String, certificates: &Vec<Certificate>)
    ensures
        final(out)@ == old(out)@ + certificates_text(certificates@),
{
    let mut i: usize = 0;
    assert(certificates@.take(0) =~= Seq::empty());
    assert(out@ + Seq::<char>::empty() =~= out@);
    while i < certificates.len()
        invariant
            i <= certificates@.len(),
            out@ == old(out)@ + certificates_text(certificates@.take(i as int)),
        decreases certificates@.len() - i,
    {
        assert(certificates@.take(i + 1).drop_last() =~= certificates@.take(i as int));
        assert(certificates@.take(i + 1).last() == certificates@[i as int]);
        out.append("    [");
        push_decimal(out, i as u128);
        out.append("] ");
        let report = certificates[i].format_readable();
        push_hanging_lines(out, report.as_str(), "        ");
        assert(out@ =~= old(out)@ + certificates_text(certificates@.take(i + 1)));
        i += 1;
    }
    assert(certificates@.take(certificates@.len() as int) =~= certificates@);
}

/// Appends the lines of some signers.
fn push_signers(out: &mut String, signers: &Vec<[u8; 28]>)
    ensures
        final(out)@ == old(out)@ + signers_text(signers@),
{
    let mut i: usize = 0;
    assert(signers@.take(0) =~= Seq::empty());
    assert(out@ + Seq::<char>::empty() =~= out@);
    while i < signers.len()
        invariant
            i <= signers@.len(),
            out@ == old(out)@ + signers_text(signers@.take(i as int)),
        decreases signers@.len() - i,
    {
        assert(signers@.take(i + 1).drop_last() =~= signers@.take(i as int));
        assert(signers@.take(i + 1).last() == signers@[i as int]);
        out.append("    [");
        push_decimal(out, i as u128);
        out.append("] ");
        push_hex(out, signers[i].as_slice());
        out.append("\n");
        assert(out@ =~= old(out)@ + signers_text(signers@.take(i + 1)));
        i += 1;
    }
    assert(signers@.take(signers@.len() as int) =~= signers@);
}

/// Appends the lines of the redeemers after four spaces, where there are any.
fn push_redeemer_table(out: &mut String, redeemers: &Redeemers)
    ensures
        final(out)@ == old(out)@ + redeemer_table_text(*redeemers),
{
    if redeemers.0.len() == 0 {
        assert(out@ + Seq::<char>::empty() =~= out@);
        return ;
    }
    let report = redeemers.format_readable();
    push_framed_lines(out, report.as_str(), "    ");
}

impl<'a> ReadableFormatter for TxInfo<'a> {
    /// The transaction's id; then under a heading each, with a count where
    /// there is something to count: the inputs, the reference inputs if there
    /// are any, the outputs, the fee, what is minted, the certificates, the
    /// withdrawals, the validity range, the signers and the redeemers.
    open spec fn readable(&self) -> Seq<char> {
        "  Transaction ID: "@ + hex_text(self.id@) + "\n"@ + "\n  Inputs: "@ + decimal_text(
            self.inputs@.len(),
        ) + " input(s)\n"@ + refs_text(self.inputs@) + reference_inputs_text(
            self.reference_inputs@,
        ) + "\n  Outputs: "@ + decimal_text(self.outputs@.len()) + " output(s)\n"@ + outputs_text(
            self.outputs@,
        ) + "\n  Fee: "@ + decimal_text(self.fee as nat) + " lovelace\n"@
            + "\n  Minted Assets:\n"@ + framed_lines(lines_of(self.mint.readable()), "    "@)
            + "\n  Certificates: "@ + decimal_text(self.certificates@.len())
            + " certificate(s)\n"@ + certificates_text(self.certificates@)
            + "\n  Withdrawals: "@ + decimal_text(self.withdrawals.0@.len())
            + " withdrawal(s)\n"@ + framed_lines(lines_of(self.withdrawals.readable()), "    "@)
            + "\n  Validity Range:\n"@ + framed_lines(
            lines_of(self.valid_range.readable()),
            "    "@,
        ) + "\n  Required Signers: "@ + decimal_text(self.signatories@.len()) + " signer(s)\n"@
            + signers_text(self.signatories@) + "\n  Redeemers: "@ + decimal_text(
            self.redeemers.0@.len(),
        ) + " redeemer(s)\n"@ + redeemer_table_text(self.redeemers)
    }

    fn format_readable(&self) -> (out: String) {
        let mut out = String::from_str("  Transaction ID: ");
        push_hex(&mut out, self.id.as_slice());
        out.append("\n");
        out.append("\n  Inputs: ");
        push_decimal(&mut out, self.inputs.len() as u128);
        out.append(" input(s)\n");
        push_refs(&mut out, &self.inputs);
        push_reference_inputs(&mut out, &self.reference_inputs);
        out.append("\n  Outputs: ");
        push_decimal(&mut out, self.outputs.len() as u128);
        out.append(" output(s)\n");
        push_outputs(&mut out, self.outputs);
        out.append("\n  Fee: ");
        push_u64(&mut out, self.fee);
        out.append(" lovelace\n");
        out.append("\n  Minted Assets:\n");
        let mint = self.mint.format_readable();
        push_framed_lines(&mut out, mint.as_str(), "    ");
        out.append("\n  Certificates: ");
        push_decimal(&mut out, self.certificates.len() as u128);
        out.append(" certificate(s)\n");
        push_certificates(&mut out, self.certificates);
        out.append("\n  Withdrawals: ");
        push_decimal(&mut out, self.withdrawals.0.len() as u128);
        out.append(" withdrawal(s)\n");
        let withdrawals = self.withdrawals.format_readable();
        push_framed_lines(&mut out, withdrawals.as_str(), "    ");
        out.append("\n  Validity Range:\n");
        let range = self.valid_range.format_readable();
        push_framed_lines(&mut out, range.as_str(), "    ");
        out.append("\n  Required Signers: ");
        push_decimal(&mut out, self.signatories.len() as u128);
        out.append(" signer(s)\n");
        push_signers(&mut out, self.signatories);
        out.append("\n  Redeemers: ");
        push_decimal(&mut out, self.redeemers.0.len() as u128);
        out.append(" redeemer(s)\n");
        push_redeemer_table(&mut out, &self.redeemers);
        out
    }
}

/// What a redeemer is about: for one that spends, the input it spends, or
/// its index where the transaction has no such input; for one that mints,
/// certifies or withdraws, its index.
pub open spec fn script_info_text(context: ScriptContext) -> Seq<char> {
    let index = context.redeemer.index;
    match context.redeemer.tag {
        RedeemerTag::Spend => if index < context.tx_info.inputs@.len() {
            "  Type: Spending\n  Input: "@ + context.tx_info.inputs@[index as int].input.readable()
                + "\n"@
        } else {
            "  Type: Spending\n  Input: Invalid index "@ + decimal_text(index as nat) + "\n"@
        },
        RedeemerTag::Mint => "  Type: Minting\n  Policy Index: "@ + decimal_text(index as nat)
            + "\n"@,
        RedeemerTag::Cert => "  Type: Certificate\n  Certificate Index: "@ + decimal_text(
            index as nat,
        ) + "\n"@,
        RedeemerTag::Reward => "  Type: Withdrawal\n  Withdrawal Index: "@ + decimal_text(
            index as nat,
        ) + "\n"@,
        RedeemerTag::Vote => "  Type: Unknown\n"@,
        RedeemerTag::Propose => "  Type: Unknown\n"@,
    }
}

/// What a redeemer is about.
pub fn format_script_info(context: &ScriptContext) -> (out: String)
    ensures
        out@ == script_info_text(*context),
{
    let index = context.redeemer.index;
    match context.redeemer.tag {
        RedeemerTag::Spend => {
            if (index as u64) < context.tx_info.inputs.len() as u64 {
                let mut out = String::from_str("  Type: Spending\n  Input: ");
                push_readable(&mut out, &context.tx_info.inputs[index as usize].input);
                out.append("\n");
                out
            } else {
                let mut out = String::from_str("  Type: Spending\n  Input: Invalid index ");
                push_u64(&mut out, index as u64);
                out.append("\n");
                out
            }
        },
        RedeemerTag::Mint => {
            let mut out = String::from_str("  Type: Minting\n  Policy Index: ");
            push_u64(&mut out, index as u64);
            out.append("\n");
            out
        },
        RedeemerTag::Cert => {
            let mut out = String::from_str("  Type: Certificate\n  Certificate Index: ");
            push_u64(&mut out, index as u64);
            out.append("\n");
            out
        },
        RedeemerTag::Reward => {
            let mut out = String::from_str("  Type: Withdrawal\n  Withdrawal Index: ");
            push_u64(&mut out, index as u64);
            out.append("\n");
            out
        },
        RedeemerTag::Vote => String::from_str("  Type: Unknown\n"),
        RedeemerTag::Propose => String::from_str("  Type: Unknown\n"),
    }
}

impl<'a> ReadableFormatter for ScriptContext<'a> {
    /// Between two rules of eighty equal signs a title with the version;
    /// then the transaction, the redeemer's tag and index, and what the
    /// redeemer is about; then a third rule.
    open spec fn readable(&self) -> Seq<char> {
        let rule = repeat_text("="@, 80);
        "\n"@ + rule + "\nScript Context (Plutus "@ + version_name(self.version) + ")\n"@ + rule
            + "\n\nTransaction Info:\n"@ + self.tx_info.readable() + "\nRedeemer:\n  Purpose: "@
            + tag_name(self.redeemer.tag) + "\n  Index: "@ + decimal_text(
            self.redeemer.index as nat,
        ) + "\n\nScript Info:\n"@ + script_info_text(*self) + "\n"@ + rule + "\n"@
    }

    fn format_readable(&self) -> (out: String) {
        let rule = repeat("=", 80);
        let mut out = String::from_str("\n");
        out.append(rule.as_str());
        out.append("\nScript Context (Plutus ");
        out.append(format_version(self.version));
        out.append(")\n");
        out.append(rule.as_str());
        out.append("\n\nTransaction Info:\n");
        push_readable(&mut out, &self.tx_info);
        out.append("\nRedeemer:\n  Purpose: ");
        out.append(format_tag(self.redeemer.tag));
        out.append("\n  Index: ");
        push_u64(&mut out, self.redeemer.index as u64);
        out.append("\n\nScript Info:\n");
        out.append(format_script_info(self).as_str());
        out.append("\n");
        out.append(rule.as_str());
        out.append("\n");
        out
    }
}

} // verus!
