//! Rebuilds the script context that a validator sees for one redeemer of a
//! transaction, and renders it as a report for people and as bytes.
//!
//! A run goes through the modules in this order: `source` finds the bytes of
//! the transaction; `inputs` collects the inputs that have to be resolved;
//! `blockfrost` and `resolver` turn the answers of the resolution service into
//! a set of outputs; `redeemers` puts the redeemers in canonical order and
//! picks one; `datum` finds the datum of the output that it spends; `context`
//! builds the script context; `formatter` and `render` write it out.
//!
//! Every function states what it returns over `Seq`, `Map` and the values of
//! `ledger` and `data`. What other crates compute stands behind a few
//! functions whose contracts are taken on trust: hexadecimal in `base16`,
//! dates in `time`, hashes in `digest`, CBOR in `render`, and characters,
//! UTF-8 and lower case in `text`.
pub mod base16;
pub mod blockfrost;
pub mod context;
pub mod data;
pub mod datum;
pub mod digest;
pub mod formatter;
pub mod inputs;
pub mod ledger;
pub mod network;
pub mod redeemers;
pub mod render;
pub mod resolver;
pub mod source;
pub mod text;
pub mod time;
