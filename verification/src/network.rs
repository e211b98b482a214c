//! The networks that a transaction may belong to.
use crate::text::{
    has_prefix, lowercase_of, parse_u32, parsed_u32, same_text, strip_prefix, to_lowercase,
};
use vstd::prelude::*;
use vstd::string::*;

verus! {

/// A network: one of the three that have a name, or a test network known by
/// its magic number.
#[derive(Clone, Copy, Debug, PartialEq, Eq)]
pub enum NetworkName {
    Mainnet,
    Preprod,
    Preview,
    Testnet(u32),
}

/// Why a text names no network.
#[derive(Clone, Debug, PartialEq, Eq)]
pub enum NetworkError {
    /// The text begins like a test network's, and no magic number follows.
    InvalidTestnet,
    /// The text, as it was given, is no network's name.
    Unknown(String),
}

impl NetworkError {
    /// The error in words.
    pub open spec fn text(self) -> Seq<char> {
        match self {
            NetworkError::InvalidTestnet => "Invalid testnet format, expected testnet:<magic>"@,
            NetworkError::Unknown(given) => "Unknown network: "@ + given@
                + ". Valid options: mainnet, preprod, preview, testnet:<magic>"@,
        }
    }

    /// The error in words.
    pub fn message(&self) -> (out: String)
        ensures
            out@ == self.text(),
    {
        match self {
            NetworkError::InvalidTestnet => String::from_str(
                "Invalid testnet format, expected testnet:<magic>",
            ),
            NetworkError::Unknown(given) => {
                let mut out = String::from_str("Unknown network: ");
                out.append(given.as_str());
                out.append(". Valid options: mainnet, preprod, preview, testnet:<magic>");
                out
            },
        }
    }
}

/// Whether `outcome` is what a text names, given the text in lower case and
/// as it was written.
///
/// The three names count in either case. A test network is written as
/// `testnet:` in lower case and its magic number.
pub open spec fn names_network(
    lowered: Seq<char>,
    given: Seq<char>,
    outcome: Result<NetworkName, NetworkError>,
) -> bool {
    if lowered == "mainnet"@ {
        outcome == Ok::<NetworkName, NetworkError>(NetworkName::Mainnet)
    } else if lowered == "preprod"@ {
        outcome == Ok::<NetworkName, NetworkError>(NetworkName::Preprod)
    } else if lowered == "preview"@ {
        outcome == Ok::<NetworkName, NetworkError>(NetworkName::Preview)
    } else if has_prefix(given, "testnet:"@) {
        match parsed_u32(given.skip("testnet:"@.len() as int)) {
            Some(magic) => outcome == Ok::<NetworkName, NetworkError>(NetworkName::Testnet(magic)),
            None => outcome == Err::<NetworkName, NetworkError>(NetworkError::InvalidTestnet),
        }
    } else {
        outcome matches Err(NetworkError::Unknown(name)) && name@ == given
    }
}

impl NetworkName {
    /// The network that a text names, given the text in lower case and as it
    /// was written.
    pub fn classify(lowered: &str, given: &str) -> (outcome: Result<NetworkName, NetworkError>)
        ensures
            names_network(lowered@, given@, outcome),
    {
        if same_text(lowered, "mainnet") {
            Ok(NetworkName::Mainnet)
        } else if same_text(lowered, "preprod") {
            Ok(NetworkName::Preprod)
        } else if same_text(lowered, "preview") {
            Ok(NetworkName::Preview)
        } else {
            match strip_prefix(given, "testnet:") {
                Some(magic) => match parse_u32(magic.as_str()) {
                    Some(magic) => Ok(NetworkName::Testnet(magic)),
                    None => Err(NetworkError::InvalidTestnet),
                },
                None => Err(NetworkError::Unknown(String::from_str(given))),
            }
        }
    }

    /// The network that a text names.
    pub fn from_str(s: &str) -> (outcome: Result<NetworkName, NetworkError>)
        ensures
            names_network(lowercase_of(s@), s@, outcome),
    {
        let lowered = to_lowercase(s);
        NetworkName::classify(lowered.as_str(), s)
    }
}

} // verus!
