//! The bytes that a validator is handed, and what a run writes.
use crate::base16::{encode, hex_text};
use crate::context::OutputFormat;
use crate::text::{decimal_text, push_decimal};
use vstd::prelude::*;
use vstd::string::*;

verus! {

#[verifier::external_type_specification]
#[verifier::external_body]
pub struct ExPlutusData(amaru_kernel::PlutusData);

/// What `amaru_kernel::to_cbor` returns for a data value: its CBOR encoding.
pub uninterp spec fn cbor_of(data: amaru_kernel::PlutusData) -> Seq<u8>;

/// `amaru_kernel::to_cbor`: the CBOR encoding of a data value.
#[verifier::external_body]
fn to_cbor(data: &amaru_kernel::PlutusData) -> (bytes: Vec<u8>)
    ensures
        bytes@ == cbor_of(*data),
{
    amaru_kernel::to_cbor(data)
}

/// A script context as bytes, with the same bytes in hexadecimal.
#[derive(Clone, Debug, PartialEq, Eq)]
pub struct RenderedBinary {
    pub bytes: Vec<u8>,
    pub hex: String,
}

/// What is written for the bytes of a script context: a heading, the bytes
/// in hexadecimal, an empty line, and how many bytes there are.
pub open spec fn binary_text(bytes: Seq<u8>) -> Seq<char> {
    "CBOR-encoded script context:\n"@ + hex_text(bytes) + "\n\nLength: "@ + decimal_text(
        bytes.len(),
    ) + " bytes\n"@
}

/// What a run writes for a report and the bytes of a script context: the
/// report and a line feed, what is written for the bytes, or the one after
/// the other.
pub open spec fn output_text(format: OutputFormat, pretty: Seq<char>, bytes: Seq<u8>) -> Seq<
    char,
> {
    match format {
        OutputFormat::Pretty => pretty + "\n"@,
        OutputFormat::Cbor => binary_text(bytes),
        OutputFormat::Both => pretty + "\n"@ + binary_text(bytes),
    }
}

impl RenderedBinary {
    /// The bytes with their hexadecimal form.
    pub fn from_bytes(bytes: Vec<u8>) -> (rendered: Self)
        ensures
            rendered.bytes == bytes,
            rendered.hex@ == hex_text(bytes@),
    {
        let hex = encode(bytes.as_slice());
        RenderedBinary { bytes, hex }
    }

    /// How many bytes there are.
    pub fn len(&self) -> (n: usize)
        ensures
            n == self.bytes@.len(),
    {
        self.bytes.len()
    }

    /// What is written for the bytes.
    pub fn report(&self) -> (out: String)
        ensures
            out@ == binary_text(self.bytes@),
    {
        print_script_context(&self.bytes)
    }
}

/// The script context, given as a data value, as the bytes that a validator
/// is handed, with the same bytes in hexadecimal.
pub fn render_binary(script_context: &amaru_kernel::PlutusData) -> (rendered: RenderedBinary)
    ensures
        rendered.bytes@ == cbor_of(*script_context),
        rendered.hex@ == hex_text(rendered.bytes@),
{
    RenderedBinary::from_bytes(to_cbor(script_context))
}

/// What is written for the bytes of a script context.
pub fn print_script_context(bytes: &Vec<u8>) -> (out: String)
    ensures
        out@ == binary_text(bytes@),
{
    let mut out = String::from_str("CBOR-encoded script context:\n");
    out.append(encode(bytes.as_slice()).as_str());
    out.append("\n\nLength: ");
    push_decimal(&mut out, bytes.len() as u128);
    out.append(" bytes\n");
    out
}

/// What a run writes, given the report and the bytes of a script context.
pub fn render_output(format: OutputFormat, pretty: &str, bytes: &Vec<u8>) -> (out: String)
    ensures
        out@ == output_text(format, pretty@, bytes@),
{
    match format {
        OutputFormat::Pretty => {
            let mut out = String::from_str(pretty);
            out.append("\n");
            out
        },
        OutputFormat::Cbor => print_script_context(bytes),
        OutputFormat::Both => {
            let mut out = String::from_str(pretty);
            out.append("\n");
            out.append(print_script_context(bytes).as_str());
            out
        },
    }
}

} // verus!
