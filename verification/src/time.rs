//! Points in time as a report shows them.
use crate::text::{decimal_text, push_decimal};
use vstd::prelude::*;
use vstd::string::*;

verus! {

/// Whether `chrono::DateTime::from_timestamp_millis` has an instant for a
/// count of milliseconds since the epoch.
pub uninterp spec fn has_instant(millis: i64) -> bool;

/// What `chrono::DateTime::format` displays under the pattern
/// `%Y-%m-%d %H:%M:%S %Z` for the instant `millis` milliseconds after the epoch.
pub uninterp spec fn instant_text(millis: i64) -> Seq<char>;

/// `chrono::DateTime::from_timestamp_millis`, and `chrono::DateTime::format` on
/// the instant it gives: the instant as year, month, day, hour, minute, second
/// and the zone's name, or nothing where chrono has no such instant. Both calls
/// stand here because Verus cannot name the type of the instant between them.
#[verifier::external_body]
fn format_instant(millis: i64) -> (out: Option<String>)
    ensures
        out is Some <==> has_instant(millis),
        out matches Some(text) ==> text@ == instant_text(millis),
{
    chrono::DateTime::from_timestamp_millis(millis).map(
        |instant| instant.format("%Y-%m-%d %H:%M:%S %Z").to_string(),
    )
}

/// A count of milliseconds read as a signed number of 64 bits.
pub open spec fn signed_millis(time_ms: u64) -> i64 {
    if time_ms <= i64::MAX {
        time_ms as i64
    } else {
        (time_ms - 0x1_0000_0000_0000_0000) as i64
    }
}

/// The text for a count of milliseconds that is no point in time.
pub open spec fn invalid_time_text(time_ms: u64) -> Seq<char> {
    "Invalid timestamp: "@ + decimal_text(time_ms as nat) + " ms"@
}

/// The text of a point in time, given in milliseconds since the epoch.
pub open spec fn time_text(time_ms: u64) -> Seq<char> {
    if has_instant(signed_millis(time_ms)) {
        instant_text(signed_millis(time_ms))
    } else {
        invalid_time_text(time_ms)
    }
}

/// The text for a count of milliseconds that is no point in time.
pub fn invalid_timestamp(time_ms: u64) -> (out: String)
    ensures
        out@ == invalid_time_text(time_ms),
{
    let mut out = String::from_str("Invalid timestamp: ");
    push_decimal(&mut out, time_ms as u128);
    out.append(" ms");
    out
}

/// The text of a point in time, given in milliseconds since the epoch.
pub fn format_time_ms_local(time_ms: u64) -> (out: String)
    ensures
        out@ == time_text(time_ms),
{
    let millis: i64 = if time_ms <= 0x7fff_ffff_ffff_ffff {
        time_ms as i64
    } else {
        ((time_ms - 0x8000_0000_0000_0000) as i64) + i64::MIN
    };
    match format_instant(millis) {
        Some(text) => text,
        None => invalid_timestamp(time_ms),
    }
}

} // verus!
