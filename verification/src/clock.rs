//! Reading the wall clock, and writing instants as text.
use vstd::prelude::*;
use crate::text::opt_chars;

verus! {

/// `chrono::Utc::now().timestamp_millis()`: the current time in milliseconds since the Unix
/// epoch. It depends on the moment of the call, so nothing is claimed of the value.
#[verifier::external_body]
pub fn now_millis() -> (t: i64) {
    chrono::Utc::now().timestamp_millis()
}

/// `chrono::Utc::now().to_rfc3339()`: the current time as RFC 3339 text. It depends on the
/// moment of the call, so nothing is claimed of the value.
#[verifier::external_body]
pub fn now_rfc3339() -> (t: String) {
    chrono::Utc::now().to_rfc3339()
}

/// What chrono's `Display` for `DateTime<Utc>` writes for the instant `ms` milliseconds after
/// the epoch (such as `2024-05-01 08:30:00 UTC`), or `None` where chrono has no such instant.
pub uninterp spec fn utc_display_text(ms: i64) -> Option<Seq<char>>;

/// What chrono's `format("%Y-%m-%d %H:%M:%S")` writes for the instant `ms` milliseconds after
/// the epoch, or `None` where chrono has no such instant.
pub uninterp spec fn utc_clock_text(ms: i64) -> Option<Seq<char>>;

/// `DateTime::<Utc>::from_timestamp_millis`, written with chrono's `Display`; the result is
/// named `utc_display_text` of the instant.
#[verifier::external_body]
pub fn display_utc(ms: i64) -> (r: Option<String>)
    ensures
        opt_chars(r) == utc_display_text(ms),
{
    chrono::DateTime::from_timestamp_millis(ms).map(|d| d.to_string())
}

/// `DateTime::<Utc>::from_timestamp_millis`, written with chrono's
/// `format("%Y-%m-%d %H:%M:%S")`; the result is named `utc_clock_text` of the instant.
#[verifier::external_body]
pub fn clock_utc(ms: i64) -> (r: Option<String>)
    ensures
        opt_chars(r) == utc_clock_text(ms),
{
    chrono::DateTime::from_timestamp_millis(ms).map(|d| d.format("%Y-%m-%d %H:%M:%S").to_string())
}

/// What chrono's `format("%Y-%m-%d %H:%M")` writes for the instant `ms` milliseconds after the
/// epoch, or `None` where chrono has no such instant.
pub uninterp spec fn utc_minute_text(ms: i64) -> Option<Seq<char>>;

/// `DateTime::<Utc>::from_timestamp_millis`, written with chrono's
/// `format("%Y-%m-%d %H:%M")`; the result is named `utc_minute_text` of the instant.
#[verifier::external_body]
pub fn minute_utc(ms: i64) -> (r: Option<String>)
    ensures
        opt_chars(r) == utc_minute_text(ms),
{
    chrono::DateTime::from_timestamp_millis(ms).map(|d| d.format("%Y-%m-%d %H:%M").to_string())
}

} // verus!
