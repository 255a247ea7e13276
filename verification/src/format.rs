//! Text forms of values for display.

use vstd::prelude::*;
use vstd::string::*;

verus! {

/// What chrono's `DateTime::from_timestamp_millis(ms)` formatted with
/// `"%Y-%m-%d %H:%M"` reads: the UTC minute of the instant `ms` milliseconds
/// after the Unix epoch, or `None` when that instant is out of chrono's range.
pub uninterp spec fn utc_minute_text(ms: i64) -> Option<Seq<char>>;

/// Calls `chrono::DateTime::from_timestamp_millis` and formats the result
/// with `"%Y-%m-%d %H:%M"`. Claimed: the result is `utc_minute_text(ms)`,
/// a function of `ms` alone.
#[verifier::external_body]
fn utc_minute(ms: i64) -> (text: Option<String>)
    ensures
        match text {
            Some(t) => utc_minute_text(ms) == Some(t@),
            None => utc_minute_text(ms) is None,
        },
{
    match chrono::DateTime::from_timestamp_millis(ms) {
        Some(datetime) => Some(datetime.format("%Y-%m-%d %H:%M").to_string()),
        None => None,
    }
}

/// The display text of an optional formatted instant: the text itself, or
/// `-` when there is none.
pub fn text_or_dash(text: Option<String>) -> (shown: String)
    ensures
        shown@ == match text {
            Some(t) => t@,
            None => "-"@,
        },
{
    match text {
        Some(t) => t,
        None => String::from_str("-"),
    }
}

/// The UTC date and minute of the instant `ms` milliseconds after the Unix
/// epoch, as `YYYY-MM-DD HH:MM`, or `-` when the instant is out of range.
pub fn format_timestamp_millis(ms: i64) -> (shown: String)
    ensures
        shown@ == match utc_minute_text(ms) {
            Some(t) => t,
            None => "-"@,
        },
{
    text_or_dash(utc_minute(ms))
}

} // verus!
