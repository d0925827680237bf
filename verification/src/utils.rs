//! The one thing the library asks of the calendar: a time stamp for the log.

use vstd::prelude::*;

verus! {

/// The text for the second `secs` after the start of 1970 in UTC, in the form
/// `%Y-%m-%d_%H-%M-%S`, as `chrono` writes it; none where `chrono` knows no date for
/// that second.
pub uninterp spec fn timestamp_text(secs: i64) -> Option<Seq<u8>>;

/// The time stamp for the second `secs` after the start of 1970 in UTC, from
/// `chrono::DateTime::from_timestamp` and `chrono::DateTime::format`.
///
/// Trusted: the outcome depends on `secs` alone.
#[verifier::external_body]
pub fn now_timestamp(secs: i64) -> (r: Option<Vec<u8>>)
    ensures
        match r {
            Some(text) => timestamp_text(secs) == Some(text@),
            None => timestamp_text(secs).is_none(),
        },
{
    match chrono::DateTime::from_timestamp(secs, 0) {
        Some(t) => Some(t.format("%Y-%m-%d_%H-%M-%S").to_string().into_bytes()),
        None => None,
    }
}

} // verus!
