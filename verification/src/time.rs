//! Timestamps of notifications.
//!
//! A notification carries its time as RFC 3339 text with any offset. The
//! bridge publishes the same instant in UTC. Reading and writing dates is the
//! work of `chrono`.

use vstd::prelude::*;

verus! {

/// The RFC 3339 text in UTC of the instant that `text` denotes, or `None`
/// where `text` is no date and time.
pub uninterp spec fn utc_rfc3339(text: Seq<char>) -> Option<Seq<char>>;

/// Reads `text` with `chrono`'s `FromStr` for `DateTime<Utc>` and writes the
/// instant back with `DateTime::to_rfc3339_opts`, seconds as short as they
/// go and `Z` for the offset.
///
/// Trusted: both steps depend on the text alone, so the result is the one
/// that `utc_rfc3339` names, and reading fails exactly where it gives `None`.
#[verifier::external_body]
pub(crate) fn normalize_time(text: &str) -> (r: Option<String>)
    ensures
        match r {
            Some(t) => utc_rfc3339(text@) == Some(t@),
            None => utc_rfc3339(text@) is None,
        },
{
    match text.parse::<chrono::DateTime<chrono::Utc>>() {
        Ok(instant) => Some(instant.to_rfc3339_opts(chrono::SecondsFormat::AutoSi, true)),
        Err(_) => None,
    }
}

} // verus!
