//! Timestamps read from text by `chrono`.
use vstd::prelude::*;

verus! {

/// What `chrono::DateTime::parse_from_rfc3339` makes of a text, as
/// milliseconds since the Unix epoch: `None` where it refuses the text.
pub uninterp spec fn rfc3339_millis(raw: Seq<char>) -> Option<int>;

/// Calls `chrono::DateTime::parse_from_rfc3339` and reads the instant with
/// `timestamp_millis`. The contract claims only that the outcome is a
/// function of the text, named [`rfc3339_millis`].
#[verifier::external_body]
pub(crate) fn parse_rfc3339_millis(raw: &str) -> (t: Option<i64>)
    ensures
        match t {
            Some(v) => rfc3339_millis(raw@) == Some(v as int),
            None => rfc3339_millis(raw@) is None,
        },
{
    match chrono::DateTime::parse_from_rfc3339(raw) {
        Ok(time) => Some(time.timestamp_millis()),
        Err(_) => None,
    }
}

/// What `chrono::NaiveDateTime::parse_from_str` makes of a text in a
/// format, read as UTC seconds since the Unix epoch: `None` where it
/// refuses the text.
pub uninterp spec fn utc_datetime_seconds(raw: Seq<char>, format: Seq<char>) -> Option<int>;

/// Calls `chrono::NaiveDateTime::parse_from_str` with the given format and
/// reads the result as UTC with `and_utc` and `timestamp`. The contract
/// claims only that the outcome is a function of the text and the format,
/// named [`utc_datetime_seconds`].
#[verifier::external_body]
pub(crate) fn parse_utc_datetime_seconds(raw: &str, format: &str) -> (t: Option<i64>)
    ensures
        match t {
            Some(v) => utc_datetime_seconds(raw@, format@) == Some(v as int),
            None => utc_datetime_seconds(raw@, format@) is None,
        },
{
    match chrono::NaiveDateTime::parse_from_str(raw, format) {
        Ok(time) => Some(time.and_utc().timestamp()),
        Err(_) => None,
    }
}

} // verus!
