//! Instants as milliseconds since 1970-01-01T00:00:00Z, read from text by the
//! `chrono` crate.

use vstd::prelude::*;

verus! {

pub const MILLIS_PER_DAY: i64 = 86_400_000;

/// The instant that the RFC 3339 date and time `text` denotes, in
/// milliseconds since the epoch and without what is finer than a
/// millisecond; `None` when `text` is no such date and time.
pub uninterp spec fn rfc3339_millis(text: Seq<char>) -> Option<int>;

/// Midnight UTC of the calendar date that `text` denotes in the `strftime`
/// format `format`, in milliseconds since the epoch; `None` when `text` does
/// not read as a date in that format.
pub uninterp spec fn calendar_date_millis(text: Seq<char>, format: Seq<char>) -> Option<int>;

/// Reads `text` with `chrono::DateTime::parse_from_rfc3339` and converts with
/// `DateTime::timestamp_millis`. The contract claims only that the outcome is
/// `rfc3339_millis` of the text.
#[verifier::external_body]
pub(crate) fn parse_rfc3339(text: &str) -> (millis: Option<i64>)
    ensures
        millis matches Some(m) ==> rfc3339_millis(text@) == Some(m as int),
        millis is None ==> rfc3339_millis(text@) is None,
{
    chrono::DateTime::parse_from_rfc3339(text).ok().map(|instant| instant.timestamp_millis())
}

/// Reads `text` with `chrono::NaiveDate::parse_from_str`, takes midnight of
/// that date in UTC and converts with `DateTime::timestamp_millis`. The
/// contract claims only that the outcome is `calendar_date_millis` of the
/// text and the format.
#[verifier::external_body]
pub(crate) fn parse_calendar_date(text: &str, format: &str) -> (millis: Option<i64>)
    ensures
        millis matches Some(m) ==> calendar_date_millis(text@, format@) == Some(m as int),
        millis is None ==> calendar_date_millis(text@, format@) is None,
{
    chrono::NaiveDate::parse_from_str(text, format).ok().map(
        |date| chrono::NaiveDateTime::from(date).and_utc().timestamp_millis(),
    )
}

/// The whole days from `from` to `to`, both in milliseconds: the quotient by
/// the length of a day, rounded towards zero.
pub open spec fn whole_days(from: int, to: int) -> int {
    if to >= from {
        (to - from) / (MILLIS_PER_DAY as int)
    } else {
        -((from - to) / (MILLIS_PER_DAY as int))
    }
}

/// The whole days from `from` to `to`.
pub fn days_between(from: i64, to: i64) -> (days: i64)
    ensures
        days == whole_days(from as int, to as int),
{
    let span: i128 = to as i128 - from as i128;
    (span / (MILLIS_PER_DAY as i128)) as i64
}

} // verus!
