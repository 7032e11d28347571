//! Calendar conversions, done by `chrono`.

use vstd::prelude::*;
use chrono::DateTime;
use chrono::NaiveDateTime;
use chrono::ParseError;

verus! {

/// Why a text could not be read as a date and time.
#[verifier::external_type_specification]
#[verifier::external_body]
pub struct ExParseError(ParseError);

/// The milliseconds since the epoch that `chrono` reads out of `text` under
/// `format`, taking the written date and time as UTC; `None` where `chrono`
/// rejects the text.
pub uninterp spec fn datetime_millis(text: Seq<char>, format: Seq<char>) -> Option<i64>;

/// Whether `chrono` has a UTC date and time for `secs` whole seconds since
/// the epoch and `nanos` nanoseconds after them.
pub uninterp spec fn utc_timestamp_exists(secs: i64, nanos: u32) -> bool;

/// `NaiveDateTime::parse_from_str`, then `and_utc().timestamp_millis()` on the
/// value it read: the outcome depends on `text` and `format` alone.
#[verifier::external_body]
pub(crate) fn parse_datetime_millis(text: &str, format: &str) -> (outcome: Result<i64, ParseError>)
    ensures
        match outcome {
            Ok(millis) => datetime_millis(text@, format@) == Some(millis),
            Err(_) => datetime_millis(text@, format@).is_none(),
        },
{
    match NaiveDateTime::parse_from_str(text, format) {
        Ok(moment) => Ok(moment.and_utc().timestamp_millis()),
        Err(failure) => Err(failure),
    }
}

/// The description that `chrono` gives of a parse failure.
#[verifier::external_body]
pub(crate) fn describe_parse_error(failure: &ParseError) -> (text: String) {
    failure.to_string()
}

/// The last second of the year 9999, in seconds since the epoch.
pub const LAST_COMMON_SECOND: i64 = 253_402_300_799;

/// `DateTime::from_timestamp`: whether it returns a value. It returns one
/// for every second from the epoch to the end of the year 9999 with less
/// than a thousand million nanoseconds: its dates reach far beyond those
/// years, and every second of a day is a time.
#[verifier::external_body]
pub(crate) fn utc_timestamp_is_valid(secs: i64, nanos: u32) -> (valid: bool)
    ensures
        valid == utc_timestamp_exists(secs, nanos),
        0 <= secs <= LAST_COMMON_SECOND && nanos < 1_000_000_000 ==> valid,
{
    DateTime::from_timestamp(secs, nanos).is_some()
}

} // verus!
