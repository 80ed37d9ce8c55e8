//! Time from the `chrono` crate: the current time, and timestamps checked
//! against the range `chrono` can represent.

use vstd::prelude::*;

verus! {

/// The current time, in seconds since the Unix epoch (`chrono::Utc::now`,
/// then `timestamp`). Nothing is claimed of the value: it is the time of
/// the call.
#[verifier::external_body]
pub(crate) fn now_unix() -> (r: i64) {
    chrono::Utc::now().timestamp()
}

/// The earliest Unix time `chrono` represents: the start of January 1 of
/// the year -262143 (`NaiveDate::MIN`).
pub const MIN_TIMESTAMP: i64 = -8334601228800;

/// The latest Unix time `chrono` represents: the last second of December
/// 31 of the year 262142 (`NaiveDate::MAX`).
pub const MAX_TIMESTAMP: i64 = 8210266876799;

/// Whether `chrono::DateTime::from_timestamp` can represent `secs` seconds
/// after the Unix epoch: its date must lie between `NaiveDate::MIN` and
/// `NaiveDate::MAX`.
pub open spec fn secs_representable(secs: int) -> bool {
    MIN_TIMESTAMP <= secs <= MAX_TIMESTAMP
}

/// `chrono::DateTime::from_timestamp(secs, 0)`, then `timestamp`: the date
/// splits `secs` into days and seconds of the day with `div_euclid` and
/// `rem_euclid`, gives nothing when the day lies outside `chrono`'s range of
/// dates, and `timestamp` joins days and seconds again, so a result is
/// `secs` itself.
#[verifier::external_body]
pub(crate) fn from_timestamp_secs(secs: i64) -> (r: Option<i64>)
    ensures
        r == (if secs_representable(secs as int) {
            Some(secs)
        } else {
            None::<i64>
        }),
{
    chrono::DateTime::from_timestamp(secs, 0).map(|d| d.timestamp())
}

/// What `chrono::DateTime::from_timestamp_millis` makes of `millis`, read
/// back with `timestamp`: the whole seconds, rounded down, when they are
/// in `chrono`'s range.
pub open spec fn millis_to_secs_result(millis: int) -> Option<int> {
    if secs_representable(millis / 1000) {
        Some(millis / 1000)
    } else {
        None
    }
}

/// `chrono::DateTime::from_timestamp_millis`, then `timestamp`. Its source
/// splits `millis` with `div_euclid` and `rem_euclid` by 1000 and calls
/// `from_timestamp` with the seconds and a nanosecond part below a
/// second, so it gives the whole seconds, rounded down, exactly when
/// `from_timestamp` can represent them.
#[verifier::external_body]
pub(crate) fn millis_to_secs(millis: i64) -> (r: Option<i64>)
    ensures
        match r {
            Some(s) => millis_to_secs_result(millis as int) == Some(s as int) && s as int
                == (millis as int) / 1000,
            None => millis_to_secs_result(millis as int) is None,
        },
{
    chrono::DateTime::from_timestamp_millis(millis).map(|d| d.timestamp())
}

#[verifier::external_type_specification]
#[verifier::external_body]
pub struct ExChronoParseError(chrono::ParseError);

/// Name for the Unix time (seconds) of an RFC 3339 date-time as
/// `chrono::DateTime::parse_from_rfc3339` reads it: nothing when it does
/// not parse.
pub uninterp spec fn rfc3339_secs_result(s: Seq<char>) -> Option<int>;

/// `chrono::DateTime::parse_from_rfc3339`, then `timestamp`. The contract
/// names the result; the date-time grammar is not restated.
#[verifier::external_body]
pub(crate) fn rfc3339_to_secs(s: &str) -> (r: Result<i64, chrono::ParseError>)
    ensures
        match r {
            Ok(t) => rfc3339_secs_result(s@) == Some(t as int),
            Err(_) => rfc3339_secs_result(s@) is None,
        },
{
    chrono::DateTime::parse_from_rfc3339(s).map(|dt| dt.timestamp())
}

} // verus!
