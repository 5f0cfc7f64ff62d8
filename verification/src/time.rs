//! Dates and times, as `chrono` reads and writes them.
use vstd::prelude::*;

use crate::mailbox::opt_text;

verus! {

/// What `chrono` makes of a `YYYY-MM-DD` date (`NaiveDate::parse_from_str` with
/// `%Y-%m-%d`) taken at 00:00:00 UTC and written by `DateTime::to_rfc3339`; `None` when
/// the text is not such a date.
pub uninterp spec fn ymd_midnight_rfc3339(s: Seq<char>) -> Option<Seq<char>>;

/// What `chrono` makes of an RFC 3339 timestamp (`DateTime::parse_from_rfc3339`) moved to
/// UTC and written by `to_rfc3339`; on failure, the text of chrono's parse error.
pub uninterp spec fn rfc3339_in_utc(s: Seq<char>) -> Result<Seq<char>, Seq<char>>;

/// What `chrono` writes (`to_rfc3339`) for the UTC instant `ts` seconds after the Unix
/// epoch (`DateTime::<Utc>::from_timestamp`); `None` when the instant is out of its range.
pub uninterp spec fn unix_seconds_rfc3339(ts: int) -> Option<Seq<char>>;

/// Calls `chrono::NaiveDate::parse_from_str(s, "%Y-%m-%d")`, takes the date at midnight
/// UTC and writes it with `to_rfc3339`. The contract only names the result.
#[verifier::external_body]
pub(crate) fn parse_ymd_midnight(s: &str) -> (r: Option<String>)
    ensures
        opt_text(r) == ymd_midnight_rfc3339(s@),
{
    chrono::NaiveDate::parse_from_str(s, "%Y-%m-%d").ok().and_then(|d| d.and_hms_opt(0, 0, 0)).map(
        |dt| chrono::TimeZone::from_utc_datetime(&chrono::Utc, &dt).to_rfc3339(),
    )
}

/// Calls `chrono::DateTime::parse_from_rfc3339(s)`, moves the instant to UTC and writes it
/// with `to_rfc3339`; an error is chrono's error message. The contract only names the result.
#[verifier::external_body]
pub(crate) fn parse_rfc3339_utc(s: &str) -> (r: Result<String, String>)
    ensures
        match rfc3339_in_utc(s@) {
            Ok(t) => r matches Ok(x) && x@ == t,
            Err(m) => r matches Err(x) && x@ == m,
        },
{
    chrono::DateTime::parse_from_rfc3339(s).map(|dt| dt.with_timezone(&chrono::Utc).to_rfc3339()).map_err(
        |e| e.to_string(),
    )
}

/// Calls `chrono::DateTime::<Utc>::from_timestamp(ts, 0)` and writes the instant with
/// `to_rfc3339`. The contract only names the result.
#[verifier::external_body]
pub(crate) fn timestamp_rfc3339(ts: i64) -> (r: Option<String>)
    ensures
        opt_text(r) == unix_seconds_rfc3339(ts as int),
{
    chrono::DateTime::<chrono::Utc>::from_timestamp(ts, 0).map(|dt| dt.to_rfc3339())
}

/// An optional Unix timestamp (seconds) as RFC 3339 text in UTC; `None` when there is
/// no timestamp or it is out of range.
pub fn to_rfc3339(ts: Option<i64>) -> (r: Option<String>)
    ensures
        opt_text(r) == match ts {
            Some(t) => unix_seconds_rfc3339(t as int),
            None => None,
        },
{
    match ts {
        Some(t) => timestamp_rfc3339(t),
        None => None,
    }
}

} // verus!
