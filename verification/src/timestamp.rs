//! Commit times: an instant together with the offset from UTC it was written with.

use vstd::prelude::*;
use crate::error::HistoryError;

verus! {

/// A date and time with its offset from UTC.
///
/// Two timestamps are the same only if they name the same instant *and* carry
/// the same offset: `15:00:33+08:00` and `07:00:33+00:00` differ.
#[derive(Debug, Clone, Copy, PartialEq, Eq, Structural)]
pub struct Timestamp {
    /// Whole seconds since 1970-01-01T00:00:00Z, not counting leap seconds.
    pub seconds: i64,
    /// Nanoseconds past `seconds`. A value of a billion or more stands for a
    /// leap second.
    pub nanos: u32,
    /// Local time minus UTC, in seconds: positive east of Greenwich.
    pub offset_seconds: i32,
}

#[verifier::external_type_specification]
#[verifier::external_body]
pub struct ExDateParseError(chrono::ParseError);

/// The timestamp that a date text stands for, where chrono reads it as one.
///
/// This is `str::parse::<chrono::DateTime<chrono::FixedOffset>>`: RFC 3339 as
/// in `2017-10-21T15:00:33+08:00`, and the looser spellings of it that chrono
/// also takes.
pub uninterp spec fn date_of(text: Seq<char>) -> Option<Timestamp>;

/// Calls chrono's `FromStr` for `DateTime<FixedOffset>` and takes the value
/// apart with `timestamp`, `timestamp_subsec_nanos` and
/// `offset().local_minus_utc()`.
///
/// Trusted: the outcome depends on the text alone, and is `date_of` of it.
#[verifier::external_body]
pub(crate) fn parse_date(text: &str) -> (r: Result<Timestamp, chrono::ParseError>)
    ensures
        match r {
            Ok(t) => date_of(text@) == Some(t),
            Err(_) => date_of(text@) is None,
        },
{
    let date = text.parse::<chrono::DateTime<chrono::FixedOffset>>()?;
    Ok(
        Timestamp {
            seconds: date.timestamp(),
            nanos: date.timestamp_subsec_nanos(),
            offset_seconds: date.offset().local_minus_utc(),
        },
    )
}

impl Timestamp {
    /// Turns what the date parser answered into this crate's terms: a
    /// timestamp stays as it is, any refusal becomes a parse failure.
    pub fn from_parsed(parsed: Result<Timestamp, chrono::ParseError>) -> (r: Result<
        Timestamp,
        HistoryError,
    >)
        ensures
            match parsed {
                Ok(t) => r == Ok::<Timestamp, HistoryError>(t),
                Err(_) => r matches Err(e) && e.is_parse_failure(),
            },
    {
        match parsed {
            Ok(t) => Ok(t),
            Err(_) => Err(HistoryError::parse_failure()),
        }
    }

    /// Reads a timestamp from its text.
    pub fn parse(text: &str) -> (r: Result<Timestamp, HistoryError>)
        ensures
            match r {
                Ok(t) => date_of(text@) == Some(t),
                Err(e) => date_of(text@) is None && e.is_parse_failure(),
            },
    {
        Timestamp::from_parsed(parse_date(text))
    }
}

} // verus!
