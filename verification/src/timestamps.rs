//! Reading the timestamps that Docker writes.

use crate::text::{from_chars, slice, to_chars};
use vstd::prelude::*;

verus! {

/// The seconds since the Unix epoch that `chrono` reads from an RFC 3339
/// date and time, or `None` where it reads none.
pub uninterp spec fn rfc3339_seconds(text: Seq<char>) -> Option<i64>;

/// The seconds since the Unix epoch that `chrono` reads from a date and time
/// without zone, taken as UTC, under a `strftime` format, or `None` where the
/// text does not fit the format.
pub uninterp spec fn naive_seconds(text: Seq<char>, format: Seq<char>) -> Option<i64>;

/// `DateTime::parse_from_rfc3339` of `chrono`, then `DateTime::timestamp`:
/// the instant that the text names, in seconds since the Unix epoch.
#[verifier::external_body]
pub(crate) fn parse_rfc3339(text: &str) -> (r: Option<i64>)
    ensures
        r == rfc3339_seconds(text@),
{
    match chrono::DateTime::parse_from_rfc3339(text) {
        Ok(instant) => Some(instant.timestamp()),
        Err(_) => None,
    }
}

/// `NaiveDateTime::parse_from_str` of `chrono`, then `and_utc` and
/// `DateTime::timestamp`: the date and time that the text gives under the
/// format, as seconds since the Unix epoch in UTC.
#[verifier::external_body]
pub(crate) fn parse_naive(text: &str, format: &str) -> (r: Option<i64>)
    ensures
        r == naive_seconds(text@, format@),
{
    match chrono::NaiveDateTime::parse_from_str(text, format) {
        Ok(moment) => Some(moment.and_utc().timestamp()),
        Err(_) => None,
    }
}

/// The format of the date and time at the start of a Docker CLI timestamp.
pub const DOCKER_TIME_FORMAT: &'static str = "%Y-%m-%d %H:%M:%S";

/// The number of characters that the date and time take.
pub const DOCKER_TIME_LENGTH: usize = 19;

/// A timestamp as a report holds it: the seconds read, or 0 where none were.
pub fn timestamp_or_zero(seconds: Option<i64>) -> (r: i64)
    ensures
        r == match seconds {
            Some(s) => s,
            None => 0,
        },
{
    match seconds {
        Some(s) => s,
        None => 0,
    }
}

/// What a Docker CLI timestamp such as `2024-01-15 10:30:45 +0000 UTC`
/// denotes: its first 19 characters read as a date and time in UTC; 0 where
/// the text is shorter or those characters are no date and time.
pub open spec fn docker_timestamp(text: Seq<char>) -> i64 {
    if text.len() < DOCKER_TIME_LENGTH {
        0
    } else {
        match naive_seconds(text.subrange(0, DOCKER_TIME_LENGTH as int), DOCKER_TIME_FORMAT@) {
            Some(s) => s,
            None => 0,
        }
    }
}

/// Parse Docker timestamp format (e.g., "2024-01-15 10:30:45 +0000 UTC").
pub fn parse_docker_timestamp(timestamp_str: &str) -> (r: i64)
    ensures
        r == docker_timestamp(timestamp_str@),
{
    let raw = to_chars(timestamp_str);
    if raw.len() < DOCKER_TIME_LENGTH {
        return 0;
    }
    let head = from_chars(&slice(&raw, 0, DOCKER_TIME_LENGTH));
    timestamp_or_zero(parse_naive(head.as_str(), DOCKER_TIME_FORMAT))
}

/// What an RFC 3339 timestamp of the Docker API denotes: the seconds read,
/// or 0 where there is none or it cannot be read.
pub open spec fn api_timestamp(text: Option<Seq<char>>) -> i64 {
    match text {
        Some(t) => match rfc3339_seconds(t) {
            Some(s) => s,
            None => 0,
        },
        None => 0,
    }
}

pub fn parse_api_timestamp(text: &Option<String>) -> (r: i64)
    ensures
        r == api_timestamp(
            match *text {
                Some(t) => Some(t@),
                None => None,
            },
        ),
{
    match text {
        Some(t) => timestamp_or_zero(parse_rfc3339(t.as_str())),
        None => 0,
    }
}

} // verus!
