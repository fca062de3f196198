//! Timestamps, as far as the synchronisation needs them: the instant that a
//! piece of text denotes and whether an instant can be handed to the calendar.
//! Both questions are answered by serenity's `Timestamp`.

use serenity::model::Timestamp;
use vstd::prelude::*;

verus! {

/// The instant that `text` denotes when read as an RFC 3339 date and time, in
/// whole seconds since the Unix epoch; `None` where `text` is no such date and
/// time.
pub uninterp spec fn rfc3339_unix_seconds(text: Seq<char>) -> Option<i64>;

/// Whether the calendar's timestamp type has a value for the instant `secs`
/// seconds after the Unix epoch.
pub uninterp spec fn timestamp_exists(secs: i64) -> bool;

/// Reads `text` with `serenity::model::Timestamp::parse` and takes the seconds
/// of the result with `Timestamp::unix_timestamp`.
///
/// Not proved: that the result depends on the characters of `text` alone, which
/// is what giving it the name `rfc3339_unix_seconds` claims. The parser takes an
/// explicit offset or `Z` and consults neither clock nor time zone.
#[verifier::external_body]
pub(crate) fn parse_unix_seconds(text: &str) -> (secs: Option<i64>)
    ensures
        secs == rfc3339_unix_seconds(text@),
{
    match Timestamp::parse(text) {
        Ok(stamp) => Some(stamp.unix_timestamp()),
        Err(_) => None,
    }
}

/// Asks `serenity::model::Timestamp::from_unix_timestamp` whether it accepts
/// `secs`.
///
/// Not proved: that the answer depends on `secs` alone, which is what giving it
/// the name `timestamp_exists` claims.
#[verifier::external_body]
pub(crate) fn has_timestamp(secs: i64) -> (exists: bool)
    ensures
        exists == timestamp_exists(secs),
{
    Timestamp::from_unix_timestamp(secs).is_ok()
}

} // verus!
