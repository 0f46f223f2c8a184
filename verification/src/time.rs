//! Points in time, through `jiff`.
use vstd::prelude::*;

verus! {

/// The instant that `text` names, in nanoseconds since the Unix epoch, or what
/// `jiff` says is wrong with it.
pub uninterp spec fn timestamp_of(text: Seq<char>) -> Result<i128, Seq<char>>;

/// `str::parse` into `jiff::Timestamp`, then `Timestamp::as_nanosecond`: the
/// instant in nanoseconds since the Unix epoch, or the parser's message.
#[verifier::external_body]
pub(crate) fn parse_timestamp(text: &str) -> (r: Result<i128, String>)
    ensures
        match r {
            Ok(n) => timestamp_of(text@) == Ok::<i128, Seq<char>>(n),
            Err(e) => timestamp_of(text@) == Err::<i128, Seq<char>>(e@),
        },
{
    text.parse::<jiff::Timestamp>().map(|t| t.as_nanosecond()).map_err(|e| e.to_string())
}

/// The instant `secs` seconds before `now`, or what `jiff` says is wrong with
/// it.
pub uninterp spec fn instant_before(now: i128, secs: i64) -> Result<i128, Seq<char>>;

/// `Timestamp::from_nanosecond`, then `Timestamp::checked_sub` of a
/// `SignedDuration`: the earlier instant in nanoseconds, or the message when
/// an instant is out of `jiff`'s range.
#[verifier::external_body]
pub(crate) fn earlier(now: i128, secs: i64) -> (r: Result<i128, String>)
    ensures
        match r {
            Ok(n) => instant_before(now, secs) == Ok::<i128, Seq<char>>(n) && n == now - secs
                * 1_000_000_000,
            Err(e) => instant_before(now, secs) == Err::<i128, Seq<char>>(e@),
        },
{
    jiff::Timestamp::from_nanosecond(now)
        .and_then(|t| t.checked_sub(jiff::SignedDuration::from_secs(secs)))
        .map(|t| t.as_nanosecond())
        .map_err(|e| e.to_string())
}

/// The instant `secs` seconds after the Unix epoch, in UTC and as `format` asks,
/// where `jiff` can hold the instant and knows the format.
pub uninterp spec fn utc_text_of(secs: i64, format: Seq<char>) -> Option<Seq<char>>;

/// `Timestamp::from_second`, then `strtime::format` in UTC: the text, or `None`
/// when the instant is out of `jiff`'s range or the format is none of `jiff`'s.
#[verifier::external_body]
pub(crate) fn utc_text(secs: i64, format: &str) -> (r: Option<String>)
    ensures
        match r {
            Some(s) => utc_text_of(secs, format@) == Some(s@),
            None => utc_text_of(secs, format@) is None,
        },
{
    jiff::Timestamp::from_second(secs)
        .and_then(|t| jiff::fmt::strtime::format(format, &t.to_zoned(jiff::tz::TimeZone::UTC)))
        .ok()
}

} // verus!
