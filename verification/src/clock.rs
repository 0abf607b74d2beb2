//! The calendar and clock operations of the tool, made by `chrono`.
//! Reading the clock gives a different answer on every call, so nothing is
//! stated of the current time; what is read from a timestamp's text depends
//! on that text alone.

use vstd::prelude::*;

verus! {

/// Whether `chrono::DateTime::parse_from_rfc3339` accepts the text `s`.
pub uninterp spec fn rfc3339_accepts(s: Seq<char>) -> bool;

/// The timestamp written in RFC 3339 form in `s`, formatted by `chrono` as
/// `%Y-%m-%d %H:%M` in its own offset.
pub uninterp spec fn rfc3339_minutes_text(s: Seq<char>) -> Seq<char>;

/// `chrono::DateTime::parse_from_rfc3339` followed by
/// `format("%Y-%m-%d %H:%M")`: the minute of the timestamp in `s`, or nothing
/// when `s` is not an RFC 3339 timestamp. The result depends on the text alone.
#[verifier::external_body]
pub(crate) fn rfc3339_minutes(s: &str) -> (r: Option<String>)
    ensures
        r is Some <==> rfc3339_accepts(s@),
        r matches Some(t) ==> t@ == rfc3339_minutes_text(s@),
{
    match chrono::DateTime::parse_from_rfc3339(s) {
        Ok(t) => Some(t.format("%Y-%m-%d %H:%M").to_string()),
        Err(_) => None,
    }
}

/// The whole seconds from the timestamp in `earlier` to the one in `later`,
/// both in RFC 3339 form, as `chrono` counts them.
pub uninterp spec fn rfc3339_seconds_between(later: Seq<char>, earlier: Seq<char>) -> int;

/// `chrono::DateTime::parse_from_rfc3339` of both texts, then
/// `signed_duration_since` in whole seconds (`TimeDelta::num_seconds`, rounded
/// toward zero): how long after `earlier` the timestamp `later` lies, or
/// nothing when either text is not an RFC 3339 timestamp. The result depends
/// on the two texts alone; how `chrono` counts across a leap second is left
/// to the name.
#[verifier::external_body]
pub(crate) fn seconds_between_rfc3339(later: &str, earlier: &str) -> (r: Option<i64>)
    ensures
        r is Some <==> (rfc3339_accepts(later@) && rfc3339_accepts(earlier@)),
        r matches Some(d) ==> d == rfc3339_seconds_between(later@, earlier@),
{
    match (chrono::DateTime::parse_from_rfc3339(later), chrono::DateTime::parse_from_rfc3339(earlier)) {
        (Ok(l), Ok(e)) => Some(l.signed_duration_since(e).num_seconds()),
        _ => None,
    }
}

/// `chrono::Local::now().to_rfc3339()`: the current local time in RFC 3339
/// form. Nothing is stated of it.
#[verifier::external_body]
pub(crate) fn now_rfc3339() -> String {
    chrono::Local::now().to_rfc3339()
}

/// `chrono::Local::now().format("%Y-%m-%d %H:%M")`: the current local minute.
/// Nothing is stated of it.
#[verifier::external_body]
pub(crate) fn now_minutes() -> String {
    chrono::Local::now().format("%Y-%m-%d %H:%M").to_string()
}

/// `SystemTime::now()` in whole microseconds since the Unix epoch (0 when the
/// clock is set before it). Nothing is stated of it.
#[verifier::external_body]
pub(crate) fn micros_since_epoch() -> u128 {
    std::time::SystemTime::now().duration_since(std::time::UNIX_EPOCH).unwrap_or_default().as_micros()
}

} // verus!
