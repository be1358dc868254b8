//! Time as the engine uses it: seconds and nanoseconds since the start of
//! 1970 in UTC, and the two texts made from them.

use crate::text::opt_view;
use std::fmt::Write;
use vstd::prelude::*;

verus! {

/// A point in time: seconds since the start of 1970 in UTC, and the
/// nanoseconds into that second.
#[derive(Debug, Clone, Copy)]
pub struct UnixTime {
    pub secs: i64,
    pub nanos: u32,
}

/// The RFC 3339 text that `chrono` gives for a point in time, or nothing
/// where `chrono` cannot represent the point.
pub uninterp spec fn rfc3339_text(secs: i64, nanos: u32) -> Option<Seq<char>>;

/// The text that `chrono` gives for a point in time under a `strftime`
/// pattern, or nothing where it cannot represent the point or the pattern is
/// not one it accepts.
pub uninterp spec fn pattern_text(secs: i64, nanos: u32, pattern: Seq<char>) -> Option<Seq<char>>;

/// The pattern of the names of trash folders: date and time to the second,
/// widest unit first.
pub open spec fn slot_pattern() -> Seq<char> {
    "%Y%m%d_%H%M%S"@
}

/// The text of an optional point in time as entries show it: RFC 3339, or
/// empty where the time is not known or cannot be represented.
pub open spec fn time_text(t: Option<UnixTime>) -> Seq<char> {
    match t {
        Some(u) => match rfc3339_text(u.secs, u.nanos) {
            Some(s) => s,
            None => Seq::empty(),
        },
        None => Seq::empty(),
    }
}

/// Calls `chrono::Utc::now` and hands back its `timestamp` and
/// `timestamp_subsec_nanos`. Nothing is claimed of the result: it is what the
/// clock says. `chrono` panics where the clock stands before 1970.
#[verifier::external_body]
pub(crate) fn unix_now() -> (now: UnixTime) {
    let t = chrono::Utc::now();
    UnixTime { secs: t.timestamp(), nanos: t.timestamp_subsec_nanos() }
}

/// Calls `chrono::DateTime::from_timestamp` and, where that gives a time,
/// `to_rfc3339` on it. The contract names the result `rfc3339_text`: it
/// claims only that the text depends on the two numbers alone.
#[verifier::external_body]
pub(crate) fn rfc3339_utc(secs: i64, nanos: u32) -> (text: Option<String>)
    ensures
        opt_view(text) == rfc3339_text(secs, nanos),
{
    match chrono::DateTime::from_timestamp(secs, nanos) {
        Some(t) => Some(t.to_rfc3339()),
        None => None,
    }
}

/// Calls `chrono::DateTime::from_timestamp` and, where that gives a time,
/// writes `format(pattern)` of it into a string; a pattern that `chrono`
/// refuses gives nothing. The contract names the result `pattern_text`: it
/// claims only that the text depends on the numbers and the pattern alone.
#[verifier::external_body]
pub(crate) fn format_utc(secs: i64, nanos: u32, pattern: &str) -> (text: Option<String>)
    ensures
        opt_view(text) == pattern_text(secs, nanos, pattern@),
{
    match chrono::DateTime::from_timestamp(secs, nanos) {
        Some(t) => {
            let mut s = String::new();
            match write!(s, "{}", t.format(pattern)) {
                Ok(()) => Some(s),
                Err(_) => None,
            }
        },
        None => None,
    }
}

/// The RFC 3339 text of a point in time, empty where the point cannot be
/// represented.
pub fn timestamp_text(t: UnixTime) -> (text: String)
    ensures
        text@ == time_text(Some(t)),
{
    match rfc3339_utc(t.secs, t.nanos) {
        Some(s) => s,
        None => String::new(),
    }
}

/// The text of an optional point in time, empty where there is none.
pub fn optional_timestamp_text(t: Option<UnixTime>) -> (text: String)
    ensures
        text@ == time_text(t),
{
    match t {
        Some(u) => timestamp_text(u),
        None => String::new(),
    }
}

/// The name of the trash folder made at the given second, or nothing where
/// the second cannot be represented.
pub fn slot_name(secs: i64) -> (name: Option<String>)
    ensures
        opt_view(name) == pattern_text(secs, 0, slot_pattern()),
{
    format_utc(secs, 0, "%Y%m%d_%H%M%S")
}

} // verus!
