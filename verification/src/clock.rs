//! Instants of time as plain numbers, and the calendar texts for them.
use vstd::prelude::*;

use chrono::DateTime;
use chrono::NaiveDateTime;
use chrono::Utc;
use std::fmt::Write;

use crate::text::{is_single_line, opt_text};

verus! {

/// An instant: whole seconds since 1970-01-01T00:00:00Z, not counting leap
/// seconds, and the nanoseconds past that second.
#[derive(Debug, Clone, Copy, PartialEq, Eq, Hash, Structural)]
pub struct Timestamp {
    pub secs: i64,
    pub nanos: u32,
}

/// The nanoseconds of a second.
pub const NANOS_PER_SECOND: u32 = 1_000_000_000;

/// The nanoseconds of one hour.
pub const NANOS_PER_HOUR: i128 = 3_600_000_000_000;

/// The format of year, month, day, hour and minute, with the letters UTC
/// behind them.
pub const MINUTE_FORMAT: &'static str = "%Y-%m-%d %H:%M UTC";

/// 0000-01-01T00:00:00Z.
pub const FIRST_CALENDAR_SECOND: i64 = -62_167_219_200;

/// 9999-12-31T23:59:59Z.
pub const LAST_CALENDAR_SECOND: i64 = 253_402_300_799;

/// The text that `chrono::DateTime::<Utc>::to_rfc3339` gives for the instant
/// with these seconds and nanoseconds; `None` where
/// `chrono::DateTime::from_timestamp` has no date for them.
pub uninterp spec fn rfc3339_text(secs: i64, nanos: u32) -> Option<Seq<char>>;

/// The instant that `chrono::DateTime::parse_from_rfc3339` reads from a
/// text, brought to UTC, as seconds and nanoseconds; `None` where it
/// reports an error.
pub uninterp spec fn rfc3339_instant(text: Seq<char>) -> Option<(i64, u32)>;

/// The instant that `chrono::NaiveDateTime::parse_from_str` reads from a
/// text under a format, taken as UTC; `None` where it reports an error.
pub uninterp spec fn pattern_instant(text: Seq<char>, pattern: Seq<char>) -> Option<(i64, u32)>;

/// The text that `chrono::DateTime::<Utc>::format` writes for an instant
/// under a format; `None` where there is no date for the instant or the
/// format cannot be written.
pub uninterp spec fn pattern_text(secs: i64, nanos: u32, pattern: Seq<char>) -> Option<Seq<char>>;

impl Timestamp {
    /// Whether the instant names no leap second: its nanoseconds stay
    /// below a whole second.
    pub open spec fn is_plain_second(self) -> bool {
        self.nanos < NANOS_PER_SECOND
    }

    /// Whether the instant names a leap second: the last second of a
    /// minute, with one more second held in its nanoseconds.
    pub open spec fn is_leap_second(self) -> bool {
        &&& NANOS_PER_SECOND <= self.nanos < 2 * NANOS_PER_SECOND
        &&& (self.secs as int) % 60 == 59
    }

    /// Whether the instant lies in the years 0000 to 9999 and names a plain
    /// or a leap second: the instants that an RFC 3339 text can hold.
    pub open spec fn in_calendar(self) -> bool {
        &&& FIRST_CALENDAR_SECOND <= self.secs <= LAST_CALENDAR_SECOND
        &&& (self.is_plain_second() || self.is_leap_second())
    }

    /// The nanoseconds from the epoch to this instant.
    pub open spec fn total_nanos(self) -> int {
        self.secs * 1_000_000_000 + self.nanos
    }

    /// Whether this instant comes strictly before `other`.
    pub open spec fn is_before(self, other: Timestamp) -> bool {
        self.secs < other.secs || (self.secs == other.secs && self.nanos < other.nanos)
    }

    /// The nanoseconds from `self` to `later`; negative where `later` comes
    /// first.
    pub open spec fn span_until(self, later: Timestamp) -> int {
        later.total_nanos() - self.total_nanos()
    }

    /// Whether this instant lies more than `days` whole days before `now`.
    pub open spec fn is_older_than(self, now: Timestamp, days: u64) -> bool {
        let cutoff = now.secs - days * 86_400;
        self.secs < cutoff || (self.secs == cutoff && self.nanos < now.nanos)
    }

    /// The instant with the given seconds and nanoseconds.
    pub fn new(secs: i64, nanos: u32) -> (t: Timestamp)
        ensures
            t.secs == secs,
            t.nanos == nanos,
    {
        Timestamp { secs, nanos }
    }

    /// The current instant, read from the system clock. Whatever the
    /// clock says, the instant names no leap second.
    pub fn now() -> (t: Timestamp)
        ensures
            t.is_plain_second(),
    {
        current_instant()
    }

    /// Whether this instant comes strictly before `other`.
    pub fn before(&self, other: &Timestamp) -> (b: bool)
        ensures
            b == self.is_before(*other),
    {
        self.secs < other.secs || (self.secs == other.secs && self.nanos < other.nanos)
    }

    /// The nanoseconds from this instant to `later`; negative where `later`
    /// comes first.
    pub fn nanos_until(&self, later: &Timestamp) -> (span: i128)
        ensures
            span == self.span_until(*later),
    {
        let from: i128 = self.secs as i128 * 1_000_000_000 + self.nanos as i128;
        let to: i128 = later.secs as i128 * 1_000_000_000 + later.nanos as i128;
        to - from
    }

    /// Whether this instant lies more than `days` whole days before `now`.
    pub fn older_than_days(&self, now: &Timestamp, days: u64) -> (b: bool)
        ensures
            b == self.is_older_than(*now, days),
    {
        let cutoff: i128 = now.secs as i128 - days as i128 * 86_400;
        let mine: i128 = self.secs as i128;
        mine < cutoff || (mine == cutoff && self.nanos < now.nanos)
    }

    /// The instant as an RFC 3339 text, where the calendar has a date for it.
    pub fn to_rfc3339(&self) -> (text: Option<String>)
        ensures
            opt_text(text) == rfc3339_text(self.secs, self.nanos),
            self.in_calendar() ==> text is Some && rfc3339_instant(text->0@) == Some(
                (self.secs, self.nanos),
            ),
    {
        rfc3339_of(self.secs, self.nanos)
    }

    /// The instant that an RFC 3339 text names, where it names one.
    pub fn parse_rfc3339(text: &str) -> (t: Option<Timestamp>)
        ensures
            t == instant_of(rfc3339_instant(text@)),
    {
        match read_rfc3339(text) {
            Some((secs, nanos)) => Some(Timestamp { secs, nanos }),
            None => None,
        }
    }

    /// The instant that a text names under a format of date and time
    /// fields, read as UTC.
    pub fn parse_pattern(text: &str, pattern: &str) -> (t: Option<Timestamp>)
        ensures
            t == instant_of(pattern_instant(text@, pattern@)),
    {
        match read_pattern(text, pattern) {
            Some((secs, nanos)) => Some(Timestamp { secs, nanos }),
            None => None,
        }
    }

    /// The instant written under a format of date and time fields; the
    /// empty text where the calendar has no date for it or the format
    /// cannot be written.
    pub fn format(&self, pattern: &str) -> (text: String)
        ensures
            text@ == shown(*self, pattern@),
            pattern@ == MINUTE_FORMAT@ ==> is_single_line(text@),
    {
        match write_pattern(self.secs, self.nanos, pattern) {
            Some(text) => text,
            None => String::new(),
        }
    }
}

/// The instant with the given seconds and nanoseconds, if any.
pub open spec fn instant_of(parts: Option<(i64, u32)>) -> Option<Timestamp> {
    match parts {
        Some((secs, nanos)) => Some(Timestamp { secs, nanos }),
        None => None,
    }
}

/// What `Timestamp::format` returns.
pub open spec fn shown(t: Timestamp, pattern: Seq<char>) -> Seq<char> {
    match pattern_text(t.secs, t.nanos, pattern) {
        Some(text) => text,
        None => Seq::empty(),
    }
}

/// `chrono::Utc::now`, as seconds and nanoseconds since the epoch. Which
/// instant it is depends on the system clock, and nothing is claimed of
/// that. One thing holds of every outcome: the crate makes the instant
/// from the whole seconds and the nanoseconds of a `std::time::Duration`,
/// and std documents those nanoseconds as less than one billion, so the
/// instant names no leap second. The crate does not return where the
/// clock stands before 1970.
#[verifier::external_body]
fn current_instant() -> (t: Timestamp)
    ensures
        t.is_plain_second(),
{
    let now = Utc::now();
    Timestamp { secs: now.timestamp(), nanos: now.timestamp_subsec_nanos() }
}

/// `chrono::DateTime::from_timestamp` followed by `to_rfc3339`. The result
/// is named, not described. For an instant of the years 0000 to 9999 the
/// crate gives a date where the nanoseconds stay below a second, and also
/// where they hold one second more and the second is the last of its
/// minute, which it writes as second 60. The text is RFC 3339, and
/// `parse_from_rfc3339` reads it back to the same instant, second 60 as
/// the leap second it was written from.
#[verifier::external_body]
fn rfc3339_of(secs: i64, nanos: u32) -> (text: Option<String>)
    ensures
        opt_text(text) == rfc3339_text(secs, nanos),
        (Timestamp { secs, nanos }).in_calendar() ==> text is Some && rfc3339_instant(text->0@)
            == Some((secs, nanos)),
{
    DateTime::from_timestamp(secs, nanos).map(|instant| instant.to_rfc3339())
}

/// `chrono::DateTime::parse_from_rfc3339`, the result brought to UTC and
/// taken apart into seconds and nanoseconds. The result is named, not
/// described.
#[verifier::external_body]
fn read_rfc3339(text: &str) -> (parts: Option<(i64, u32)>)
    ensures
        parts == rfc3339_instant(text@),
{
    match DateTime::parse_from_rfc3339(text) {
        Ok(instant) => {
            let utc = instant.with_timezone(&Utc);
            Some((utc.timestamp(), utc.timestamp_subsec_nanos()))
        },
        Err(_) => None,
    }
}

/// `chrono::NaiveDateTime::parse_from_str`, the result taken as UTC and
/// taken apart into seconds and nanoseconds. The result is named, not
/// described.
#[verifier::external_body]
fn read_pattern(text: &str, pattern: &str) -> (parts: Option<(i64, u32)>)
    ensures
        parts == pattern_instant(text@, pattern@),
{
    match NaiveDateTime::parse_from_str(text, pattern) {
        Ok(naive) => {
            let utc = naive.and_utc();
            Some((utc.timestamp(), utc.timestamp_subsec_nanos()))
        },
        Err(_) => None,
    }
}

/// `chrono::DateTime::from_timestamp` followed by `format`, written into a
/// fresh string; a format that cannot be written gives `None`. The result
/// is named, not described, but for one fact: under the format of year,
/// month, day, hour and minute, whose fields the crate documents as
/// digits (the year with a sign where it has more than four), the text
/// holds no line break.
#[verifier::external_body]
fn write_pattern(secs: i64, nanos: u32, pattern: &str) -> (text: Option<String>)
    ensures
        opt_text(text) == pattern_text(secs, nanos, pattern@),
        pattern@ == MINUTE_FORMAT@ ==> (text matches Some(t) ==> is_single_line(t@)),
{
    let instant = DateTime::from_timestamp(secs, nanos)?;
    let mut text = String::new();
    match write!(text, "{}", instant.format(pattern)) {
        Ok(()) => Some(text),
        Err(_) => None,
    }
}

} // verus!
