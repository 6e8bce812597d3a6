//! Points in time, and their RFC 3339 text.
//!
//! A timestamp counts whole seconds from the start of 1970 in UTC, and nanoseconds within the
//! second. Writing and reading the text is the work of `chrono`; this module names what it
//! computes. The text is written with nine fractional digits and a trailing `Z`.

use vstd::prelude::*;

verus! {

/// The RFC 3339 text, with nanoseconds and `Z`, of the time `secs` seconds and `nanos`
/// nanoseconds after the epoch: what `DateTime::to_rfc3339_opts` writes for the value that
/// `DateTime::from_timestamp` makes of the two, and `None` where it makes none.
pub uninterp spec fn rfc3339_text(secs: int, nanos: int) -> Option<Seq<char>>;

/// The time that `text` stands for, in seconds and nanoseconds after the epoch: what
/// `DateTime::parse_from_rfc3339` reads, and `None` where it reads nothing.
pub uninterp spec fn rfc3339_instant(text: Seq<char>) -> Option<(int, int)>;

/// Calls `DateTime::from_timestamp` and, on the value that comes out,
/// `DateTime::to_rfc3339_opts` with nanosecond precision and `Z` for UTC. The contract names
/// the result, and tells that it ends with the `Z` that `to_rfc3339_opts` writes for UTC.
#[verifier::external_body]
pub(crate) fn format_rfc3339(secs: i64, nanos: u32) -> (text: Option<String>)
    ensures
        match rfc3339_text(secs as int, nanos as int) {
            Some(t) => text matches Some(s) && s@ == t && s@.len() >= 1 && s@.last() == 'Z',
            None => text is None,
        },
{
    match chrono::DateTime::from_timestamp(secs, nanos) {
        Some(time) => Some(time.to_rfc3339_opts(chrono::SecondsFormat::Nanos, true)),
        None => None,
    }
}

/// Calls `DateTime::parse_from_rfc3339` and gives the value that comes out as
/// `DateTime::timestamp` and `DateTime::timestamp_subsec_nanos`. The contract only names the
/// result.
#[verifier::external_body]
pub(crate) fn parse_rfc3339(text: &str) -> (instant: Option<(i64, u32)>)
    ensures
        match rfc3339_instant(text@) {
            Some((secs, nanos)) => instant matches Some((s, n)) && s == secs && n == nanos,
            None => instant is None,
        },
{
    match chrono::DateTime::parse_from_rfc3339(text) {
        Ok(time) => Some((time.timestamp(), time.timestamp_subsec_nanos())),
        Err(_) => None,
    }
}

/// Calls `Utc::now` and gives the value as `DateTime::timestamp` and
/// `DateTime::timestamp_subsec_nanos`. Which time comes out is the clock's. The contract
/// claims what holds of every time that does: `Utc::now` makes its value with
/// `DateTime::from_timestamp`, from whole seconds and the nanoseconds of a part of a second,
/// and `DateTime::timestamp` and `DateTime::timestamp_subsec_nanos` give the two back. So
/// the nanoseconds stay below a second, and the time is one that can be written as text.
/// `Utc::now` does not return where the clock of the system stands before 1970.
#[verifier::external_body]
pub(crate) fn current_time() -> (instant: (i64, u32))
    ensures
        instant.1 < 1_000_000_000,
        rfc3339_text(instant.0 as int, instant.1 as int) is Some,
{
    let now = chrono::Utc::now();
    (now.timestamp(), now.timestamp_subsec_nanos())
}

/// A point in time.
#[derive(Clone, Copy, Debug, PartialEq, Eq, Structural)]
pub struct Timestamp {
    /// Whole seconds since the start of 1970, UTC.
    pub secs: i64,
    /// Nanoseconds within the second.
    pub nanos: u32,
}

/// A point in time as a pair of integers: seconds and nanoseconds.
pub type Instant = (int, int);

impl View for Timestamp {
    type V = Instant;

    open spec fn view(&self) -> Instant {
        (self.secs as int, self.nanos as int)
    }
}

/// The seconds that a record stays valid from the time it is made: 365 days.
pub const DEFAULT_LIFETIME_SECONDS: u32 = 31_536_000;

/// The time `seconds` after `t`, held at the largest count of seconds where the sum would
/// exceed it.
pub open spec fn later(t: Instant, seconds: int) -> Instant {
    (
        if t.0 + seconds > i64::MAX {
            i64::MAX as int
        } else {
            t.0 + seconds
        },
        t.1,
    )
}

impl Timestamp {
    /// The time `secs` seconds and `nanos` nanoseconds after the epoch.
    pub fn new(secs: i64, nanos: u32) -> (t: Timestamp)
        ensures
            t@ == (secs as int, nanos as int),
    {
        Timestamp { secs, nanos }
    }

    /// The time on the clock: a time within a second's nanoseconds that can be written as
    /// text. Which time it is, the clock decides.
    pub fn now() -> (t: Timestamp)
        ensures
            t@.1 < 1_000_000_000,
            rfc3339_text(t@.0, t@.1) is Some,
    {
        let (secs, nanos) = current_time();
        Timestamp { secs, nanos }
    }

    /// The time `seconds` after this one.
    pub fn plus_seconds(&self, seconds: u32) -> (t: Timestamp)
        ensures
            t@ == later(self@, seconds as int),
    {
        let secs: i64 = if self.secs > i64::MAX - seconds as i64 {
            i64::MAX
        } else {
            self.secs + seconds as i64
        };
        Timestamp { secs, nanos: self.nanos }
    }

    /// This time as RFC 3339 text with nanoseconds and `Z`, where it can be written.
    pub fn to_rfc3339(&self) -> (text: Option<String>)
        ensures
            match rfc3339_text(self@.0, self@.1) {
                Some(t) => text matches Some(s) && s@ == t && s@.len() >= 1 && s@.last() == 'Z',
                None => text is None,
            },
    {
        format_rfc3339(self.secs, self.nanos)
    }

    /// The time that RFC 3339 text stands for.
    pub fn parse_rfc3339(text: &str) -> (r: Option<Timestamp>)
        ensures
            match rfc3339_instant(text@) {
                Some(instant) => r matches Some(t) && t@ == instant,
                None => r is None,
            },
    {
        match parse_rfc3339(text) {
            Some((secs, nanos)) => Some(Timestamp { secs, nanos }),
            None => None,
        }
    }
}

} // verus!
