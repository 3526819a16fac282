//! Spans of time and points in time, as plain numbers.

use vstd::prelude::*;
use std::time::Instant;
use crate::text::opt_text;

verus! {

/// Nanoseconds in a second.
pub const NANOS_PER_SEC: u128 = 1_000_000_000;

/// Nanoseconds in a millisecond.
pub const NANOS_PER_MILLI: u128 = 1_000_000;

/// A span of time.
#[derive(Clone, Copy, Debug, PartialEq, Eq, Structural)]
pub struct Duration {
    /// The whole span, in nanoseconds.
    pub nanos: u128,
}

impl Duration {
    /// A span of whole seconds.
    pub fn from_secs(secs: u64) -> (d: Duration)
        ensures
            d.nanos == secs * NANOS_PER_SEC,
    {
        Duration { nanos: secs as u128 * NANOS_PER_SEC }
    }

    /// A span of whole milliseconds.
    pub fn from_millis(millis: u64) -> (d: Duration)
        ensures
            d.nanos == millis * NANOS_PER_MILLI,
    {
        Duration { nanos: millis as u128 * NANOS_PER_MILLI }
    }

    /// The whole milliseconds of the span.
    pub fn as_millis(&self) -> (millis: u128)
        ensures
            millis == self.nanos / NANOS_PER_MILLI,
    {
        self.nanos / NANOS_PER_MILLI
    }
}

/// A point in time, by the UTC clock: seconds since the start of 1970, and nanoseconds.
#[derive(Clone, Copy, Debug, PartialEq, Eq, Structural)]
pub struct Timestamp {
    /// Whole seconds since the start of 1970.
    pub secs: i64,
    /// Nanoseconds since the last whole second.
    pub nanos: u32,
}

impl View for Timestamp {
    type V = int;

    /// Nanoseconds since the start of 1970.
    open spec fn view(&self) -> int {
        self.secs * NANOS_PER_SEC + self.nanos
    }
}

impl Timestamp {
    /// The current time. Nothing is promised of it.
    pub fn now() -> (now: Timestamp) {
        utc_now()
    }

    /// The span from an earlier point to this one, or nothing where the other is later.
    pub fn since(&self, earlier: &Timestamp) -> (span: Option<Duration>)
        ensures
            span == (if self@ >= earlier@ {
                Some(Duration { nanos: (self@ - earlier@) as u128 })
            } else {
                None::<Duration>
            }),
    {
        let later: i128 = self.secs as i128 * 1_000_000_000 + self.nanos as i128;
        let sooner: i128 = earlier.secs as i128 * 1_000_000_000 + earlier.nanos as i128;
        if later >= sooner {
            Some(Duration { nanos: (later - sooner) as u128 })
        } else {
            None
        }
    }
}

/// Reads the UTC clock with `chrono::Utc::now`. Nothing is promised of the time read.
#[verifier::external_body]
pub(crate) fn utc_now() -> (now: Timestamp) {
    let now = chrono::Utc::now();
    Timestamp { secs: now.timestamp(), nanos: now.timestamp_subsec_nanos() }
}

/// The text of a UTC time as `chrono` displays it, or nothing where the time is out of the
/// calendar's range.
pub uninterp spec fn displayed_time(secs: i64, nanos: u32) -> Option<Seq<char>>;

/// Calls `chrono::DateTime::from_timestamp` and writes the time as its `Display` does; the
/// text is only named.
#[verifier::external_body]
pub(crate) fn display_time(secs: i64, nanos: u32) -> (text: Option<String>)
    ensures
        opt_text(text) == displayed_time(secs, nanos),
{
    chrono::DateTime::from_timestamp(secs, nanos).map(|t| t.to_string())
}

/// A reading of the machine's monotonic clock.
#[verifier::external_type_specification]
#[verifier::external_body]
pub struct ExInstant(Instant);

/// Reads the monotonic clock with `Instant::now`. Nothing is promised of the reading.
#[verifier::external_body]
pub(crate) fn instant_now() -> (now: Instant) {
    Instant::now()
}

/// Calls `Instant::saturating_duration_since`: the nanoseconds between two readings of the
/// monotonic clock. Nothing is promised of their number.
#[verifier::external_body]
pub(crate) fn nanos_between(later: &Instant, earlier: &Instant) -> (nanos: u128) {
    later.saturating_duration_since(*earlier).as_nanos()
}

/// A number of nanoseconds with a sign, as far as 128 bits hold it: those after some moment, less
/// those before it.
pub open spec fn signed_nanos(after: u128, before: u128) -> int {
    if after - before > i128::MAX {
        i128::MAX as int
    } else if after - before < i128::MIN {
        i128::MIN as int
    } else {
        after - before
    }
}

/// The time after some moment, less the time before it.
pub fn signed_span(after: u128, before: u128) -> (span: i128)
    ensures
        span == signed_nanos(after, before),
{
    if after >= before {
        let rest: u128 = after - before;
        if rest > i128::MAX as u128 {
            i128::MAX
        } else {
            rest as i128
        }
    } else {
        let rest: u128 = before - after;
        if rest > i128::MAX as u128 {
            i128::MIN
        } else {
            -(rest as i128)
        }
    }
}

/// A span with a sign is the difference, as far as it can be held.
pub proof fn law_signed_span_is_the_difference(after: u128, before: u128)
    ensures
        i128::MIN <= after - before <= i128::MAX ==> signed_nanos(after, before) == after - before,
        i128::MIN <= signed_nanos(after, before) <= i128::MAX,
        after >= before <==> signed_nanos(after, before) >= 0,
{
}

} // verus!
