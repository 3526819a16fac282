//! Market data models for bars and timeframes.

use vstd::prelude::*;
use crate::decimal::Decimal;
use crate::text::{join3, same};
use crate::time::{Duration, NANOS_PER_SEC, Timestamp};

verus! {

/// Bar timeframe/interval.
///
/// Supports 12 timeframes from 1 minute to 1 week.
/// Written in a compact format: `"1m"`, `"1h"`, `"1d"`, etc.
#[derive(Debug, Clone, Copy, PartialEq, Eq, Hash, Structural)]
pub enum Timeframe {
    /// 1 minute
    OneMinute,
    /// 2 minutes
    TwoMinutes,
    /// 5 minutes
    FiveMinutes,
    /// 10 minutes
    TenMinutes,
    /// 15 minutes
    FifteenMinutes,
    /// 30 minutes
    ThirtyMinutes,
    /// 1 hour
    OneHour,
    /// 2 hours
    TwoHours,
    /// 4 hours
    FourHours,
    /// 12 hours
    TwelveHours,
    /// 1 day
    OneDay,
    /// 1 week
    OneWeek,
}

impl Default for Timeframe {
    fn default() -> (t: Timeframe)
        ensures
            t == Timeframe::OneHour,
    {
        Timeframe::OneHour
    }
}

impl Timeframe {
    /// The number of minutes of a timeframe.
    pub open spec fn minutes(self) -> nat {
        match self {
            Timeframe::OneMinute => 1,
            Timeframe::TwoMinutes => 2,
            Timeframe::FiveMinutes => 5,
            Timeframe::TenMinutes => 10,
            Timeframe::FifteenMinutes => 15,
            Timeframe::ThirtyMinutes => 30,
            Timeframe::OneHour => 60,
            Timeframe::TwoHours => 2 * 60,
            Timeframe::FourHours => 4 * 60,
            Timeframe::TwelveHours => 12 * 60,
            Timeframe::OneDay => 24 * 60,
            Timeframe::OneWeek => 7 * 24 * 60,
        }
    }

    /// How a timeframe is written.
    pub open spec fn spec_text(self) -> Seq<char> {
        match self {
            Timeframe::OneMinute => "1m"@,
            Timeframe::TwoMinutes => "2m"@,
            Timeframe::FiveMinutes => "5m"@,
            Timeframe::TenMinutes => "10m"@,
            Timeframe::FifteenMinutes => "15m"@,
            Timeframe::ThirtyMinutes => "30m"@,
            Timeframe::OneHour => "1h"@,
            Timeframe::TwoHours => "2h"@,
            Timeframe::FourHours => "4h"@,
            Timeframe::TwelveHours => "12h"@,
            Timeframe::OneDay => "1d"@,
            Timeframe::OneWeek => "1w"@,
        }
    }

    /// Get duration in seconds.
    pub fn duration_secs(&self) -> (secs: u64)
        ensures
            secs == 60 * self.minutes(),
    {
        match self {
            Timeframe::OneMinute => 60,
            Timeframe::TwoMinutes => 120,
            Timeframe::FiveMinutes => 300,
            Timeframe::TenMinutes => 600,
            Timeframe::FifteenMinutes => 900,
            Timeframe::ThirtyMinutes => 1_800,
            Timeframe::OneHour => 3_600,
            Timeframe::TwoHours => 7_200,
            Timeframe::FourHours => 14_400,
            Timeframe::TwelveHours => 43_200,
            Timeframe::OneDay => 86_400,
            Timeframe::OneWeek => 604_800,
        }
    }

    /// Get the span of the timeframe.
    pub fn duration(&self) -> (d: Duration)
        ensures
            d.nanos == 60 * self.minutes() * NANOS_PER_SEC,
    {
        Duration::from_secs(self.duration_secs())
    }

    /// Get string representation (e.g., "1m", "1h").
    pub fn as_str(&self) -> (text: &'static str)
        ensures
            text@ == self.spec_text(),
    {
        match self {
            Timeframe::OneMinute => "1m",
            Timeframe::TwoMinutes => "2m",
            Timeframe::FiveMinutes => "5m",
            Timeframe::TenMinutes => "10m",
            Timeframe::FifteenMinutes => "15m",
            Timeframe::ThirtyMinutes => "30m",
            Timeframe::OneHour => "1h",
            Timeframe::TwoHours => "2h",
            Timeframe::FourHours => "4h",
            Timeframe::TwelveHours => "12h",
            Timeframe::OneDay => "1d",
            Timeframe::OneWeek => "1w",
        }
    }

    /// Reads a timeframe. What is read is the timeframe that is written so; any other text is
    /// refused with a message that names it.
    pub fn parse(s: &str) -> (t: Result<Timeframe, String>)
        ensures
            match t {
                Ok(frame) => frame.spec_text() == s@,
                Err(message) => (forall|frame: Timeframe| s@ != #[trigger] frame.spec_text())
                    && message@ == "Invalid timeframe: '"@ + s@
                    + "'. Valid: 1m, 2m, 5m, 10m, 15m, 30m, 1h, 2h, 4h, 12h, 1d, 1w"@,
            },
    {
        if same(s, "1m") {
            Ok(Timeframe::OneMinute)
        } else if same(s, "2m") {
            Ok(Timeframe::TwoMinutes)
        } else if same(s, "5m") {
            Ok(Timeframe::FiveMinutes)
        } else if same(s, "10m") {
            Ok(Timeframe::TenMinutes)
        } else if same(s, "15m") {
            Ok(Timeframe::FifteenMinutes)
        } else if same(s, "30m") {
            Ok(Timeframe::ThirtyMinutes)
        } else if same(s, "1h") {
            Ok(Timeframe::OneHour)
        } else if same(s, "2h") {
            Ok(Timeframe::TwoHours)
        } else if same(s, "4h") {
            Ok(Timeframe::FourHours)
        } else if same(s, "12h") {
            Ok(Timeframe::TwelveHours)
        } else if same(s, "1d") {
            Ok(Timeframe::OneDay)
        } else if same(s, "1w") {
            Ok(Timeframe::OneWeek)
        } else {
            Err(
                join3(
                    "Invalid timeframe: '",
                    s,
                    "'. Valid: 1m, 2m, 5m, 10m, 15m, 30m, 1h, 2h, 4h, 12h, 1d, 1w",
                ),
            )
        }
    }
}

impl std::str::FromStr for Timeframe {
    type Err = String;

    fn from_str(s: &str) -> (t: Result<Timeframe, String>)
        ensures
            match t {
                Ok(frame) => frame.spec_text() == s@,
                Err(message) => (forall|frame: Timeframe| s@ != #[trigger] frame.spec_text())
                    && message@ == "Invalid timeframe: '"@ + s@
                    + "'. Valid: 1m, 2m, 5m, 10m, 15m, 30m, 1h, 2h, 4h, 12h, 1d, 1w"@,
            },
    {
        Timeframe::parse(s)
    }
}

/// No two timeframes are written the same, so that a timeframe is read back as itself.
pub proof fn law_timeframe_texts_differ(a: Timeframe, b: Timeframe)
    ensures
        a.spec_text() == b.spec_text() ==> a == b,
{
    reveal_strlit("1m");
    reveal_strlit("2m");
    reveal_strlit("5m");
    reveal_strlit("10m");
    reveal_strlit("15m");
    reveal_strlit("30m");
    reveal_strlit("1h");
    reveal_strlit("2h");
    reveal_strlit("4h");
    reveal_strlit("12h");
    reveal_strlit("1d");
    reveal_strlit("1w");
    let x = a.spec_text();
    let y = b.spec_text();
    assert(x.len() == y.len() && x[0] == y[0] && x[1] == y[1] && (x.len() == 3 ==> x[2] == y[2])
        ==> a == b);
}

/// OHLCV bar/candlestick.
#[derive(Debug, Clone)]
pub struct Bar {
    /// Symbol in canonical format
    pub symbol: String,
    /// Data source provider
    pub provider: String,
    /// Bar timeframe
    pub timeframe: Timeframe,
    /// Bar start timestamp
    pub timestamp: Timestamp,
    /// Opening price
    pub open: Decimal,
    /// Highest price during the period
    pub high: Decimal,
    /// Lowest price during the period
    pub low: Decimal,
    /// Closing price
    pub close: Decimal,
    /// Trading volume during the period
    pub volume: Decimal,
}

/// Request parameters for historical bars.
#[derive(Debug, Clone)]
pub struct BarParams {
    /// Bar timeframe/interval
    pub timeframe: Timeframe,
    /// Start of date range (inclusive)
    pub start: Option<Timestamp>,
    /// End of date range (inclusive)
    pub end: Option<Timestamp>,
    /// Maximum number of bars to return
    pub limit: Option<u32>,
}

impl Default for BarParams {
    fn default() -> (p: BarParams)
        ensures
            p == (BarParams { timeframe: Timeframe::OneHour, start: None, end: None, limit: None }),
    {
        BarParams { timeframe: Timeframe::OneHour, start: None, end: None, limit: None }
    }
}

} // verus!
