//! OHLCV aggregation timeframe definitions.

use vstd::prelude::*;

use crate::text::chars_eq;
use crate::text::lower_seq;
use crate::text::str_to_chars;
use crate::text::to_lower;

verus! {

/// OHLCV aggregation timeframe.
#[derive(Clone, Copy, PartialEq, Eq, Structural, Debug, Hash)]
pub enum Timeframe {
    /// Tick-by-tick (no aggregation).
    Tick,
    /// 1-second bars.
    Second1,
    /// 1-minute bars.
    Minute1,
    /// 5-minute bars.
    Minute5,
    /// 15-minute bars.
    Minute15,
    /// 30-minute bars.
    Minute30,
    /// 1-hour bars.
    Hour1,
    /// 4-hour bars.
    Hour4,
    /// Daily bars.
    Day1,
}

impl Default for Timeframe {
    /// The default timeframe is raw ticks.
    fn default() -> (r: Self)
        ensures
            r == Timeframe::Tick,
    {
        Timeframe::Tick
    }
}

impl Timeframe {
    /// Bar length in seconds, or `None` for tick data.
    pub open spec fn seconds_spec(self) -> Option<u64> {
        match self {
            Timeframe::Tick => None,
            Timeframe::Second1 => Some(1u64),
            Timeframe::Minute1 => Some(60u64),
            Timeframe::Minute5 => Some(300u64),
            Timeframe::Minute15 => Some(900u64),
            Timeframe::Minute30 => Some(1800u64),
            Timeframe::Hour1 => Some(3600u64),
            Timeframe::Hour4 => Some(14400u64),
            Timeframe::Day1 => Some(86400u64),
        }
    }

    /// Bar length in milliseconds, or `None` for tick data.
    pub open spec fn ms_spec(self) -> Option<int> {
        match self.seconds_spec() {
            Some(s) => Some(s * 1000),
            None => None,
        }
    }

    /// Returns the duration in seconds, or `None` for tick data.
    pub fn seconds(&self) -> (r: Option<u64>)
        ensures
            r == self.seconds_spec(),
    {
        match self {
            Timeframe::Tick => None,
            Timeframe::Second1 => Some(1),
            Timeframe::Minute1 => Some(60),
            Timeframe::Minute5 => Some(300),
            Timeframe::Minute15 => Some(900),
            Timeframe::Minute30 => Some(1800),
            Timeframe::Hour1 => Some(3600),
            Timeframe::Hour4 => Some(14400),
            Timeframe::Day1 => Some(86400),
        }
    }

    /// Returns the duration in milliseconds, or `None` for tick data.
    pub fn milliseconds(&self) -> (r: Option<u64>)
        ensures
            r matches Some(m) ==> self.ms_spec() == Some(m as int) && 0 < m <= 86_400_000,
            r is None <==> self is Tick,
    {
        match self.seconds() {
            Some(s) => Some(s * 1000),
            None => None,
        }
    }

    /// Returns true if this is tick data (no aggregation).
    pub fn is_tick(&self) -> (r: bool)
        ensures
            r == (self is Tick),
    {
        matches!(self, Timeframe::Tick)
    }

    /// The lowercase tag of the timeframe.
    pub open spec fn tag(self) -> Seq<char> {
        match self {
            Timeframe::Tick => seq!['t', 'i', 'c', 'k'],
            Timeframe::Second1 => seq!['s', '1'],
            Timeframe::Minute1 => seq!['m', '1'],
            Timeframe::Minute5 => seq!['m', '5'],
            Timeframe::Minute15 => seq!['m', '1', '5'],
            Timeframe::Minute30 => seq!['m', '3', '0'],
            Timeframe::Hour1 => seq!['h', '1'],
            Timeframe::Hour4 => seq!['h', '4'],
            Timeframe::Day1 => seq!['d', '1'],
        }
    }

    /// Returns the timeframe as its string tag.
    pub fn as_str(&self) -> (r: &'static str)
        ensures
            r@ == self.tag(),
    {
        proof {
            reveal_strlit("tick");
            reveal_strlit("s1");
            reveal_strlit("m1");
            reveal_strlit("m5");
            reveal_strlit("m15");
            reveal_strlit("m30");
            reveal_strlit("h1");
            reveal_strlit("h4");
            reveal_strlit("d1");
        }
        match self {
            Timeframe::Tick => "tick",
            Timeframe::Second1 => "s1",
            Timeframe::Minute1 => "m1",
            Timeframe::Minute5 => "m5",
            Timeframe::Minute15 => "m15",
            Timeframe::Minute30 => "m30",
            Timeframe::Hour1 => "h1",
            Timeframe::Hour4 => "h4",
            Timeframe::Day1 => "d1",
        }
    }

    /// Returns all timeframes, coarsest last.
    pub fn all() -> (r: Vec<Timeframe>)
        ensures
            r@ == seq![
                Timeframe::Tick,
                Timeframe::Second1,
                Timeframe::Minute1,
                Timeframe::Minute5,
                Timeframe::Minute15,
                Timeframe::Minute30,
                Timeframe::Hour1,
                Timeframe::Hour4,
                Timeframe::Day1,
            ],
    {
        let v = vec![
            Timeframe::Tick,
            Timeframe::Second1,
            Timeframe::Minute1,
            Timeframe::Minute5,
            Timeframe::Minute15,
            Timeframe::Minute30,
            Timeframe::Hour1,
            Timeframe::Hour4,
            Timeframe::Day1,
        ];
        proof {
            assert(v@ =~= seq![
                Timeframe::Tick,
                Timeframe::Second1,
                Timeframe::Minute1,
                Timeframe::Minute5,
                Timeframe::Minute15,
                Timeframe::Minute30,
                Timeframe::Hour1,
                Timeframe::Hour4,
                Timeframe::Day1,
            ]);
        }
        v
    }
}

/// The timeframe a lowercase tag or alias denotes.
pub open spec fn timeframe_of(s: Seq<char>) -> Option<Timeframe> {
    if s == "tick"@ {
        Some(Timeframe::Tick)
    } else if s == "s1"@ || s == "1s"@ || s == "second"@ || s == "second1"@ {
        Some(Timeframe::Second1)
    } else if s == "m1"@ || s == "1m"@ || s == "minute"@ || s == "minute1"@ {
        Some(Timeframe::Minute1)
    } else if s == "m5"@ || s == "5m"@ || s == "minute5"@ {
        Some(Timeframe::Minute5)
    } else if s == "m15"@ || s == "15m"@ || s == "minute15"@ {
        Some(Timeframe::Minute15)
    } else if s == "m30"@ || s == "30m"@ || s == "minute30"@ {
        Some(Timeframe::Minute30)
    } else if s == "h1"@ || s == "1h"@ || s == "hour"@ || s == "hour1"@ {
        Some(Timeframe::Hour1)
    } else if s == "h4"@ || s == "4h"@ || s == "hour4"@ {
        Some(Timeframe::Hour4)
    } else if s == "d1"@ || s == "1d"@ || s == "day"@ || s == "day1"@ || s == "daily"@ {
        Some(Timeframe::Day1)
    } else {
        None
    }
}

/// Error returned when parsing an invalid timeframe string.
#[derive(Debug, Clone)]
pub struct TimeframeParseError {
    /// The rejected input.
    pub input: String,
}

impl Timeframe {
    /// Parses a timeframe tag or one of its aliases, ASCII
    /// case-insensitively. Any other string is rejected, carried back in
    /// the error.
    pub fn parse(s: &str) -> (r: Result<Timeframe, TimeframeParseError>)
        ensures
            r matches Ok(tf) ==> timeframe_of(lower_seq(s@)) == Some(tf),
            r is Err <==> timeframe_of(lower_seq(s@)) is None,
            r matches Err(e) ==> e.input@ == s@,
    {
        let cs = str_to_chars(s);
        let low = to_lower(&cs);
        proof {
            assert(low@ =~= lower_seq(s@));
        }
        if chars_eq(&low, &str_to_chars("tick")) {
            Ok(Timeframe::Tick)
        } else if chars_eq(&low, &str_to_chars("s1")) || chars_eq(&low, &str_to_chars("1s")) || chars_eq(&low, &str_to_chars("second")) || chars_eq(&low, &str_to_chars("second1")) {
            Ok(Timeframe::Second1)
        } else if chars_eq(&low, &str_to_chars("m1")) || chars_eq(&low, &str_to_chars("1m")) || chars_eq(&low, &str_to_chars("minute")) || chars_eq(&low, &str_to_chars("minute1")) {
            Ok(Timeframe::Minute1)
        } else if chars_eq(&low, &str_to_chars("m5")) || chars_eq(&low, &str_to_chars("5m")) || chars_eq(&low, &str_to_chars("minute5")) {
            Ok(Timeframe::Minute5)
        } else if chars_eq(&low, &str_to_chars("m15")) || chars_eq(&low, &str_to_chars("15m")) || chars_eq(&low, &str_to_chars("minute15")) {
            Ok(Timeframe::Minute15)
        } else if chars_eq(&low, &str_to_chars("m30")) || chars_eq(&low, &str_to_chars("30m")) || chars_eq(&low, &str_to_chars("minute30")) {
            Ok(Timeframe::Minute30)
        } else if chars_eq(&low, &str_to_chars("h1")) || chars_eq(&low, &str_to_chars("1h")) || chars_eq(&low, &str_to_chars("hour")) || chars_eq(&low, &str_to_chars("hour1")) {
            Ok(Timeframe::Hour1)
        } else if chars_eq(&low, &str_to_chars("h4")) || chars_eq(&low, &str_to_chars("4h")) || chars_eq(&low, &str_to_chars("hour4")) {
            Ok(Timeframe::Hour4)
        } else if chars_eq(&low, &str_to_chars("d1")) || chars_eq(&low, &str_to_chars("1d")) || chars_eq(&low, &str_to_chars("day")) || chars_eq(&low, &str_to_chars("day1")) || chars_eq(&low, &str_to_chars("daily")) {
            Ok(Timeframe::Day1)
        } else {
            Err(TimeframeParseError { input: String::from_str(s) })
        }
    }
}

impl core::str::FromStr for Timeframe {
    type Err = TimeframeParseError;

    fn from_str(s: &str) -> Result<Timeframe, TimeframeParseError> {
        Timeframe::parse(s)
    }
}

} // verus!
