//! Calendar dates, timestamps, date ranges, and the UTC hours they contain.
//!
//! Dates are plain year/month/day triples in the proleptic Gregorian
//! calendar, valid from 1970 through 9999. An instant is measured in
//! milliseconds since 1970-01-01T00:00:00Z; UTC days are exactly 86 400
//! seconds long in this timescale, so hour and day boundaries are exact
//! multiples below.

use vstd::prelude::*;

use crate::text::chars_to_string;
use crate::text::dec_chars_padded;
use crate::text::dec_val;
use crate::text::is_digit;
use crate::text::lemma_dec_chars_padded_value;
use crate::text::parse_dec_fixed;
use crate::text::pow10;
use crate::text::push_decimal_padded;
use crate::text::str_to_chars;

verus! {

/// Milliseconds in one second.
pub const MS_PER_SECOND: u64 = 1000;

/// Milliseconds in one minute.
pub const MS_PER_MINUTE: u64 = 60_000;

/// Milliseconds in one hour.
pub const MS_PER_HOUR: u64 = 3_600_000;

/// Milliseconds in one UTC day.
pub const MS_PER_DAY: u64 = 86_400_000;

/// Whether `y` is a leap year in the Gregorian calendar.
pub open spec fn is_leap_year(y: int) -> bool {
    y % 4 == 0 && (y % 100 != 0 || y % 400 == 0)
}

/// Number of days in month `m` of year `y` (months are 1-based).
pub open spec fn days_in_month(y: int, m: int) -> int {
    if m == 2 {
        if is_leap_year(y) {
            29
        } else {
            28
        }
    } else if m == 4 || m == 6 || m == 9 || m == 11 {
        30
    } else {
        31
    }
}

/// Number of days in year `y`.
pub open spec fn days_in_year(y: int) -> int {
    if is_leap_year(y) {
        366
    } else {
        365
    }
}

/// Number of days in all years from 1970 (inclusive) up to `y` (exclusive).
pub open spec fn days_before_year(y: int) -> int
    decreases y,
{
    if y <= 1970 {
        0
    } else {
        days_before_year(y - 1) + days_in_year(y - 1)
    }
}

/// Number of days in year `y` before the first day of month `m`.
pub open spec fn days_before_month(y: int, m: int) -> int
    decreases m,
{
    if m <= 1 {
        0
    } else {
        days_before_month(y, m - 1) + days_in_month(y, m - 1)
    }
}

pub proof fn lemma_days_before_year_bounds(y: int)
    requires
        1970 <= y,
    ensures
        365 * (y - 1970) <= days_before_year(y) <= 366 * (y - 1970),
    decreases y,
{
    if y > 1970 {
        lemma_days_before_year_bounds(y - 1);
    }
}

pub proof fn lemma_days_before_month_bounds(y: int, m: int)
    requires
        1 <= m <= 13,
    ensures
        28 * (m - 1) <= days_before_month(y, m) <= 31 * (m - 1),
    decreases m,
{
    if m > 1 {
        lemma_days_before_month_bounds(y, m - 1);
    }
}

/// The months of a year sum to its length.
pub proof fn lemma_months_sum_to_year(y: int)
    ensures
        days_before_month(y, 13) == days_in_year(y),
{
    reveal_with_fuel(days_before_month, 13);
}

/// A calendar date (UTC).
#[derive(Clone, Copy, PartialEq, Eq, Structural, Debug)]
pub struct Date {
    /// Four-digit year, 1970 through 9999.
    pub year: u32,
    /// Month of the year, 1 through 12.
    pub month: u32,
    /// Day of the month, 1-based.
    pub day: u32,
}

impl Date {
    /// The date lies in the supported range and its fields agree with the
    /// calendar.
    pub open spec fn valid(self) -> bool {
        &&& 1970 <= self.year <= 9999
        &&& 1 <= self.month <= 12
        &&& 1 <= self.day <= days_in_month(self.year as int, self.month as int)
    }

    /// Days since 1970-01-01 (day zero).
    pub open spec fn index(self) -> int {
        days_before_year(self.year as int) + days_before_month(
            self.year as int,
            self.month as int,
        ) + self.day - 1
    }

    /// A valid date's offset within its year stays below the year's length.
    pub proof fn lemma_index_in_year(self)
        requires
            self.valid(),
        ensures
            days_before_year(self.year as int) <= self.index() < days_before_year(
                self.year as int + 1,
            ),
    {
        let y = self.year as int;
        let m = self.month as int;
        lemma_days_before_month_bounds(y, m);
        assert(days_before_month(y, m) + days_in_month(y, m) == days_before_month(y, m + 1));
        lemma_months_sum_to_year(y);
        lemma_days_before_month_ascending(y, m + 1, 13);
    }

    /// Builds a date after checking it against the calendar.
    pub fn new(year: u32, month: u32, day: u32) -> (r: Option<Date>)
        ensures
            r is Some <==> (Date { year, month, day }).valid(),
            r matches Some(d) ==> d == (Date { year, month, day }),
    {
        let d = Date { year, month, day };
        if 1970 <= year && year <= 9999 && 1 <= month && month <= 12 && 1 <= day && day
            <= month_days(year, month) {
            Some(d)
        } else {
            None
        }
    }

    /// Days since 1970-01-01.
    pub fn day_number(&self) -> (n: u64)
        requires
            self.valid(),
        ensures
            n == self.index(),
    {
        let mut n: u64 = 0;
        let mut y: u32 = 1970;
        while y < self.year
            invariant
                1970 <= y <= self.year,
                self.valid(),
                n == days_before_year(y as int),
            decreases self.year - y,
        {
            proof {
                lemma_days_before_year_bounds(y as int);
            }
            n = n + year_days(y) as u64;
            y = y + 1;
        }
        let mut m: u32 = 1;
        while m < self.month
            invariant
                1 <= m <= self.month,
                self.valid(),
                n == days_before_year(self.year as int) + days_before_month(
                    self.year as int,
                    m as int,
                ),
            decreases self.month - m,
        {
            proof {
                lemma_days_before_year_bounds(self.year as int);
                lemma_days_before_month_bounds(self.year as int, m as int);
            }
            n = n + month_days(self.year, m) as u64;
            m = m + 1;
        }
        proof {
            lemma_days_before_year_bounds(self.year as int);
            lemma_days_before_month_bounds(self.year as int, m as int);
        }
        n + self.day as u64 - 1
    }

    /// The calendar date `n` days after 1970-01-01.
    pub fn from_day_number(n: u64) -> (d: Date)
        requires
            n < days_before_year(10000),
        ensures
            d.valid(),
            d.index() == n,
    {
        let mut y: u32 = 1970;
        let mut rem: u64 = n;
        proof {
            lemma_days_before_year_bounds(10000);
        }
        while rem >= year_days(y) as u64
            invariant
                1970 <= y,
                rem == n - days_before_year(y as int),
                n < days_before_year(10000),
            decreases rem,
        {
            proof {
                if y as int >= 10000 {
                    lemma_days_before_year_ascending(10000, y as int);
                }
            }
            rem = rem - year_days(y) as u64;
            y = y + 1;
        }
        proof {
            if y as int >= 10000 {
                lemma_days_before_year_ascending(10000, y as int);
            }
        }
        let mut m: u32 = 1;
        while rem >= month_days(y, m) as u64
            invariant
                1970 <= y <= 9999,
                1 <= m,
                rem == n - days_before_year(y as int) - days_before_month(y as int, m as int),
                n - days_before_year(y as int) < days_in_year(y as int),
            decreases days_in_year(y as int) - days_before_month(y as int, m as int),
        {
            proof {
                lemma_months_sum_to_year(y as int);
                if m as int >= 13 {
                    lemma_days_before_month_ascending(y as int, 13, m as int);
                }
            }
            rem = rem - month_days(y, m) as u64;
            m = m + 1;
        }
        proof {
            lemma_months_sum_to_year(y as int);
            if m as int >= 13 {
                lemma_days_before_month_ascending(y as int, 13, m as int);
            }
            lemma_days_before_month_bounds(y as int, m as int);
        }
        Date { year: y, month: m, day: rem as u32 + 1 }
    }

    /// The next calendar day.
    pub fn next_day(&self) -> (d: Date)
        requires
            self.valid(),
            self.index() + 1 < days_before_year(10000),
        ensures
            d.valid(),
            d.index() == self.index() + 1,
    {
        proof {
            self.lemma_index_in_year();
            lemma_months_sum_to_year(self.year as int);
        }
        if self.day < month_days(self.year, self.month) {
            Date { year: self.year, month: self.month, day: self.day + 1 }
        } else if self.month < 12 {
            Date { year: self.year, month: self.month + 1, day: 1 }
        } else {
            proof {
                lemma_days_before_year_bounds(self.year as int + 1);
                if self.year as int + 1 > 9999 {
                    lemma_days_before_year_ascending(10000, self.year as int + 1);
                    assert(days_before_year(10000) <= days_before_year(self.year as int + 1));
                }
            }
            Date { year: self.year + 1, month: 1, day: 1 }
        }
    }

    /// Whether `self` is on or before `other` in calendar order.
    pub fn le(&self, other: &Date) -> (r: bool)
        requires
            self.valid(),
            other.valid(),
        ensures
            r == (self.index() <= other.index()),
    {
        proof {
            lemma_date_order(*self, *other);
            lemma_date_order(*other, *self);
        }
        if self.year != other.year {
            self.year < other.year
        } else if self.month != other.month {
            self.month < other.month
        } else {
            self.day <= other.day
        }
    }
}

pub proof fn lemma_days_before_year_ascending(y1: int, y2: int)
    requires
        y1 <= y2,
    ensures
        days_before_year(y1) <= days_before_year(y2),
        1970 <= y1 && y1 < y2 ==> days_before_year(y1) < days_before_year(y2),
    decreases y2 - y1,
{
    if y1 < y2 {
        lemma_days_before_year_ascending(y1, y2 - 1);
    }
}

pub proof fn lemma_days_before_month_ascending(y: int, m1: int, m2: int)
    requires
        m1 <= m2,
    ensures
        days_before_month(y, m1) <= days_before_month(y, m2),
    decreases m2 - m1,
{
    if m1 < m2 {
        lemma_days_before_month_ascending(y, m1, m2 - 1);
    }
}

/// Calendar (lexicographic) order and day-number order agree on valid dates.
pub proof fn lemma_date_order(a: Date, b: Date)
    requires
        a.valid(),
        b.valid(),
    ensures
        (a.year < b.year || (a.year == b.year && a.month < b.month) || (a.year == b.year && a.month
            == b.month && a.day < b.day)) ==> a.index() < b.index(),
{
    if a.year < b.year {
        a.lemma_index_in_year();
        b.lemma_index_in_year();
        lemma_days_before_year_ascending(a.year as int + 1, b.year as int);
    } else if a.year == b.year && a.month < b.month {
        let y = a.year as int;
        lemma_days_before_month_ascending(y, a.month as int + 1, b.month as int);
        assert(days_before_month(y, a.month as int) + days_in_month(y, a.month as int)
            == days_before_month(y, a.month as int + 1));
    }
}

/// Number of days in month `m` of year `y`.
pub fn month_days(y: u32, m: u32) -> (r: u32)
    ensures
        r == days_in_month(y as int, m as int),
{
    if m == 2 {
        if leap_year(y) {
            29
        } else {
            28
        }
    } else if m == 4 || m == 6 || m == 9 || m == 11 {
        30
    } else {
        31
    }
}

/// Number of days in year `y`.
pub fn year_days(y: u32) -> (r: u32)
    ensures
        r == days_in_year(y as int),
{
    if leap_year(y) {
        366
    } else {
        365
    }
}

/// Whether `y` is a leap year.
pub fn leap_year(y: u32) -> (r: bool)
    ensures
        r == is_leap_year(y as int),
{
    y % 4 == 0 && (y % 100 != 0 || y % 400 == 0)
}

/// A valid date's day number is small: below the count of supported days.
pub proof fn lemma_index_small(d: Date)
    requires
        d.valid(),
    ensures
        0 <= d.index(),
        d.index() < days_before_year(10000),
        days_before_year(10000) <= 2_938_980,
{
    d.lemma_index_in_year();
    lemma_days_before_year_bounds(d.year as int);
    lemma_days_before_month_bounds(d.year as int, d.month as int);
    lemma_days_before_year_ascending(d.year as int + 1, 10000);
    lemma_days_before_year_bounds(10000);
}

/// Number of days representable: days from 1970-01-01 up to 10000-01-01.
pub fn supported_day_count() -> (n: u64)
    ensures
        n == days_before_year(10000),
{
    let last = Date { year: 9999, month: 12, day: 31 };
    proof {
        lemma_months_sum_to_year(9999);
        lemma_index_small(last);
    }
    last.day_number() + 1
}

/// Error of a backwards date range.
#[derive(Clone, Copy, PartialEq, Eq, Structural, Debug)]
pub enum DateRangeError {
    /// The start date lies after the end date.
    InvalidRange {
        /// The start date.
        start: Date,
        /// The end date.
        end: Date,
    },
}

/// An inclusive range of calendar dates.
#[derive(Clone, Copy, PartialEq, Eq, Structural, Debug)]
pub struct DateRange {
    /// First date of the range (inclusive).
    pub start: Date,
    /// Last date of the range (inclusive).
    pub end: Date,
}

impl DateRange {
    /// Both endpoints are calendar dates and the range runs forwards.
    pub open spec fn wf(self) -> bool {
        self.start.valid() && self.end.valid() && self.start.index() <= self.end.index()
    }

    /// Number of days in the range.
    pub open spec fn day_count(self) -> int {
        self.end.index() - self.start.index() + 1
    }

    /// Creates a range, rejecting one whose start lies after its end.
    pub fn new(start: Date, end: Date) -> (r: Result<DateRange, DateRangeError>)
        requires
            start.valid(),
            end.valid(),
        ensures
            r is Ok <==> start.index() <= end.index(),
            r matches Ok(dr) ==> dr == (DateRange { start, end }) && dr.wf(),
            r matches Err(e) ==> e == (DateRangeError::InvalidRange { start, end }),
    {
        if end.le(&start) && !start.le(&end) {
            Err(DateRangeError::InvalidRange { start, end })
        } else if start.le(&end) {
            Ok(DateRange { start, end })
        } else {
            Err(DateRangeError::InvalidRange { start, end })
        }
    }

    /// The range covering a single day.
    pub fn single_day(date: Date) -> (r: DateRange)
        requires
            date.valid(),
        ensures
            r == (DateRange { start: date, end: date }),
            r.wf(),
    {
        DateRange { start: date, end: date }
    }

    /// Number of days in the range.
    pub fn total_days(&self) -> (n: u64)
        requires
            self.wf(),
        ensures
            n == self.day_count(),
    {
        proof {
            lemma_index_small(self.start);
            lemma_index_small(self.end);
        }
        self.end.day_number() - self.start.day_number() + 1
    }

    /// Number of UTC hours in the range: 24 for each day.
    pub fn total_hours(&self) -> (n: u64)
        requires
            self.wf(),
        ensures
            n == self.day_count() * 24,
    {
        proof {
            lemma_index_small(self.start);
            lemma_index_small(self.end);
        }
        self.total_days() * 24
    }

    /// Whether the range contains the given date.
    pub fn contains(&self, date: Date) -> (r: bool)
        requires
            self.wf(),
            date.valid(),
        ensures
            r == (self.start.index() <= date.index() <= self.end.index()),
    {
        self.start.le(&date) && date.le(&self.end)
    }

    /// All hour starts of the range, in chronological order.
    ///
    /// The result has one entry per hour of each day, `day_count() * 24` in
    /// all, and entry `i` starts exactly `i` hours after midnight of the
    /// start date.
    pub fn hours(&self) -> (v: Vec<DateHour>)
        requires
            self.wf(),
        ensures
            v.len() == self.day_count() * 24,
            forall|i: int|
                0 <= i < v.len() ==> (#[trigger] v[i]).wf() && v[i].epoch_ms() == (
                self.start.index() * 24 + i) * MS_PER_HOUR,
    {
        proof {
            lemma_index_small(self.start);
            lemma_index_small(self.end);
        }
        let days: u64 = self.total_days();
        let mut v: Vec<DateHour> = Vec::new();
        let mut d: Date = self.start;
        let mut k: u64 = 0;
        while k < days
            invariant
                self.wf(),
                k <= days,
                days == self.day_count(),
                self.end.index() < days_before_year(10000),
                k < days ==> d.valid() && d.index() == self.start.index() + k,
                v.len() == k * 24,
                forall|i: int|
                    0 <= i < v.len() ==> (#[trigger] v[i]).wf() && v[i].epoch_ms() == (
                    self.start.index() * 24 + i) * MS_PER_HOUR,
            decreases days - k,
        {
            let mut h: u32 = 0;
            while h < 24
                invariant
                    self.wf(),
                    k < days,
                    days == self.day_count(),
                    self.end.index() < days_before_year(10000),
                    d.valid() && d.index() == self.start.index() + k,
                    h <= 24,
                    v.len() == k * 24 + h,
                    forall|i: int|
                        0 <= i < v.len() ==> (#[trigger] v[i]).wf() && v[i].epoch_ms() == (
                        self.start.index() * 24 + i) * MS_PER_HOUR,
                decreases 24 - h,
            {
                v.push(DateHour { date: d, hour: h });
                h = h + 1;
            }
            k = k + 1;
            if k < days {
                d = d.next_day();
            }
        }
        v
    }
}

/// One UTC hour of one calendar day: the unit the data feed stores.
#[derive(Clone, Copy, PartialEq, Eq, Structural, Debug)]
pub struct DateHour {
    /// The calendar day.
    pub date: Date,
    /// Hour of the day, 0 through 23.
    pub hour: u32,
}

impl DateHour {
    /// The date is a calendar date and the hour lies within the day.
    pub open spec fn wf(self) -> bool {
        self.date.valid() && self.hour < 24
    }

    /// Milliseconds since 1970-01-01T00:00:00Z at which this hour starts.
    pub open spec fn epoch_ms(self) -> int {
        (self.date.index() * 24 + self.hour) * MS_PER_HOUR
    }

    /// Milliseconds since 1970-01-01T00:00:00Z at which this hour starts.
    pub fn start_ms(&self) -> (n: u64)
        requires
            self.wf(),
        ensures
            n == self.epoch_ms(),
    {
        proof {
            lemma_index_small(self.date);
        }
        (self.date.day_number() * 24 + self.hour as u64) * MS_PER_HOUR
    }
}

/// The hour sequence of a range is strictly ascending, one hour apart, and
/// every entry sits exactly on an hour boundary.
pub proof fn lemma_hours_ascending(r: DateRange, v: Seq<DateHour>)
    requires
        r.wf(),
        v.len() == r.day_count() * 24,
        forall|i: int|
            0 <= i < v.len() ==> (#[trigger] v[i]).wf() && v[i].epoch_ms() == (r.start.index() * 24
                + i) * MS_PER_HOUR,
    ensures
        forall|i: int|
            0 <= i < v.len() - 1 ==> (#[trigger] v[i]).epoch_ms() + MS_PER_HOUR == v[i
                + 1].epoch_ms(),
        forall|i: int| 0 <= i < v.len() ==> (#[trigger] v[i]).epoch_ms() % (MS_PER_HOUR as int)
            == 0,
{
    assert forall|i: int| 0 <= i < v.len() implies (#[trigger] v[i]).epoch_ms() % (
    MS_PER_HOUR as int) == 0 by {
        let q = r.start.index() * 24 + i;
        assert(q * MS_PER_HOUR % (MS_PER_HOUR as int) == 0) by (nonlinear_arith);
    }
}

/// An instant in UTC, held to millisecond precision.
#[derive(Clone, Copy, PartialEq, Eq, Structural, Debug)]
pub struct Timestamp {
    /// The calendar day.
    pub date: Date,
    /// Hour of the day, 0 through 23.
    pub hour: u32,
    /// Minute of the hour, 0 through 59.
    pub minute: u32,
    /// Second of the minute, 0 through 59.
    pub second: u32,
    /// Millisecond of the second, 0 through 999.
    pub millis: u32,
}

impl Timestamp {
    /// Every field lies within its calendar bound.
    pub open spec fn wf(self) -> bool {
        self.date.valid() && self.hour < 24 && self.minute < 60 && self.second < 60 && self.millis
            < 1000
    }

    /// Milliseconds since 1970-01-01T00:00:00Z.
    pub open spec fn epoch_ms(self) -> int {
        self.date.index() * MS_PER_DAY + self.hour * MS_PER_HOUR + self.minute * MS_PER_MINUTE
            + self.second * MS_PER_SECOND + self.millis
    }

    /// The instant at the start of 1970-01-01.
    pub fn epoch() -> (t: Timestamp)
        ensures
            t.wf(),
            t.epoch_ms() == 0,
    {
        Timestamp { date: Date { year: 1970, month: 1, day: 1 }, hour: 0, minute: 0, second: 0, millis: 0 }
    }

    /// Splits an epoch-millisecond count into calendar fields.
    ///
    /// Returns `None` for instants at or after year 10000.
    pub fn from_epoch_ms(ms: u64) -> (r: Option<Timestamp>)
        ensures
            r is Some <==> ms < days_before_year(10000) * MS_PER_DAY,
            r matches Some(t) ==> t.wf() && t.epoch_ms() == ms,
    {
        let limit: u64 = supported_day_count();
        proof {
            lemma_days_before_year_bounds(10000);
            assert(limit * MS_PER_DAY <= 2938980 * (MS_PER_DAY as int)) by (nonlinear_arith)
                requires
                    limit <= 2938980,
            ;
            assert((ms / MS_PER_DAY < limit) == (ms < limit * MS_PER_DAY)) by (nonlinear_arith)
                requires
                    MS_PER_DAY == 86_400_000u64,
            ;
        }
        let day: u64 = ms / MS_PER_DAY;
        if day >= limit {
            return None;
        }
        let date = Date::from_day_number(day);
        let in_day: u64 = ms % MS_PER_DAY;
        let hour: u64 = in_day / MS_PER_HOUR;
        let in_hour: u64 = in_day % MS_PER_HOUR;
        let minute: u64 = in_hour / MS_PER_MINUTE;
        let in_minute: u64 = in_hour % MS_PER_MINUTE;
        let second: u64 = in_minute / MS_PER_SECOND;
        let millis: u64 = in_minute % MS_PER_SECOND;
        let t = Timestamp {
            date,
            hour: hour as u32,
            minute: minute as u32,
            second: second as u32,
            millis: millis as u32,
        };
        proof {
            assert(ms == day * MS_PER_DAY + in_day) by (nonlinear_arith)
                requires
                    day == ms / MS_PER_DAY,
                    in_day == ms % MS_PER_DAY,
                    MS_PER_DAY == 86_400_000u64,
            ;
        }
        Some(t)
    }

    /// Milliseconds since 1970-01-01T00:00:00Z.
    pub fn to_epoch_ms(&self) -> (n: u64)
        requires
            self.wf(),
        ensures
            n == self.epoch_ms(),
    {
        proof {
            lemma_index_small(self.date);
        }
        self.date.day_number() * MS_PER_DAY + self.hour as u64 * MS_PER_HOUR + self.minute as u64
            * MS_PER_MINUTE + self.second as u64 * MS_PER_SECOND + self.millis as u64
    }

    /// Whether `self` is at or before `other`.
    pub fn le(&self, other: &Timestamp) -> (r: bool)
        requires
            self.wf(),
            other.wf(),
        ensures
            r == (self.epoch_ms() <= other.epoch_ms()),
    {
        self.to_epoch_ms() <= other.to_epoch_ms()
    }
}

/// The text of a calendar date: `YYYY-MM-DD`.
pub open spec fn date_text_chars(d: Date) -> Seq<char> {
    dec_chars_padded(d.year as int, 4) + seq!['-'] + dec_chars_padded(d.month as int, 2)
        + seq!['-'] + dec_chars_padded(d.day as int, 2)
}

/// The date a `YYYY-MM-DD` text denotes, when it denotes one.
pub open spec fn date_of_text(s: Seq<char>) -> Option<Date> {
    if s.len() == 10 && s[4] == '-' && s[7] == '-' && (forall|i: int|
        0 <= i < 10 && i != 4 && i != 7 ==> is_digit(#[trigger] s[i])) {
        let d = Date {
            year: dec_val(s.subrange(0, 4)) as u32,
            month: dec_val(s.subrange(5, 7)) as u32,
            day: dec_val(s.subrange(8, 10)) as u32,
        };
        if d.valid() {
            Some(d)
        } else {
            None
        }
    } else {
        None
    }
}

/// Renders a date as `YYYY-MM-DD`.
pub fn format_date_text(d: &Date) -> (r: String)
    requires
        d.valid(),
    ensures
        r@ == date_text_chars(*d),
{
    let mut out: Vec<char> = Vec::new();
    push_decimal_padded(&mut out, d.year as u64, 4);
    out.push('-');
    push_decimal_padded(&mut out, d.month as u64, 2);
    out.push('-');
    push_decimal_padded(&mut out, d.day as u64, 2);
    proof {
        assert(out@ =~= date_text_chars(*d));
    }
    chars_to_string(&out)
}

/// Parses a `YYYY-MM-DD` date text, accepting exactly the calendar dates.
pub fn parse_date_text(s: &str) -> (r: Option<Date>)
    ensures
        r == date_of_text(s@),
{
    let v = str_to_chars(s);
    if v.len() != 10 {
        return None;
    }
    if !(v[4] == '-' && v[7] == '-') {
        return None;
    }
    let y = match parse_dec_fixed(&v, 0, 4) {
        Some(x) => x,
        None => {
            return None;
        },
    };
    let m = match parse_dec_fixed(&v, 5, 2) {
        Some(x) => x,
        None => {
            return None;
        },
    };
    let d = match parse_dec_fixed(&v, 8, 2) {
        Some(x) => x,
        None => {
            return None;
        },
    };
    proof {
        crate::text::lemma_dec_val_bound(v@.subrange(0, 4));
        crate::text::lemma_dec_val_bound(v@.subrange(5, 7));
        crate::text::lemma_dec_val_bound(v@.subrange(8, 10));
        reveal_with_fuel(pow10, 5);
        assert forall|i: int| 0 <= i < 10 && i != 4 && i != 7 implies is_digit(#[trigger] v@[i]) by {
            if i < 4 {
                assert(v@[i] == v@.subrange(0, 4)[i]);
            } else if i < 7 {
                assert(v@[i] == v@.subrange(5, 7)[i - 5]);
            } else {
                assert(v@[i] == v@.subrange(8, 10)[i - 8]);
            }
        }
    }
    Date::new(y as u32, m as u32, d as u32)
}

/// Rendering a valid date and parsing the text recovers it exactly.
pub proof fn lemma_date_text_round_trip(d: Date)
    requires
        d.valid(),
    ensures
        date_of_text(date_text_chars(d)) == Some(d),
{
    reveal_with_fuel(pow10, 5);
    lemma_dec_chars_padded_value(d.year as int, 4);
    lemma_dec_chars_padded_value(d.month as int, 2);
    lemma_dec_chars_padded_value(d.day as int, 2);
    let s = date_text_chars(d);
    let py = dec_chars_padded(d.year as int, 4);
    let pm = dec_chars_padded(d.month as int, 2);
    let pd = dec_chars_padded(d.day as int, 2);
    assert(s.subrange(0, 4) =~= py) by {
        assert(forall|j: int| 0 <= j < 4 ==> #[trigger] s.subrange(0, 4)[j] == s[j]);
    }
    assert(s.subrange(5, 7) =~= pm) by {
        assert(forall|j: int| 0 <= j < 2 ==> #[trigger] s.subrange(5, 7)[j] == s[5 + j]);
        assert(s[5] == pm[0] && s[6] == pm[1]);
    }
    assert(s.subrange(8, 10) =~= pd) by {
        assert(forall|j: int| 0 <= j < 2 ==> #[trigger] s.subrange(8, 10)[j] == s[8 + j]);
        assert(s[8] == pd[0] && s[9] == pd[1]);
    }
    assert forall|i: int| 0 <= i < 10 && i != 4 && i != 7 implies is_digit(#[trigger] s[i]) by {
        if i < 4 {
            assert(s[i] == py[i]);
        } else if i < 7 {
            assert(s[i] == pm[i - 5]);
        } else {
            assert(s[i] == pd[i - 8]);
        }
    }
    assert(s[4] == '-' && s[7] == '-');
}

} // verus!

