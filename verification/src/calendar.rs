//! Moments in UTC and the dates they fall on.

use vstd::prelude::*;

pub mod succession;

verus! {

/// Seconds in one day.
pub const SECS_PER_DAY: i64 = 86_400;

/// Seconds in one hour.
pub const SECS_PER_HOUR: i64 = 3_600;

/// First second of the first date that the calendar covers.
pub const MIN_SECS: i64 = -8_334_601_228_800;

/// Last second of the last date that the calendar covers.
pub const MAX_SECS: i64 = 8_210_266_876_799;

/// A moment in UTC.
#[derive(Clone, Copy, Debug, PartialEq, Eq, Structural)]
pub struct UtcTime {
    /// Whole seconds since the start of 1970, rounded down.
    pub secs: i64,
    /// Nanoseconds past that second. A leap second counts from 1,000,000,000 up.
    pub nanos: u32,
}

impl UtcTime {
    /// Whether the moment falls on a date that the calendar covers.
    pub open spec fn valid(self) -> bool {
        &&& MIN_SECS <= self.secs <= MAX_SECS
        &&& self.nanos < 2_000_000_000
    }

    /// Returns whether the calendar covers this time.
    pub fn is_valid(self) -> (answer: bool)
        ensures
            answer == self.valid(),
    {
        MIN_SECS <= self.secs && self.secs <= MAX_SECS && self.nanos < 2_000_000_000
    }

    /// Days since the start of 1970, rounded down.
    pub open spec fn days(self) -> int {
        day_number(self.secs)
    }

    /// Hour of the day.
    pub open spec fn spec_hour(self) -> int {
        self.secs as int % SECS_PER_DAY as int / SECS_PER_HOUR as int
    }

    /// Whole milliseconds since the start of 1970, rounded down.
    pub open spec fn spec_millis(self) -> int {
        self.secs * 1000 + self.nanos as int / 1_000_000
    }

    /// Whole milliseconds since the start of 1970.
    pub fn unix_millis(self) -> (millis: i64)
        requires
            self.valid(),
        ensures
            millis == self.secs * 1000 + self.nanos as int / 1_000_000,
            millis == self.spec_millis(),
    {
        self.secs * 1000 + (self.nanos / 1_000_000) as i64
    }

    /// Hour of the day.
    pub fn hour(self) -> (hour: u64)
        ensures
            hour == self.spec_hour(),
            hour < 24,
    {
        let secs: i128 = self.secs as i128;
        let day: i128 = SECS_PER_DAY as i128;
        let past: i128 = secs - floor_div(secs, day) * day;
        (past / SECS_PER_HOUR as i128) as u64
    }

    /// The last moment that is a whole number of `period` seconds since the start of
    /// 1970 and is not after this one.
    pub fn floor_to(self, period: i64) -> (start: UtcTime)
        requires
            self.valid(),
            period == SECS_PER_HOUR || period == SECS_PER_DAY,
        ensures
            start.valid(),
            start.nanos == 0,
            start.secs == self.secs - self.secs as int % period as int,
    {
        let secs: i128 = self.secs as i128;
        let whole: i128 = floor_div(secs, period as i128) * (period as i128);
        assert(whole == secs - secs as int % period as int);
        UtcTime { secs: whole as i64, nanos: 0 }
    }
}

/// Division that rounds down, also below zero.
fn floor_div(dividend: i128, divisor: i128) -> (quotient: i128)
    requires
        i64::MIN <= dividend <= i64::MAX,
        divisor == SECS_PER_HOUR || divisor == SECS_PER_DAY,
    ensures
        quotient == dividend as int / divisor as int,
        quotient * divisor == dividend - dividend as int % divisor as int,
        i64::MIN - divisor <= quotient * divisor <= i64::MAX,
{
    if dividend >= 0 {
        dividend / divisor
    } else {
        -((-dividend + divisor - 1) / divisor)
    }
}

/// Whether a year of the Gregorian calendar has 366 days.
pub open spec fn leap_year(year: int) -> bool {
    year % 4 == 0 && (year % 100 != 0 || year % 400 == 0)
}

/// Days from the start of 1970 to the start of a year.
pub open spec fn days_before_year(year: int) -> int {
    365 * (year - 1970) + (year - 1) / 4 - (year - 1) / 100 + (year - 1) / 400 - 477
}

/// Days from the start of a year to the start of its month `month`, where the
/// thirteenth month is the first of the year after.
pub open spec fn days_before_month(year: int, month: int) -> int {
    let leap: int = if leap_year(year) {
        1
    } else {
        0
    };
    if month <= 1 {
        0
    } else if month == 2 {
        31
    } else if month == 3 {
        59 + leap
    } else if month == 4 {
        90 + leap
    } else if month == 5 {
        120 + leap
    } else if month == 6 {
        151 + leap
    } else if month == 7 {
        181 + leap
    } else if month == 8 {
        212 + leap
    } else if month == 9 {
        243 + leap
    } else if month == 10 {
        273 + leap
    } else if month == 11 {
        304 + leap
    } else if month == 12 {
        334 + leap
    } else {
        365 + leap
    }
}

/// Whether the day that is `days` after the start of 1970 falls within a year.
pub open spec fn year_is(days: int, year: int) -> bool {
    days_before_year(year) <= days < days_before_year(year + 1)
}

/// Whether that day falls within a month of the year it falls within.
pub open spec fn month_is(days: int, year: int, month: int) -> bool {
    let day_of_year = days - days_before_year(year);
    &&& 1 <= month <= 12
    &&& days_before_month(year, month) <= day_of_year < days_before_month(year, month + 1)
}

/// Whether the day that is `days` after the start of 1970 has this date.
pub open spec fn date_is(days: int, year: int, month: int, day: int) -> bool {
    &&& year_is(days, year)
    &&& month_is(days, year, month)
    &&& day == days - days_before_year(year) - days_before_month(year, month) + 1
}

/// Days from the start of 1970 to the day that the second `secs` falls on.
pub open spec fn day_number(secs: i64) -> int {
    secs as int / SECS_PER_DAY as int
}

/// `chrono::Datelike::year` of the moment that `chrono::DateTime::from_timestamp`
/// makes of `secs`: the year within which the day falls.
#[verifier::external_body]
fn utc_year(secs: i64) -> (year: i32)
    requires
        MIN_SECS <= secs <= MAX_SECS,
    ensures
        year_is(day_number(secs), year as int),
{
    chrono::Datelike::year(&chrono::DateTime::<chrono::Utc>::from_timestamp(secs, 0).unwrap())
}

/// `chrono::Datelike::month` of the moment that `chrono::DateTime::from_timestamp`
/// makes of `secs`: the month, counted from one, within which the day falls.
#[verifier::external_body]
fn utc_month(secs: i64) -> (month: u32)
    requires
        MIN_SECS <= secs <= MAX_SECS,
    ensures
        forall|year: int| #[trigger]
            year_is(day_number(secs), year) ==> month_is(day_number(secs), year, month as int),
{
    chrono::Datelike::month(&chrono::DateTime::<chrono::Utc>::from_timestamp(secs, 0).unwrap())
}

/// `chrono::Datelike::day` of the moment that `chrono::DateTime::from_timestamp`
/// makes of `secs`: the day of the month, counted from one.
#[verifier::external_body]
fn utc_day(secs: i64) -> (day: u32)
    requires
        MIN_SECS <= secs <= MAX_SECS,
    ensures
        forall|year: int, month: int|
            year_is(day_number(secs), year) && #[trigger] month_is(day_number(secs), year, month)
                ==> date_is(day_number(secs), year, month, day as int),
{
    chrono::Datelike::day(&chrono::DateTime::<chrono::Utc>::from_timestamp(secs, 0).unwrap())
}

/// A date of the Gregorian calendar.
#[derive(Clone, Copy, Debug, PartialEq, Eq, Structural)]
pub struct Date {
    /// Year, with year zero before year one.
    pub year: i32,
    /// Month, from one.
    pub month: u32,
    /// Day of the month, from one.
    pub day: u32,
}

/// The date that a moment falls on.
pub fn date_of(time: UtcTime) -> (date: Date)
    requires
        time.valid(),
    ensures
        date_is(time.days(), date.year as int, date.month as int, date.day as int),
        -262_143 <= date.year <= 262_142,
        1 <= date.day <= 31,
{
    let year: i32 = utc_year(time.secs);
    let month: u32 = utc_month(time.secs);
    let day: u32 = utc_day(time.secs);
    assert(month_is(day_number(time.secs), year as int, month as int));
    Date { year, month, day }
}

/// A day has one date only.
pub proof fn law_date_is_unique(
    days: int,
    year: int,
    month: int,
    day: int,
    other_year: int,
    other_month: int,
    other_day: int,
)
    requires
        date_is(days, year, month, day),
        date_is(days, other_year, other_month, other_day),
    ensures
        year == other_year,
        month == other_month,
        day == other_day,
{
    if year < other_year {
        lemma_years_increase(year + 1, other_year);
    } else if other_year < year {
        lemma_years_increase(other_year + 1, year);
    }
}

proof fn lemma_years_increase(earlier: int, later: int)
    requires
        earlier <= later,
    ensures
        days_before_year(earlier) <= days_before_year(later),
{
}

} // verus!
