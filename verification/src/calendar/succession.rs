//! How dates follow one another.

use vstd::arithmetic::div_mod::{
    lemma_fundamental_div_mod, lemma_fundamental_div_mod_converse, lemma_mod_bound,
};
use vstd::prelude::*;

use crate::calendar::{date_is, day_number, days_before_year, UtcTime};

verus! {

/// The days of a month: February has 29 in every fourth year, but in a year that ends a
/// century only if that century is a fourth one.
pub open spec fn month_length(year: int, month: int) -> int {
    if month == 2 {
        if year % 400 == 0 || (year % 4 == 0 && year % 100 != 0) {
            29
        } else {
            28
        }
    } else if month == 4 || month == 6 || month == 9 || month == 11 {
        30
    } else {
        31
    }
}

/// Days are counted from the first of January 1970.
pub proof fn law_count_starts_in_1970()
    ensures
        date_is(0, 1970, 1, 1),
{
}

/// The day after the last one of a month is the first one of the next month, and the year
/// ends with December. Every other day is followed by the next one of its month.
pub proof fn law_days_follow_one_another(days: int, year: int, month: int, day: int)
    requires
        date_is(days, year, month, day),
    ensures
        1 <= month <= 12,
        1 <= day <= month_length(year, month),
        day < month_length(year, month) ==> date_is(days + 1, year, month, day + 1),
        day == month_length(year, month) && month < 12 ==> date_is(days + 1, year, month + 1, 1),
        day == month_length(year, month) && month == 12 ==> date_is(days + 1, year + 1, 1, 1),
{
    lemma_year_length(year);
    lemma_year_length(year + 1);
}

/// A year has 366 days if its February has 29, and 365 if not.
proof fn lemma_year_length(year: int)
    ensures
        days_before_year(year + 1) - days_before_year(year) == 337 + month_length(year, 2),
{
    lemma_multiples(year, 4);
    lemma_multiples(year, 100);
    lemma_multiples(year, 400);
}

/// One more multiple is passed exactly at a multiple.
proof fn lemma_multiples(year: int, step: int)
    requires
        step > 1,
    ensures
        year % step == 0 ==> year / step == (year - 1) / step + 1,
        year % step != 0 ==> year / step == (year - 1) / step,
{
    let quotient = year / step;
    let rest = year % step;
    lemma_fundamental_div_mod(year, step);
    if rest == 0 {
        assert((quotient - 1) * step == quotient * step - step) by (nonlinear_arith);
        lemma_fundamental_div_mod_converse(year - 1, step, quotient - 1, step - 1);
    } else {
        lemma_mod_bound(year, step);
        lemma_fundamental_div_mod_converse(year - 1, step, quotient, rest - 1);
    }
}

/// A moment falls on the day whose 86400 seconds hold it, and in the hour of that day whose
/// 3600 seconds hold it.
pub proof fn law_moment_falls_within_its_hour(time: UtcTime)
    ensures
        ({
            let past = time.secs - 86400 * time.days();
            &&& 0 <= past < 86400
            &&& 0 <= time.spec_hour() < 24
            &&& 3600 * time.spec_hour() <= past < 3600 * (time.spec_hour() + 1)
            &&& time.days() == day_number(time.secs)
        }),
{
}

/// A moment is counted in the whole milliseconds that have passed, and less than one more.
pub proof fn law_milliseconds_are_rounded_down(time: UtcTime)
    ensures
        ({
            let nanos = time.secs * 1_000_000_000 + time.nanos;
            time.spec_millis() * 1_000_000 <= nanos < (time.spec_millis() + 1) * 1_000_000
        }),
{
}

} // verus!
