//! The calendar counted in days.
//!
//! [`CalendarDay::tomorrow`] walks the calendar one day at a time. This
//! module numbers the days of the Gregorian calendar in closed form and
//! proves that the walk agrees with the numbering: each step raises the
//! number by one, and no two days of the calendar share a number.

use vstd::prelude::*;
use crate::date::{leap_year, CalendarDay, Month, Weekday};

verus! {

/// The number of leap years among the years `0` to `year - 1`.
pub open spec fn leap_years_before(year: nat) -> nat {
    ((year + 3) / 4 - (year + 99) / 100 + (year + 399) / 400) as nat
}

/// The number of days in the years `0` to `year - 1`.
pub open spec fn days_before_year(year: nat) -> nat {
    365 * year + leap_years_before(year)
}

/// The number of days of a year that lie before the first of `month`.
pub open spec fn days_before_month(month: Month, leap: bool) -> nat {
    let extra: nat = if leap {
        1
    } else {
        0
    };
    match month {
        Month::Jan => 0,
        Month::Feb => 31,
        Month::Mar => 59 + extra,
        Month::Apr => 90 + extra,
        Month::May => 120 + extra,
        Month::Jun => 151 + extra,
        Month::Jul => 181 + extra,
        Month::Aug => 212 + extra,
        Month::Sep => 243 + extra,
        Month::Oct => 273 + extra,
        Month::Nov => 304 + extra,
        Month::Dec => 334 + extra,
    }
}

/// The number of days from 1 January of the year 0 to `day`.
pub open spec fn day_number(day: CalendarDay) -> nat {
    (days_before_year(day.year) + days_before_month(day.month, leap_year(day.year)) + day.day
        - 1) as nat
}

/// The day number of the epoch, 1 January 1970.
pub open spec fn epoch_day_number() -> nat {
    719528
}

/// The epoch has the day number 719528.
pub proof fn lemma_epoch_day_number()
    ensures
        day_number(CalendarDay::epoch()) == epoch_day_number(),
{
}

/// A year begins as many days after the year before it as that year has:
/// 366 after a leap year, 365 after any other.
pub proof fn lemma_days_before_next_year(year: nat)
    ensures
        days_before_year(year + 1) == days_before_year(year) + if leap_year(year) {
            366nat
        } else {
            365nat
        },
{
}

/// A later year begins later, by at least 365 days for each year between.
pub proof fn lemma_days_before_year_grows(earlier: nat, later: nat)
    requires
        earlier <= later,
    ensures
        days_before_year(earlier) + 365 * (later - earlier) <= days_before_year(later),
    decreases later - earlier,
{
    if earlier < later {
        lemma_days_before_year_grows(earlier, (later - 1) as nat);
        lemma_days_before_next_year((later - 1) as nat);
    }
}

/// The day after a day of the calendar has the next day number.
pub proof fn lemma_tomorrow_day_number(day: CalendarDay)
    requires
        day.wf(),
    ensures
        day_number(day.tomorrow()) == day_number(day) + 1,
{
    if day.day == day.month_days() && day.month == Month::Dec {
        lemma_days_before_next_year(day.year);
    }
}

/// Walking on by `days` days raises the day number by `days`.
pub proof fn law_plus_days_day_number(day: CalendarDay, days: nat)
    requires
        day.wf(),
    ensures
        day_number(day.plus_days(days)) == day_number(day) + days,
    decreases days,
{
    if days > 0 {
        lemma_tomorrow_day_number(day);
        crate::date::lemma_plus_days_wf(day, 1);
        assert(day.plus_days(1) == day.tomorrow()) by {
            reveal_with_fuel(CalendarDay::plus_days, 2);
        }
        law_plus_days_day_number(day.tomorrow(), (days - 1) as nat);
    }
}

/// Advancing a date by `seconds` seconds raises its day number by the full
/// days among the seconds since its midnight, moves its weekday on by as
/// many days, and leaves the rest of the seconds.
pub proof fn law_after_day_number(day: CalendarDay, seconds: nat)
    requires
        day.wf(),
    ensures
        day_number(day.after(seconds)) == day_number(day) + (day.seconds + seconds) / 86400,
        day.after(seconds).weekday == day.weekday.after((day.seconds + seconds) / 86400),
        day.after(seconds).seconds == (day.seconds + seconds) % 86400,
{
    law_plus_days_day_number(day, (day.seconds + seconds) / 86400);
    lemma_plus_days_weekday(day, (day.seconds + seconds) / 86400);
}

/// Walking on by `days` days moves the weekday on by `days` days.
pub proof fn lemma_plus_days_weekday(day: CalendarDay, days: nat)
    ensures
        day.plus_days(days).weekday == day.weekday.after(days),
    decreases days,
{
    if days > 0 {
        lemma_plus_days_weekday(day.tomorrow(), (days - 1) as nat);
    }
}

/// The days of a valid date lie within its year: on or after the year's
/// first day and before the first day of the next year.
pub proof fn lemma_day_number_within_year(day: CalendarDay)
    requires
        day.wf(),
    ensures
        days_before_year(day.year) <= day_number(day) < days_before_year(day.year + 1),
{
    lemma_days_before_next_year(day.year);
}

/// Within a year, an earlier month ends before a later month begins.
pub proof fn lemma_months_in_order(earlier: Month, later: Month, leap: bool)
    requires
        earlier.index() < later.index(),
    ensures
        days_before_month(earlier, leap) + earlier.days(leap) <= days_before_month(later, leap),
{
}

/// No two days of the calendar have the same day number: year, month and
/// day of the month are determined by it.
pub proof fn law_day_number_injective(a: CalendarDay, b: CalendarDay)
    requires
        a.wf(),
        b.wf(),
        day_number(a) == day_number(b),
    ensures
        a.year == b.year,
        a.month == b.month,
        a.day == b.day,
{
    lemma_day_number_within_year(a);
    lemma_day_number_within_year(b);
    if a.year < b.year {
        lemma_days_before_year_grows(a.year + 1, b.year);
    } else if b.year < a.year {
        lemma_days_before_year_grows(b.year + 1, a.year);
    } else {
        let leap = leap_year(a.year);
        if a.month.index() < b.month.index() {
            lemma_months_in_order(a.month, b.month, leap);
        } else if b.month.index() < a.month.index() {
            lemma_months_in_order(b.month, a.month, leap);
        } else {
            assert(a.month == b.month);
        }
    }
}

} // verus!
