//! The calendar date: weekday, day of the month, month and year, advanced
//! one day at a time.

use vstd::prelude::*;
use vstd::string::*;
use crate::text::{decimal, push_decimal, push_two_digits, two_digits};
use crate::time::{D_AS_H, H_AS_S};

verus! {

/// Seconds in a day.
pub const D_AS_S: u64 = H_AS_S * D_AS_H;

/// Whether `year` has 366 days in the Gregorian calendar.
pub open spec fn leap_year(year: nat) -> bool {
    year % 4 == 0 && (year % 100 != 0 || year % 400 == 0)
}

/// A day of the week. The week is a cycle of seven days that begins, for
/// counting, on Monday.
#[derive(PartialEq, Eq, Structural, Clone, Copy, Debug)]
pub enum Weekday {
    Mon,
    Tue,
    Wed,
    Thu,
    Fri,
    Sat,
    Sun,
}

impl Weekday {
    /// The place of the day in the week, from 0 for Monday to 6 for Sunday.
    pub open spec fn index(self) -> nat {
        match self {
            Weekday::Mon => 0,
            Weekday::Tue => 1,
            Weekday::Wed => 2,
            Weekday::Thu => 3,
            Weekday::Fri => 4,
            Weekday::Sat => 5,
            Weekday::Sun => 6,
        }
    }

    /// The day at place `index`; the places are counted modulo 7.
    pub open spec fn at(index: nat) -> Weekday {
        let i = index % 7;
        if i == 0 {
            Weekday::Mon
        } else if i == 1 {
            Weekday::Tue
        } else if i == 2 {
            Weekday::Wed
        } else if i == 3 {
            Weekday::Thu
        } else if i == 4 {
            Weekday::Fri
        } else if i == 5 {
            Weekday::Sat
        } else {
            Weekday::Sun
        }
    }

    /// The weekday that comes `days` days after this one.
    pub open spec fn after(self, days: nat) -> Weekday {
        Weekday::at(self.index() + days)
    }

    /// The three letters that stand for the day in a header.
    pub open spec fn label(self) -> Seq<char> {
        match self {
            Weekday::Mon => seq!['M', 'o', 'n'],
            Weekday::Tue => seq!['T', 'u', 'e'],
            Weekday::Wed => seq!['W', 'e', 'd'],
            Weekday::Thu => seq!['T', 'h', 'u'],
            Weekday::Fri => seq!['F', 'r', 'i'],
            Weekday::Sat => seq!['S', 'a', 't'],
            Weekday::Sun => seq!['S', 'u', 'n'],
        }
    }

    /// The three letters that stand for the day in a header.
    pub fn abbr(&self) -> (r: &'static str)
        ensures
            r@ == self.label(),
    {
        proof {
            reveal_strlit("Mon");
            reveal_strlit("Tue");
            reveal_strlit("Wed");
            reveal_strlit("Thu");
            reveal_strlit("Fri");
            reveal_strlit("Sat");
            reveal_strlit("Sun");
        }
        let r: &'static str = match self {
            Weekday::Mon => "Mon",
            Weekday::Tue => "Tue",
            Weekday::Wed => "Wed",
            Weekday::Thu => "Thu",
            Weekday::Fri => "Fri",
            Weekday::Sat => "Sat",
            Weekday::Sun => "Sun",
        };
        assert(r@ =~= self.label());
        r
    }

    /// The weekday `diff_d` days after this one.
    pub fn skip(&self, diff_d: u64) -> (r: Self)
        ensures
            r == self.after(diff_d as nat),
    {
        let steps: u64 = diff_d % 7;
        let mut current: Weekday = *self;
        let mut done: u64 = 0;
        while done < steps
            invariant
                done <= steps,
                current == self.after(done as nat),
            decreases steps - done,
        {
            current = match current {
                Weekday::Mon => Weekday::Tue,
                Weekday::Tue => Weekday::Wed,
                Weekday::Wed => Weekday::Thu,
                Weekday::Thu => Weekday::Fri,
                Weekday::Fri => Weekday::Sat,
                Weekday::Sat => Weekday::Sun,
                Weekday::Sun => Weekday::Mon,
            };
            done = done + 1;
        }
        current
    }
}

impl Default for Weekday {
    /// Thursday, the weekday of 1 January 1970.
    fn default() -> (r: Self)
        ensures
            r == Weekday::Thu,
    {
        Weekday::Thu
    }
}

/// A month of the year. The year is a cycle of twelve months.
#[derive(PartialEq, Eq, Structural, Clone, Copy, Debug)]
pub enum Month {
    Jan,
    Feb,
    Mar,
    Apr,
    May,
    Jun,
    Jul,
    Aug,
    Sep,
    Oct,
    Nov,
    Dec,
}

impl Month {
    /// The place of the month in the year, from 0 for January to 11 for
    /// December.
    pub open spec fn index(self) -> nat {
        match self {
            Month::Jan => 0,
            Month::Feb => 1,
            Month::Mar => 2,
            Month::Apr => 3,
            Month::May => 4,
            Month::Jun => 5,
            Month::Jul => 6,
            Month::Aug => 7,
            Month::Sep => 8,
            Month::Oct => 9,
            Month::Nov => 10,
            Month::Dec => 11,
        }
    }

    /// The month at place `index`; the places are counted modulo 12.
    pub open spec fn at(index: nat) -> Month {
        let i = index % 12;
        if i == 0 {
            Month::Jan
        } else if i == 1 {
            Month::Feb
        } else if i == 2 {
            Month::Mar
        } else if i == 3 {
            Month::Apr
        } else if i == 4 {
            Month::May
        } else if i == 5 {
            Month::Jun
        } else if i == 6 {
            Month::Jul
        } else if i == 7 {
            Month::Aug
        } else if i == 8 {
            Month::Sep
        } else if i == 9 {
            Month::Oct
        } else if i == 10 {
            Month::Nov
        } else {
            Month::Dec
        }
    }

    /// The month that comes `months` months after this one.
    pub open spec fn after(self, months: nat) -> Month {
        Month::at(self.index() + months)
    }

    /// The number of days of the month, in a leap year or in a common one.
    pub open spec fn days(self, leap: bool) -> nat {
        match self {
            Month::Feb => if leap { 29 } else { 28 },
            Month::Apr | Month::Jun | Month::Sep | Month::Nov => 30,
            _ => 31,
        }
    }

    /// The three letters that stand for the month in a header.
    pub open spec fn label(self) -> Seq<char> {
        match self {
            Month::Jan => seq!['J', 'a', 'n'],
            Month::Feb => seq!['F', 'e', 'b'],
            Month::Mar => seq!['M', 'a', 'r'],
            Month::Apr => seq!['A', 'p', 'r'],
            Month::May => seq!['M', 'a', 'y'],
            Month::Jun => seq!['J', 'u', 'n'],
            Month::Jul => seq!['J', 'u', 'l'],
            Month::Aug => seq!['A', 'u', 'g'],
            Month::Sep => seq!['S', 'e', 'p'],
            Month::Oct => seq!['O', 'c', 't'],
            Month::Nov => seq!['N', 'o', 'v'],
            Month::Dec => seq!['D', 'e', 'c'],
        }
    }

    /// The three letters that stand for the month in a header.
    pub fn abbr(&self) -> (r: &'static str)
        ensures
            r@ == self.label(),
    {
        proof {
            reveal_strlit("Jan");
            reveal_strlit("Feb");
            reveal_strlit("Mar");
            reveal_strlit("Apr");
            reveal_strlit("May");
            reveal_strlit("Jun");
            reveal_strlit("Jul");
            reveal_strlit("Aug");
            reveal_strlit("Sep");
            reveal_strlit("Oct");
            reveal_strlit("Nov");
            reveal_strlit("Dec");
        }
        let r: &'static str = match self {
            Month::Jan => "Jan",
            Month::Feb => "Feb",
            Month::Mar => "Mar",
            Month::Apr => "Apr",
            Month::May => "May",
            Month::Jun => "Jun",
            Month::Jul => "Jul",
            Month::Aug => "Aug",
            Month::Sep => "Sep",
            Month::Oct => "Oct",
            Month::Nov => "Nov",
            Month::Dec => "Dec",
        };
        assert(r@ =~= self.label());
        r
    }

    /// The number of days of the month.
    pub fn len(&self, is_leap_year: bool) -> (r: u8)
        ensures
            r == self.days(is_leap_year),
    {
        match self {
            Month::Jan | Month::Mar | Month::May | Month::Jul | Month::Aug | Month::Oct
            | Month::Dec => 31,
            Month::Apr | Month::Jun | Month::Sep | Month::Nov => 30,
            Month::Feb => if is_leap_year { 29 } else { 28 },
        }
    }

    /// The month `diff_m` months after this one.
    pub fn skip(&self, diff_m: u64) -> (r: Self)
        ensures
            r == self.after(diff_m as nat),
    {
        let steps: u64 = diff_m % 12;
        let mut current: Month = *self;
        let mut done: u64 = 0;
        while done < steps
            invariant
                done <= steps,
                current == self.after(done as nat),
            decreases steps - done,
        {
            current = match current {
                Month::Jan => Month::Feb,
                Month::Feb => Month::Mar,
                Month::Mar => Month::Apr,
                Month::Apr => Month::May,
                Month::May => Month::Jun,
                Month::Jun => Month::Jul,
                Month::Jul => Month::Aug,
                Month::Aug => Month::Sep,
                Month::Sep => Month::Oct,
                Month::Oct => Month::Nov,
                Month::Nov => Month::Dec,
                Month::Dec => Month::Jan,
            };
            done = done + 1;
        }
        current
    }

    /// Whether the month is the last of its year.
    pub fn is_last(&self) -> (r: bool)
        ensures
            r == (*self == Month::Dec),
    {
        *self == Month::Dec
    }
}

impl Default for Month {
    /// January.
    fn default() -> (r: Self)
        ensures
            r == Month::Jan,
    {
        Month::Jan
    }
}

/// A year of the Gregorian calendar.
#[derive(PartialEq, Eq, Structural, Clone, Copy, Debug)]
pub struct Year(pub u64);

impl View for Year {
    type V = nat;

    open spec fn view(&self) -> nat {
        self.0 as nat
    }
}

impl Year {
    /// The year `diff_y` years after this one.
    pub fn skip(&self, diff_y: u64) -> (r: Self)
        requires
            self@ + diff_y <= u64::MAX,
        ensures
            r@ == self@ + diff_y,
    {
        Year(self.0 + diff_y)
    }

    /// The year in decimal digits, with no padding.
    pub fn to_string(&self) -> (r: String)
        ensures
            r@ == decimal(self@),
    {
        let mut out: String = String::new();
        push_decimal(&mut out, self.0);
        assert(out@ =~= decimal(self@));
        out
    }

    /// Whether the year is a leap year.
    pub fn is_leap(&self) -> (r: bool)
        ensures
            r == leap_year(self@),
    {
        let y: u64 = self.0;
        y % 4 == 0 && (y % 100 != 0 || y % 400 == 0)
    }
}

impl Default for Year {
    /// 1970, the year of the epoch.
    fn default() -> (r: Self)
        ensures
            r@ == 1970,
    {
        Year(1970)
    }
}

/// The mathematical model of a [`Date`]: a day of the calendar and the
/// seconds that have passed since its midnight.
pub struct CalendarDay {
    pub day: nat,
    pub weekday: Weekday,
    pub month: Month,
    pub year: nat,
    pub seconds: nat,
}

impl CalendarDay {
    /// 1 January 1970, a Thursday, at midnight.
    pub open spec fn epoch() -> CalendarDay {
        CalendarDay { day: 1, weekday: Weekday::Thu, month: Month::Jan, year: 1970, seconds: 0 }
    }

    /// The number of days of the month that the day lies in.
    pub open spec fn month_days(self) -> nat {
        self.month.days(leap_year(self.year))
    }

    /// The day exists in its month, and less than a day's seconds have
    /// passed since its midnight.
    pub open spec fn wf(self) -> bool {
        &&& 1 <= self.day <= self.month_days()
        &&& self.seconds < 86400
    }

    /// The same time of day on the next day of the calendar. After the last
    /// day of a month comes the first day of the next month, and after
    /// December the January of the next year.
    pub open spec fn tomorrow(self) -> CalendarDay {
        if self.day < self.month_days() {
            CalendarDay { day: self.day + 1, weekday: self.weekday.after(1), ..self }
        } else {
            CalendarDay {
                day: 1,
                weekday: self.weekday.after(1),
                month: self.month.after(1),
                year: if self.month == Month::Dec {
                    self.year + 1
                } else {
                    self.year
                },
                seconds: self.seconds,
            }
        }
    }

    /// The same time of day `days` days later.
    pub open spec fn plus_days(self, days: nat) -> CalendarDay
        decreases days,
    {
        if days == 0 {
            self
        } else {
            self.tomorrow().plus_days((days - 1) as nat)
        }
    }

    /// The date as a header shows it: the weekday's three letters, a comma,
    /// the day in two digits, the month's three letters and the year in
    /// decimal, a space between each two.
    pub open spec fn header_text(self) -> Seq<char> {
        self.weekday.label() + seq![',', ' '] + two_digits(self.day) + seq![' ']
            + self.month.label() + seq![' '] + decimal(self.year)
    }

    /// The day and the seconds since its midnight when `seconds` more
    /// seconds have passed.
    pub open spec fn after(self, seconds: nat) -> CalendarDay {
        let total = self.seconds + seconds;
        CalendarDay { seconds: total % 86400, ..self.plus_days(total / 86400) }
    }
}

/// A date of the Gregorian calendar with its weekday, and in `xs` the seconds
/// since its midnight.
#[derive(PartialEq, Eq, Structural, Debug)]
pub struct Date {
    pub d: u8,
    pub wd: Weekday,
    pub m: Month,
    pub y: Year,
    pub xs: u64,
}

impl View for Date {
    type V = CalendarDay;

    open spec fn view(&self) -> CalendarDay {
        CalendarDay {
            day: self.d as nat,
            weekday: self.wd,
            month: self.m,
            year: self.y@,
            seconds: self.xs as nat,
        }
    }
}

impl Default for Date {
    /// The date of the epoch.
    fn default() -> (r: Self)
        ensures
            r@ == CalendarDay::epoch(),
            r@.wf(),
    {
        Date { d: 1, wd: Weekday::default(), m: Month::default(), y: Year::default(), xs: 0 }
    }
}

impl Date {
    /// The date `diff_s` seconds later.
    ///
    /// The seconds are added to those since midnight; each full day among
    /// them moves the date one day on, across the ends of months and years.
    ///
    /// The sum of the seconds and the year that is reached must fit their
    /// integers. The year does so whenever this year plus one year for each
    /// full day does.
    pub fn skip(&self, diff_s: u64) -> (r: Self)
        requires
            self@.wf(),
            self.xs + diff_s <= u64::MAX,
            self@.year + (self.xs + diff_s) / 86400 <= u64::MAX || self@.after(
                diff_s as nat,
            ).year <= u64::MAX,
        ensures
            r@ == self@.after(diff_s as nat),
            r@.wf(),
    {
        proof {
            law_after_wf(self@, diff_s as nat);
            lemma_after_year(self@, diff_s as nat);
        }
        let mut d: u8 = self.d;
        let mut wd: Weekday = self.wd;
        let mut m: Month = self.m;
        let mut y: Year = self.y;
        let mut xs: u64 = diff_s + self.xs;
        let ghost total: nat = (self.xs + diff_s) as nat;
        let ghost goal: CalendarDay = self@.plus_days(total / 86400);

        if xs >= D_AS_S {
            'months: loop
                invariant
                    xs % 86400 == total % 86400,
                    goal.year <= u64::MAX,
                    1 <= d <= m.days(leap_year(y@)),
                    goal == (Date { d, wd, m, y, xs: self.xs })@.plus_days(xs as nat / 86400),
                ensures
                    xs < 86400,
                decreases xs,
            {
                let this_m_as_d: u8 = m.len(y.is_leap());
                let ghost left: u64 = xs;
                'days: loop
                    invariant_except_break
                        1 <= d <= this_m_as_d,
                        goal == (Date { d, wd, m, y, xs: self.xs })@.plus_days(xs as nat / 86400),
                    invariant
                        this_m_as_d == m.days(leap_year(y@)),
                        xs % 86400 == total % 86400,
                        goal.year <= u64::MAX,
                        xs <= left,
                    ensures
                        xs < left,
                        d == 1,
                        m == Month::Dec ==> y@ < u64::MAX,
                        goal == (CalendarDay {
                            day: 1,
                            weekday: wd,
                            month: m.after(1),
                            year: if m == Month::Dec {
                                y@ + 1
                            } else {
                                y@
                            },
                            seconds: self.xs as nat,
                        }).plus_days(xs as nat / 86400),
                    decreases xs,
                {
                    if xs < D_AS_S {
                        break 'months;
                    }
                    proof {
                        let today = (Date { d, wd, m, y, xs: self.xs })@;
                        lemma_plus_days_year(today.tomorrow(), (xs as nat / 86400 - 1) as nat);
                    }
                    xs -= D_AS_S;
                    wd = wd.skip(1);
                    if d != this_m_as_d {
                        d += 1
                    } else {
                        d = 1;
                        break 'days;
                    }
                }
                if m.is_last() {
                    y = y.skip(1)
                };
                m = m.skip(1);
            }
        };
        Date { d, wd, m, y, xs }
    }

    /// Whether the day exists in its month and the seconds since midnight
    /// are less than a day's.
    pub fn is_valid(&self) -> (r: bool)
        ensures
            r == self@.wf(),
    {
        1 <= self.d && self.d <= self.m.len(self.y.is_leap()) && self.xs < D_AS_S
    }

    /// The date as a header shows it, as in `Thu, 01 Jan 1970`.
    pub fn for_header(&self) -> (r: String)
        ensures
            r@ == self@.header_text(),
    {
        ImfFixdateDate(self).to_string()
    }
}

/// A date in the form that a header shows.
pub struct ImfFixdateDate<'a>(pub &'a Date);

impl<'a> ImfFixdateDate<'a> {
    /// The text of the date, as in `Thu, 01 Jan 1970`.
    pub fn to_string(&self) -> (r: String)
        ensures
            r@ == self.0@.header_text(),
    {
        proof {
            reveal_strlit(", ");
            reveal_strlit(" ");
        }
        let date: &Date = self.0;
        let mut out: String = String::new();
        out.append(date.wd.abbr());
        out.append(", ");
        push_two_digits(&mut out, date.d);
        out.append(" ");
        out.append(date.m.abbr());
        out.append(" ");
        push_decimal(&mut out, date.y.0);
        assert(out@ =~= date@.header_text());
        out
    }
}

/// The week is a cycle of seven days: no days on is the same day, seven days
/// on is the same day again, and days on add up.
pub proof fn law_weekday_cycle(day: Weekday, first: nat, second: nat)
    ensures
        day.after(0) == day,
        day.after(7) == day,
        day.after(first).after(second) == day.after(first + second),
        day.after(first).index() == (day.index() + first) % 7,
{
}

/// The year is a cycle of twelve months: no months on is the same month,
/// twelve months on is the same month again, and months on add up.
pub proof fn law_month_cycle(month: Month, first: nat, second: nat)
    ensures
        month.after(0) == month,
        month.after(12) == month,
        month.after(first).after(second) == month.after(first + second),
        month.after(first).index() == (month.index() + first) % 12,
{
}

/// A run of days ends in a year that is not before the year it began in,
/// and crosses at most one year's end for each of its days.
pub proof fn lemma_plus_days_year(day: CalendarDay, days: nat)
    ensures
        day.year <= day.plus_days(days).year <= day.year + days,
    decreases days,
{
    if days > 0 {
        lemma_plus_days_year(day.tomorrow(), (days - 1) as nat);
    }
}

/// The seconds since midnight ride along unchanged when the day moves on.
pub proof fn lemma_plus_days_seconds(day: CalendarDay, seconds: nat, days: nat)
    ensures
        (CalendarDay { seconds, ..day }).plus_days(days) == (CalendarDay {
            seconds,
            ..day.plus_days(days)
        }),
    decreases days,
{
    if days > 0 {
        lemma_plus_days_seconds(day.tomorrow(), seconds, (days - 1) as nat);
    }
}

/// Moving on by one run of days and then by another is moving on by both
/// at once.
pub proof fn lemma_plus_days_add(day: CalendarDay, first: nat, second: nat)
    ensures
        day.plus_days(first).plus_days(second) == day.plus_days(first + second),
    decreases first,
{
    if first > 0 {
        lemma_plus_days_add(day.tomorrow(), (first - 1) as nat, second);
    }
}

/// A day that exists is followed, after any number of days, by a day that
/// exists.
pub proof fn lemma_plus_days_wf(day: CalendarDay, days: nat)
    requires
        day.wf(),
    ensures
        day.plus_days(days).wf(),
    decreases days,
{
    if days > 0 {
        lemma_plus_days_wf(day.tomorrow(), (days - 1) as nat);
    }
}

/// Advancing keeps a date valid: the day stays within its month and the
/// seconds since midnight stay below those of a full day.
pub proof fn law_after_wf(day: CalendarDay, seconds: nat)
    requires
        day.wf(),
    ensures
        day.after(seconds).wf(),
{
    lemma_plus_days_wf(day, (day.seconds + seconds) / 86400);
}

/// Advancing by no seconds leaves a date as it is.
pub proof fn law_after_zero(day: CalendarDay)
    requires
        day.wf(),
    ensures
        day.after(0) == day,
{
}

/// Advancing by one count of seconds and then by another gives the same
/// date as advancing once by their sum.
pub proof fn law_after_composes(day: CalendarDay, first: nat, second: nat)
    ensures
        day.after(first).after(second) == day.after(first + second),
{
    let total = day.seconds + first;
    let rest = total % 86400 + second;
    let moved = day.plus_days(total / 86400);
    assert((total + second) / 86400 == total / 86400 + rest / 86400);
    assert((total + second) % 86400 == rest % 86400);
    lemma_plus_days_seconds(moved, total % 86400, rest / 86400);
    lemma_plus_days_add(day, total / 86400, rest / 86400);
}

/// The year of an advanced date is at most one later for each full day
/// that has passed.
pub proof fn lemma_after_year(day: CalendarDay, seconds: nat)
    ensures
        day.year <= day.after(seconds).year <= day.year + (day.seconds + seconds) / 86400,
{
    lemma_plus_days_year(day, (day.seconds + seconds) / 86400);
}

} // verus!
