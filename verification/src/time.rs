//! The time of day, taken from a count of seconds.

use vstd::prelude::*;
use vstd::string::*;
use crate::text::{push_two_digits, two_digits};

verus! {

/// Seconds in a minute.
pub const M_AS_S: u64 = 60;

/// Minutes in an hour.
pub const H_AS_M: u64 = 60;

/// Seconds in an hour.
pub const H_AS_S: u64 = M_AS_S * H_AS_M;

/// Hours in a day.
pub const D_AS_H: u64 = 24;

/// The mathematical model of a [`Time`]: the clock fields of a count of
/// seconds, and the seconds of the whole days that lie before them.
pub struct ClockFields {
    pub hour: nat,
    pub minute: nat,
    pub second: nat,
    pub days_in_seconds: nat,
}

impl ClockFields {
    /// The clock fields of `seconds`, by positional decomposition in the
    /// bases 60, 60 and 24.
    pub open spec fn of(seconds: nat) -> ClockFields {
        ClockFields {
            hour: (seconds / 3600) % 24,
            minute: (seconds / 60) % 60,
            second: seconds % 60,
            days_in_seconds: (seconds / 86400) * 86400,
        }
    }

    /// The count of seconds that the fields stand for.
    pub open spec fn total(self) -> nat {
        self.days_in_seconds + self.hour * 3600 + self.minute * 60 + self.second
    }

    /// The time as a header shows it: hour, minute and second in two digits
    /// each, a colon between each two.
    pub open spec fn header_text(self) -> Seq<char> {
        two_digits(self.hour) + seq![':'] + two_digits(self.minute) + seq![':'] + two_digits(
            self.second,
        )
    }

    /// Hour, minute and second are in range and the rest is whole days.
    pub open spec fn wf(self) -> bool {
        &&& self.hour < 24
        &&& self.minute < 60
        &&& self.second < 60
        &&& self.days_in_seconds % 86400 == 0
    }
}

/// Taking a count of seconds apart and putting the fields together again
/// gives the count back, and the fields are in range.
pub proof fn law_clock_fields_round_trip(seconds: nat)
    ensures
        ClockFields::of(seconds).wf(),
        ClockFields::of(seconds).total() == seconds,
{
}

/// Fields that are in range are the fields of the count they stand for:
/// a count of seconds can be taken apart in one way only.
pub proof fn law_clock_fields_unique(fields: ClockFields)
    requires
        fields.wf(),
    ensures
        fields == ClockFields::of(fields.total()),
{
}

/// Hour, minute and second of the day, and in `xs` the seconds of the whole
/// days before it.
#[derive(PartialEq, Eq, Structural, Debug)]
pub struct Time {
    pub h: u8,
    pub m: u8,
    pub s: u8,
    pub xs: u64,
}

impl View for Time {
    type V = ClockFields;

    open spec fn view(&self) -> ClockFields {
        ClockFields {
            hour: self.h as nat,
            minute: self.m as nat,
            second: self.s as nat,
            days_in_seconds: self.xs as nat,
        }
    }
}

impl From<u64> for Time {
    /// The time of day `init_s` seconds after a midnight.
    fn from(init_s: u64) -> (r: Self)
        ensures
            r@ == ClockFields::of(init_s as nat),
            r@.wf(),
            r@.total() == init_s,
    {
        let s: u64 = init_s % M_AS_S;
        let m: u64 = (init_s - s) / M_AS_S % H_AS_M;
        let h: u64 = (init_s - s - m * M_AS_S) / H_AS_S % D_AS_H;
        let xs: u64 = init_s - (s + m * M_AS_S + h * H_AS_S);
        Self { h: h as u8, m: m as u8, s: s as u8, xs }
    }
}

impl vstd::std_specs::convert::FromSpecImpl<u64> for Time {
    open spec fn obeys_from_spec() -> bool {
        true
    }

    open spec fn from_spec(init_s: u64) -> Time {
        Time {
            h: ((init_s / 3600) % 24) as u8,
            m: ((init_s / 60) % 60) as u8,
            s: (init_s % 60) as u8,
            xs: ((init_s / 86400) * 86400) as u64,
        }
    }
}

impl Default for Time {
    /// Midnight, with no days before it.
    fn default() -> (r: Self)
        ensures
            r@ == ClockFields::of(0),
            r@.wf(),
    {
        Time { h: 0, m: 0, s: 0, xs: 0 }
    }
}

impl Time {
    /// The time as a header shows it, as in `23:59:59`.
    pub fn for_header(&self) -> (r: String)
        ensures
            r@ == self@.header_text(),
    {
        ImfFixdateTime(self).to_string()
    }
}

/// A time of day in the form that a header shows.
pub struct ImfFixdateTime<'a>(pub &'a Time);

impl<'a> ImfFixdateTime<'a> {
    /// The text of the time, as in `23:59:59`.
    pub fn to_string(&self) -> (r: String)
        ensures
            r@ == self.0@.header_text(),
    {
        proof {
            reveal_strlit(":");
        }
        let time: &Time = self.0;
        let mut out: String = String::new();
        push_two_digits(&mut out, time.h);
        out.append(":");
        push_two_digits(&mut out, time.m);
        out.append(":");
        push_two_digits(&mut out, time.s);
        assert(out@ =~= time@.header_text());
        out
    }
}

} // verus!
