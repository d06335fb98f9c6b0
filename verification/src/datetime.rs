//! The timestamp: a date, a time of day and the seconds since the epoch
//! that both are read from.

use std::time::{Duration, SystemTime, SystemTimeError};
use vstd::prelude::*;
use vstd::string::*;
use crate::clock::{since_epoch, whole_seconds};
use crate::date::{
    law_after_composes, law_after_wf, lemma_after_year, CalendarDay, Date, Weekday,
};
use crate::daycount::{
    day_number, epoch_day_number, law_after_day_number, lemma_epoch_day_number,
};
use crate::text::{law_decimal_len, law_two_digits};
use crate::time::{law_clock_fields_round_trip, ClockFields, Time};

verus! {

/// The mathematical model of a [`Datetime`].
pub struct Moment {
    pub date: CalendarDay,
    pub time: ClockFields,
    pub seconds: nat,
}

impl Moment {
    /// The moment `seconds` seconds after the epoch: the date that the
    /// calendar has reached by then, and the time that the clock shows.
    pub open spec fn at(seconds: nat) -> Moment {
        Moment {
            date: CalendarDay::epoch().after(seconds),
            time: ClockFields::of(seconds),
            seconds,
        }
    }

    /// Date and time are those of the moment's seconds since the epoch.
    pub open spec fn wf(self) -> bool {
        self == Moment::at(self.seconds)
    }

    /// The moment as the HTTP `Date` header shows it: the date, the time and
    /// the letters `GMT`, a space between each two.
    pub open spec fn header_text(self) -> Seq<char> {
        self.date.header_text() + seq![' '] + self.time.header_text() + seq![' ', 'G', 'M', 'T']
    }
}

/// The moment `seconds` seconds after the epoch, in closed form: its date
/// is a day of the calendar, the one whose day number is that of the epoch
/// plus the full days among the seconds; its weekday lies as many days
/// after Thursday; the seconds left over are those since midnight, and
/// they are the ones that the clock fields show.
pub proof fn law_moment_at(seconds: nat)
    ensures
        Moment::at(seconds).wf(),
        Moment::at(seconds).date.wf(),
        day_number(Moment::at(seconds).date) == epoch_day_number() + seconds / 86400,
        Moment::at(seconds).date.weekday == Weekday::Thu.after(seconds / 86400),
        Moment::at(seconds).date.seconds == seconds % 86400,
        Moment::at(seconds).time.wf(),
        Moment::at(seconds).time.total() == seconds,
        Moment::at(seconds).time.days_in_seconds + Moment::at(seconds).date.seconds == seconds,
{
    let epoch = CalendarDay::epoch();
    let date = epoch.after(seconds);
    assert(epoch.wf());
    law_after_wf(epoch, seconds);
    law_after_day_number(epoch, seconds);
    lemma_epoch_day_number();
    law_clock_fields_round_trip(seconds);
    assert(Moment::at(seconds).date == date);
    assert(Moment::at(seconds).time == ClockFields::of(seconds));
    assert(ClockFields::of(seconds).days_in_seconds + seconds % 86400 == seconds);
}

/// Moments are reached alike in one advance or in several: the moment at
/// `first + second` seconds has the date of the moment at `first` seconds,
/// advanced by `second` seconds.
pub proof fn law_moment_advance(first: nat, second: nat)
    ensures
        Moment::at(first).date.after(second) == Moment::at(first + second).date,
{
    law_after_composes(CalendarDay::epoch(), first, second);
}

/// In the years 1000 to 9999 the header text has its fixed width of 29
/// characters.
pub proof fn law_header_text_len(moment: Moment)
    requires
        moment.date.wf(),
        moment.time.wf(),
        1000 <= moment.date.year <= 9999,
    ensures
        moment.header_text().len() == 29,
{
    law_two_digits(moment.date.day);
    law_two_digits(moment.time.hour);
    law_two_digits(moment.time.minute);
    law_two_digits(moment.time.second);
    law_decimal_len(moment.date.year);
}

/// The system clock could not be read, or it reads a time before the epoch.
#[derive(PartialEq, Eq, Structural, Clone, Copy, Debug)]
pub struct ClockError;

/// A date, a time of day, and in `secs` the seconds since the epoch.
#[derive(PartialEq, Eq, Structural, Debug)]
pub struct Datetime {
    pub date: Date,
    pub time: Time,
    pub secs: u64,
}

impl View for Datetime {
    type V = Moment;

    open spec fn view(&self) -> Moment {
        Moment { date: self.date@, time: self.time@, seconds: self.secs as nat }
    }
}

impl Default for Datetime {
    /// The epoch: Thursday, 1 January 1970, at midnight.
    fn default() -> (r: Self)
        ensures
            r@ == Moment::at(0),
            r@.wf(),
    {
        Datetime { date: Date::default(), time: Time::default(), secs: 0 }
    }
}

impl Datetime {
    /// The timestamp of the present reading of the system clock.
    pub fn new() -> (r: Result<Self, ClockError>)
        ensures
            r matches Ok(datetime) ==> datetime@.wf(),
    {
        Self::default().now()
    }

    /// The seconds since the epoch that the system clock reads at present.
    pub fn raw() -> Result<u64, ClockError> {
        let present: SystemTime = SystemTime::now();
        let elapsed: Result<Duration, SystemTimeError> = since_epoch(&present);
        let reading: Result<u64, ClockError> = Self::elapsed_secs(elapsed);
        reading
    }

    /// This timestamp brought up to the present reading of the system clock.
    pub fn now(&self) -> (r: Result<Self, ClockError>)
        requires
            self@.wf(),
        ensures
            r matches Ok(datetime) ==> datetime@.wf(),
    {
        self.at(Self::raw())
    }

    /// This timestamp brought to a reading of the clock.
    ///
    /// A failed reading is handed on. A reading at or after this timestamp
    /// is reached by advancing from here, an earlier one by advancing from
    /// the epoch; either way the result is the moment that the reading
    /// names.
    pub fn at(&self, reading: Result<u64, ClockError>) -> (r: Result<Self, ClockError>)
        requires
            self@.wf(),
        ensures
            match reading {
                Ok(secs) => r matches Ok(datetime) && datetime@ == Moment::at(secs as nat),
                Err(error) => r == Err::<Self, ClockError>(error),
            },
    {
        match reading {
            Ok(secs) => {
                if secs >= self.secs {
                    Ok(self.set(secs))
                } else {
                    Ok(Self::default().set(secs))
                }
            },
            Err(error) => Err(error),
        }
    }

    /// The reading that a measurement of the time since the epoch gives: the
    /// whole seconds of the time measured, or the error where the clock
    /// reads a time before the epoch.
    pub fn elapsed_secs(elapsed: Result<Duration, SystemTimeError>) -> (r: Result<
        u64,
        ClockError,
    >)
        ensures
            match elapsed {
                Ok(duration) => r == Ok::<u64, ClockError>(whole_seconds(duration)),
                Err(_) => r == Err::<u64, ClockError>(ClockError),
            },
    {
        match elapsed {
            Ok(duration) => Ok(duration.as_secs()),
            Err(_) => Err(ClockError),
        }
    }

    /// This timestamp advanced to `secs` seconds since the epoch.
    pub fn set(&self, secs: u64) -> (r: Self)
        requires
            self@.wf(),
            self.secs <= secs,
        ensures
            r@ == Moment::at(secs as nat),
            r@.date == self@.date.after((secs - self.secs) as nat),
            r@.wf(),
    {
        proof {
            law_moment_at(self.secs as nat);
            law_moment_advance(self.secs as nat, (secs - self.secs) as nat);
            lemma_after_year(CalendarDay::epoch(), secs as nat);
        }
        let date: Date = self.date.skip(secs - self.secs);
        let time: Time = Time::from(secs);
        Self { date, time, secs }
    }

    /// Whether date and time are those of the seconds since the epoch.
    pub fn is_valid(&self) -> (r: bool)
        ensures
            r == self@.wf(),
    {
        let reference: Datetime = Self::default().set(self.secs);
        *self == reference
    }

    /// The timestamp as the HTTP `Date` header shows it, as in
    /// `Thu, 01 Jan 1970 00:00:00 GMT`.
    pub fn for_header(&self) -> (r: String)
        ensures
            r@ == self@.header_text(),
    {
        ImfFixdate(self).to_string()
    }
}

/// A timestamp in the form that the HTTP `Date` header shows.
struct ImfFixdate<'a>(&'a Datetime);

impl<'a> ImfFixdate<'a> {
    /// The text of the timestamp.
    fn to_string(&self) -> (r: String)
        ensures
            r@ == self.0@.header_text(),
    {
        proof {
            reveal_strlit(" ");
            reveal_strlit(" GMT");
        }
        let datetime: &Datetime = self.0;
        let mut out: String = datetime.date.for_header();
        out.append(" ");
        out.append(datetime.time.for_header().as_str());
        out.append(" GMT");
        assert(out@ =~= datetime@.header_text());
        out
    }
}

} // verus!
