//! The system clock, as far as the library relies on it.
//!
//! Nothing in the library is proved of what the clock reads. The items here
//! make the clock's functions callable from verified code. Of the values
//! that come back they claim one thing only: that the whole seconds of a
//! duration depend on the duration alone.

use std::time::{Duration, SystemTime, SystemTimeError};
use vstd::prelude::*;

verus! {

/// `std::time::SystemTime`, a reading of the system clock. Its contents are
/// hidden from verified code.
#[verifier::external_type_specification]
#[verifier::external_body]
pub struct ExSystemTime(SystemTime);

/// `std::time::SystemTimeError`, the error of a reading that lies before
/// the instant it is measured from. Its contents are hidden from verified
/// code.
#[verifier::external_type_specification]
#[verifier::external_body]
pub struct ExSystemTimeError(SystemTimeError);

/// `SystemTime::now` reads the system clock. Nothing is claimed of the
/// reading.
pub assume_specification[ SystemTime::now ]() -> (now: SystemTime)
;

/// `SystemTime::duration_since`, called with `SystemTime::UNIX_EPOCH`:
/// the time from the epoch to `time`, or an error where `time` lies before
/// the epoch. Nothing is claimed of the outcome.
#[verifier::external_body]
pub(crate) fn since_epoch(time: &SystemTime) -> (elapsed: Result<Duration, SystemTimeError>) {
    time.duration_since(SystemTime::UNIX_EPOCH)
}

/// The whole seconds that a duration holds, as `Duration::as_secs` gives
/// them.
pub uninterp spec fn whole_seconds(duration: Duration) -> u64;

/// `Duration::as_secs` gives the whole seconds of a duration. Their number
/// depends on the duration alone; nothing more is claimed of it.
pub assume_specification[ Duration::as_secs ](duration: &Duration) -> (seconds: u64)
    ensures
        seconds == whole_seconds(*duration),
;

} // verus!
