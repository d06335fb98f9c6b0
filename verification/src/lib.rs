//! Timestamps for the HTTP `Date` header.
//!
//! A [`Datetime`] holds a calendar date, a time of day and the seconds elapsed
//! since the Unix epoch. It is advanced by exact integer arithmetic and
//! rendered in the one format HTTP requires, IMF-fixdate:
//! `Thu, 01 Jan 1970 00:00:00 GMT`. All times are UTC.

pub mod clock;
pub mod date;
pub mod datetime;
pub mod daycount;
pub mod text;
pub mod time;

pub use datetime::Datetime;
