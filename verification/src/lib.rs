//! Parser and calendar arithmetic for the ISO 8601 family of textual
//! date and time notations.
//!
//! The library parses byte strings into typed calendar dates, week dates,
//! ordinal dates and times at several precision levels, converts losslessly
//! between the three complete date representations, and validates every
//! representation against the Gregorian leap-year and ISO week-count rules.

use vstd::prelude::*;

pub mod calendar;
pub mod date;
pub mod datetime;
pub mod parse;
pub mod time;

pub use crate::date::{
    ApproxDate, CDate, Date, Datelike, ODate, WDate, WdDate, YDate, Year, YmDate, YmdDate,
};
pub use crate::datetime::{DateTime, PartialDateTime};
pub use crate::time::{
    AnyTime, ApproxAnyTime, ApproxGlobalTime, ApproxLocalTime, ApproxNaiveTime, GlobalTime,
    HTime, HmTime, HmsTime, LocalTime, NaiveTime, Timelike,
};

verus! {

/// A value that carries its own validity predicate.
///
/// `valid_spec` states validity mathematically; `is_valid` decides it.
pub trait Valid {
    /// What it means for this value to be within its domain.
    spec fn valid_spec(&self) -> bool;

    /// Decides `valid_spec`.
    fn is_valid(&self) -> (r: bool)
        ensures
            r == self.valid_spec(),
    ;
}

} // verus!
