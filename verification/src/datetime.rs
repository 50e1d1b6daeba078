//! A date paired with a time, and the partial form produced by the most
//! permissive combined parser.

use vstd::prelude::*;

use crate::Valid;
use crate::date::Datelike;
use crate::time::Timelike;

verus! {

/// A date of any representation paired with a time of any representation.
#[derive(Eq, PartialEq, Clone, Copy, Debug)]
pub struct DateTime<D, T> {
    pub date: D,
    pub time: T,
}

impl<D: Datelike + Valid, T: Timelike + Valid> Valid for DateTime<D, T> {
    /// A combined value is valid exactly when both components are.
    open spec fn valid_spec(&self) -> bool {
        self.date.valid_spec() && self.time.valid_spec()
    }

    fn is_valid(&self) -> (r: bool) {
        self.date.is_valid() && self.time.is_valid()
    }
}

/// What the most permissive combined parser produced: a date alone, a time
/// alone, or both.
#[derive(Eq, PartialEq, Clone, Copy, Debug)]
pub enum PartialDateTime<D, T> {
    Date(D),
    Time(T),
    DateTime(DateTime<D, T>),
}

} // verus!
