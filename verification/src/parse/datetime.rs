//! The combined date-time grammar: a date, a literal `T` separator that
//! must not be doubled, and a time; and the permissive partial form that
//! accepts a date alone, a time alone, or both.

use vstd::prelude::*;
use vstd::slice::slice_subrange;

use crate::date::{ApproxDate, Date};
use crate::datetime::{DateTime, PartialDateTime};
use crate::parse::date::{date, date_approx, sp_date, sp_date_approx};
use crate::parse::time::{
    sp_time_any_approx, sp_time_any_h, sp_time_any_hm, sp_time_any_hms, sp_time_global_approx,
    sp_time_global_h, sp_time_global_hm, sp_time_global_hms, sp_time_local_approx,
    sp_time_local_h, sp_time_local_hm, sp_time_local_hms, time_any_approx, time_any_h,
    time_any_hm, time_any_hms, time_global_approx, time_global_h, time_global_hm,
    time_global_hms, time_local_approx, time_local_h, time_local_hm, time_local_hms,
};
use crate::parse::{lifts, sp_byte, take_byte, ParseError};
use crate::time::{
    AnyTime, ApproxAnyTime, ApproxGlobalTime, ApproxLocalTime, GlobalTime, HTime, HmTime,
    HmsTime, LocalTime,
};

verus! {

/// A combined value: a complete date, the `T` separator (not doubled), and an offset-bearing time to the second.
pub open spec fn sp_datetime_global_hms(s: Seq<u8>) -> Result<(int, DateTime<Date, GlobalTime<HmsTime>>), ParseError> {
    match sp_date(s) {
        Err(e) => Err(e),
        Ok((n1, d)) => match sp_byte(s.skip(n1), 84) {
            Err(e) => Err(e),
            Ok((n2, _)) => if s.skip(n1 + n2).len() == 0 {
                Err(ParseError::Incomplete)
            } else if s.skip(n1 + n2)[0] == 84 {
                Err(ParseError::Mismatch)
            } else {
                match sp_time_global_hms(s.skip(n1 + n2)) {
                    Err(e) => Err(e),
                    Ok((n3, t)) => Ok((n1 + n2 + n3, DateTime { date: d, time: t })),
                }
            },
        },
    }
}

/// Parses a complete date, `T`, and an offset-bearing time to the second.
pub fn datetime_global_hms(i: &[u8]) -> (r: Result<(usize, DateTime<Date, GlobalTime<HmsTime>>), ParseError>)
    ensures
        lifts(r, sp_datetime_global_hms(i@)),
        r matches Ok((n, _)) ==> n <= i@.len(),
{
    let (n1, d) = match date(i) {
        Ok(v) => v,
        Err(e) => {
            return Err(e);
        },
    };
    let (n2, _) = match take_byte(slice_subrange(i, n1, i.len()), 84) {
        Ok(v) => v,
        Err(e) => {
            return Err(e);
        },
    };
    let rest = slice_subrange(i, n1 + n2, i.len());
    if rest.len() == 0 {
        return Err(ParseError::Incomplete);
    }
    if rest[0] == 84 {
        return Err(ParseError::Mismatch);
    }
    match time_global_hms(rest) {
        Ok((n3, t)) => Ok((n1 + n2 + n3, DateTime { date: d, time: t })),
        Err(e) => Err(e),
    }
}

/// A combined value: a complete date, the `T` separator (not doubled), and an offset-bearing time to the minute.
pub open spec fn sp_datetime_global_hm(s: Seq<u8>) -> Result<(int, DateTime<Date, GlobalTime<HmTime>>), ParseError> {
    match sp_date(s) {
        Err(e) => Err(e),
        Ok((n1, d)) => match sp_byte(s.skip(n1), 84) {
            Err(e) => Err(e),
            Ok((n2, _)) => if s.skip(n1 + n2).len() == 0 {
                Err(ParseError::Incomplete)
            } else if s.skip(n1 + n2)[0] == 84 {
                Err(ParseError::Mismatch)
            } else {
                match sp_time_global_hm(s.skip(n1 + n2)) {
                    Err(e) => Err(e),
                    Ok((n3, t)) => Ok((n1 + n2 + n3, DateTime { date: d, time: t })),
                }
            },
        },
    }
}

/// Parses a complete date, `T`, and an offset-bearing time to the minute.
pub fn datetime_global_hm(i: &[u8]) -> (r: Result<(usize, DateTime<Date, GlobalTime<HmTime>>), ParseError>)
    ensures
        lifts(r, sp_datetime_global_hm(i@)),
        r matches Ok((n, _)) ==> n <= i@.len(),
{
    let (n1, d) = match date(i) {
        Ok(v) => v,
        Err(e) => {
            return Err(e);
        },
    };
    let (n2, _) = match take_byte(slice_subrange(i, n1, i.len()), 84) {
        Ok(v) => v,
        Err(e) => {
            return Err(e);
        },
    };
    let rest = slice_subrange(i, n1 + n2, i.len());
    if rest.len() == 0 {
        return Err(ParseError::Incomplete);
    }
    if rest[0] == 84 {
        return Err(ParseError::Mismatch);
    }
    match time_global_hm(rest) {
        Ok((n3, t)) => Ok((n1 + n2 + n3, DateTime { date: d, time: t })),
        Err(e) => Err(e),
    }
}

/// A combined value: a complete date, the `T` separator (not doubled), and an offset-bearing time to the hour.
pub open spec fn sp_datetime_global_h(s: Seq<u8>) -> Result<(int, DateTime<Date, GlobalTime<HTime>>), ParseError> {
    match sp_date(s) {
        Err(e) => Err(e),
        Ok((n1, d)) => match sp_byte(s.skip(n1), 84) {
            Err(e) => Err(e),
            Ok((n2, _)) => if s.skip(n1 + n2).len() == 0 {
                Err(ParseError::Incomplete)
            } else if s.skip(n1 + n2)[0] == 84 {
                Err(ParseError::Mismatch)
            } else {
                match sp_time_global_h(s.skip(n1 + n2)) {
                    Err(e) => Err(e),
                    Ok((n3, t)) => Ok((n1 + n2 + n3, DateTime { date: d, time: t })),
                }
            },
        },
    }
}

/// Parses a complete date, `T`, and an offset-bearing time to the hour.
pub fn datetime_global_h(i: &[u8]) -> (r: Result<(usize, DateTime<Date, GlobalTime<HTime>>), ParseError>)
    ensures
        lifts(r, sp_datetime_global_h(i@)),
        r matches Ok((n, _)) ==> n <= i@.len(),
{
    let (n1, d) = match date(i) {
        Ok(v) => v,
        Err(e) => {
            return Err(e);
        },
    };
    let (n2, _) = match take_byte(slice_subrange(i, n1, i.len()), 84) {
        Ok(v) => v,
        Err(e) => {
            return Err(e);
        },
    };
    let rest = slice_subrange(i, n1 + n2, i.len());
    if rest.len() == 0 {
        return Err(ParseError::Incomplete);
    }
    if rest[0] == 84 {
        return Err(ParseError::Mismatch);
    }
    match time_global_h(rest) {
        Ok((n3, t)) => Ok((n1 + n2 + n3, DateTime { date: d, time: t })),
        Err(e) => Err(e),
    }
}

/// A combined value: a complete date, the `T` separator (not doubled), and a local time to the second.
pub open spec fn sp_datetime_local_hms(s: Seq<u8>) -> Result<(int, DateTime<Date, LocalTime<HmsTime>>), ParseError> {
    match sp_date(s) {
        Err(e) => Err(e),
        Ok((n1, d)) => match sp_byte(s.skip(n1), 84) {
            Err(e) => Err(e),
            Ok((n2, _)) => if s.skip(n1 + n2).len() == 0 {
                Err(ParseError::Incomplete)
            } else if s.skip(n1 + n2)[0] == 84 {
                Err(ParseError::Mismatch)
            } else {
                match sp_time_local_hms(s.skip(n1 + n2)) {
                    Err(e) => Err(e),
                    Ok((n3, t)) => Ok((n1 + n2 + n3, DateTime { date: d, time: t })),
                }
            },
        },
    }
}

/// Parses a complete date, `T`, and a local time to the second.
pub fn datetime_local_hms(i: &[u8]) -> (r: Result<(usize, DateTime<Date, LocalTime<HmsTime>>), ParseError>)
    ensures
        lifts(r, sp_datetime_local_hms(i@)),
        r matches Ok((n, _)) ==> n <= i@.len(),
{
    let (n1, d) = match date(i) {
        Ok(v) => v,
        Err(e) => {
            return Err(e);
        },
    };
    let (n2, _) = match take_byte(slice_subrange(i, n1, i.len()), 84) {
        Ok(v) => v,
        Err(e) => {
            return Err(e);
        },
    };
    let rest = slice_subrange(i, n1 + n2, i.len());
    if rest.len() == 0 {
        return Err(ParseError::Incomplete);
    }
    if rest[0] == 84 {
        return Err(ParseError::Mismatch);
    }
    match time_local_hms(rest) {
        Ok((n3, t)) => Ok((n1 + n2 + n3, DateTime { date: d, time: t })),
        Err(e) => Err(e),
    }
}

/// A combined value: a complete date, the `T` separator (not doubled), and a local time to the minute.
pub open spec fn sp_datetime_local_hm(s: Seq<u8>) -> Result<(int, DateTime<Date, LocalTime<HmTime>>), ParseError> {
    match sp_date(s) {
        Err(e) => Err(e),
        Ok((n1, d)) => match sp_byte(s.skip(n1), 84) {
            Err(e) => Err(e),
            Ok((n2, _)) => if s.skip(n1 + n2).len() == 0 {
                Err(ParseError::Incomplete)
            } else if s.skip(n1 + n2)[0] == 84 {
                Err(ParseError::Mismatch)
            } else {
                match sp_time_local_hm(s.skip(n1 + n2)) {
                    Err(e) => Err(e),
                    Ok((n3, t)) => Ok((n1 + n2 + n3, DateTime { date: d, time: t })),
                }
            },
        },
    }
}

/// Parses a complete date, `T`, and a local time to the minute.
pub fn datetime_local_hm(i: &[u8]) -> (r: Result<(usize, DateTime<Date, LocalTime<HmTime>>), ParseError>)
    ensures
        lifts(r, sp_datetime_local_hm(i@)),
        r matches Ok((n, _)) ==> n <= i@.len(),
{
    let (n1, d) = match date(i) {
        Ok(v) => v,
        Err(e) => {
            return Err(e);
        },
    };
    let (n2, _) = match take_byte(slice_subrange(i, n1, i.len()), 84) {
        Ok(v) => v,
        Err(e) => {
            return Err(e);
        },
    };
    let rest = slice_subrange(i, n1 + n2, i.len());
    if rest.len() == 0 {
        return Err(ParseError::Incomplete);
    }
    if rest[0] == 84 {
        return Err(ParseError::Mismatch);
    }
    match time_local_hm(rest) {
        Ok((n3, t)) => Ok((n1 + n2 + n3, DateTime { date: d, time: t })),
        Err(e) => Err(e),
    }
}

/// A combined value: a complete date, the `T` separator (not doubled), and a local time to the hour.
pub open spec fn sp_datetime_local_h(s: Seq<u8>) -> Result<(int, DateTime<Date, LocalTime<HTime>>), ParseError> {
    match sp_date(s) {
        Err(e) => Err(e),
        Ok((n1, d)) => match sp_byte(s.skip(n1), 84) {
            Err(e) => Err(e),
            Ok((n2, _)) => if s.skip(n1 + n2).len() == 0 {
                Err(ParseError::Incomplete)
            } else if s.skip(n1 + n2)[0] == 84 {
                Err(ParseError::Mismatch)
            } else {
                match sp_time_local_h(s.skip(n1 + n2)) {
                    Err(e) => Err(e),
                    Ok((n3, t)) => Ok((n1 + n2 + n3, DateTime { date: d, time: t })),
                }
            },
        },
    }
}

/// Parses a complete date, `T`, and a local time to the hour.
pub fn datetime_local_h(i: &[u8]) -> (r: Result<(usize, DateTime<Date, LocalTime<HTime>>), ParseError>)
    ensures
        lifts(r, sp_datetime_local_h(i@)),
        r matches Ok((n, _)) ==> n <= i@.len(),
{
    let (n1, d) = match date(i) {
        Ok(v) => v,
        Err(e) => {
            return Err(e);
        },
    };
    let (n2, _) = match take_byte(slice_subrange(i, n1, i.len()), 84) {
        Ok(v) => v,
        Err(e) => {
            return Err(e);
        },
    };
    let rest = slice_subrange(i, n1 + n2, i.len());
    if rest.len() == 0 {
        return Err(ParseError::Incomplete);
    }
    if rest[0] == 84 {
        return Err(ParseError::Mismatch);
    }
    match time_local_h(rest) {
        Ok((n3, t)) => Ok((n1 + n2 + n3, DateTime { date: d, time: t })),
        Err(e) => Err(e),
    }
}

/// A combined value: a complete date, the `T` separator (not doubled), and a time to the second, offset or not.
pub open spec fn sp_datetime_any_hms(s: Seq<u8>) -> Result<(int, DateTime<Date, AnyTime<HmsTime>>), ParseError> {
    match sp_date(s) {
        Err(e) => Err(e),
        Ok((n1, d)) => match sp_byte(s.skip(n1), 84) {
            Err(e) => Err(e),
            Ok((n2, _)) => if s.skip(n1 + n2).len() == 0 {
                Err(ParseError::Incomplete)
            } else if s.skip(n1 + n2)[0] == 84 {
                Err(ParseError::Mismatch)
            } else {
                match sp_time_any_hms(s.skip(n1 + n2)) {
                    Err(e) => Err(e),
                    Ok((n3, t)) => Ok((n1 + n2 + n3, DateTime { date: d, time: t })),
                }
            },
        },
    }
}

/// Parses a complete date, `T`, and a time to the second, offset or not.
pub fn datetime_any_hms(i: &[u8]) -> (r: Result<(usize, DateTime<Date, AnyTime<HmsTime>>), ParseError>)
    ensures
        lifts(r, sp_datetime_any_hms(i@)),
        r matches Ok((n, _)) ==> n <= i@.len(),
{
    let (n1, d) = match date(i) {
        Ok(v) => v,
        Err(e) => {
            return Err(e);
        },
    };
    let (n2, _) = match take_byte(slice_subrange(i, n1, i.len()), 84) {
        Ok(v) => v,
        Err(e) => {
            return Err(e);
        },
    };
    let rest = slice_subrange(i, n1 + n2, i.len());
    if rest.len() == 0 {
        return Err(ParseError::Incomplete);
    }
    if rest[0] == 84 {
        return Err(ParseError::Mismatch);
    }
    match time_any_hms(rest) {
        Ok((n3, t)) => Ok((n1 + n2 + n3, DateTime { date: d, time: t })),
        Err(e) => Err(e),
    }
}

/// A combined value: a complete date, the `T` separator (not doubled), and a time to the minute, offset or not.
pub open spec fn sp_datetime_any_hm(s: Seq<u8>) -> Result<(int, DateTime<Date, AnyTime<HmTime>>), ParseError> {
    match sp_date(s) {
        Err(e) => Err(e),
        Ok((n1, d)) => match sp_byte(s.skip(n1), 84) {
            Err(e) => Err(e),
            Ok((n2, _)) => if s.skip(n1 + n2).len() == 0 {
                Err(ParseError::Incomplete)
            } else if s.skip(n1 + n2)[0] == 84 {
                Err(ParseError::Mismatch)
            } else {
                match sp_time_any_hm(s.skip(n1 + n2)) {
                    Err(e) => Err(e),
                    Ok((n3, t)) => Ok((n1 + n2 + n3, DateTime { date: d, time: t })),
                }
            },
        },
    }
}

/// Parses a complete date, `T`, and a time to the minute, offset or not.
pub fn datetime_any_hm(i: &[u8]) -> (r: Result<(usize, DateTime<Date, AnyTime<HmTime>>), ParseError>)
    ensures
        lifts(r, sp_datetime_any_hm(i@)),
        r matches Ok((n, _)) ==> n <= i@.len(),
{
    let (n1, d) = match date(i) {
        Ok(v) => v,
        Err(e) => {
            return Err(e);
        },
    };
    let (n2, _) = match take_byte(slice_subrange(i, n1, i.len()), 84) {
        Ok(v) => v,
        Err(e) => {
            return Err(e);
        },
    };
    let rest = slice_subrange(i, n1 + n2, i.len());
    if rest.len() == 0 {
        return Err(ParseError::Incomplete);
    }
    if rest[0] == 84 {
        return Err(ParseError::Mismatch);
    }
    match time_any_hm(rest) {
        Ok((n3, t)) => Ok((n1 + n2 + n3, DateTime { date: d, time: t })),
        Err(e) => Err(e),
    }
}

/// A combined value: a complete date, the `T` separator (not doubled), and a time to the hour, offset or not.
pub open spec fn sp_datetime_any_h(s: Seq<u8>) -> Result<(int, DateTime<Date, AnyTime<HTime>>), ParseError> {
    match sp_date(s) {
        Err(e) => Err(e),
        Ok((n1, d)) => match sp_byte(s.skip(n1), 84) {
            Err(e) => Err(e),
            Ok((n2, _)) => if s.skip(n1 + n2).len() == 0 {
                Err(ParseError::Incomplete)
            } else if s.skip(n1 + n2)[0] == 84 {
                Err(ParseError::Mismatch)
            } else {
                match sp_time_any_h(s.skip(n1 + n2)) {
                    Err(e) => Err(e),
                    Ok((n3, t)) => Ok((n1 + n2 + n3, DateTime { date: d, time: t })),
                }
            },
        },
    }
}

/// Parses a complete date, `T`, and a time to the hour, offset or not.
pub fn datetime_any_h(i: &[u8]) -> (r: Result<(usize, DateTime<Date, AnyTime<HTime>>), ParseError>)
    ensures
        lifts(r, sp_datetime_any_h(i@)),
        r matches Ok((n, _)) ==> n <= i@.len(),
{
    let (n1, d) = match date(i) {
        Ok(v) => v,
        Err(e) => {
            return Err(e);
        },
    };
    let (n2, _) = match take_byte(slice_subrange(i, n1, i.len()), 84) {
        Ok(v) => v,
        Err(e) => {
            return Err(e);
        },
    };
    let rest = slice_subrange(i, n1 + n2, i.len());
    if rest.len() == 0 {
        return Err(ParseError::Incomplete);
    }
    if rest[0] == 84 {
        return Err(ParseError::Mismatch);
    }
    match time_any_h(rest) {
        Ok((n3, t)) => Ok((n1 + n2 + n3, DateTime { date: d, time: t })),
        Err(e) => Err(e),
    }
}

/// A combined value: a complete date, the `T` separator (not doubled), and an offset-bearing time of any precision.
pub open spec fn sp_datetime_global_approx(s: Seq<u8>) -> Result<(int, DateTime<Date, ApproxGlobalTime>), ParseError> {
    match sp_date(s) {
        Err(e) => Err(e),
        Ok((n1, d)) => match sp_byte(s.skip(n1), 84) {
            Err(e) => Err(e),
            Ok((n2, _)) => if s.skip(n1 + n2).len() == 0 {
                Err(ParseError::Incomplete)
            } else if s.skip(n1 + n2)[0] == 84 {
                Err(ParseError::Mismatch)
            } else {
                match sp_time_global_approx(s.skip(n1 + n2)) {
                    Err(e) => Err(e),
                    Ok((n3, t)) => Ok((n1 + n2 + n3, DateTime { date: d, time: t })),
                }
            },
        },
    }
}

/// Parses a complete date, `T`, and an offset-bearing time of any precision.
pub fn datetime_global_approx(i: &[u8]) -> (r: Result<(usize, DateTime<Date, ApproxGlobalTime>), ParseError>)
    ensures
        lifts(r, sp_datetime_global_approx(i@)),
        r matches Ok((n, _)) ==> n <= i@.len(),
{
    let (n1, d) = match date(i) {
        Ok(v) => v,
        Err(e) => {
            return Err(e);
        },
    };
    let (n2, _) = match take_byte(slice_subrange(i, n1, i.len()), 84) {
        Ok(v) => v,
        Err(e) => {
            return Err(e);
        },
    };
    let rest = slice_subrange(i, n1 + n2, i.len());
    if rest.len() == 0 {
        return Err(ParseError::Incomplete);
    }
    if rest[0] == 84 {
        return Err(ParseError::Mismatch);
    }
    match time_global_approx(rest) {
        Ok((n3, t)) => Ok((n1 + n2 + n3, DateTime { date: d, time: t })),
        Err(e) => Err(e),
    }
}

/// A combined value: a complete date, the `T` separator (not doubled), and a local time of any precision.
pub open spec fn sp_datetime_local_approx(s: Seq<u8>) -> Result<(int, DateTime<Date, ApproxLocalTime>), ParseError> {
    match sp_date(s) {
        Err(e) => Err(e),
        Ok((n1, d)) => match sp_byte(s.skip(n1), 84) {
            Err(e) => Err(e),
            Ok((n2, _)) => if s.skip(n1 + n2).len() == 0 {
                Err(ParseError::Incomplete)
            } else if s.skip(n1 + n2)[0] == 84 {
                Err(ParseError::Mismatch)
            } else {
                match sp_time_local_approx(s.skip(n1 + n2)) {
                    Err(e) => Err(e),
                    Ok((n3, t)) => Ok((n1 + n2 + n3, DateTime { date: d, time: t })),
                }
            },
        },
    }
}

/// Parses a complete date, `T`, and a local time of any precision.
pub fn datetime_local_approx(i: &[u8]) -> (r: Result<(usize, DateTime<Date, ApproxLocalTime>), ParseError>)
    ensures
        lifts(r, sp_datetime_local_approx(i@)),
        r matches Ok((n, _)) ==> n <= i@.len(),
{
    let (n1, d) = match date(i) {
        Ok(v) => v,
        Err(e) => {
            return Err(e);
        },
    };
    let (n2, _) = match take_byte(slice_subrange(i, n1, i.len()), 84) {
        Ok(v) => v,
        Err(e) => {
            return Err(e);
        },
    };
    let rest = slice_subrange(i, n1 + n2, i.len());
    if rest.len() == 0 {
        return Err(ParseError::Incomplete);
    }
    if rest[0] == 84 {
        return Err(ParseError::Mismatch);
    }
    match time_local_approx(rest) {
        Ok((n3, t)) => Ok((n1 + n2 + n3, DateTime { date: d, time: t })),
        Err(e) => Err(e),
    }
}

/// A combined value: a complete date, the `T` separator (not doubled), and a time of any precision, offset or not.
pub open spec fn sp_datetime_any_approx(s: Seq<u8>) -> Result<(int, DateTime<Date, ApproxAnyTime>), ParseError> {
    match sp_date(s) {
        Err(e) => Err(e),
        Ok((n1, d)) => match sp_byte(s.skip(n1), 84) {
            Err(e) => Err(e),
            Ok((n2, _)) => if s.skip(n1 + n2).len() == 0 {
                Err(ParseError::Incomplete)
            } else if s.skip(n1 + n2)[0] == 84 {
                Err(ParseError::Mismatch)
            } else {
                match sp_time_any_approx(s.skip(n1 + n2)) {
                    Err(e) => Err(e),
                    Ok((n3, t)) => Ok((n1 + n2 + n3, DateTime { date: d, time: t })),
                }
            },
        },
    }
}

/// Parses a complete date, `T`, and a time of any precision, offset or not.
pub fn datetime_any_approx(i: &[u8]) -> (r: Result<(usize, DateTime<Date, ApproxAnyTime>), ParseError>)
    ensures
        lifts(r, sp_datetime_any_approx(i@)),
        r matches Ok((n, _)) ==> n <= i@.len(),
{
    let (n1, d) = match date(i) {
        Ok(v) => v,
        Err(e) => {
            return Err(e);
        },
    };
    let (n2, _) = match take_byte(slice_subrange(i, n1, i.len()), 84) {
        Ok(v) => v,
        Err(e) => {
            return Err(e);
        },
    };
    let rest = slice_subrange(i, n1 + n2, i.len());
    if rest.len() == 0 {
        return Err(ParseError::Incomplete);
    }
    if rest[0] == 84 {
        return Err(ParseError::Mismatch);
    }
    match time_any_approx(rest) {
        Ok((n3, t)) => Ok((n1 + n2 + n3, DateTime { date: d, time: t })),
        Err(e) => Err(e),
    }
}

/// A combined value: a date of any precision, the `T` separator (not doubled), and an offset-bearing time to the second.
pub open spec fn sp_datetime_approx_global_hms(s: Seq<u8>) -> Result<(int, DateTime<ApproxDate, GlobalTime<HmsTime>>), ParseError> {
    match sp_date_approx(s) {
        Err(e) => Err(e),
        Ok((n1, d)) => match sp_byte(s.skip(n1), 84) {
            Err(e) => Err(e),
            Ok((n2, _)) => if s.skip(n1 + n2).len() == 0 {
                Err(ParseError::Incomplete)
            } else if s.skip(n1 + n2)[0] == 84 {
                Err(ParseError::Mismatch)
            } else {
                match sp_time_global_hms(s.skip(n1 + n2)) {
                    Err(e) => Err(e),
                    Ok((n3, t)) => Ok((n1 + n2 + n3, DateTime { date: d, time: t })),
                }
            },
        },
    }
}

/// Parses a date of any precision, `T`, and an offset-bearing time to the second.
pub fn datetime_approx_global_hms(i: &[u8]) -> (r: Result<(usize, DateTime<ApproxDate, GlobalTime<HmsTime>>), ParseError>)
    ensures
        lifts(r, sp_datetime_approx_global_hms(i@)),
        r matches Ok((n, _)) ==> n <= i@.len(),
{
    let (n1, d) = match date_approx(i) {
        Ok(v) => v,
        Err(e) => {
            return Err(e);
        },
    };
    let (n2, _) = match take_byte(slice_subrange(i, n1, i.len()), 84) {
        Ok(v) => v,
        Err(e) => {
            return Err(e);
        },
    };
    let rest = slice_subrange(i, n1 + n2, i.len());
    if rest.len() == 0 {
        return Err(ParseError::Incomplete);
    }
    if rest[0] == 84 {
        return Err(ParseError::Mismatch);
    }
    match time_global_hms(rest) {
        Ok((n3, t)) => Ok((n1 + n2 + n3, DateTime { date: d, time: t })),
        Err(e) => Err(e),
    }
}

/// A combined value: a date of any precision, the `T` separator (not doubled), and an offset-bearing time to the minute.
pub open spec fn sp_datetime_approx_global_hm(s: Seq<u8>) -> Result<(int, DateTime<ApproxDate, GlobalTime<HmTime>>), ParseError> {
    match sp_date_approx(s) {
        Err(e) => Err(e),
        Ok((n1, d)) => match sp_byte(s.skip(n1), 84) {
            Err(e) => Err(e),
            Ok((n2, _)) => if s.skip(n1 + n2).len() == 0 {
                Err(ParseError::Incomplete)
            } else if s.skip(n1 + n2)[0] == 84 {
                Err(ParseError::Mismatch)
            } else {
                match sp_time_global_hm(s.skip(n1 + n2)) {
                    Err(e) => Err(e),
                    Ok((n3, t)) => Ok((n1 + n2 + n3, DateTime { date: d, time: t })),
                }
            },
        },
    }
}

/// Parses a date of any precision, `T`, and an offset-bearing time to the minute.
pub fn datetime_approx_global_hm(i: &[u8]) -> (r: Result<(usize, DateTime<ApproxDate, GlobalTime<HmTime>>), ParseError>)
    ensures
        lifts(r, sp_datetime_approx_global_hm(i@)),
        r matches Ok((n, _)) ==> n <= i@.len(),
{
    let (n1, d) = match date_approx(i) {
        Ok(v) => v,
        Err(e) => {
            return Err(e);
        },
    };
    let (n2, _) = match take_byte(slice_subrange(i, n1, i.len()), 84) {
        Ok(v) => v,
        Err(e) => {
            return Err(e);
        },
    };
    let rest = slice_subrange(i, n1 + n2, i.len());
    if rest.len() == 0 {
        return Err(ParseError::Incomplete);
    }
    if rest[0] == 84 {
        return Err(ParseError::Mismatch);
    }
    match time_global_hm(rest) {
        Ok((n3, t)) => Ok((n1 + n2 + n3, DateTime { date: d, time: t })),
        Err(e) => Err(e),
    }
}

/// A combined value: a date of any precision, the `T` separator (not doubled), and an offset-bearing time to the hour.
pub open spec fn sp_datetime_approx_global_h(s: Seq<u8>) -> Result<(int, DateTime<ApproxDate, GlobalTime<HTime>>), ParseError> {
    match sp_date_approx(s) {
        Err(e) => Err(e),
        Ok((n1, d)) => match sp_byte(s.skip(n1), 84) {
            Err(e) => Err(e),
            Ok((n2, _)) => if s.skip(n1 + n2).len() == 0 {
                Err(ParseError::Incomplete)
            } else if s.skip(n1 + n2)[0] == 84 {
                Err(ParseError::Mismatch)
            } else {
                match sp_time_global_h(s.skip(n1 + n2)) {
                    Err(e) => Err(e),
                    Ok((n3, t)) => Ok((n1 + n2 + n3, DateTime { date: d, time: t })),
                }
            },
        },
    }
}

/// Parses a date of any precision, `T`, and an offset-bearing time to the hour.
pub fn datetime_approx_global_h(i: &[u8]) -> (r: Result<(usize, DateTime<ApproxDate, GlobalTime<HTime>>), ParseError>)
    ensures
        lifts(r, sp_datetime_approx_global_h(i@)),
        r matches Ok((n, _)) ==> n <= i@.len(),
{
    let (n1, d) = match date_approx(i) {
        Ok(v) => v,
        Err(e) => {
            return Err(e);
        },
    };
    let (n2, _) = match take_byte(slice_subrange(i, n1, i.len()), 84) {
        Ok(v) => v,
        Err(e) => {
            return Err(e);
        },
    };
    let rest = slice_subrange(i, n1 + n2, i.len());
    if rest.len() == 0 {
        return Err(ParseError::Incomplete);
    }
    if rest[0] == 84 {
        return Err(ParseError::Mismatch);
    }
    match time_global_h(rest) {
        Ok((n3, t)) => Ok((n1 + n2 + n3, DateTime { date: d, time: t })),
        Err(e) => Err(e),
    }
}

/// A combined value: a date of any precision, the `T` separator (not doubled), and a local time to the second.
pub open spec fn sp_datetime_approx_local_hms(s: Seq<u8>) -> Result<(int, DateTime<ApproxDate, LocalTime<HmsTime>>), ParseError> {
    match sp_date_approx(s) {
        Err(e) => Err(e),
        Ok((n1, d)) => match sp_byte(s.skip(n1), 84) {
            Err(e) => Err(e),
            Ok((n2, _)) => if s.skip(n1 + n2).len() == 0 {
                Err(ParseError::Incomplete)
            } else if s.skip(n1 + n2)[0] == 84 {
                Err(ParseError::Mismatch)
            } else {
                match sp_time_local_hms(s.skip(n1 + n2)) {
                    Err(e) => Err(e),
                    Ok((n3, t)) => Ok((n1 + n2 + n3, DateTime { date: d, time: t })),
                }
            },
        },
    }
}

/// Parses a date of any precision, `T`, and a local time to the second.
pub fn datetime_approx_local_hms(i: &[u8]) -> (r: Result<(usize, DateTime<ApproxDate, LocalTime<HmsTime>>), ParseError>)
    ensures
        lifts(r, sp_datetime_approx_local_hms(i@)),
        r matches Ok((n, _)) ==> n <= i@.len(),
{
    let (n1, d) = match date_approx(i) {
        Ok(v) => v,
        Err(e) => {
            return Err(e);
        },
    };
    let (n2, _) = match take_byte(slice_subrange(i, n1, i.len()), 84) {
        Ok(v) => v,
        Err(e) => {
            return Err(e);
        },
    };
    let rest = slice_subrange(i, n1 + n2, i.len());
    if rest.len() == 0 {
        return Err(ParseError::Incomplete);
    }
    if rest[0] == 84 {
        return Err(ParseError::Mismatch);
    }
    match time_local_hms(rest) {
        Ok((n3, t)) => Ok((n1 + n2 + n3, DateTime { date: d, time: t })),
        Err(e) => Err(e),
    }
}

/// A combined value: a date of any precision, the `T` separator (not doubled), and a local time to the minute.
pub open spec fn sp_datetime_approx_local_hm(s: Seq<u8>) -> Result<(int, DateTime<ApproxDate, LocalTime<HmTime>>), ParseError> {
    match sp_date_approx(s) {
        Err(e) => Err(e),
        Ok((n1, d)) => match sp_byte(s.skip(n1), 84) {
            Err(e) => Err(e),
            Ok((n2, _)) => if s.skip(n1 + n2).len() == 0 {
                Err(ParseError::Incomplete)
            } else if s.skip(n1 + n2)[0] == 84 {
                Err(ParseError::Mismatch)
            } else {
                match sp_time_local_hm(s.skip(n1 + n2)) {
                    Err(e) => Err(e),
                    Ok((n3, t)) => Ok((n1 + n2 + n3, DateTime { date: d, time: t })),
                }
            },
        },
    }
}

/// Parses a date of any precision, `T`, and a local time to the minute.
pub fn datetime_approx_local_hm(i: &[u8]) -> (r: Result<(usize, DateTime<ApproxDate, LocalTime<HmTime>>), ParseError>)
    ensures
        lifts(r, sp_datetime_approx_local_hm(i@)),
        r matches Ok((n, _)) ==> n <= i@.len(),
{
    let (n1, d) = match date_approx(i) {
        Ok(v) => v,
        Err(e) => {
            return Err(e);
        },
    };
    let (n2, _) = match take_byte(slice_subrange(i, n1, i.len()), 84) {
        Ok(v) => v,
        Err(e) => {
            return Err(e);
        },
    };
    let rest = slice_subrange(i, n1 + n2, i.len());
    if rest.len() == 0 {
        return Err(ParseError::Incomplete);
    }
    if rest[0] == 84 {
        return Err(ParseError::Mismatch);
    }
    match time_local_hm(rest) {
        Ok((n3, t)) => Ok((n1 + n2 + n3, DateTime { date: d, time: t })),
        Err(e) => Err(e),
    }
}

/// A combined value: a date of any precision, the `T` separator (not doubled), and a local time to the hour.
pub open spec fn sp_datetime_approx_local_h(s: Seq<u8>) -> Result<(int, DateTime<ApproxDate, LocalTime<HTime>>), ParseError> {
    match sp_date_approx(s) {
        Err(e) => Err(e),
        Ok((n1, d)) => match sp_byte(s.skip(n1), 84) {
            Err(e) => Err(e),
            Ok((n2, _)) => if s.skip(n1 + n2).len() == 0 {
                Err(ParseError::Incomplete)
            } else if s.skip(n1 + n2)[0] == 84 {
                Err(ParseError::Mismatch)
            } else {
                match sp_time_local_h(s.skip(n1 + n2)) {
                    Err(e) => Err(e),
                    Ok((n3, t)) => Ok((n1 + n2 + n3, DateTime { date: d, time: t })),
                }
            },
        },
    }
}

/// Parses a date of any precision, `T`, and a local time to the hour.
pub fn datetime_approx_local_h(i: &[u8]) -> (r: Result<(usize, DateTime<ApproxDate, LocalTime<HTime>>), ParseError>)
    ensures
        lifts(r, sp_datetime_approx_local_h(i@)),
        r matches Ok((n, _)) ==> n <= i@.len(),
{
    let (n1, d) = match date_approx(i) {
        Ok(v) => v,
        Err(e) => {
            return Err(e);
        },
    };
    let (n2, _) = match take_byte(slice_subrange(i, n1, i.len()), 84) {
        Ok(v) => v,
        Err(e) => {
            return Err(e);
        },
    };
    let rest = slice_subrange(i, n1 + n2, i.len());
    if rest.len() == 0 {
        return Err(ParseError::Incomplete);
    }
    if rest[0] == 84 {
        return Err(ParseError::Mismatch);
    }
    match time_local_h(rest) {
        Ok((n3, t)) => Ok((n1 + n2 + n3, DateTime { date: d, time: t })),
        Err(e) => Err(e),
    }
}

/// A combined value: a date of any precision, the `T` separator (not doubled), and a time to the second, offset or not.
pub open spec fn sp_datetime_approx_any_hms(s: Seq<u8>) -> Result<(int, DateTime<ApproxDate, AnyTime<HmsTime>>), ParseError> {
    match sp_date_approx(s) {
        Err(e) => Err(e),
        Ok((n1, d)) => match sp_byte(s.skip(n1), 84) {
            Err(e) => Err(e),
            Ok((n2, _)) => if s.skip(n1 + n2).len() == 0 {
                Err(ParseError::Incomplete)
            } else if s.skip(n1 + n2)[0] == 84 {
                Err(ParseError::Mismatch)
            } else {
                match sp_time_any_hms(s.skip(n1 + n2)) {
                    Err(e) => Err(e),
                    Ok((n3, t)) => Ok((n1 + n2 + n3, DateTime { date: d, time: t })),
                }
            },
        },
    }
}

/// Parses a date of any precision, `T`, and a time to the second, offset or not.
pub fn datetime_approx_any_hms(i: &[u8]) -> (r: Result<(usize, DateTime<ApproxDate, AnyTime<HmsTime>>), ParseError>)
    ensures
        lifts(r, sp_datetime_approx_any_hms(i@)),
        r matches Ok((n, _)) ==> n <= i@.len(),
{
    let (n1, d) = match date_approx(i) {
        Ok(v) => v,
        Err(e) => {
            return Err(e);
        },
    };
    let (n2, _) = match take_byte(slice_subrange(i, n1, i.len()), 84) {
        Ok(v) => v,
        Err(e) => {
            return Err(e);
        },
    };
    let rest = slice_subrange(i, n1 + n2, i.len());
    if rest.len() == 0 {
        return Err(ParseError::Incomplete);
    }
    if rest[0] == 84 {
        return Err(ParseError::Mismatch);
    }
    match time_any_hms(rest) {
        Ok((n3, t)) => Ok((n1 + n2 + n3, DateTime { date: d, time: t })),
        Err(e) => Err(e),
    }
}

/// A combined value: a date of any precision, the `T` separator (not doubled), and a time to the minute, offset or not.
pub open spec fn sp_datetime_approx_any_hm(s: Seq<u8>) -> Result<(int, DateTime<ApproxDate, AnyTime<HmTime>>), ParseError> {
    match sp_date_approx(s) {
        Err(e) => Err(e),
        Ok((n1, d)) => match sp_byte(s.skip(n1), 84) {
            Err(e) => Err(e),
            Ok((n2, _)) => if s.skip(n1 + n2).len() == 0 {
                Err(ParseError::Incomplete)
            } else if s.skip(n1 + n2)[0] == 84 {
                Err(ParseError::Mismatch)
            } else {
                match sp_time_any_hm(s.skip(n1 + n2)) {
                    Err(e) => Err(e),
                    Ok((n3, t)) => Ok((n1 + n2 + n3, DateTime { date: d, time: t })),
                }
            },
        },
    }
}

/// Parses a date of any precision, `T`, and a time to the minute, offset or not.
pub fn datetime_approx_any_hm(i: &[u8]) -> (r: Result<(usize, DateTime<ApproxDate, AnyTime<HmTime>>), ParseError>)
    ensures
        lifts(r, sp_datetime_approx_any_hm(i@)),
        r matches Ok((n, _)) ==> n <= i@.len(),
{
    let (n1, d) = match date_approx(i) {
        Ok(v) => v,
        Err(e) => {
            return Err(e);
        },
    };
    let (n2, _) = match take_byte(slice_subrange(i, n1, i.len()), 84) {
        Ok(v) => v,
        Err(e) => {
            return Err(e);
        },
    };
    let rest = slice_subrange(i, n1 + n2, i.len());
    if rest.len() == 0 {
        return Err(ParseError::Incomplete);
    }
    if rest[0] == 84 {
        return Err(ParseError::Mismatch);
    }
    match time_any_hm(rest) {
        Ok((n3, t)) => Ok((n1 + n2 + n3, DateTime { date: d, time: t })),
        Err(e) => Err(e),
    }
}

/// A combined value: a date of any precision, the `T` separator (not doubled), and a time to the hour, offset or not.
pub open spec fn sp_datetime_approx_any_h(s: Seq<u8>) -> Result<(int, DateTime<ApproxDate, AnyTime<HTime>>), ParseError> {
    match sp_date_approx(s) {
        Err(e) => Err(e),
        Ok((n1, d)) => match sp_byte(s.skip(n1), 84) {
            Err(e) => Err(e),
            Ok((n2, _)) => if s.skip(n1 + n2).len() == 0 {
                Err(ParseError::Incomplete)
            } else if s.skip(n1 + n2)[0] == 84 {
                Err(ParseError::Mismatch)
            } else {
                match sp_time_any_h(s.skip(n1 + n2)) {
                    Err(e) => Err(e),
                    Ok((n3, t)) => Ok((n1 + n2 + n3, DateTime { date: d, time: t })),
                }
            },
        },
    }
}

/// Parses a date of any precision, `T`, and a time to the hour, offset or not.
pub fn datetime_approx_any_h(i: &[u8]) -> (r: Result<(usize, DateTime<ApproxDate, AnyTime<HTime>>), ParseError>)
    ensures
        lifts(r, sp_datetime_approx_any_h(i@)),
        r matches Ok((n, _)) ==> n <= i@.len(),
{
    let (n1, d) = match date_approx(i) {
        Ok(v) => v,
        Err(e) => {
            return Err(e);
        },
    };
    let (n2, _) = match take_byte(slice_subrange(i, n1, i.len()), 84) {
        Ok(v) => v,
        Err(e) => {
            return Err(e);
        },
    };
    let rest = slice_subrange(i, n1 + n2, i.len());
    if rest.len() == 0 {
        return Err(ParseError::Incomplete);
    }
    if rest[0] == 84 {
        return Err(ParseError::Mismatch);
    }
    match time_any_h(rest) {
        Ok((n3, t)) => Ok((n1 + n2 + n3, DateTime { date: d, time: t })),
        Err(e) => Err(e),
    }
}

/// A combined value: a date of any precision, the `T` separator (not doubled), and an offset-bearing time of any precision.
pub open spec fn sp_datetime_approx_global_approx(s: Seq<u8>) -> Result<(int, DateTime<ApproxDate, ApproxGlobalTime>), ParseError> {
    match sp_date_approx(s) {
        Err(e) => Err(e),
        Ok((n1, d)) => match sp_byte(s.skip(n1), 84) {
            Err(e) => Err(e),
            Ok((n2, _)) => if s.skip(n1 + n2).len() == 0 {
                Err(ParseError::Incomplete)
            } else if s.skip(n1 + n2)[0] == 84 {
                Err(ParseError::Mismatch)
            } else {
                match sp_time_global_approx(s.skip(n1 + n2)) {
                    Err(e) => Err(e),
                    Ok((n3, t)) => Ok((n1 + n2 + n3, DateTime { date: d, time: t })),
                }
            },
        },
    }
}

/// Parses a date of any precision, `T`, and an offset-bearing time of any precision.
pub fn datetime_approx_global_approx(i: &[u8]) -> (r: Result<(usize, DateTime<ApproxDate, ApproxGlobalTime>), ParseError>)
    ensures
        lifts(r, sp_datetime_approx_global_approx(i@)),
        r matches Ok((n, _)) ==> n <= i@.len(),
{
    let (n1, d) = match date_approx(i) {
        Ok(v) => v,
        Err(e) => {
            return Err(e);
        },
    };
    let (n2, _) = match take_byte(slice_subrange(i, n1, i.len()), 84) {
        Ok(v) => v,
        Err(e) => {
            return Err(e);
        },
    };
    let rest = slice_subrange(i, n1 + n2, i.len());
    if rest.len() == 0 {
        return Err(ParseError::Incomplete);
    }
    if rest[0] == 84 {
        return Err(ParseError::Mismatch);
    }
    match time_global_approx(rest) {
        Ok((n3, t)) => Ok((n1 + n2 + n3, DateTime { date: d, time: t })),
        Err(e) => Err(e),
    }
}

/// A combined value: a date of any precision, the `T` separator (not doubled), and a local time of any precision.
pub open spec fn sp_datetime_approx_local_approx(s: Seq<u8>) -> Result<(int, DateTime<ApproxDate, ApproxLocalTime>), ParseError> {
    match sp_date_approx(s) {
        Err(e) => Err(e),
        Ok((n1, d)) => match sp_byte(s.skip(n1), 84) {
            Err(e) => Err(e),
            Ok((n2, _)) => if s.skip(n1 + n2).len() == 0 {
                Err(ParseError::Incomplete)
            } else if s.skip(n1 + n2)[0] == 84 {
                Err(ParseError::Mismatch)
            } else {
                match sp_time_local_approx(s.skip(n1 + n2)) {
                    Err(e) => Err(e),
                    Ok((n3, t)) => Ok((n1 + n2 + n3, DateTime { date: d, time: t })),
                }
            },
        },
    }
}

/// Parses a date of any precision, `T`, and a local time of any precision.
pub fn datetime_approx_local_approx(i: &[u8]) -> (r: Result<(usize, DateTime<ApproxDate, ApproxLocalTime>), ParseError>)
    ensures
        lifts(r, sp_datetime_approx_local_approx(i@)),
        r matches Ok((n, _)) ==> n <= i@.len(),
{
    let (n1, d) = match date_approx(i) {
        Ok(v) => v,
        Err(e) => {
            return Err(e);
        },
    };
    let (n2, _) = match take_byte(slice_subrange(i, n1, i.len()), 84) {
        Ok(v) => v,
        Err(e) => {
            return Err(e);
        },
    };
    let rest = slice_subrange(i, n1 + n2, i.len());
    if rest.len() == 0 {
        return Err(ParseError::Incomplete);
    }
    if rest[0] == 84 {
        return Err(ParseError::Mismatch);
    }
    match time_local_approx(rest) {
        Ok((n3, t)) => Ok((n1 + n2 + n3, DateTime { date: d, time: t })),
        Err(e) => Err(e),
    }
}

/// A combined value: a date of any precision, the `T` separator (not doubled), and a time of any precision, offset or not.
pub open spec fn sp_datetime_approx_any_approx(s: Seq<u8>) -> Result<(int, DateTime<ApproxDate, ApproxAnyTime>), ParseError> {
    match sp_date_approx(s) {
        Err(e) => Err(e),
        Ok((n1, d)) => match sp_byte(s.skip(n1), 84) {
            Err(e) => Err(e),
            Ok((n2, _)) => if s.skip(n1 + n2).len() == 0 {
                Err(ParseError::Incomplete)
            } else if s.skip(n1 + n2)[0] == 84 {
                Err(ParseError::Mismatch)
            } else {
                match sp_time_any_approx(s.skip(n1 + n2)) {
                    Err(e) => Err(e),
                    Ok((n3, t)) => Ok((n1 + n2 + n3, DateTime { date: d, time: t })),
                }
            },
        },
    }
}

/// Parses a date of any precision, `T`, and a time of any precision, offset or not.
pub fn datetime_approx_any_approx(i: &[u8]) -> (r: Result<(usize, DateTime<ApproxDate, ApproxAnyTime>), ParseError>)
    ensures
        lifts(r, sp_datetime_approx_any_approx(i@)),
        r matches Ok((n, _)) ==> n <= i@.len(),
{
    let (n1, d) = match date_approx(i) {
        Ok(v) => v,
        Err(e) => {
            return Err(e);
        },
    };
    let (n2, _) = match take_byte(slice_subrange(i, n1, i.len()), 84) {
        Ok(v) => v,
        Err(e) => {
            return Err(e);
        },
    };
    let rest = slice_subrange(i, n1 + n2, i.len());
    if rest.len() == 0 {
        return Err(ParseError::Incomplete);
    }
    if rest[0] == 84 {
        return Err(ParseError::Mismatch);
    }
    match time_any_approx(rest) {
        Ok((n3, t)) => Ok((n1 + n2 + n3, DateTime { date: d, time: t })),
        Err(e) => Err(e),
    }
}

/// Whether the permissive partial parser expects a date: the input either
/// holds a `T` with at least one byte before it, or holds neither `T`
/// nor `:` at all.
pub open spec fn sp_has_date(s: Seq<u8>) -> bool {
    (exists|k: int| 1 <= k < s.len() && s[k] == 84) || (forall|k: int|
        0 <= k < s.len() ==> s[k] != 84 && s[k] != 58)
}

/// The date-led half of the permissive combined form: a date, an
/// optional `T` separator that must not be doubled, and an optional
/// time.
pub open spec fn sp_partial_with_date(s: Seq<u8>) -> Result<
    (int, PartialDateTime<ApproxDate, ApproxAnyTime>),
    ParseError,
> {
    match sp_date_approx(s) {
        Err(e) => Err(e),
        Ok((n1, d)) => {
            let n2: int = if s.skip(n1).len() >= 1 && s.skip(n1)[0] == 84 {
                1
            } else {
                0
            };
            if n2 == 1 && s.skip(n1 + n2).len() >= 1 && s.skip(n1 + n2)[0] == 84 {
                Err(ParseError::Mismatch)
            } else {
                match sp_time_any_approx(s.skip(n1 + n2)) {
                    Ok((n3, t)) => Ok(
                        (
                            n1 + n2 + n3,
                            PartialDateTime::DateTime(DateTime { date: d, time: t }),
                        ),
                    ),
                    Err(ParseError::Incomplete) => Err(ParseError::Incomplete),
                    Err(ParseError::TooPrecise) => Err(ParseError::TooPrecise),
                    Err(_) => Ok((n1 + n2, PartialDateTime::Date(d))),
                }
            }
        },
    }
}

/// The time-only half of the permissive combined form: an optional `T`
/// marker that must not be doubled, then a time; with no time either,
/// nothing was decided.
pub open spec fn sp_partial_without_date(s: Seq<u8>) -> Result<
    (int, PartialDateTime<ApproxDate, ApproxAnyTime>),
    ParseError,
> {
    let n2: int = if s.len() >= 1 && s[0] == 84 {
        1
    } else {
        0
    };
    if n2 == 1 && s.skip(n2).len() >= 1 && s.skip(n2)[0] == 84 {
        Err(ParseError::Mismatch)
    } else {
        match sp_time_any_approx(s.skip(n2)) {
            Ok((n3, t)) => Ok((n2 + n3, PartialDateTime::Time(t))),
            Err(ParseError::Incomplete) => Err(ParseError::Incomplete),
            Err(ParseError::TooPrecise) => Err(ParseError::TooPrecise),
            Err(_) => Err(ParseError::Incomplete),
        }
    }
}

/// The permissive combined form: a date when the input calls for one, an
/// optional `T` separator that must not be doubled, and an optional time;
/// at least one of the two parts must be present, else the input is
/// undecidable.
pub open spec fn sp_partial_datetime_approx_any_approx(s: Seq<u8>) -> Result<
    (int, PartialDateTime<ApproxDate, ApproxAnyTime>),
    ParseError,
> {
    if sp_has_date(s) {
        sp_partial_with_date(s)
    } else {
        sp_partial_without_date(s)
    }
}

/// Decides whether the input calls for a date.
fn has_date_scan(i: &[u8]) -> (r: bool)
    ensures
        r == sp_has_date(i@),
{
    let mut k: usize = 0;
    let mut t_after: bool = false;
    let mut clean: bool = true;
    while k < i.len()
        invariant
            0 <= k <= i@.len(),
            t_after == exists|j: int| 1 <= j < k && i@[j] == 84,
            clean == forall|j: int| 0 <= j < k ==> i@[j] != 84 && i@[j] != 58,
        decreases i@.len() - k,
    {
        let b = i[k];
        if b == 84 {
            if k >= 1 {
                t_after = true;
            }
            clean = false;
        } else if b == 58 {
            clean = false;
        }
        k = k + 1;
    }
    t_after || clean
}

/// Consumes an optional `T` separator in complete (non-streaming) style.
fn opt_t_complete(i: &[u8]) -> (n: usize)
    ensures
        n as int == if i@.len() >= 1 && i@[0] == 84 {
            1int
        } else {
            0int
        },
        n <= i@.len(),
{
    if i.len() >= 1 && i[0] == 84 {
        1
    } else {
        0
    }
}

/// Parses the date-led half of the permissive combined form.
#[verifier::rlimit(100)]
fn partial_with_date(i: &[u8]) -> (r: Result<
    (usize, PartialDateTime<ApproxDate, ApproxAnyTime>),
    ParseError,
>)
    ensures
        lifts(r, sp_partial_with_date(i@)),
        r matches Ok((n, _)) ==> n <= i@.len(),
{
    let (n1, d) = match date_approx(i) {
        Ok(v) => v,
        Err(e) => {
            return Err(e);
        },
    };
    let n2 = opt_t_complete(slice_subrange(i, n1, i.len()));
    let rest = slice_subrange(i, n1 + n2, i.len());
    if n2 == 1 && rest.len() >= 1 && rest[0] == 84 {
        return Err(ParseError::Mismatch);
    }
    match time_any_approx(rest) {
        Ok((n3, t)) => Ok((n1 + n2 + n3, PartialDateTime::DateTime(DateTime { date: d, time: t }))),
        Err(ParseError::Incomplete) => Err(ParseError::Incomplete),
        Err(ParseError::TooPrecise) => Err(ParseError::TooPrecise),
        Err(_) => Ok((n1 + n2, PartialDateTime::Date(d))),
    }
}

/// Parses the time-only half of the permissive combined form.
#[verifier::rlimit(100)]
fn partial_without_date(i: &[u8]) -> (r: Result<
    (usize, PartialDateTime<ApproxDate, ApproxAnyTime>),
    ParseError,
>)
    ensures
        lifts(r, sp_partial_without_date(i@)),
        r matches Ok((n, _)) ==> n <= i@.len(),
{
    let n2 = opt_t_complete(i);
    let rest = slice_subrange(i, n2, i.len());
    if n2 == 1 && rest.len() >= 1 && rest[0] == 84 {
        return Err(ParseError::Mismatch);
    }
    match time_any_approx(rest) {
        Ok((n3, t)) => Ok((n2 + n3, PartialDateTime::Time(t))),
        Err(ParseError::Incomplete) => Err(ParseError::Incomplete),
        Err(ParseError::TooPrecise) => Err(ParseError::TooPrecise),
        Err(_) => Err(ParseError::Incomplete),
    }
}

/// Parses the permissive combined form: a date fragment, a time fragment,
/// or a complete date-time.
pub fn partial_datetime_approx_any_approx(i: &[u8]) -> (r: Result<
    (usize, PartialDateTime<ApproxDate, ApproxAnyTime>),
    ParseError,
>)
    ensures
        lifts(r, sp_partial_datetime_approx_any_approx(i@)),
        r matches Ok((n, _)) ==> n <= i@.len(),
{
    if has_date_scan(i) {
        partial_with_date(i)
    } else {
        partial_without_date(i)
    }
}

} // verus!
