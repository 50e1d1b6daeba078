//! The ISO 8601 date grammar: calendar, week and ordinal dates, complete
//! and reduced, in basic (no separator) and extended (hyphenated) form.
//!
//! Extended forms are always tried before basic ones, since several basic
//! forms are digit-prefixes of longer ones; the top-level alternation
//! order is part of the grammar and is stated by the spec functions.

use vstd::prelude::*;
use vstd::slice::slice_subrange;

use crate::date::{ApproxDate, CDate, Date, ODate, WDate, WdDate, YDate, YmDate, YmdDate};
use crate::parse::{
    alt_continues, lemma_p10_values, lifts, sp_byte, sp_complete, sp_digits, sp_sign,
    take_byte, take_digits, ParseError, sign,
};

verus! {

/// An optional hyphen: consumed when present, demanded never — except
/// that an ended input stays incomplete.
pub open spec fn sp_opt_dash(s: Seq<u8>) -> Result<(int, ()), ParseError> {
    match sp_byte(s, 45) {
        Ok((n, _)) => Ok((n, ())),
        Err(ParseError::Incomplete) => Err(ParseError::Incomplete),
        Err(_) => Ok((0, ())),
    }
}

/// A separator that the extended format demands and the basic format
/// forbids to consume.
pub open spec fn sp_sep(s: Seq<u8>, ext: bool) -> Result<(int, ()), ParseError> {
    if ext {
        sp_byte(s, 45)
    } else {
        Ok((0, ()))
    }
}

/// Two digits: a century index.
pub open spec fn sp_positive_century(s: Seq<u8>) -> Result<(int, u8), ParseError> {
    match sp_digits(s, 2) {
        Ok((n, v)) => Ok((n, v as u8)),
        Err(e) => Err(e),
    }
}

/// An optionally signed century index.
pub open spec fn sp_century(s: Seq<u8>) -> Result<(int, i8), ParseError> {
    match sp_sign(s) {
        Ok((n, sg)) => match sp_positive_century(s.skip(n)) {
            Ok((m, v)) => Ok((n + m, (sg * v) as i8)),
            Err(e) => Err(e),
        },
        Err(ParseError::Incomplete) => Err(ParseError::Incomplete),
        Err(_) => match sp_positive_century(s) {
            Ok((m, v)) => Ok((m, v as i8)),
            Err(e) => Err(e),
        },
    }
}

/// Four digits: a year number.
pub open spec fn sp_positive_year(s: Seq<u8>) -> Result<(int, u16), ParseError> {
    match sp_digits(s, 4) {
        Ok((n, v)) => Ok((n, v as u16)),
        Err(e) => Err(e),
    }
}

/// An optionally signed four-digit year.
pub open spec fn sp_year(s: Seq<u8>) -> Result<(int, i32), ParseError> {
    match sp_sign(s) {
        Ok((n, sg)) => match sp_positive_year(s.skip(n)) {
            Ok((m, v)) => Ok((n + m, (sg * v) as i32)),
            Err(e) => Err(e),
        },
        Err(ParseError::Incomplete) => Err(ParseError::Incomplete),
        Err(_) => match sp_positive_year(s) {
            Ok((m, v)) => Ok((m, v as i32)),
            Err(e) => Err(e),
        },
    }
}

/// Two digits: a month number (unchecked here; validation is separate).
pub open spec fn sp_month(s: Seq<u8>) -> Result<(int, u8), ParseError> {
    match sp_digits(s, 2) {
        Ok((n, v)) => Ok((n, v as u8)),
        Err(e) => Err(e),
    }
}

/// Two digits: a day of month (unchecked here; the bound depends on the
/// month).
pub open spec fn sp_day(s: Seq<u8>) -> Result<(int, u8), ParseError> {
    match sp_digits(s, 2) {
        Ok((n, v)) => Ok((n, v as u8)),
        Err(e) => Err(e),
    }
}

/// Two digits: a week number.
pub open spec fn sp_year_week(s: Seq<u8>) -> Result<(int, u8), ParseError> {
    match sp_digits(s, 2) {
        Ok((n, v)) => Ok((n, v as u8)),
        Err(e) => Err(e),
    }
}

/// Three digits: a day of year.
pub open spec fn sp_year_day(s: Seq<u8>) -> Result<(int, u16), ParseError> {
    match sp_digits(s, 3) {
        Ok((n, v)) => Ok((n, v as u16)),
        Err(e) => Err(e),
    }
}

/// One digit: a day of week.
pub open spec fn sp_week_day(s: Seq<u8>) -> Result<(int, u8), ParseError> {
    match sp_digits(s, 1) {
        Ok((n, v)) => Ok((n, v as u8)),
        Err(e) => Err(e),
    }
}

/// Parses a century index.
pub fn positive_century(i: &[u8]) -> (r: Result<(usize, u8), ParseError>)
    ensures
        lifts(r, sp_positive_century(i@)),
        r matches Ok((n, _)) ==> n <= i@.len(),
        r matches Ok((_, v)) ==> v < 100,
{
    proof {
        lemma_p10_values();
    }
    match take_digits(i, 2) {
        Ok((n, v)) => Ok((n, v as u8)),
        Err(e) => Err(e),
    }
}

/// Parses an optionally signed century index.
pub fn century(i: &[u8]) -> (r: Result<(usize, i8), ParseError>)
    ensures
        lifts(r, sp_century(i@)),
        r matches Ok((n, _)) ==> n <= i@.len(),
{
    proof {
        lemma_p10_values();
    }
    match sign(i) {
        Ok((n, sg)) => {
            let rest = slice_subrange(i, n, i.len());
            match positive_century(rest) {
                Ok((m, v)) => Ok((n + m, sg * v as i8)),
                Err(e) => Err(e),
            }
        },
        Err(ParseError::Incomplete) => Err(ParseError::Incomplete),
        Err(_) => match positive_century(i) {
            Ok((m, v)) => Ok((m, v as i8)),
            Err(e) => Err(e),
        },
    }
}

/// Parses a four-digit year.
pub fn positive_year(i: &[u8]) -> (r: Result<(usize, u16), ParseError>)
    ensures
        lifts(r, sp_positive_year(i@)),
        r matches Ok((n, _)) ==> n <= i@.len(),
        r matches Ok((_, v)) ==> v < 10_000,
{
    proof {
        lemma_p10_values();
    }
    match take_digits(i, 4) {
        Ok((n, v)) => Ok((n, v as u16)),
        Err(e) => Err(e),
    }
}

/// Parses an optionally signed four-digit year.
pub fn year(i: &[u8]) -> (r: Result<(usize, i32), ParseError>)
    ensures
        lifts(r, sp_year(i@)),
        r matches Ok((n, _)) ==> n <= i@.len(),
{
    proof {
        lemma_p10_values();
    }
    match sign(i) {
        Ok((n, sg)) => {
            let rest = slice_subrange(i, n, i.len());
            match positive_year(rest) {
                Ok((m, v)) => Ok((n + m, sg as i32 * v as i32)),
                Err(e) => Err(e),
            }
        },
        Err(ParseError::Incomplete) => Err(ParseError::Incomplete),
        Err(_) => match positive_year(i) {
            Ok((m, v)) => Ok((m, v as i32)),
            Err(e) => Err(e),
        },
    }
}

/// Parses a two-digit month.
pub fn month(i: &[u8]) -> (r: Result<(usize, u8), ParseError>)
    ensures
        lifts(r, sp_month(i@)),
        r matches Ok((n, _)) ==> n <= i@.len(),
        r matches Ok((_, v)) ==> v < 100,
{
    proof {
        lemma_p10_values();
    }
    match take_digits(i, 2) {
        Ok((n, v)) => Ok((n, v as u8)),
        Err(e) => Err(e),
    }
}

/// Parses a two-digit day of month.
pub fn day(i: &[u8]) -> (r: Result<(usize, u8), ParseError>)
    ensures
        lifts(r, sp_day(i@)),
        r matches Ok((n, _)) ==> n <= i@.len(),
        r matches Ok((_, v)) ==> v < 100,
{
    proof {
        lemma_p10_values();
    }
    match take_digits(i, 2) {
        Ok((n, v)) => Ok((n, v as u8)),
        Err(e) => Err(e),
    }
}

/// Parses a two-digit week number.
pub fn year_week(i: &[u8]) -> (r: Result<(usize, u8), ParseError>)
    ensures
        lifts(r, sp_year_week(i@)),
        r matches Ok((n, _)) ==> n <= i@.len(),
        r matches Ok((_, v)) ==> v < 100,
{
    proof {
        lemma_p10_values();
    }
    match take_digits(i, 2) {
        Ok((n, v)) => Ok((n, v as u8)),
        Err(e) => Err(e),
    }
}

/// Parses a three-digit day of year.
pub fn year_day(i: &[u8]) -> (r: Result<(usize, u16), ParseError>)
    ensures
        lifts(r, sp_year_day(i@)),
        r matches Ok((n, _)) ==> n <= i@.len(),
        r matches Ok((_, v)) ==> v < 1000,
{
    proof {
        lemma_p10_values();
    }
    match take_digits(i, 3) {
        Ok((n, v)) => Ok((n, v as u16)),
        Err(e) => Err(e),
    }
}

/// Parses a one-digit day of week.
pub fn week_day(i: &[u8]) -> (r: Result<(usize, u8), ParseError>)
    ensures
        lifts(r, sp_week_day(i@)),
        r matches Ok((n, _)) ==> n <= i@.len(),
        r matches Ok((_, v)) ==> v < 10,
{
    proof {
        lemma_p10_values();
    }
    match take_digits(i, 1) {
        Ok((n, v)) => Ok((n, v as u8)),
        Err(e) => Err(e),
    }
}

/// Consumes a hyphen when one is present.
fn opt_dash(i: &[u8]) -> (r: Result<(usize, ()), ParseError>)
    ensures
        lifts(r, sp_opt_dash(i@)),
        r matches Ok((n, _)) ==> n <= i@.len(),
{
    match take_byte(i, 45) {
        Ok((n, _)) => Ok((n, ())),
        Err(ParseError::Incomplete) => Err(ParseError::Incomplete),
        Err(_) => Ok((0, ())),
    }
}

/// Consumes the extended format's hyphen; consumes nothing in basic
/// format.
fn sep(i: &[u8], ext: bool) -> (r: Result<(usize, ()), ParseError>)
    ensures
        lifts(r, sp_sep(i@, ext)),
        r matches Ok((n, _)) ==> n <= i@.len(),
{
    if ext {
        take_byte(i, 45)
    } else {
        Ok((0, ()))
    }
}

/// A complete calendar date: year, month and day, hyphenated when
/// extended.
pub open spec fn sp_date_ymd_format(s: Seq<u8>, ext: bool) -> Result<(int, YmdDate), ParseError> {
    match sp_year(s) {
        Err(e) => Err(e),
        Ok((n1, y)) => match sp_sep(s.skip(n1), ext) {
            Err(e) => Err(e),
            Ok((n2, _)) => match sp_month(s.skip(n1 + n2)) {
                Err(e) => Err(e),
                Ok((n3, mo)) => match sp_sep(s.skip(n1 + n2 + n3), ext) {
                    Err(e) => Err(e),
                    Ok((n4, _)) => match sp_day(s.skip(n1 + n2 + n3 + n4)) {
                        Err(e) => Err(e),
                        Ok((n5, d)) => Ok(
                            (n1 + n2 + n3 + n4 + n5, YmdDate { year: y, month: mo, day: d }),
                        ),
                    },
                },
            },
        },
    }
}

/// Parses a complete calendar date in the given format.
pub fn date_ymd_format(i: &[u8], extended: bool) -> (r: Result<(usize, YmdDate), ParseError>)
    ensures
        lifts(r, sp_date_ymd_format(i@, extended)),
        r matches Ok((n, _)) ==> n <= i@.len(),
{
    let (n1, y) = match year(i) {
        Ok(v) => v,
        Err(e) => {
            return Err(e);
        },
    };
    let (n2, _) = match sep(slice_subrange(i, n1, i.len()), extended) {
        Ok(v) => v,
        Err(e) => {
            return Err(e);
        },
    };
    let (n3, mo) = match month(slice_subrange(i, n1 + n2, i.len())) {
        Ok(v) => v,
        Err(e) => {
            return Err(e);
        },
    };
    let (n4, _) = match sep(slice_subrange(i, n1 + n2 + n3, i.len()), extended) {
        Ok(v) => v,
        Err(e) => {
            return Err(e);
        },
    };
    let (n5, d) = match day(slice_subrange(i, n1 + n2 + n3 + n4, i.len())) {
        Ok(v) => v,
        Err(e) => {
            return Err(e);
        },
    };
    Ok((n1 + n2 + n3 + n4 + n5, YmdDate { year: y, month: mo, day: d }))
}

/// A complete week date: year, literal `W`, week and weekday.
pub open spec fn sp_date_wd_format(s: Seq<u8>, ext: bool) -> Result<(int, WdDate), ParseError> {
    match sp_year(s) {
        Err(e) => Err(e),
        Ok((n1, y)) => match sp_sep(s.skip(n1), ext) {
            Err(e) => Err(e),
            Ok((n2, _)) => match sp_byte(s.skip(n1 + n2), 87) {
                Err(e) => Err(e),
                Ok((n3, _)) => match sp_year_week(s.skip(n1 + n2 + n3)) {
                    Err(e) => Err(e),
                    Ok((n4, wk)) => match sp_sep(s.skip(n1 + n2 + n3 + n4), ext) {
                        Err(e) => Err(e),
                        Ok((n5, _)) => match sp_week_day(s.skip(n1 + n2 + n3 + n4 + n5)) {
                            Err(e) => Err(e),
                            Ok((n6, d)) => Ok(
                                (
                                    n1 + n2 + n3 + n4 + n5 + n6,
                                    WdDate { year: y, week: wk, day: d },
                                ),
                            ),
                        },
                    },
                },
            },
        },
    }
}

/// Parses a complete week date in the given format.
pub fn date_wd_format(i: &[u8], extended: bool) -> (r: Result<(usize, WdDate), ParseError>)
    ensures
        lifts(r, sp_date_wd_format(i@, extended)),
        r matches Ok((n, _)) ==> n <= i@.len(),
{
    let (n1, y) = match year(i) {
        Ok(v) => v,
        Err(e) => {
            return Err(e);
        },
    };
    let (n2, _) = match sep(slice_subrange(i, n1, i.len()), extended) {
        Ok(v) => v,
        Err(e) => {
            return Err(e);
        },
    };
    let (n3, _) = match take_byte(slice_subrange(i, n1 + n2, i.len()), 87) {
        Ok(v) => v,
        Err(e) => {
            return Err(e);
        },
    };
    let (n4, wk) = match year_week(slice_subrange(i, n1 + n2 + n3, i.len())) {
        Ok(v) => v,
        Err(e) => {
            return Err(e);
        },
    };
    let (n5, _) = match sep(slice_subrange(i, n1 + n2 + n3 + n4, i.len()), extended) {
        Ok(v) => v,
        Err(e) => {
            return Err(e);
        },
    };
    let (n6, d) = match week_day(slice_subrange(i, n1 + n2 + n3 + n4 + n5, i.len())) {
        Ok(v) => v,
        Err(e) => {
            return Err(e);
        },
    };
    Ok((n1 + n2 + n3 + n4 + n5 + n6, WdDate { year: y, week: wk, day: d }))
}

/// A complete ordinal date: year and three-digit day of year.
pub open spec fn sp_date_o_format(s: Seq<u8>, ext: bool) -> Result<(int, ODate), ParseError> {
    match sp_year(s) {
        Err(e) => Err(e),
        Ok((n1, y)) => match sp_sep(s.skip(n1), ext) {
            Err(e) => Err(e),
            Ok((n2, _)) => match sp_year_day(s.skip(n1 + n2)) {
                Err(e) => Err(e),
                Ok((n3, d)) => Ok((n1 + n2 + n3, ODate { year: y, day: d })),
            },
        },
    }
}

/// Parses a complete ordinal date in the given format.
pub fn date_o_format(i: &[u8], extended: bool) -> (r: Result<(usize, ODate), ParseError>)
    ensures
        lifts(r, sp_date_o_format(i@, extended)),
        r matches Ok((n, _)) ==> n <= i@.len(),
{
    let (n1, y) = match year(i) {
        Ok(v) => v,
        Err(e) => {
            return Err(e);
        },
    };
    let (n2, _) = match sep(slice_subrange(i, n1, i.len()), extended) {
        Ok(v) => v,
        Err(e) => {
            return Err(e);
        },
    };
    let (n3, d) = match year_day(slice_subrange(i, n1 + n2, i.len())) {
        Ok(v) => v,
        Err(e) => {
            return Err(e);
        },
    };
    Ok((n1 + n2 + n3, ODate { year: y, day: d }))
}

/// A specific week: year, literal `W` and week number.
pub open spec fn sp_date_w_format(s: Seq<u8>, ext: bool) -> Result<(int, WDate), ParseError> {
    match sp_year(s) {
        Err(e) => Err(e),
        Ok((n1, y)) => match sp_sep(s.skip(n1), ext) {
            Err(e) => Err(e),
            Ok((n2, _)) => match sp_byte(s.skip(n1 + n2), 87) {
                Err(e) => Err(e),
                Ok((n3, _)) => match sp_year_week(s.skip(n1 + n2 + n3)) {
                    Err(e) => Err(e),
                    Ok((n4, wk)) => Ok((n1 + n2 + n3 + n4, WDate { year: y, week: wk })),
                },
            },
        },
    }
}

/// Parses a specific week in the given format.
pub fn date_w_format(i: &[u8], extended: bool) -> (r: Result<(usize, WDate), ParseError>)
    ensures
        lifts(r, sp_date_w_format(i@, extended)),
        r matches Ok((n, _)) ==> n <= i@.len(),
{
    let (n1, y) = match year(i) {
        Ok(v) => v,
        Err(e) => {
            return Err(e);
        },
    };
    let (n2, _) = match sep(slice_subrange(i, n1, i.len()), extended) {
        Ok(v) => v,
        Err(e) => {
            return Err(e);
        },
    };
    let (n3, _) = match take_byte(slice_subrange(i, n1 + n2, i.len()), 87) {
        Ok(v) => v,
        Err(e) => {
            return Err(e);
        },
    };
    let (n4, wk) = match year_week(slice_subrange(i, n1 + n2 + n3, i.len())) {
        Ok(v) => v,
        Err(e) => {
            return Err(e);
        },
    };
    Ok((n1 + n2 + n3 + n4, WDate { year: y, week: wk }))
}

/// A week date, extended format first; an incomplete extended parse ends
/// the alternation.
pub open spec fn sp_date_wd(s: Seq<u8>) -> Result<(int, WdDate), ParseError> {
    match sp_date_wd_format(s, true) {
        Ok(r) => Ok(r),
        Err(e) => if alt_continues(e) {
            sp_date_wd_format(s, false)
        } else {
            Err(e)
        },
    }
}

/// Parses a week date, extended format first.
pub fn date_wd(i: &[u8]) -> (r: Result<(usize, WdDate), ParseError>)
    ensures
        lifts(r, sp_date_wd(i@)),
        r matches Ok((n, _)) ==> n <= i@.len(),
{
    match date_wd_format(i, true) {
        Ok(r) => Ok(r),
        Err(ParseError::Mismatch) | Err(ParseError::OutOfRange) => date_wd_format(i, false),
        Err(e) => Err(e),
    }
}

/// An ordinal date, extended format first.
pub open spec fn sp_date_o(s: Seq<u8>) -> Result<(int, ODate), ParseError> {
    match sp_date_o_format(s, true) {
        Ok(r) => Ok(r),
        Err(e) => if alt_continues(e) {
            sp_date_o_format(s, false)
        } else {
            Err(e)
        },
    }
}

/// Parses an ordinal date, extended format first.
pub fn date_o(i: &[u8]) -> (r: Result<(usize, ODate), ParseError>)
    ensures
        lifts(r, sp_date_o(i@)),
        r matches Ok((n, _)) ==> n <= i@.len(),
{
    match date_o_format(i, true) {
        Ok(r) => Ok(r),
        Err(ParseError::Mismatch) | Err(ParseError::OutOfRange) => date_o_format(i, false),
        Err(e) => Err(e),
    }
}

/// A specific week, extended format first.
pub open spec fn sp_date_w(s: Seq<u8>) -> Result<(int, WDate), ParseError> {
    match sp_date_w_format(s, true) {
        Ok(r) => Ok(r),
        Err(e) => if alt_continues(e) {
            sp_date_w_format(s, false)
        } else {
            Err(e)
        },
    }
}

/// Parses a specific week, extended format first.
pub fn date_w(i: &[u8]) -> (r: Result<(usize, WDate), ParseError>)
    ensures
        lifts(r, sp_date_w(i@)),
        r matches Ok((n, _)) ==> n <= i@.len(),
{
    match date_w_format(i, true) {
        Ok(r) => Ok(r),
        Err(ParseError::Mismatch) | Err(ParseError::OutOfRange) => date_w_format(i, false),
        Err(e) => Err(e),
    }
}

/// A specific month: year and month, with an optional hyphen between.
pub open spec fn sp_date_ym(s: Seq<u8>) -> Result<(int, YmDate), ParseError> {
    match sp_year(s) {
        Err(e) => Err(e),
        Ok((n1, y)) => match sp_opt_dash(s.skip(n1)) {
            Err(e) => Err(e),
            Ok((n2, _)) => match sp_month(s.skip(n1 + n2)) {
                Err(e) => Err(e),
                Ok((n3, mo)) => Ok((n1 + n2 + n3, YmDate { year: y, month: mo })),
            },
        },
    }
}

/// Parses a specific month.
pub fn date_ym(i: &[u8]) -> (r: Result<(usize, YmDate), ParseError>)
    ensures
        lifts(r, sp_date_ym(i@)),
        r matches Ok((n, _)) ==> n <= i@.len(),
{
    let (n1, y) = match year(i) {
        Ok(v) => v,
        Err(e) => {
            return Err(e);
        },
    };
    let (n2, _) = match opt_dash(slice_subrange(i, n1, i.len())) {
        Ok(v) => v,
        Err(e) => {
            return Err(e);
        },
    };
    let (n3, mo) = match month(slice_subrange(i, n1 + n2, i.len())) {
        Ok(v) => v,
        Err(e) => {
            return Err(e);
        },
    };
    Ok((n1 + n2 + n3, YmDate { year: y, month: mo }))
}

/// A specific year.
pub open spec fn sp_date_y(s: Seq<u8>) -> Result<(int, YDate), ParseError> {
    match sp_year(s) {
        Err(e) => Err(e),
        Ok((n, y)) => Ok((n, YDate { year: y })),
    }
}

/// Parses a specific year.
pub fn date_y(i: &[u8]) -> (r: Result<(usize, YDate), ParseError>)
    ensures
        lifts(r, sp_date_y(i@)),
        r matches Ok((n, _)) ==> n <= i@.len(),
{
    match year(i) {
        Ok((n, y)) => Ok((n, YDate { year: y })),
        Err(e) => Err(e),
    }
}

/// A specific century.
pub open spec fn sp_date_c(s: Seq<u8>) -> Result<(int, CDate), ParseError> {
    match sp_century(s) {
        Err(e) => Err(e),
        Ok((n, c)) => Ok((n, CDate { century: c })),
    }
}

/// Parses a specific century.
pub fn date_c(i: &[u8]) -> (r: Result<(usize, CDate), ParseError>)
    ensures
        lifts(r, sp_date_c(i@)),
        r matches Ok((n, _)) ==> n <= i@.len(),
{
    match century(i) {
        Ok((n, c)) => Ok((n, CDate { century: c })),
        Err(e) => Err(e),
    }
}

/// The optional day suffix of a reduced calendar date: an optional hyphen,
/// then two digits.
pub open spec fn sp_ymd_day_suffix(s: Seq<u8>) -> Result<(int, u8), ParseError> {
    match sp_opt_dash(s) {
        Err(e) => Err(e),
        Ok((n, _)) => match sp_day(s.skip(n)) {
            Err(e) => Err(e),
            Ok((m, d)) => Ok((n + m, d)),
        },
    }
}

/// The optional month-day suffix of a reduced calendar date; an absent
/// day defaults to the first.
pub open spec fn sp_ymd_md_suffix(s: Seq<u8>) -> Result<(int, (u8, u8)), ParseError> {
    match sp_opt_dash(s) {
        Err(e) => Err(e),
        Ok((n, _)) => match sp_month(s.skip(n)) {
            Err(e) => Err(e),
            Ok((m, mo)) => match sp_ymd_day_suffix(s.skip(n + m)) {
                Ok((k, d)) => Ok((n + m + k, (mo, d))),
                Err(_) => Ok((n + m, (mo, 1u8))),
            },
        },
    }
}

/// A calendar date at any precision, coerced to a complete one: an absent
/// month or day defaults to the first, and a bare century denotes its
/// first year.
pub open spec fn sp_date_ymd(s: Seq<u8>) -> Result<(int, YmdDate), ParseError> {
    let b1 = match sp_year(s) {
        Err(e) => Err(e),
        Ok((n, y)) => match sp_ymd_md_suffix(s.skip(n)) {
            Ok((m, md)) => Ok((n + m, YmdDate { year: y, month: md.0, day: md.1 })),
            Err(_) => Ok((n, YmdDate { year: y, month: 1, day: 1 })),
        },
    };
    match b1 {
        Ok(r) => Ok(r),
        Err(_) => match sp_century(s) {
            Ok((m, c)) => Ok((m, YmdDate { year: (c * 100) as i32, month: 1, day: 1 })),
            Err(ParseError::Incomplete) => Err(ParseError::Mismatch),
            Err(e) => Err(e),
        },
    }
}

/// Parses the day suffix of a reduced calendar date.
fn ymd_day_suffix(i: &[u8]) -> (r: Result<(usize, u8), ParseError>)
    ensures
        lifts(r, sp_ymd_day_suffix(i@)),
        r matches Ok((n, _)) ==> n <= i@.len(),
{
    let (n, _) = match opt_dash(i) {
        Ok(v) => v,
        Err(e) => {
            return Err(e);
        },
    };
    match day(slice_subrange(i, n, i.len())) {
        Ok((m, d)) => Ok((n + m, d)),
        Err(e) => Err(e),
    }
}

/// Parses the month-day suffix of a reduced calendar date.
fn ymd_md_suffix(i: &[u8]) -> (r: Result<(usize, (u8, u8)), ParseError>)
    ensures
        lifts(r, sp_ymd_md_suffix(i@)),
        r matches Ok((n, _)) ==> n <= i@.len(),
{
    let (n, _) = match opt_dash(i) {
        Ok(v) => v,
        Err(e) => {
            return Err(e);
        },
    };
    let (m, mo) = match month(slice_subrange(i, n, i.len())) {
        Ok(v) => v,
        Err(e) => {
            return Err(e);
        },
    };
    match ymd_day_suffix(slice_subrange(i, n + m, i.len())) {
        Ok((k, d)) => Ok((n + m + k, (mo, d))),
        Err(_) => Ok((n + m, (mo, 1))),
    }
}

/// Parses a calendar date at any precision, coerced to a complete one.
pub fn date_ymd(i: &[u8]) -> (r: Result<(usize, YmdDate), ParseError>)
    ensures
        lifts(r, sp_date_ymd(i@)),
        r matches Ok((n, _)) ==> n <= i@.len(),
{
    match year(i) {
        Ok((n, y)) => {
            match ymd_md_suffix(slice_subrange(i, n, i.len())) {
                Ok((m, md)) => {
                    return Ok((n + m, YmdDate { year: y, month: md.0, day: md.1 }));
                },
                Err(_) => {
                    return Ok((n, YmdDate { year: y, month: 1, day: 1 }));
                },
            }
        },
        Err(_) => {},
    }
    match century(i) {
        Ok((m, c)) => Ok((m, YmdDate { year: c as i32 * 100, month: 1, day: 1 })),
        Err(ParseError::Incomplete) => Err(ParseError::Mismatch),
        Err(e) => Err(e),
    }
}

/// A complete date of any representation.  Week dates go first; among the
/// rest, both extended forms go before both basic ones, since a basic
/// year-month-day is a digit-prefix of longer basic forms.
pub open spec fn sp_date(s: Seq<u8>) -> Result<(int, Date), ParseError> {
    match sp_complete(sp_date_wd(s)) {
        Ok((n, w)) => Ok((n, Date::WD(w))),
        Err(e1) => if !alt_continues(e1) {
            Err(e1)
        } else {
            match sp_complete(sp_date_ymd_format(s, true)) {
                Ok((n, d)) => Ok((n, Date::YMD(d))),
                Err(e2) => if !alt_continues(e2) {
                    Err(e2)
                } else {
                    match sp_complete(sp_date_o_format(s, true)) {
                        Ok((n, o)) => Ok((n, Date::O(o))),
                        Err(e3) => if !alt_continues(e3) {
                            Err(e3)
                        } else {
                            match sp_complete(sp_date_ymd_format(s, false)) {
                                Ok((n, d)) => Ok((n, Date::YMD(d))),
                                Err(e4) => if !alt_continues(e4) {
                                    Err(e4)
                                } else {
                                    match sp_complete(sp_date_o_format(s, false)) {
                                        Ok((n, o)) => Ok((n, Date::O(o))),
                                        Err(e5) => Err(e5),
                                    }
                                },
                            }
                        },
                    }
                },
            }
        },
    }
}

/// Parses a complete date of any representation.
pub fn date(i: &[u8]) -> (r: Result<(usize, Date), ParseError>)
    ensures
        lifts(r, sp_date(i@)),
        r matches Ok((n, _)) ==> n <= i@.len(),
{
    match date_wd(i) {
        Ok((n, w)) => {
            return Ok((n, Date::WD(w)));
        },
        Err(ParseError::TooPrecise) => {
            return Err(ParseError::TooPrecise);
        },
        Err(_) => {},
    }
    match date_ymd_format(i, true) {
        Ok((n, d)) => {
            return Ok((n, Date::YMD(d)));
        },
        Err(ParseError::TooPrecise) => {
            return Err(ParseError::TooPrecise);
        },
        Err(_) => {},
    }
    match date_o_format(i, true) {
        Ok((n, o)) => {
            return Ok((n, Date::O(o)));
        },
        Err(ParseError::TooPrecise) => {
            return Err(ParseError::TooPrecise);
        },
        Err(_) => {},
    }
    match date_ymd_format(i, false) {
        Ok((n, d)) => {
            return Ok((n, Date::YMD(d)));
        },
        Err(ParseError::TooPrecise) => {
            return Err(ParseError::TooPrecise);
        },
        Err(_) => {},
    }
    match date_o_format(i, false) {
        Ok((n, o)) => Ok((n, Date::O(o))),
        Err(ParseError::Incomplete) => Err(ParseError::Mismatch),
        Err(e) => Err(e),
    }
}

/// A date at any precision: a complete date, else a week, a month
/// (extended or basic), a year, or a century.
pub open spec fn sp_date_approx(s: Seq<u8>) -> Result<(int, ApproxDate), ParseError> {
    match sp_complete(sp_date(s)) {
        Ok((n, d)) => Ok(
            (
                n,
                match d {
                    Date::YMD(x) => ApproxDate::YMD(x),
                    Date::WD(x) => ApproxDate::WD(x),
                    Date::O(x) => ApproxDate::O(x),
                },
            ),
        ),
        Err(e1) => if !alt_continues(e1) {
            Err(e1)
        } else {
            match sp_complete(sp_date_w(s)) {
                Ok((n, w)) => Ok((n, ApproxDate::W(w))),
                Err(e2) => if !alt_continues(e2) {
                    Err(e2)
                } else {
                    match sp_complete(sp_date_ym(s)) {
                        Ok((n, ym)) => Ok((n, ApproxDate::YM(ym))),
                        Err(e3) => if !alt_continues(e3) {
                            Err(e3)
                        } else {
                            match sp_complete(sp_date_y(s)) {
                                Ok((n, y)) => Ok((n, ApproxDate::Y(y))),
                                Err(e4) => if !alt_continues(e4) {
                                    Err(e4)
                                } else {
                                    match sp_complete(sp_date_c(s)) {
                                        Ok((n, c)) => Ok((n, ApproxDate::C(c))),
                                        Err(e5) => Err(e5),
                                    }
                                },
                            }
                        },
                    }
                },
            }
        },
    }
}

/// Parses a date at any precision.
pub fn date_approx(i: &[u8]) -> (r: Result<(usize, ApproxDate), ParseError>)
    ensures
        lifts(r, sp_date_approx(i@)),
        r matches Ok((n, _)) ==> n <= i@.len(),
{
    match date(i) {
        Ok((n, d)) => {
            return Ok(
                (
                    n,
                    match d {
                        Date::YMD(x) => ApproxDate::YMD(x),
                        Date::WD(x) => ApproxDate::WD(x),
                        Date::O(x) => ApproxDate::O(x),
                    },
                ),
            );
        },
        Err(ParseError::TooPrecise) => {
            return Err(ParseError::TooPrecise);
        },
        Err(_) => {},
    }
    match date_w(i) {
        Ok((n, w)) => {
            return Ok((n, ApproxDate::W(w)));
        },
        Err(ParseError::TooPrecise) => {
            return Err(ParseError::TooPrecise);
        },
        Err(_) => {},
    }
    match date_ym(i) {
        Ok((n, ym)) => {
            return Ok((n, ApproxDate::YM(ym)));
        },
        Err(ParseError::TooPrecise) => {
            return Err(ParseError::TooPrecise);
        },
        Err(_) => {},
    }
    match date_y(i) {
        Ok((n, y)) => {
            return Ok((n, ApproxDate::Y(y)));
        },
        Err(ParseError::TooPrecise) => {
            return Err(ParseError::TooPrecise);
        },
        Err(_) => {},
    }
    match date_c(i) {
        Ok((n, c)) => Ok((n, ApproxDate::C(c))),
        Err(ParseError::Incomplete) => Err(ParseError::Mismatch),
        Err(e) => Err(e),
    }
}

} // verus!
