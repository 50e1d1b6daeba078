//! The three complete date representations (calendar, week, ordinal), their
//! reduced-precision companions, validity predicates, and the lossless
//! conversions among the complete forms.
//!
//! All conversions pivot through the ordinal representation.  Their results
//! are pinned down exactly by the spec functions of [`crate::calendar`].

use vstd::prelude::*;

use crate::Valid;
use crate::calendar::{
    days_before_month, ediv64, emod64, leap_year, month_days, month_of_year_day, owd_day,
    owd_week, wdo_raw, week_shift, weekday_jan4_iso, year_days, year_weeks,
};

verus! {

/// Complete date representations.
#[derive(Eq, PartialEq, Clone, Copy, Debug)]
pub enum Date {
    YMD(YmdDate),
    WD(WdDate),
    O(ODate),
}

/// Date representations of any precision, complete or reduced.
#[derive(Eq, PartialEq, Clone, Copy, Debug)]
pub enum ApproxDate {
    YMD(YmdDate),
    YM(YmDate),
    Y(YDate),
    C(CDate),
    WD(WdDate),
    W(WDate),
    O(ODate),
}

/// Calendar date: year, month and day of month.
#[derive(Eq, PartialEq, Clone, Copy, Debug)]
pub struct YmdDate {
    pub year: i32,
    pub month: u8,
    pub day: u8,
}

/// A specific month of a year.
#[derive(Eq, PartialEq, Clone, Copy, Debug)]
pub struct YmDate {
    pub year: i32,
    pub month: u8,
}

/// A specific year.
#[derive(Eq, PartialEq, Clone, Copy, Debug)]
pub struct YDate {
    pub year: i32,
}

/// A specific century; the century index, so year = century * 100.
#[derive(Eq, PartialEq, Clone, Copy, Debug)]
pub struct CDate {
    pub century: i8,
}

/// Week date: year, ISO week number and weekday (1 = Monday .. 7 = Sunday).
#[derive(Eq, PartialEq, Clone, Copy, Debug)]
pub struct WdDate {
    pub year: i32,
    pub week: u8,
    pub day: u8,
}

/// A specific week of a year.
#[derive(Eq, PartialEq, Clone, Copy, Debug)]
pub struct WDate {
    pub year: i32,
    pub week: u8,
}

/// Ordinal date: year and 1-based day of year.
#[derive(Eq, PartialEq, Clone, Copy, Debug)]
pub struct ODate {
    pub year: i32,
    pub day: u16,
}

/// Marker for every date representation.
pub trait Datelike {

}

impl Datelike for Date {

}

impl Datelike for ApproxDate {

}

impl Datelike for YmdDate {

}

impl Datelike for YmDate {

}

impl Datelike for YDate {

}

impl Datelike for CDate {

}

impl Datelike for WdDate {

}

impl Datelike for WDate {

}

impl Datelike for ODate {

}

/// A year number: decides leapness and carries the ISO week and day counts.
pub trait Year {
    /// Whether the year is a Gregorian leap year.
    spec fn leap_spec(&self) -> bool;

    /// The ISO week count of the year (52 or 53).
    spec fn weeks_spec(&self) -> int;

    /// The day count of the year (365 or 366).
    spec fn days_spec(&self) -> int;

    /// Decides the leap-year rule.
    fn is_leap(&self) -> (r: bool)
        ensures
            r == self.leap_spec(),
    ;

    /// Computes the ISO week count.
    fn num_weeks(&self) -> (r: u8)
        ensures
            r as int == self.weeks_spec(),
    ;

    /// Computes the day count.
    fn num_days(&self) -> (r: u16)
        ensures
            r as int == self.days_spec(),
    ;
}

/// Leapness of a year held in a wide machine integer.
fn leap64(y: i64) -> (r: bool)
    ensures
        r == leap_year(y as int),
{
    emod64(y, 4) == 0 && (emod64(y, 100) != 0 || emod64(y, 400) == 0)
}

/// Day count of a year held in a wide machine integer.
fn days64(y: i64) -> (r: u16)
    ensures
        r as int == year_days(y as int),
{
    if leap64(y) {
        366
    } else {
        365
    }
}

/// The `p` residue of the ISO week-count rule, for years near the i32
/// range.
fn week_p64(y: i64) -> (r: i64)
    requires
        -3_000_000_000 <= y <= 3_000_000_000,
    ensures
        r == crate::calendar::week_year_p(y as int),
{
    emod64(y + ediv64(y, 4) - ediv64(y, 100) + ediv64(y, 400), 7)
}

/// ISO week count of a year held in a wide machine integer.
#[verifier::rlimit(30)]
fn weeks64(y: i64) -> (r: u8)
    requires
        -2_200_000_000 <= y <= 2_200_000_000,
    ensures
        r as int == year_weeks(y as int),
{
    if week_p64(y) == 4 || week_p64(y - 1) == 3 {
        53
    } else {
        52
    }
}

/// The ISO weekday of 4 January of a year held in a wide machine
/// integer.
fn jan4_iso64(y: i64) -> (r: i64)
    requires
        i64::MIN + 2 <= y,
    ensures
        r == weekday_jan4_iso(y as int),
{
    let j1 = emod64(
        1 + 5 * emod64(y - 1, 4) + 4 * emod64(y - 1, 100) + 6 * emod64(y - 1, 400),
        7,
    );
    let j4 = emod64(j1 + 3, 7);
    if j4 == 0 {
        7
    } else {
        j4
    }
}

impl Year for i32 {
    open spec fn leap_spec(&self) -> bool {
        leap_year(*self as int)
    }

    open spec fn weeks_spec(&self) -> int {
        year_weeks(*self as int)
    }

    open spec fn days_spec(&self) -> int {
        year_days(*self as int)
    }

    fn is_leap(&self) -> (r: bool) {
        leap64(*self as i64)
    }

    fn num_weeks(&self) -> (r: u8) {
        let y = *self as i64;
        if week_p64(y) == 4 || week_p64(y - 1) == 3 {
            53
        } else {
            52
        }
    }

    fn num_days(&self) -> (r: u16) {
        days64(*self as i64)
    }
}

impl Valid for Date {
    open spec fn valid_spec(&self) -> bool {
        match self {
            Date::YMD(date) => date.valid_spec(),
            Date::WD(date) => date.valid_spec(),
            Date::O(date) => date.valid_spec(),
        }
    }

    fn is_valid(&self) -> (r: bool) {
        match self {
            Date::YMD(date) => date.is_valid(),
            Date::WD(date) => date.is_valid(),
            Date::O(date) => date.is_valid(),
        }
    }
}

impl Valid for ApproxDate {
    open spec fn valid_spec(&self) -> bool {
        match self {
            ApproxDate::YMD(date) => date.valid_spec(),
            ApproxDate::YM(date) => date.valid_spec(),
            ApproxDate::Y(date) => date.valid_spec(),
            ApproxDate::C(date) => date.valid_spec(),
            ApproxDate::WD(date) => date.valid_spec(),
            ApproxDate::W(date) => date.valid_spec(),
            ApproxDate::O(date) => date.valid_spec(),
        }
    }

    fn is_valid(&self) -> (r: bool) {
        match self {
            ApproxDate::YMD(date) => date.is_valid(),
            ApproxDate::YM(date) => date.is_valid(),
            ApproxDate::Y(date) => date.is_valid(),
            ApproxDate::C(date) => date.is_valid(),
            ApproxDate::WD(date) => date.is_valid(),
            ApproxDate::W(date) => date.is_valid(),
            ApproxDate::O(date) => date.is_valid(),
        }
    }
}

impl Valid for YmdDate {
    /// A calendar date is valid when the month exists and the day fits the
    /// month's length in that year.
    open spec fn valid_spec(&self) -> bool {
        1 <= self.month <= 12 && 1 <= self.day && self.day
            <= month_days(self.month as int, leap_year(self.year as int))
    }

    fn is_valid(&self) -> (r: bool) {
        if self.month < 1 || self.month > 12 {
            return false;
        }
        let limit: u8 = match self.month {
            2 => if self.year.is_leap() {
                29
            } else {
                28
            },
            4 | 6 | 9 | 11 => 30,
            _ => 31,
        };
        1 <= self.day && self.day <= limit
    }
}

impl Valid for YmDate {
    open spec fn valid_spec(&self) -> bool {
        1 <= self.month <= 12
    }

    fn is_valid(&self) -> (r: bool) {
        self.month >= 1 && self.month <= 12
    }
}

impl Valid for YDate {
    open spec fn valid_spec(&self) -> bool {
        true
    }

    fn is_valid(&self) -> (r: bool) {
        true
    }
}

impl Valid for CDate {
    open spec fn valid_spec(&self) -> bool {
        true
    }

    fn is_valid(&self) -> (r: bool) {
        true
    }
}

impl Valid for WdDate {
    /// A week date is valid when the week exists in the year's ISO week
    /// count and the weekday is one of Monday..Sunday.
    open spec fn valid_spec(&self) -> bool {
        1 <= self.week && self.week as int <= year_weeks(self.year as int) && 1 <= self.day
            <= 7
    }

    fn is_valid(&self) -> (r: bool) {
        let wd = WDate { year: self.year, week: self.week };
        wd.is_valid() && self.day >= 1 && self.day <= 7
    }
}

impl Valid for WDate {
    open spec fn valid_spec(&self) -> bool {
        1 <= self.week && self.week as int <= year_weeks(self.year as int)
    }

    fn is_valid(&self) -> (r: bool) {
        let nw = self.year.num_weeks();
        let ok = self.week >= 1 && self.week <= nw;
        assert(ok == self.valid_spec());
        ok
    }
}

impl Valid for ODate {
    open spec fn valid_spec(&self) -> bool {
        1 <= self.day && self.day as int <= year_days(self.year as int)
    }

    fn is_valid(&self) -> (r: bool) {
        self.day >= 1 && self.day <= self.year.num_days()
    }
}

/// The ordinal date a calendar date denotes.  Meaningful for months 1..=12.
pub open spec fn ymd_to_o(d: YmdDate) -> ODate {
    ODate {
        year: d.year,
        day: (days_before_month(d.month as int, leap_year(d.year as int)) + d.day) as u16,
    }
}

/// The calendar date an ordinal date denotes.  Meaningful for day-of-year
/// values within the year's day count.
pub open spec fn o_to_ymd(o: ODate) -> YmdDate {
    let leap = leap_year(o.year as int);
    let m = month_of_year_day(o.day as int, leap);
    YmdDate {
        year: o.year,
        month: m as u8,
        day: (o.day - days_before_month(m, leap)) as u8,
    }
}

/// The ISO week date an ordinal date denotes.  A day before the year's
/// first week belongs to the last week of the previous year; a day after
/// the year's last week belongs to week 1 of the next year.
pub open spec fn o_to_wd(o: ODate) -> WdDate {
    let y = o.year as int;
    let d = o.day as int;
    if week_shift(y, d) < 1 {
        WdDate {
            year: (y - 1) as i32,
            week: year_weeks(y - 1) as u8,
            day: owd_day(y, d) as u8,
        }
    } else if owd_week(y, d) > year_weeks(y) {
        WdDate { year: (y + 1) as i32, week: 1u8, day: owd_day(y, d) as u8 }
    } else {
        WdDate { year: o.year, week: owd_week(y, d) as u8, day: owd_day(y, d) as u8 }
    }
}

/// The ordinal date an ISO week date denotes.  A raw day count outside
/// the year is wrapped into the adjacent year by that year's day count.
pub open spec fn wd_to_o(w: WdDate) -> ODate {
    let y = w.year as int;
    let raw = wdo_raw(y, w.week as int, w.day as int);
    if raw < 1 {
        ODate { year: (y - 1) as i32, day: (raw + year_days(y - 1)) as u16 }
    } else if raw > year_days(y) {
        ODate { year: (y + 1) as i32, day: (raw - year_days(y)) as u16 }
    } else {
        ODate { year: w.year, day: raw as u16 }
    }
}

impl ODate {
    /// Converts a calendar date to its ordinal day of year by the
    /// cumulative month table.
    pub fn from_ymd(date: &YmdDate) -> (r: ODate)
        requires
            1 <= date.month <= 12,
        ensures
            r == ymd_to_o(*date),
    {
        let leap = leap64(date.year as i64);
        let before: u16 = match date.month {
            1 => 0,
            2 => 31,
            3 => if leap {
                60
            } else {
                59
            },
            4 => if leap {
                91
            } else {
                90
            },
            5 => if leap {
                121
            } else {
                120
            },
            6 => if leap {
                152
            } else {
                151
            },
            7 => if leap {
                182
            } else {
                181
            },
            8 => if leap {
                213
            } else {
                212
            },
            9 => if leap {
                244
            } else {
                243
            },
            10 => if leap {
                274
            } else {
                273
            },
            11 => if leap {
                305
            } else {
                304
            },
            _ => if leap {
                335
            } else {
                334
            },
        };
        ODate { year: date.year, day: before + date.day as u16 }
    }

    /// Converts a week date to an ordinal date via the ISO weekday of
    /// 4 January, wrapping a day count that leaves the year into the
    /// adjacent year.
    pub fn from_wd(date: &WdDate) -> (r: ODate)
        requires
            i32::MIN < date.year,
            date.year < i32::MAX,
        ensures
            r == wd_to_o(*date),
    {
        let y = date.year as i64;
        let i4 = jan4_iso64(y);
        proof {
            crate::calendar::lemma_weekday_range(y as int);
        }
        let raw: i64 = 7 * (date.week as i64) + date.day as i64 - (i4 + 3);
        if raw < 1 {
            ODate { year: date.year - 1, day: (raw + days64(y - 1) as i64) as u16 }
        } else if raw > days64(y) as i64 {
            ODate { year: date.year + 1, day: (raw - days64(y) as i64) as u16 }
        } else {
            ODate { year: date.year, day: raw as u16 }
        }
    }

    /// Converts any complete date to its ordinal form.
    pub fn from_date(date: &Date) -> (r: ODate)
        requires
            date matches Date::YMD(d) ==> 1 <= d.month <= 12,
            date matches Date::WD(w) ==> i32::MIN < w.year < i32::MAX,
        ensures
            r == match *date {
                Date::YMD(d) => ymd_to_o(d),
                Date::WD(w) => wd_to_o(w),
                Date::O(o) => o,
            },
    {
        match date {
            Date::YMD(d) => ODate::from_ymd(d),
            Date::WD(w) => ODate::from_wd(w),
            Date::O(o) => o.clone(),
        }
    }
}

impl YmdDate {
    /// Converts an ordinal date to a calendar date by the cumulative
    /// month table.
    pub fn from_o(date: &ODate) -> (r: YmdDate)
        requires
            1 <= date.day,
            date.day as int <= year_days(date.year as int),
        ensures
            r == o_to_ymd(*date),
    {
        let leap = leap64(date.year as i64);
        let day = date.day;
        let month: u8;
        let dom: u16;
        if day <= 31 {
            month = 1;
            dom = day;
        } else if day <= (if leap { 60 } else { 59 }) {
            month = 2;
            dom = day - 31;
        } else if day <= (if leap { 91 } else { 90 }) {
            month = 3;
            dom = day - (if leap { 60 } else { 59 });
        } else if day <= (if leap { 121 } else { 120 }) {
            month = 4;
            dom = day - (if leap { 91 } else { 90 });
        } else if day <= (if leap { 152 } else { 151 }) {
            month = 5;
            dom = day - (if leap { 121 } else { 120 });
        } else if day <= (if leap { 182 } else { 181 }) {
            month = 6;
            dom = day - (if leap { 152 } else { 151 });
        } else if day <= (if leap { 213 } else { 212 }) {
            month = 7;
            dom = day - (if leap { 182 } else { 181 });
        } else if day <= (if leap { 244 } else { 243 }) {
            month = 8;
            dom = day - (if leap { 213 } else { 212 });
        } else if day <= (if leap { 274 } else { 273 }) {
            month = 9;
            dom = day - (if leap { 244 } else { 243 });
        } else if day <= (if leap { 305 } else { 304 }) {
            month = 10;
            dom = day - (if leap { 274 } else { 273 });
        } else if day <= (if leap { 335 } else { 334 }) {
            month = 11;
            dom = day - (if leap { 305 } else { 304 });
        } else {
            month = 12;
            dom = day - (if leap { 335 } else { 334 });
        }
        YmdDate { year: date.year, month, day: dom as u8 }
    }

    /// Converts a week date to a calendar date, pivoting through the
    /// ordinal form.
    pub fn from_wd(date: &WdDate) -> (r: YmdDate)
        requires
            date.valid_spec(),
            i32::MIN < date.year,
            date.year < i32::MAX,
        ensures
            r == o_to_ymd(wd_to_o(*date)),
    {
        proof {
            lemma_wd_to_o_valid(*date);
        }
        let o = ODate::from_wd(date);
        YmdDate::from_o(&o)
    }

    /// Converts any complete date to its calendar form.
    pub fn from_date(date: &Date) -> (r: YmdDate)
        requires
            date matches Date::WD(w) ==> w.valid_spec() && i32::MIN < w.year < i32::MAX,
            date matches Date::O(o) ==> 1 <= o.day && o.day as int <= year_days(o.year as int),
        ensures
            r == match *date {
                Date::YMD(d) => d,
                Date::WD(w) => o_to_ymd(wd_to_o(w)),
                Date::O(o) => o_to_ymd(o),
            },
    {
        match date {
            Date::YMD(d) => d.clone(),
            Date::WD(w) => YmdDate::from_wd(w),
            Date::O(o) => YmdDate::from_o(o),
        }
    }
}

impl WdDate {
    /// Converts an ordinal date to its ISO week date: the shifted day
    /// count decides the week, and a day outside the year's own weeks
    /// belongs to the adjacent year.
    pub fn from_o(date: &ODate) -> (r: WdDate)
        requires
            1 <= date.day,
            date.day as int <= year_days(date.year as int),
            i32::MIN < date.year,
            date.year < i32::MAX,
        ensures
            r == o_to_wd(*date),
    {
        let y = date.year as i64;
        let i4 = jan4_iso64(y);
        proof {
            crate::calendar::lemma_weekday_range(y as int);
        }
        let dc: i64 = date.day as i64 + (i4 - 4);
        if dc < 1 {
            proof {
                vstd::arithmetic::div_mod::lemma_fundamental_div_mod_converse(dc - 1, 7, -1, dc + 6);
            }
            let wk = weeks64(y - 1);
            WdDate { year: date.year - 1, week: wk, day: (dc + 7) as u8 }
        } else {
            let wk: i64 = (dc - 1) / 7 + 1;
            let day: i64 = dc - 7 * (wk - 1);
            proof {
                vstd::arithmetic::div_mod::lemma_fundamental_div_mod(dc - 1, 7);
                vstd::arithmetic::div_mod::lemma_mod_division_less_than_divisor(dc - 1, 7);
            }
            let w_y = weeks64(y);
            if wk > w_y as i64 {
                WdDate { year: date.year + 1, week: 1, day: day as u8 }
            } else {
                WdDate { year: date.year, week: wk as u8, day: day as u8 }
            }
        }
    }

    /// Converts a calendar date to a week date, pivoting through the
    /// ordinal form.
    pub fn from_ymd(date: &YmdDate) -> (r: WdDate)
        requires
            date.valid_spec(),
            i32::MIN < date.year,
            date.year < i32::MAX,
        ensures
            r == o_to_wd(ymd_to_o(*date)),
    {
        proof {
            lemma_ymd_to_o_valid(*date);
        }
        let o = ODate::from_ymd(date);
        WdDate::from_o(&o)
    }

    /// Converts any complete date to its week form.
    pub fn from_date(date: &Date) -> (r: WdDate)
        requires
            date matches Date::YMD(d) ==> d.valid_spec() && i32::MIN < d.year < i32::MAX,
            date matches Date::O(o) ==> 1 <= o.day && o.day as int <= year_days(o.year as int)
                && i32::MIN < o.year < i32::MAX,
        ensures
            r == match *date {
                Date::YMD(d) => o_to_wd(ymd_to_o(d)),
                Date::WD(w) => w,
                Date::O(o) => o_to_wd(o),
            },
    {
        match date {
            Date::YMD(d) => WdDate::from_ymd(d),
            Date::WD(w) => w.clone(),
            Date::O(o) => WdDate::from_o(o),
        }
    }
}

/// A valid calendar date's ordinal day of year lies within the year.
pub proof fn lemma_ymd_to_o_valid(d: YmdDate)
    requires
        d.valid_spec(),
    ensures
        ymd_to_o(d).valid_spec(),
        ymd_to_o(d).year == d.year,
{
}

/// A valid ordinal date's calendar form is a valid calendar date.
pub proof fn lemma_o_to_ymd_valid(o: ODate)
    requires
        o.valid_spec(),
    ensures
        o_to_ymd(o).valid_spec(),
        o_to_ymd(o).year == o.year,
{
}

/// Converting a valid calendar date to its ordinal form and back yields
/// the original date.
pub proof fn lemma_ymd_o_round_trip(d: YmdDate)
    requires
        d.valid_spec(),
    ensures
        o_to_ymd(ymd_to_o(d)) == d,
{
}

/// Converting a valid ordinal date to its calendar form and back yields
/// the original date.
pub proof fn lemma_o_ymd_round_trip(o: ODate)
    requires
        o.valid_spec(),
    ensures
        ymd_to_o(o_to_ymd(o)) == o,
{
}

/// Converting a valid ordinal date to its week form always yields a
/// valid ISO week date, of the same year or an adjacent one.
pub proof fn lemma_o_to_wd_valid(o: ODate)
    requires
        o.valid_spec(),
        i32::MIN < o.year,
        o.year < i32::MAX,
    ensures
        o_to_wd(o).valid_spec(),
{
    let y = o.year as int;
    let d = o.day as int;
    crate::calendar::lemma_weekday_range(y);
    crate::calendar::lemma_weeks_rule(y);
    crate::calendar::lemma_weeks_rule(y - 1);
    crate::calendar::lemma_weeks_rule(y + 1);
    let dc = week_shift(y, d);
    if dc < 1 {
        vstd::arithmetic::div_mod::lemma_fundamental_div_mod_converse(dc - 1, 7, -1, dc + 6);
    } else {
        vstd::arithmetic::div_mod::lemma_fundamental_div_mod(dc - 1, 7);
        vstd::arithmetic::div_mod::lemma_mod_division_less_than_divisor(dc - 1, 7);
    }
}

/// Converting a valid week date to its ordinal form always yields a
/// valid ordinal date, of the same year or an adjacent one.
pub proof fn lemma_wd_to_o_valid(w: WdDate)
    requires
        w.valid_spec(),
        i32::MIN < w.year,
        w.year < i32::MAX,
    ensures
        wd_to_o(w).valid_spec(),
{
    let y = w.year as int;
    crate::calendar::lemma_weekday_range(y);
    crate::calendar::lemma_weeks_rule(y);
    crate::calendar::lemma_long_year(y);
}

/// Converting a valid ordinal date to its ISO week date and back yields
/// the original date, whichever year the week date fell into.
pub proof fn lemma_o_wd_round_trip(o: ODate)
    requires
        o.valid_spec(),
        i32::MIN < o.year,
        o.year < i32::MAX,
    ensures
        wd_to_o(o_to_wd(o)) == o,
{
    let y = o.year as int;
    let d = o.day as int;
    crate::calendar::lemma_weekday_range(y - 1);
    crate::calendar::lemma_weekday_range(y);
    crate::calendar::lemma_weekday_range(y + 1);
    crate::calendar::lemma_weeks_rule(y - 1);
    crate::calendar::lemma_weeks_rule(y);
    let dc = week_shift(y, d);
    let w = o_to_wd(o);
    if dc < 1 {
        // A day of the previous year's last week: in that year's frame
        // the raw day count comes out past its year end, and wrapping
        // forward restores the original day.
        vstd::arithmetic::div_mod::lemma_fundamental_div_mod_converse(dc - 1, 7, -1, dc + 6);
        assert(owd_day(y, d) == dc + 7);
        crate::calendar::lemma_week_corr_step(y - 1);
        assert(wdo_raw(y - 1, year_weeks(y - 1), dc + 7) == d + year_days(y - 1));
        assert(wd_to_o(w) == o);
    } else {
        vstd::arithmetic::div_mod::lemma_fundamental_div_mod(dc - 1, 7);
        vstd::arithmetic::div_mod::lemma_mod_division_less_than_divisor(dc - 1, 7);
        let wk = owd_week(y, d);
        let dow = owd_day(y, d);
        if wk > year_weeks(y) {
            // A day of week 1 of the next year: in that year's frame the
            // raw day count comes out nonpositive, and wrapping backward
            // restores the original day.
            assert(wk == year_weeks(y) + 1);
            crate::calendar::lemma_week_corr_step(y);
            assert(wdo_raw(y + 1, 1, dow) == d - year_days(y));
            assert(wd_to_o(w) == o);
        } else {
            assert(wdo_raw(y, wk, dow) == d);
            assert(wd_to_o(w) == o);
        }
    }
}

/// Converting a valid ISO week date to its ordinal form and back yields
/// the original date, whichever year the day count fell into.
pub proof fn lemma_wd_o_round_trip(w: WdDate)
    requires
        w.valid_spec(),
        i32::MIN < w.year,
        w.year < i32::MAX,
    ensures
        o_to_wd(wd_to_o(w)) == w,
{
    let y = w.year as int;
    let wk = w.week as int;
    let d = w.day as int;
    crate::calendar::lemma_weekday_range(y - 1);
    crate::calendar::lemma_weekday_range(y);
    crate::calendar::lemma_weekday_range(y + 1);
    crate::calendar::lemma_weeks_rule(y - 1);
    crate::calendar::lemma_weeks_rule(y);
    crate::calendar::lemma_weeks_rule(y + 1);
    crate::calendar::lemma_long_year(y);
    let raw = wdo_raw(y, wk, d);
    let o = wd_to_o(w);
    if raw < 1 {
        // Week 1 reaching back into the previous calendar year: in the
        // previous year's frame the shifted count passes its last week.
        assert(wk == 1);
        crate::calendar::lemma_week_corr_step(y - 1);
        let dprev = raw + year_days(y - 1);
        assert(week_shift(y - 1, dprev) == d + 7 * year_weeks(y - 1));
        vstd::arithmetic::div_mod::lemma_fundamental_div_mod_converse(
            week_shift(y - 1, dprev) - 1,
            7,
            year_weeks(y - 1),
            d - 1,
        );
        assert(owd_week(y - 1, dprev) == year_weeks(y - 1) + 1);
        assert(owd_day(y - 1, dprev) == d);
        assert(o_to_wd(o) == w);
    } else if raw > year_days(y) {
        // The year's last week spilling into the next calendar year: in
        // the next year's frame the shifted count is nonpositive.
        assert(wk == year_weeks(y));
        crate::calendar::lemma_week_corr_step(y);
        let dnext = raw - year_days(y);
        assert(week_shift(y + 1, dnext) == d - 7);
        vstd::arithmetic::div_mod::lemma_fundamental_div_mod_converse(d - 8, 7, -1, d - 1);
        assert(owd_week(y + 1, dnext) == 0);
        assert(owd_day(y + 1, dnext) == d);
        assert(o_to_wd(o) == w);
    } else {
        assert(week_shift(y, raw) == 7 * (wk - 1) + d);
        vstd::arithmetic::div_mod::lemma_fundamental_div_mod_converse(
            week_shift(y, raw) - 1,
            7,
            wk - 1,
            d - 1,
        );
        assert(owd_week(y, raw) == wk);
        assert(owd_day(y, raw) == d);
        assert(o_to_wd(o) == w);
    }
}

/// Converting a valid calendar date to its week form (through the
/// ordinal pivot) and back yields the original date.
pub proof fn lemma_ymd_wd_round_trip(d: YmdDate)
    requires
        d.valid_spec(),
        i32::MIN < d.year,
        d.year < i32::MAX,
    ensures
        o_to_ymd(wd_to_o(o_to_wd(ymd_to_o(d)))) == d,
{
    lemma_ymd_to_o_valid(d);
    lemma_o_wd_round_trip(ymd_to_o(d));
    lemma_ymd_o_round_trip(d);
}

/// Converting a valid week date to its calendar form (through the
/// ordinal pivot) and back yields the original date.
pub proof fn lemma_wd_ymd_round_trip(w: WdDate)
    requires
        w.valid_spec(),
        i32::MIN < w.year,
        w.year < i32::MAX,
    ensures
        o_to_wd(ymd_to_o(o_to_ymd(wd_to_o(w)))) == w,
{
    let o = wd_to_o(w);
    lemma_wd_to_o_valid(w);
    lemma_o_ymd_round_trip(o);
    lemma_wd_o_round_trip(w);
}

impl YmDate {
    /// Drops the day of a calendar date.
    pub fn from_ymd(date: &YmdDate) -> (r: YmDate)
        ensures
            r == (YmDate { year: date.year, month: date.month }),
    {
        YmDate { year: date.year, month: date.month }
    }

    /// The month an ordinal date falls in.
    pub fn from_o(date: &ODate) -> (r: YmDate)
        requires
            1 <= date.day,
            date.day as int <= year_days(date.year as int),
        ensures
            r == (YmDate { year: date.year, month: o_to_ymd(*date).month }),
    {
        let ymd = YmdDate::from_o(date);
        YmDate { year: ymd.year, month: ymd.month }
    }

    /// The month a week date falls in, through the ordinal pivot.
    pub fn from_wd(date: &WdDate) -> (r: YmDate)
        requires
            date.valid_spec(),
            i32::MIN < date.year,
            date.year < i32::MAX,
        ensures
            r == (YmDate {
                year: o_to_ymd(wd_to_o(*date)).year,
                month: o_to_ymd(wd_to_o(*date)).month,
            }),
    {
        let ymd = YmdDate::from_wd(date);
        YmDate { year: ymd.year, month: ymd.month }
    }
}

impl YDate {
    /// Drops everything but the year of a calendar date.
    pub fn from_ymd(date: &YmdDate) -> (r: YDate)
        ensures
            r == (YDate { year: date.year }),
    {
        YDate { year: date.year }
    }

    /// Drops the month of a year-month date.
    pub fn from_ym(date: &YmDate) -> (r: YDate)
        ensures
            r == (YDate { year: date.year }),
    {
        YDate { year: date.year }
    }

    /// The year field of an ordinal date.
    pub fn from_o(date: &ODate) -> (r: YDate)
        ensures
            r == (YDate { year: date.year }),
    {
        YDate { year: date.year }
    }

    /// The year field of a week date.
    pub fn from_wd(date: &WdDate) -> (r: YDate)
        ensures
            r == (YDate { year: date.year }),
    {
        YDate { year: date.year }
    }
}

impl WDate {
    /// Drops the weekday of a week date.
    pub fn from_wd(date: &WdDate) -> (r: WDate)
        ensures
            r == (WDate { year: date.year, week: date.week }),
    {
        WDate { year: date.year, week: date.week }
    }
}

impl ApproxDate {
    /// Embeds a complete date into the family of all precisions.
    pub fn from_date(date: &Date) -> (r: ApproxDate)
        ensures
            r == match *date {
                Date::YMD(d) => ApproxDate::YMD(d),
                Date::WD(w) => ApproxDate::WD(w),
                Date::O(o) => ApproxDate::O(o),
            },
    {
        match date {
            Date::YMD(d) => ApproxDate::YMD(d.clone()),
            Date::WD(w) => ApproxDate::WD(w.clone()),
            Date::O(o) => ApproxDate::O(o.clone()),
        }
    }
}

} // verus!
