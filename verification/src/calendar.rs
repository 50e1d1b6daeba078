//! Calendar arithmetic for the Gregorian calendar and the ISO week calendar.
//!
//! The spec functions here are the mathematical reference for everything the
//! date types promise: the leap-year rule, the 52/53 week count of an ISO
//! year, the cumulative month table, the weekday of 4 January, and the
//! correction constant that week numbering shifts day counts by.  Division
//! and remainder are the Euclidean operators of specification arithmetic
//! (floor division for the positive divisors used here), which is what the
//! ISO week rules are written with.

use vstd::arithmetic::div_mod::{
    lemma_fundamental_div_mod, lemma_fundamental_div_mod_converse,
    lemma_mod_division_less_than_divisor, lemma_mod_multiples_vanish,
};
use vstd::prelude::*;

verus! {

/// Euclidean remainder for machine integers: the result lies in `0 .. b`.
pub(crate) fn emod64(a: i64, b: i64) -> (r: i64)
    requires
        b > 0,
    ensures
        r == (a as int) % (b as int),
{
    if a >= 0 {
        a % b
    } else {
        let x = -(a + 1);
        let m = x % b;
        proof {
            lemma_fundamental_div_mod(x as int, b as int);
            lemma_mod_division_less_than_divisor(x as int, b as int);
            let q = (x as int) / (b as int);
            assert(a as int == (-q - 1) * (b as int) + (b - 1 - m)) by (nonlinear_arith)
                requires
                    x as int == (b as int) * q + (m as int),
                    a as int == -(x as int) - 1,
            ;
            lemma_fundamental_div_mod_converse(a as int, b as int, -q - 1, b - 1 - m);
        }
        b - 1 - m
    }
}

/// Euclidean (floor) division for machine integers, for positive divisors.
pub(crate) fn ediv64(a: i64, b: i64) -> (q: i64)
    requires
        b > 0,
    ensures
        q == (a as int) / (b as int),
{
    if a >= 0 {
        a / b
    } else {
        let x = -(a + 1);
        let d = x / b;
        proof {
            lemma_fundamental_div_mod(x as int, b as int);
            lemma_mod_division_less_than_divisor(x as int, b as int);
            let m = (x as int) % (b as int);
            assert(a as int == (-(d as int) - 1) * (b as int) + (b - 1 - m)) by (nonlinear_arith)
                requires
                    x as int == (b as int) * (d as int) + m,
                    a as int == -(x as int) - 1,
            ;
            lemma_fundamental_div_mod_converse(a as int, b as int, -(d as int) - 1, b - 1 - m);
        }
        -d - 1
    }
}

/// The Gregorian leap-year rule: divisible by 4, except centuries not
/// divisible by 400.
pub open spec fn leap_year(y: int) -> bool {
    y % 4 == 0 && (y % 100 != 0 || y % 400 == 0)
}

/// Days in year `y`: 366 in a leap year, 365 otherwise.
pub open spec fn year_days(y: int) -> int {
    if leap_year(y) {
        366
    } else {
        365
    }
}

/// Years plus accumulated leap days up to year `y`: the quantity whose
/// residue drives both the week-count rule and the weekday formula.
pub open spec fn day_shift(y: int) -> int {
    y + y / 4 - y / 100 + y / 400
}

/// The `p` residue of the ISO week-count rule.
pub open spec fn week_year_p(y: int) -> int {
    day_shift(y) % 7
}

/// ISO week count of year `y`: 53 when `p(y) == 4` or `p(y - 1) == 3`,
/// else 52.
pub open spec fn year_weeks(y: int) -> int {
    if week_year_p(y) == 4 || week_year_p(y - 1) == 3 {
        53
    } else {
        52
    }
}

/// Days in the months of a year strictly before month `m` (1-based).
pub open spec fn days_before_month(m: int, leap: bool) -> int {
    let feb = if leap {
        60
    } else {
        59
    };
    if m <= 1 {
        0
    } else if m == 2 {
        31
    } else if m == 3 {
        feb
    } else if m == 4 {
        feb + 31
    } else if m == 5 {
        feb + 61
    } else if m == 6 {
        feb + 92
    } else if m == 7 {
        feb + 122
    } else if m == 8 {
        feb + 153
    } else if m == 9 {
        feb + 184
    } else if m == 10 {
        feb + 214
    } else if m == 11 {
        feb + 245
    } else {
        feb + 275
    }
}

/// Length of month `m` (1-based) in a year of the given leapness.
pub open spec fn month_days(m: int, leap: bool) -> int {
    if m == 2 {
        if leap {
            29
        } else {
            28
        }
    } else if m == 4 || m == 6 || m == 9 || m == 11 {
        30
    } else {
        31
    }
}

/// The month an ordinal day (1-based day of year) falls in.
pub open spec fn month_of_year_day(day: int, leap: bool) -> int {
    if day <= days_before_month(2, leap) {
        1
    } else if day <= days_before_month(3, leap) {
        2
    } else if day <= days_before_month(4, leap) {
        3
    } else if day <= days_before_month(5, leap) {
        4
    } else if day <= days_before_month(6, leap) {
        5
    } else if day <= days_before_month(7, leap) {
        6
    } else if day <= days_before_month(8, leap) {
        7
    } else if day <= days_before_month(9, leap) {
        8
    } else if day <= days_before_month(10, leap) {
        9
    } else if day <= days_before_month(11, leap) {
        10
    } else if day <= days_before_month(12, leap) {
        11
    } else {
        12
    }
}

/// Gauss's closed form for the weekday of 1 January of year `y`
/// (0 = Sunday .. 6 = Saturday).
pub open spec fn weekday_jan1(y: int) -> int {
    (1 + 5 * ((y - 1) % 4) + 4 * ((y - 1) % 100) + 6 * ((y - 1) % 400)) % 7
}

/// The weekday of 4 January of year `y` (0 = Sunday .. 6 = Saturday).
pub open spec fn weekday_jan4(y: int) -> int {
    (weekday_jan1(y) + 3) % 7
}

/// The ISO weekday of 4 January (1 = Monday .. 7 = Sunday).  4 January
/// always lies in week 1 of its year.
pub open spec fn weekday_jan4_iso(y: int) -> int {
    if weekday_jan4(y) == 0 {
        7
    } else {
        weekday_jan4(y)
    }
}

/// The correction constant week numbering shifts a day count by: day
/// `d` of year `y` lies in week `ceil((d + week_corr(y)) / 7)` of the
/// week-numbering frame of `y`.
pub open spec fn week_corr(y: int) -> int {
    weekday_jan4_iso(y) - 4
}

/// The shifted day count a week-number computation works on.
pub open spec fn week_shift(y: int, day: int) -> int {
    day + week_corr(y)
}

/// The week of year `y`'s frame an ordinal day falls in: the ceiling of
/// `week_shift / 7`.  Zero means the last week of the previous year; a
/// value beyond the year's week count means week 1 of the next year.
pub open spec fn owd_week(y: int, day: int) -> int {
    (week_shift(y, day) - 1) / 7 + 1
}

/// The ISO weekday (1 = Monday .. 7 = Sunday) an ordinal day falls on.
pub open spec fn owd_day(y: int, day: int) -> int {
    week_shift(y, day) - 7 * (owd_week(y, day) - 1)
}

/// The day-of-year in `y`'s frame that a week date of year `y` points
/// at; values outside `1 ..= year_days(y)` belong to the adjacent year.
pub open spec fn wdo_raw(y: int, week: int, day: int) -> int {
    7 * week + day - (weekday_jan4_iso(y) + 3)
}

/// Splits a number by a positive divisor into the Euclidean quotient and
/// remainder.
proof fn lemma_split(x: int, d: int)
    requires
        d > 0,
    ensures
        x == d * (x / d) + x % d,
        0 <= x % d < d,
{
    lemma_fundamental_div_mod(x, d);
    lemma_mod_division_less_than_divisor(x, d);
}

/// The weekday values lie in their ranges for every year, so the
/// correction constant lies in `-3 ..= 3`.
pub proof fn lemma_weekday_range(y: int)
    ensures
        0 <= weekday_jan1(y) <= 6,
        0 <= weekday_jan4(y) <= 6,
        1 <= weekday_jan4_iso(y) <= 7,
        -3 <= week_corr(y) <= 3,
{
    lemma_split(y - 1, 4);
    lemma_split(y - 1, 100);
    lemma_split(y - 1, 400);
    lemma_split(1 + 5 * ((y - 1) % 4) + 4 * ((y - 1) % 100) + 6 * ((y - 1) % 400), 7);
    lemma_split(weekday_jan1(y) + 3, 7);
}

/// The Gauss weekday is the residue of the day-shift function: the two
/// differ by an explicit multiple of seven.
proof fn lemma_weekday_shift(y: int)
    ensures
        weekday_jan1(y) == (1 + day_shift(y - 1)) % 7,
{
    let n = y - 1;
    lemma_split(n, 4);
    lemma_split(n, 100);
    lemma_split(n, 400);
    let a = n / 4;
    let b = n / 100;
    let c = n / 400;
    let s = 1 + 5 * (n % 4) + 4 * (n % 100) + 6 * (n % 400);
    assert(s == 1 + day_shift(n) + 7 * (2 * n - 3 * a - 57 * b - 343 * c));
    lemma_mod_multiples_vanish(2 * n - 3 * a - 57 * b - 343 * c, 1 + day_shift(n), 7);
}

/// Stepping the dividend down by one drops the quotient exactly at the
/// multiples of the divisor.
proof fn lemma_div_step(y: int, d: int)
    requires
        d > 0,
    ensures
        y / d - (y - 1) / d == if y % d == 0 {
            1int
        } else {
            0
        },
{
    lemma_split(y, d);
    let q = y / d;
    let r = y % d;
    if r == 0 {
        assert(y - 1 == (q - 1) * d + (d - 1)) by (nonlinear_arith)
            requires
                y == d * q + r,
                r == 0,
        ;
        lemma_fundamental_div_mod_converse(y - 1, d, q - 1, d - 1);
    } else {
        assert(y - 1 == q * d + (r - 1)) by (nonlinear_arith)
            requires
                y == d * q + r,
        ;
        lemma_fundamental_div_mod_converse(y - 1, d, q, r - 1);
    }
}

/// A multiple of 100 is a multiple of 4; a multiple of 400 is a multiple
/// of 100.
proof fn lemma_divisibility(y: int)
    ensures
        y % 100 == 0 ==> y % 4 == 0,
        y % 400 == 0 ==> y % 100 == 0,
        y % 400 == 0 ==> y % 4 == 0,
{
    if y % 100 == 0 {
        lemma_split(y, 100);
        lemma_fundamental_div_mod_converse(y, 4, 25 * (y / 100), 0);
    }
    if y % 400 == 0 {
        lemma_split(y, 400);
        lemma_fundamental_div_mod_converse(y, 100, 4 * (y / 400), 0);
        lemma_fundamental_div_mod_converse(y, 4, 100 * (y / 400), 0);
    }
}

/// The day-shift function advances by the day count of the year: by two
/// across a leap year, by one otherwise.
proof fn lemma_day_shift_step(y: int)
    ensures
        day_shift(y) - day_shift(y - 1) == 1 + if leap_year(y) {
            1int
        } else {
            0
        },
{
    lemma_div_step(y, 4);
    lemma_div_step(y, 100);
    lemma_div_step(y, 400);
    lemma_divisibility(y);
}

/// Adding to a residue is adding before taking the residue.
proof fn lemma_mod_add(x: int, c: int)
    ensures
        (x % 7 + c) % 7 == (x + c) % 7,
{
    lemma_split(x, 7);
    lemma_mod_multiples_vanish(x / 7, x % 7 + c, 7);
}

/// The weekday of 1 January advances by the year's day count.
proof fn lemma_weekday_step(y: int)
    ensures
        weekday_jan1(y + 1) == (weekday_jan1(y) + year_days(y)) % 7,
{
    lemma_weekday_shift(y);
    lemma_weekday_shift(y + 1);
    lemma_day_shift_step(y);
    let x = 1 + day_shift(y - 1);
    let l: int = if leap_year(y) {
        1
    } else {
        0
    };
    assert(weekday_jan1(y + 1) == (x + 1 + l) % 7);
    lemma_mod_add(x, 1 + l);
    assert((x % 7 + 1 + l) % 7 == (x + 1 + l) % 7);
    lemma_mod_add(x % 7 + 1 + l, 364);
    lemma_mod_multiples_vanish(52, x % 7 + 1 + l, 7);
    assert((weekday_jan1(y) + year_days(y)) % 7 == (x % 7 + 1 + l + 364) % 7);
}

/// The week-count rule in terms of the weekday of 1 January: a year has
/// 53 weeks exactly when it starts on a Thursday, or is a leap year
/// starting on a Wednesday.
pub proof fn lemma_weeks_rule(y: int)
    ensures
        year_weeks(y) == 53 <==> (weekday_jan1(y) == 4 || (leap_year(y) && weekday_jan1(y)
            == 3)),
        year_weeks(y) == 52 || year_weeks(y) == 53,
{
    lemma_weekday_shift(y);
    lemma_day_shift_step(y);
    lemma_weekday_range(y);
    let ds = day_shift(y - 1);
    let l: int = if leap_year(y) {
        1
    } else {
        0
    };
    lemma_split(ds, 7);
    // p(y - 1) relates to the weekday by a shift of one.
    lemma_mod_add(ds, 1);
    assert(weekday_jan1(y) == (ds % 7 + 1) % 7);
    lemma_split(ds % 7 + 1, 7);
    // p(y) relates by a further shift of the leap increment.
    lemma_mod_add(ds, 1 + l);
    assert(week_year_p(y) == (ds % 7 + 1 + l) % 7);
    lemma_split(ds % 7 + 1 + l, 7);
}

/// The weekday of 4 January, written without the residue.
proof fn lemma_jan4_value(y: int)
    ensures
        weekday_jan4(y) == if weekday_jan1(y) + 3 < 7 {
            weekday_jan1(y) + 3
        } else {
            weekday_jan1(y) + 3 - 7
        },
{
    lemma_weekday_range(y);
    if weekday_jan1(y) + 3 < 7 {
        lemma_fundamental_div_mod_converse(weekday_jan1(y) + 3, 7, 0, weekday_jan1(y) + 3);
    } else {
        lemma_fundamental_div_mod_converse(weekday_jan1(y) + 3, 7, 1, weekday_jan1(y) + 3 - 7);
    }
}

/// A 53-week year's 4 January is a Saturday or a Sunday, and a Saturday
/// only in a leap year.
pub proof fn lemma_long_year(y: int)
    ensures
        year_weeks(y) == 53 ==> weekday_jan4_iso(y) >= 6,
        year_weeks(y) == 53 && weekday_jan4_iso(y) == 6 ==> leap_year(y),
{
    lemma_weeks_rule(y);
    lemma_weekday_range(y);
    lemma_jan4_value(y);
}

/// The correction constant advances by the year's day count less seven
/// times its week count: the leftovers of the year's last partial week.
pub proof fn lemma_week_corr_step(y: int)
    ensures
        week_corr(y + 1) == week_corr(y) + year_days(y) - 7 * year_weeks(y),
{
    lemma_weekday_step(y);
    lemma_weeks_rule(y);
    lemma_weekday_range(y);
    lemma_weekday_range(y + 1);
    let w = weekday_jan1(y);
    let l: int = if leap_year(y) {
        1
    } else {
        0
    };
    // The next year's 1 January weekday, written without the residue.
    lemma_mod_add(w + 1 + l, 364);
    lemma_mod_multiples_vanish(52, w + 1 + l, 7);
    assert(weekday_jan1(y + 1) == (w + 1 + l) % 7);
    lemma_split(w + 1 + l, 7);
    assert(weekday_jan1(y + 1) == if w + 1 + l < 7 {
        w + 1 + l
    } else {
        w + 1 + l - 7
    }) by {
        if w + 1 + l < 7 {
            lemma_fundamental_div_mod_converse(w + 1 + l, 7, 0, w + 1 + l);
        } else {
            lemma_fundamental_div_mod_converse(w + 1 + l, 7, 1, w + 1 + l - 7);
        }
    }
    // The same, one step further, for the 4 January weekdays.
    lemma_split(w + 3, 7);
    lemma_split(weekday_jan1(y + 1) + 3, 7);
    assert(weekday_jan4(y) == if w + 3 < 7 {
        w + 3
    } else {
        w + 3 - 7
    }) by {
        if w + 3 < 7 {
            lemma_fundamental_div_mod_converse(w + 3, 7, 0, w + 3);
        } else {
            lemma_fundamental_div_mod_converse(w + 3, 7, 1, w + 3 - 7);
        }
    }
    assert(weekday_jan4(y + 1) == if weekday_jan1(y + 1) + 3 < 7 {
        weekday_jan1(y + 1) + 3
    } else {
        weekday_jan1(y + 1) + 3 - 7
    }) by {
        if weekday_jan1(y + 1) + 3 < 7 {
            lemma_fundamental_div_mod_converse(weekday_jan1(y + 1) + 3, 7, 0, weekday_jan1(y + 1) + 3);
        } else {
            lemma_fundamental_div_mod_converse(
                weekday_jan1(y + 1) + 3,
                7,
                1,
                weekday_jan1(y + 1) + 3 - 7,
            );
        }
    }
}

} // verus!
