//! The ISO 8601 time grammar: the three precisions in basic and extended
//! form, an optional leading `T` marker, an optional decimal fraction of
//! the least significant field, and an optional UTC offset.
//!
//! Extended forms go before basic ones; the offset-bearing form of a time
//! goes before the offset-free one, since the offset grammar is a strict
//! extension.

use vstd::prelude::*;
use vstd::slice::slice_subrange;

use crate::parse::{
    alt_continues, fraction, lemma_p10_values, lifts, sp_byte, sp_complete, sp_digits, sp_frac,
    sp_sign, take_byte, take_digits, ParseError, sign,
};
use crate::time::{
    AnyTime, ApproxAnyTime, ApproxGlobalTime, ApproxLocalTime, ApproxNaiveTime, GlobalTime,
    HTime, HmTime, HmsTime, LocalTime,
};

verus! {

/// Two digits: an hour (unchecked here; validation is separate).
pub open spec fn sp_hour(s: Seq<u8>) -> Result<(int, u8), ParseError> {
    match sp_digits(s, 2) {
        Ok((n, v)) => Ok((n, v as u8)),
        Err(e) => Err(e),
    }
}

/// Two digits: a minute.
pub open spec fn sp_minute(s: Seq<u8>) -> Result<(int, u8), ParseError> {
    match sp_digits(s, 2) {
        Ok((n, v)) => Ok((n, v as u8)),
        Err(e) => Err(e),
    }
}

/// Two digits: a second.
pub open spec fn sp_second(s: Seq<u8>) -> Result<(int, u8), ParseError> {
    match sp_digits(s, 2) {
        Ok((n, v)) => Ok((n, v as u8)),
        Err(e) => Err(e),
    }
}

/// Parses a two-digit hour.
pub fn hour(i: &[u8]) -> (r: Result<(usize, u8), ParseError>)
    ensures
        lifts(r, sp_hour(i@)),
        r matches Ok((n, _)) ==> n <= i@.len(),
        r matches Ok((_, v)) ==> v < 100,
{
    proof {
        lemma_p10_values();
    }
    match take_digits(i, 2) {
        Ok((n, v)) => Ok((n, v as u8)),
        Err(e) => Err(e),
    }
}

/// Parses a two-digit minute.
pub fn minute(i: &[u8]) -> (r: Result<(usize, u8), ParseError>)
    ensures
        lifts(r, sp_minute(i@)),
        r matches Ok((n, _)) ==> n <= i@.len(),
        r matches Ok((_, v)) ==> v < 100,
{
    proof {
        lemma_p10_values();
    }
    match take_digits(i, 2) {
        Ok((n, v)) => Ok((n, v as u8)),
        Err(e) => Err(e),
    }
}

/// Parses a two-digit second.
pub fn second(i: &[u8]) -> (r: Result<(usize, u8), ParseError>)
    ensures
        lifts(r, sp_second(i@)),
        r matches Ok((n, _)) ==> n <= i@.len(),
        r matches Ok((_, v)) ==> v < 100,
{
    proof {
        lemma_p10_values();
    }
    match take_digits(i, 2) {
        Ok((n, v)) => Ok((n, v as u8)),
        Err(e) => Err(e),
    }
}

/// The extended format's colon; nothing in basic format.
pub open spec fn sp_colon(s: Seq<u8>, ext: bool) -> Result<(int, ()), ParseError> {
    if ext {
        sp_byte(s, 58)
    } else {
        Ok((0, ()))
    }
}

/// Consumes the extended format's colon; consumes nothing in basic
/// format.
fn colon(i: &[u8], ext: bool) -> (r: Result<(usize, ()), ParseError>)
    ensures
        lifts(r, sp_colon(i@, ext)),
        r matches Ok((n, _)) ==> n <= i@.len(),
{
    if ext {
        take_byte(i, 58)
    } else {
        Ok((0, ()))
    }
}

/// An optional leading `T` marker: consumed when present.
pub open spec fn sp_opt_t(s: Seq<u8>) -> int {
    if s.len() >= 1 && s[0] == 84 {
        1
    } else {
        0
    }
}

/// Consumes a leading `T` when one is present.
fn opt_t(i: &[u8]) -> (n: usize)
    ensures
        n as int == sp_opt_t(i@),
        n <= i@.len(),
{
    if i.len() >= 1 && i[0] == 84 {
        1
    } else {
        0
    }
}

/// An optional decimal fraction; a fraction past the supported precision
/// remains an error that alternation does not recover from.
pub open spec fn sp_opt_frac(s: Seq<u8>) -> Result<(int, u32), ParseError> {
    match sp_frac(s) {
        Ok(r) => Ok(r),
        Err(ParseError::TooPrecise) => Err(ParseError::TooPrecise),
        Err(_) => Ok((0, 0u32)),
    }
}

/// Consumes an optional decimal fraction.
fn opt_frac(i: &[u8]) -> (r: Result<(usize, u32), ParseError>)
    ensures
        lifts(r, sp_opt_frac(i@)),
        r matches Ok((n, _)) ==> n <= i@.len(),
        r matches Ok((_, v)) ==> v < crate::time::FRACTION_UNIT,
{
    match fraction(i) {
        Ok(r) => Ok(r),
        Err(ParseError::TooPrecise) => Err(ParseError::TooPrecise),
        Err(_) => Ok((0, 0)),
    }
}

/// A time to the second: hour, minute and second, with colons when
/// extended.
pub open spec fn sp_time_hms_format(s: Seq<u8>, ext: bool) -> Result<(int, HmsTime), ParseError> {
    match sp_hour(s) {
        Err(e) => Err(e),
        Ok((n1, h)) => match sp_colon(s.skip(n1), ext) {
            Err(e) => Err(e),
            Ok((n2, _)) => match sp_minute(s.skip(n1 + n2)) {
                Err(e) => Err(e),
                Ok((n3, m)) => match sp_colon(s.skip(n1 + n2 + n3), ext) {
                    Err(e) => Err(e),
                    Ok((n4, _)) => match sp_second(s.skip(n1 + n2 + n3 + n4)) {
                        Err(e) => Err(e),
                        Ok((n5, sec)) => Ok(
                            (
                                n1 + n2 + n3 + n4 + n5,
                                HmsTime { hour: h, minute: m, second: sec },
                            ),
                        ),
                    },
                },
            },
        },
    }
}

/// Parses a time to the second in the given format.
pub fn time_hms_format(i: &[u8], extended: bool) -> (r: Result<(usize, HmsTime), ParseError>)
    ensures
        lifts(r, sp_time_hms_format(i@, extended)),
        r matches Ok((n, _)) ==> n <= i@.len(),
{
    let (n1, h) = match hour(i) {
        Ok(v) => v,
        Err(e) => {
            return Err(e);
        },
    };
    let (n2, _) = match colon(slice_subrange(i, n1, i.len()), extended) {
        Ok(v) => v,
        Err(e) => {
            return Err(e);
        },
    };
    let (n3, m) = match minute(slice_subrange(i, n1 + n2, i.len())) {
        Ok(v) => v,
        Err(e) => {
            return Err(e);
        },
    };
    let (n4, _) = match colon(slice_subrange(i, n1 + n2 + n3, i.len()), extended) {
        Ok(v) => v,
        Err(e) => {
            return Err(e);
        },
    };
    let (n5, sec) = match second(slice_subrange(i, n1 + n2 + n3 + n4, i.len())) {
        Ok(v) => v,
        Err(e) => {
            return Err(e);
        },
    };
    Ok((n1 + n2 + n3 + n4 + n5, HmsTime { hour: h, minute: m, second: sec }))
}

/// A time to the second, extended format first; an incomplete extended
/// parse ends the alternation.
pub open spec fn sp_time_hms(s: Seq<u8>) -> Result<(int, HmsTime), ParseError> {
    match sp_time_hms_format(s, true) {
        Ok(r) => Ok(r),
        Err(e) => if alt_continues(e) {
            sp_time_hms_format(s, false)
        } else {
            Err(e)
        },
    }
}

/// Parses a time to the second, extended format first.
pub fn time_hms(i: &[u8]) -> (r: Result<(usize, HmsTime), ParseError>)
    ensures
        lifts(r, sp_time_hms(i@)),
        r matches Ok((n, _)) ==> n <= i@.len(),
{
    match time_hms_format(i, true) {
        Ok(r) => Ok(r),
        Err(ParseError::Mismatch) | Err(ParseError::OutOfRange) => time_hms_format(i, false),
        Err(e) => Err(e),
    }
}

/// A time to the minute: hour and minute, with a colon when extended.
pub open spec fn sp_time_hm_format(s: Seq<u8>, ext: bool) -> Result<(int, HmTime), ParseError> {
    match sp_hour(s) {
        Err(e) => Err(e),
        Ok((n1, h)) => match sp_colon(s.skip(n1), ext) {
            Err(e) => Err(e),
            Ok((n2, _)) => match sp_minute(s.skip(n1 + n2)) {
                Err(e) => Err(e),
                Ok((n3, m)) => Ok((n1 + n2 + n3, HmTime { hour: h, minute: m })),
            },
        },
    }
}

/// Parses a time to the minute in the given format.
pub fn time_hm_format(i: &[u8], extended: bool) -> (r: Result<(usize, HmTime), ParseError>)
    ensures
        lifts(r, sp_time_hm_format(i@, extended)),
        r matches Ok((n, _)) ==> n <= i@.len(),
{
    let (n1, h) = match hour(i) {
        Ok(v) => v,
        Err(e) => {
            return Err(e);
        },
    };
    let (n2, _) = match colon(slice_subrange(i, n1, i.len()), extended) {
        Ok(v) => v,
        Err(e) => {
            return Err(e);
        },
    };
    let (n3, m) = match minute(slice_subrange(i, n1 + n2, i.len())) {
        Ok(v) => v,
        Err(e) => {
            return Err(e);
        },
    };
    Ok((n1 + n2 + n3, HmTime { hour: h, minute: m }))
}

/// A time to the minute, extended format first.
pub open spec fn sp_time_hm(s: Seq<u8>) -> Result<(int, HmTime), ParseError> {
    match sp_time_hm_format(s, true) {
        Ok(r) => Ok(r),
        Err(e) => if alt_continues(e) {
            sp_time_hm_format(s, false)
        } else {
            Err(e)
        },
    }
}

/// Parses a time to the minute, extended format first.
pub fn time_hm(i: &[u8]) -> (r: Result<(usize, HmTime), ParseError>)
    ensures
        lifts(r, sp_time_hm(i@)),
        r matches Ok((n, _)) ==> n <= i@.len(),
{
    match time_hm_format(i, true) {
        Ok(r) => Ok(r),
        Err(ParseError::Mismatch) | Err(ParseError::OutOfRange) => time_hm_format(i, false),
        Err(e) => Err(e),
    }
}

/// A time to the hour.
pub open spec fn sp_time_h(s: Seq<u8>) -> Result<(int, HTime), ParseError> {
    match sp_hour(s) {
        Err(e) => Err(e),
        Ok((n, h)) => Ok((n, HTime { hour: h })),
    }
}

/// Parses a time to the hour.
pub fn time_h(i: &[u8]) -> (r: Result<(usize, HTime), ParseError>)
    ensures
        lifts(r, sp_time_h(i@)),
        r matches Ok((n, _)) ==> n <= i@.len(),
{
    match hour(i) {
        Ok((n, h)) => Ok((n, HTime { hour: h })),
        Err(e) => Err(e),
    }
}

/// The zero offset: a literal `Z`.
pub open spec fn sp_timezone_utc(s: Seq<u8>) -> Result<(int, i16), ParseError> {
    match sp_byte(s, 90) {
        Ok((n, _)) => Ok((n, 0i16)),
        Err(e) => Err(e),
    }
}

/// Parses the zero offset.
pub fn timezone_utc(i: &[u8]) -> (r: Result<(usize, i16), ParseError>)
    ensures
        lifts(r, sp_timezone_utc(i@)),
        r matches Ok((n, _)) ==> n <= i@.len(),
{
    match take_byte(i, 90) {
        Ok((n, _)) => Ok((n, 0)),
        Err(e) => Err(e),
    }
}

/// The optional minutes of a fixed offset: an optional colon, then two
/// digits.
pub open spec fn sp_tz_min_suffix(s: Seq<u8>) -> Result<(int, u8), ParseError> {
    match sp_byte(s, 58) {
        Err(ParseError::Incomplete) => Err(ParseError::Incomplete),
        Ok((n, _)) => match sp_minute(s.skip(1)) {
            Ok((m, v)) => Ok((1 + m, v)),
            Err(e) => Err(e),
        },
        Err(_) => sp_minute(s),
    }
}

/// Parses the optional minutes of a fixed offset.
fn tz_min_suffix(i: &[u8]) -> (r: Result<(usize, u8), ParseError>)
    ensures
        lifts(r, sp_tz_min_suffix(i@)),
        r matches Ok((n, _)) ==> n <= i@.len(),
        r matches Ok((_, v)) ==> v < 100,
{
    match take_byte(i, 58) {
        Err(ParseError::Incomplete) => Err(ParseError::Incomplete),
        Ok((_, _)) => match minute(slice_subrange(i, 1, i.len())) {
            Ok((m, v)) => Ok((1 + m, v)),
            Err(e) => Err(e),
        },
        Err(_) => minute(i),
    }
}

/// A fixed offset: a sign, a bound-checked hour of 0..=23, and optional
/// minutes, as signed minutes from UTC.
pub open spec fn sp_timezone_fixed(s: Seq<u8>) -> Result<(int, i16), ParseError> {
    match sp_sign(s) {
        Err(e) => Err(e),
        Ok((n1, sg)) => match sp_hour(s.skip(n1)) {
            Err(e) => Err(e),
            Ok((n2, h)) => if h > 23 {
                Err(ParseError::OutOfRange)
            } else {
                match sp_tz_min_suffix(s.skip(n1 + n2)) {
                    Ok((n3, m)) => Ok((n1 + n2 + n3, (sg * (h * 60 + m)) as i16)),
                    Err(_) => Ok((n1 + n2, (sg * (h * 60)) as i16)),
                }
            },
        },
    }
}

/// Parses a fixed offset into signed minutes from UTC.
pub fn timezone_fixed(i: &[u8]) -> (r: Result<(usize, i16), ParseError>)
    ensures
        lifts(r, sp_timezone_fixed(i@)),
        r matches Ok((n, _)) ==> n <= i@.len(),
{
    let (n1, sg) = match sign(i) {
        Ok(v) => v,
        Err(e) => {
            return Err(e);
        },
    };
    let (n2, h) = match hour(slice_subrange(i, n1, i.len())) {
        Ok(v) => v,
        Err(e) => {
            return Err(e);
        },
    };
    if h > 23 {
        return Err(ParseError::OutOfRange);
    }
    match tz_min_suffix(slice_subrange(i, n1 + n2, i.len())) {
        Ok((n3, m)) => {
            let mag: i16 = h as i16 * 60 + m as i16;
            let v: i16 = if sg >= 0 {
                mag
            } else {
                -mag
            };
            proof {
                assert(v == (sg * (h * 60 + m)) as i16) by (nonlinear_arith)
                    requires
                        sg == 1i8 || sg == -1i8,
                        0 <= h <= 23,
                        0 <= m < 100,
                        mag == h * 60 + m,
                        v == if sg >= 0 { mag as int } else { -(mag as int) },
                ;
            }
            Ok((n1 + n2 + n3, v))
        },
        Err(_) => {
            let mag: i16 = h as i16 * 60;
            let v: i16 = if sg >= 0 {
                mag
            } else {
                -mag
            };
            proof {
                assert(v == (sg * (h * 60)) as i16) by (nonlinear_arith)
                    requires
                        sg == 1i8 || sg == -1i8,
                        0 <= h <= 23,
                        mag == h * 60,
                        v == if sg >= 0 { mag as int } else { -(mag as int) },
                ;
            }
            Ok((n1 + n2, v))
        },
    }
}

/// An offset: `Z`, else a fixed offset.
pub open spec fn sp_timezone(s: Seq<u8>) -> Result<(int, i16), ParseError> {
    match sp_timezone_utc(s) {
        Ok(r) => Ok(r),
        Err(e) => if alt_continues(e) {
            sp_timezone_fixed(s)
        } else {
            Err(e)
        },
    }
}

/// Parses an offset.
pub fn timezone(i: &[u8]) -> (r: Result<(usize, i16), ParseError>)
    ensures
        lifts(r, sp_timezone(i@)),
        r matches Ok((n, _)) ==> n <= i@.len(),
{
    match timezone_utc(i) {
        Ok(r) => Ok(r),
        Err(ParseError::Mismatch) | Err(ParseError::OutOfRange) => timezone_fixed(i),
        Err(e) => Err(e),
    }
}

/// A local time to the second: an optional `T`, the naive time, and an
/// optional fraction of the second.
pub open spec fn sp_time_local_hms(s: Seq<u8>) -> Result<(int, LocalTime<HmsTime>), ParseError> {
    let t = sp_opt_t(s);
    match sp_time_hms(s.skip(t)) {
        Err(e) => Err(e),
        Ok((n, naive)) => match sp_opt_frac(s.skip(t + n)) {
            Err(e) => Err(e),
            Ok((m, f)) => Ok((t + n + m, LocalTime { naive, fraction: f })),
        },
    }
}

/// Parses a local time to the second.
pub fn time_local_hms(i: &[u8]) -> (r: Result<(usize, LocalTime<HmsTime>), ParseError>)
    ensures
        lifts(r, sp_time_local_hms(i@)),
        r matches Ok((n, _)) ==> n <= i@.len(),
{
    let t = opt_t(i);
    let (n, naive) = match time_hms(slice_subrange(i, t, i.len())) {
        Ok(v) => v,
        Err(e) => {
            return Err(e);
        },
    };
    match opt_frac(slice_subrange(i, t + n, i.len())) {
        Ok((m, f)) => Ok((t + n + m, LocalTime { naive, fraction: f })),
        Err(e) => Err(e),
    }
}

/// A local time to the minute: an optional `T`, the naive time, and an
/// optional fraction of the minute.
pub open spec fn sp_time_local_hm(s: Seq<u8>) -> Result<(int, LocalTime<HmTime>), ParseError> {
    let t = sp_opt_t(s);
    match sp_time_hm(s.skip(t)) {
        Err(e) => Err(e),
        Ok((n, naive)) => match sp_opt_frac(s.skip(t + n)) {
            Err(e) => Err(e),
            Ok((m, f)) => Ok((t + n + m, LocalTime { naive, fraction: f })),
        },
    }
}

/// Parses a local time to the minute.
pub fn time_local_hm(i: &[u8]) -> (r: Result<(usize, LocalTime<HmTime>), ParseError>)
    ensures
        lifts(r, sp_time_local_hm(i@)),
        r matches Ok((n, _)) ==> n <= i@.len(),
{
    let t = opt_t(i);
    let (n, naive) = match time_hm(slice_subrange(i, t, i.len())) {
        Ok(v) => v,
        Err(e) => {
            return Err(e);
        },
    };
    match opt_frac(slice_subrange(i, t + n, i.len())) {
        Ok((m, f)) => Ok((t + n + m, LocalTime { naive, fraction: f })),
        Err(e) => Err(e),
    }
}

/// A local time to the hour: an optional `T`, the naive time, and an
/// optional fraction of the hour.
pub open spec fn sp_time_local_h(s: Seq<u8>) -> Result<(int, LocalTime<HTime>), ParseError> {
    let t = sp_opt_t(s);
    match sp_time_h(s.skip(t)) {
        Err(e) => Err(e),
        Ok((n, naive)) => match sp_opt_frac(s.skip(t + n)) {
            Err(e) => Err(e),
            Ok((m, f)) => Ok((t + n + m, LocalTime { naive, fraction: f })),
        },
    }
}

/// Parses a local time to the hour.
pub fn time_local_h(i: &[u8]) -> (r: Result<(usize, LocalTime<HTime>), ParseError>)
    ensures
        lifts(r, sp_time_local_h(i@)),
        r matches Ok((n, _)) ==> n <= i@.len(),
{
    let t = opt_t(i);
    let (n, naive) = match time_h(slice_subrange(i, t, i.len())) {
        Ok(v) => v,
        Err(e) => {
            return Err(e);
        },
    };
    match opt_frac(slice_subrange(i, t + n, i.len())) {
        Ok((m, f)) => Ok((t + n + m, LocalTime { naive, fraction: f })),
        Err(e) => Err(e),
    }
}

/// An offset-bearing time to the second: the local time, then an offset
/// that must lie within the input.
pub open spec fn sp_time_global_hms(s: Seq<u8>) -> Result<
    (int, GlobalTime<HmsTime>),
    ParseError,
> {
    match sp_time_local_hms(s) {
        Err(e) => Err(e),
        Ok((n, local)) => match sp_complete(sp_timezone(s.skip(n))) {
            Err(e) => Err(e),
            Ok((m, tz)) => Ok((n + m, GlobalTime { local, timezone: tz })),
        },
    }
}

/// Parses an offset-bearing time to the second.
pub fn time_global_hms(i: &[u8]) -> (r: Result<(usize, GlobalTime<HmsTime>), ParseError>)
    ensures
        lifts(r, sp_time_global_hms(i@)),
        r matches Ok((n, _)) ==> n <= i@.len(),
{
    let (n, local) = match time_local_hms(i) {
        Ok(v) => v,
        Err(e) => {
            return Err(e);
        },
    };
    match timezone(slice_subrange(i, n, i.len())) {
        Ok((m, tz)) => Ok((n + m, GlobalTime { local, timezone: tz })),
        Err(ParseError::Incomplete) => Err(ParseError::Mismatch),
        Err(e) => Err(e),
    }
}

/// An offset-bearing time to the minute.
pub open spec fn sp_time_global_hm(s: Seq<u8>) -> Result<(int, GlobalTime<HmTime>), ParseError> {
    match sp_time_local_hm(s) {
        Err(e) => Err(e),
        Ok((n, local)) => match sp_complete(sp_timezone(s.skip(n))) {
            Err(e) => Err(e),
            Ok((m, tz)) => Ok((n + m, GlobalTime { local, timezone: tz })),
        },
    }
}

/// Parses an offset-bearing time to the minute.
pub fn time_global_hm(i: &[u8]) -> (r: Result<(usize, GlobalTime<HmTime>), ParseError>)
    ensures
        lifts(r, sp_time_global_hm(i@)),
        r matches Ok((n, _)) ==> n <= i@.len(),
{
    let (n, local) = match time_local_hm(i) {
        Ok(v) => v,
        Err(e) => {
            return Err(e);
        },
    };
    match timezone(slice_subrange(i, n, i.len())) {
        Ok((m, tz)) => Ok((n + m, GlobalTime { local, timezone: tz })),
        Err(ParseError::Incomplete) => Err(ParseError::Mismatch),
        Err(e) => Err(e),
    }
}

/// An offset-bearing time to the hour.
pub open spec fn sp_time_global_h(s: Seq<u8>) -> Result<(int, GlobalTime<HTime>), ParseError> {
    match sp_time_local_h(s) {
        Err(e) => Err(e),
        Ok((n, local)) => match sp_complete(sp_timezone(s.skip(n))) {
            Err(e) => Err(e),
            Ok((m, tz)) => Ok((n + m, GlobalTime { local, timezone: tz })),
        },
    }
}

/// Parses an offset-bearing time to the hour.
pub fn time_global_h(i: &[u8]) -> (r: Result<(usize, GlobalTime<HTime>), ParseError>)
    ensures
        lifts(r, sp_time_global_h(i@)),
        r matches Ok((n, _)) ==> n <= i@.len(),
{
    let (n, local) = match time_local_h(i) {
        Ok(v) => v,
        Err(e) => {
            return Err(e);
        },
    };
    match timezone(slice_subrange(i, n, i.len())) {
        Ok((m, tz)) => Ok((n + m, GlobalTime { local, timezone: tz })),
        Err(ParseError::Incomplete) => Err(ParseError::Mismatch),
        Err(e) => Err(e),
    }
}

/// A time to the second with or without an offset: the offset-bearing
/// form goes first, so a present offset is never left unconsumed.
pub open spec fn sp_time_any_hms(s: Seq<u8>) -> Result<(int, AnyTime<HmsTime>), ParseError> {
    match sp_complete(sp_time_global_hms(s)) {
        Ok((n, g)) => Ok((n, AnyTime::Global(g))),
        Err(e1) => if !alt_continues(e1) {
            Err(e1)
        } else {
            match sp_complete(sp_time_local_hms(s)) {
                Ok((n, l)) => Ok((n, AnyTime::Local(l))),
                Err(e2) => Err(e2),
            }
        },
    }
}

/// Parses a time to the second with or without an offset.
pub fn time_any_hms(i: &[u8]) -> (r: Result<(usize, AnyTime<HmsTime>), ParseError>)
    ensures
        lifts(r, sp_time_any_hms(i@)),
        r matches Ok((n, _)) ==> n <= i@.len(),
{
    match time_global_hms(i) {
        Ok((n, g)) => {
            return Ok((n, AnyTime::Global(g)));
        },
        Err(ParseError::TooPrecise) => {
            return Err(ParseError::TooPrecise);
        },
        Err(_) => {},
    }
    match time_local_hms(i) {
        Ok((n, l)) => Ok((n, AnyTime::Local(l))),
        Err(ParseError::Incomplete) => Err(ParseError::Mismatch),
        Err(e) => Err(e),
    }
}

/// A time to the minute with or without an offset.
pub open spec fn sp_time_any_hm(s: Seq<u8>) -> Result<(int, AnyTime<HmTime>), ParseError> {
    match sp_complete(sp_time_global_hm(s)) {
        Ok((n, g)) => Ok((n, AnyTime::Global(g))),
        Err(e1) => if !alt_continues(e1) {
            Err(e1)
        } else {
            match sp_complete(sp_time_local_hm(s)) {
                Ok((n, l)) => Ok((n, AnyTime::Local(l))),
                Err(e2) => Err(e2),
            }
        },
    }
}

/// Parses a time to the minute with or without an offset.
pub fn time_any_hm(i: &[u8]) -> (r: Result<(usize, AnyTime<HmTime>), ParseError>)
    ensures
        lifts(r, sp_time_any_hm(i@)),
        r matches Ok((n, _)) ==> n <= i@.len(),
{
    match time_global_hm(i) {
        Ok((n, g)) => {
            return Ok((n, AnyTime::Global(g)));
        },
        Err(ParseError::TooPrecise) => {
            return Err(ParseError::TooPrecise);
        },
        Err(_) => {},
    }
    match time_local_hm(i) {
        Ok((n, l)) => Ok((n, AnyTime::Local(l))),
        Err(ParseError::Incomplete) => Err(ParseError::Mismatch),
        Err(e) => Err(e),
    }
}

/// A time to the hour with or without an offset.
pub open spec fn sp_time_any_h(s: Seq<u8>) -> Result<(int, AnyTime<HTime>), ParseError> {
    match sp_complete(sp_time_global_h(s)) {
        Ok((n, g)) => Ok((n, AnyTime::Global(g))),
        Err(e1) => if !alt_continues(e1) {
            Err(e1)
        } else {
            match sp_complete(sp_time_local_h(s)) {
                Ok((n, l)) => Ok((n, AnyTime::Local(l))),
                Err(e2) => Err(e2),
            }
        },
    }
}

/// Parses a time to the hour with or without an offset.
pub fn time_any_h(i: &[u8]) -> (r: Result<(usize, AnyTime<HTime>), ParseError>)
    ensures
        lifts(r, sp_time_any_h(i@)),
        r matches Ok((n, _)) ==> n <= i@.len(),
{
    match time_global_h(i) {
        Ok((n, g)) => {
            return Ok((n, AnyTime::Global(g)));
        },
        Err(ParseError::TooPrecise) => {
            return Err(ParseError::TooPrecise);
        },
        Err(_) => {},
    }
    match time_local_h(i) {
        Ok((n, l)) => Ok((n, AnyTime::Local(l))),
        Err(ParseError::Incomplete) => Err(ParseError::Mismatch),
        Err(e) => Err(e),
    }
}

/// A naive time of whichever precision matches: second, minute, then
/// hour precision.
pub open spec fn sp_time_naive_approx(s: Seq<u8>) -> Result<(int, ApproxNaiveTime), ParseError> {
    match sp_complete(sp_time_hms(s)) {
        Ok((n, t)) => Ok((n, ApproxNaiveTime::HMS(t))),
        Err(e1) => if !alt_continues(e1) {
            Err(e1)
        } else {
            match sp_complete(sp_time_hm(s)) {
                Ok((n, t)) => Ok((n, ApproxNaiveTime::HM(t))),
                Err(e2) => if !alt_continues(e2) {
                    Err(e2)
                } else {
                    match sp_complete(sp_time_h(s)) {
                        Ok((n, t)) => Ok((n, ApproxNaiveTime::H(t))),
                        Err(e3) => Err(e3),
                    }
                },
            }
        },
    }
}

/// Parses a naive time of whichever precision matches.
pub fn time_naive_approx(i: &[u8]) -> (r: Result<(usize, ApproxNaiveTime), ParseError>)
    ensures
        lifts(r, sp_time_naive_approx(i@)),
        r matches Ok((n, _)) ==> n <= i@.len(),
{
    match time_hms(i) {
        Ok((n, t)) => {
            return Ok((n, ApproxNaiveTime::HMS(t)));
        },
        Err(ParseError::TooPrecise) => {
            return Err(ParseError::TooPrecise);
        },
        Err(_) => {},
    }
    match time_hm(i) {
        Ok((n, t)) => {
            return Ok((n, ApproxNaiveTime::HM(t)));
        },
        Err(ParseError::TooPrecise) => {
            return Err(ParseError::TooPrecise);
        },
        Err(_) => {},
    }
    match time_h(i) {
        Ok((n, t)) => Ok((n, ApproxNaiveTime::H(t))),
        Err(ParseError::Incomplete) => Err(ParseError::Mismatch),
        Err(e) => Err(e),
    }
}

/// A local time of whichever precision matches, with an optional fraction
/// of its least significant field.
pub open spec fn sp_time_local_approx(s: Seq<u8>) -> Result<(int, ApproxLocalTime), ParseError> {
    match sp_time_naive_approx(s) {
        Err(e) => Err(e),
        Ok((n, naive)) => match sp_opt_frac(s.skip(n)) {
            Err(e) => Err(e),
            Ok((m, f)) => Ok(
                (
                    n + m,
                    match naive {
                        ApproxNaiveTime::HMS(t) => ApproxLocalTime::HMS(
                            LocalTime { naive: t, fraction: f },
                        ),
                        ApproxNaiveTime::HM(t) => ApproxLocalTime::HM(
                            LocalTime { naive: t, fraction: f },
                        ),
                        ApproxNaiveTime::H(t) => ApproxLocalTime::H(
                            LocalTime { naive: t, fraction: f },
                        ),
                    },
                ),
            ),
        },
    }
}

/// Parses a local time of whichever precision matches.
pub fn time_local_approx(i: &[u8]) -> (r: Result<(usize, ApproxLocalTime), ParseError>)
    ensures
        lifts(r, sp_time_local_approx(i@)),
        r matches Ok((n, _)) ==> n <= i@.len(),
{
    let (n, naive) = match time_naive_approx(i) {
        Ok(v) => v,
        Err(e) => {
            return Err(e);
        },
    };
    let (m, f) = match opt_frac(slice_subrange(i, n, i.len())) {
        Ok(v) => v,
        Err(e) => {
            return Err(e);
        },
    };
    Ok(
        (
            n + m,
            match naive {
                ApproxNaiveTime::HMS(t) => ApproxLocalTime::HMS(LocalTime { naive: t, fraction: f }),
                ApproxNaiveTime::HM(t) => ApproxLocalTime::HM(LocalTime { naive: t, fraction: f }),
                ApproxNaiveTime::H(t) => ApproxLocalTime::H(LocalTime { naive: t, fraction: f }),
            },
        ),
    )
}

/// An offset-bearing time of whichever precision matches: the local time,
/// then the offset.
pub open spec fn sp_time_global_approx(s: Seq<u8>) -> Result<(int, ApproxGlobalTime), ParseError> {
    match sp_time_local_approx(s) {
        Err(e) => Err(e),
        Ok((n, local)) => match sp_timezone(s.skip(n)) {
            Err(e) => Err(e),
            Ok((m, tz)) => Ok(
                (
                    n + m,
                    match local {
                        ApproxLocalTime::HMS(l) => ApproxGlobalTime::HMS(
                            GlobalTime { local: l, timezone: tz },
                        ),
                        ApproxLocalTime::HM(l) => ApproxGlobalTime::HM(
                            GlobalTime { local: l, timezone: tz },
                        ),
                        ApproxLocalTime::H(l) => ApproxGlobalTime::H(
                            GlobalTime { local: l, timezone: tz },
                        ),
                    },
                ),
            ),
        },
    }
}

/// Parses an offset-bearing time of whichever precision matches.
pub fn time_global_approx(i: &[u8]) -> (r: Result<(usize, ApproxGlobalTime), ParseError>)
    ensures
        lifts(r, sp_time_global_approx(i@)),
        r matches Ok((n, _)) ==> n <= i@.len(),
{
    let (n, local) = match time_local_approx(i) {
        Ok(v) => v,
        Err(e) => {
            return Err(e);
        },
    };
    let (m, tz) = match timezone(slice_subrange(i, n, i.len())) {
        Ok(v) => v,
        Err(e) => {
            return Err(e);
        },
    };
    Ok(
        (
            n + m,
            match local {
                ApproxLocalTime::HMS(l) => ApproxGlobalTime::HMS(
                    GlobalTime { local: l, timezone: tz },
                ),
                ApproxLocalTime::HM(l) => ApproxGlobalTime::HM(
                    GlobalTime { local: l, timezone: tz },
                ),
                ApproxLocalTime::H(l) => ApproxGlobalTime::H(GlobalTime { local: l, timezone: tz }),
            },
        ),
    )
}

/// A time of whichever precision matches, with or without an offset:
/// second precision first, offset-bearing before offset-free within each.
pub open spec fn sp_time_any_approx(s: Seq<u8>) -> Result<(int, ApproxAnyTime), ParseError> {
    match sp_time_any_hms(s) {
        Ok((n, t)) => Ok((n, ApproxAnyTime::HMS(t))),
        Err(e1) => if !alt_continues(e1) {
            Err(e1)
        } else {
            match sp_time_any_hm(s) {
                Ok((n, t)) => Ok((n, ApproxAnyTime::HM(t))),
                Err(e2) => if !alt_continues(e2) {
                    Err(e2)
                } else {
                    match sp_time_any_h(s) {
                        Ok((n, t)) => Ok((n, ApproxAnyTime::H(t))),
                        Err(e3) => Err(e3),
                    }
                },
            }
        },
    }
}

/// Parses a time of whichever precision matches, with or without an
/// offset.
pub fn time_any_approx(i: &[u8]) -> (r: Result<(usize, ApproxAnyTime), ParseError>)
    ensures
        lifts(r, sp_time_any_approx(i@)),
        r matches Ok((n, _)) ==> n <= i@.len(),
{
    match time_any_hms(i) {
        Ok((n, t)) => {
            return Ok((n, ApproxAnyTime::HMS(t)));
        },
        Err(ParseError::Incomplete) => {
            return Err(ParseError::Incomplete);
        },
        Err(ParseError::TooPrecise) => {
            return Err(ParseError::TooPrecise);
        },
        Err(_) => {},
    }
    match time_any_hm(i) {
        Ok((n, t)) => {
            return Ok((n, ApproxAnyTime::HM(t)));
        },
        Err(ParseError::Incomplete) => {
            return Err(ParseError::Incomplete);
        },
        Err(ParseError::TooPrecise) => {
            return Err(ParseError::TooPrecise);
        },
        Err(_) => {},
    }
    match time_any_h(i) {
        Ok((n, t)) => Ok((n, ApproxAnyTime::H(t))),
        Err(e) => Err(e),
    }
}

} // verus!
