use iso8601::parse::date as pd;
use iso8601::parse::date::{date_o, date_ymd, month, week_day, year_day, year_week};
use iso8601::parse::time::{hour, minute, second, timezone_fixed, timezone_utc};
use iso8601::parse::{sign, ParseError};
use iso8601::{ODate, YmdDate};

#[test]
fn parse_sign() {
    assert_eq!(sign(b"-"), Ok((1, -1)));
    assert_eq!(sign(b"+"), Ok((1, 1)));
    assert_eq!(sign(b""), Err(ParseError::Incomplete));
    assert_eq!(sign(b" "), Err(ParseError::Mismatch));
}

#[test]
fn positive_year() {
    assert_eq!(pd::positive_year(b"2018"), Ok((4, 2018)));
}

#[test]
fn parse_positive_year() {
    assert_eq!(pd::positive_year(b"2018"), Ok((4, 2018)));
}

#[test]
fn year() {
    assert_eq!(pd::year(b"2018"), Ok((4, 2018)));
    assert_eq!(pd::year(b"+2018"), Ok((5, 2018)));
    assert_eq!(pd::year(b"-2018"), Ok((5, -2018)));
}

#[test]
fn parse_year() {
    assert_eq!(pd::year(b"2018"), Ok((4, 2018)));
    assert_eq!(pd::year(b"+2018"), Ok((5, 2018)));
    assert_eq!(pd::year(b"-2018"), Ok((5, -2018)));
}

#[test]
fn parse_month() {
    assert_eq!(month(b"06"), Ok((2, 6)));
    assert_eq!(month(b"12"), Ok((2, 12)));
}

#[test]
fn parse_year_week() {
    assert_eq!(year_week(b"01"), Ok((2, 1)));
}

#[test]
fn parse_year_day() {
    assert_eq!(year_day(b"001"), Ok((3, 1)));
    assert_eq!(year_day(b"011"), Ok((3, 11)));
    assert_eq!(year_day(b"111"), Ok((3, 111)));
    assert_eq!(year_day(b"1111"), Ok((3, 111)));
}

#[test]
fn day() {
    assert_eq!(pd::day(b"18"), Ok((2, 18)));
}

#[test]
fn parse_day() {
    assert_eq!(pd::day(b"18"), Ok((2, 18)));
}

#[test]
fn parse_week_day() {
    assert_eq!(week_day(b"1"), Ok((1, 1)));
    assert_eq!(week_day(b"2"), Ok((1, 2)));
    assert_eq!(week_day(b"3"), Ok((1, 3)));
    assert_eq!(week_day(b"4"), Ok((1, 4)));
    assert_eq!(week_day(b"5"), Ok((1, 5)));
    assert_eq!(week_day(b"6"), Ok((1, 6)));
    assert_eq!(week_day(b"7"), Ok((1, 7)));
}

#[test]
fn parse_date_ymd() {
    {
        let value = YmdDate {
            year: 2015,
            month: 7,
            day: 16,
        };
        assert_eq!(date_ymd(b"2015-07-16"), Ok((10, value.clone())));
        assert_eq!(date_ymd(b"20150716"), Ok((8, value)));
    }
    {
        let value = YmdDate {
            year: -333,
            month: 6,
            day: 11,
        };
        assert_eq!(date_ymd(b"-0333-06-11"), Ok((11, value.clone())));
        assert_eq!(date_ymd(b"-03330611"), Ok((9, value)));
    }
    assert_eq!(
        date_ymd(b"2016-02-29"),
        Ok((
            10,
            YmdDate {
                year: 2016,
                month: 2,
                day: 29
            }
        ))
    );
    assert_eq!(
        date_ymd(b"2016-02"),
        Ok((
            7,
            YmdDate {
                year: 2016,
                month: 2,
                day: 1
            }
        ))
    );
    assert_eq!(
        date_ymd(b"2016"),
        Ok((
            4,
            YmdDate {
                year: 2016,
                month: 1,
                day: 1
            }
        ))
    );
    assert_eq!(
        date_ymd(b"20"),
        Ok((
            2,
            YmdDate {
                year: 2000,
                month: 1,
                day: 1
            }
        ))
    );
}

#[test]
fn parse_date() {
    {
        let value = YmdDate {
            year: 2015,
            month: 7,
            day: 16,
        };
        assert_eq!(date_ymd(b"2015-07-16"), Ok((10, value.clone())));
        assert_eq!(date_ymd(b"20150716"), Ok((8, value)));
    }
    {
        let value = YmdDate {
            year: -333,
            month: 6,
            day: 11,
        };
        assert_eq!(date_ymd(b"-0333-06-11"), Ok((11, value.clone())));
        assert_eq!(date_ymd(b"-03330611"), Ok((9, value)));
    }
}

#[test]
fn date_ordinal() {
    let value = ODate {
        year: 1985,
        day: 102,
    };
    assert_eq!(date_o(b"1985-102"), Ok((8, value.clone())));
    assert_eq!(date_o(b"1985102"), Ok((7, value)));
}

#[test]
fn parse_hour() {
    assert_eq!(hour(b"02"), Ok((2, 2)));
    assert_eq!(hour(b"24"), Ok((2, 24)));
}

#[test]
fn parse_minute() {
    assert_eq!(minute(b"02"), Ok((2, 2)));
    assert_eq!(minute(b"59"), Ok((2, 59)));
}

#[test]
fn parse_second() {
    assert_eq!(second(b"02"), Ok((2, 2)));
    assert_eq!(second(b"60"), Ok((2, 60)));
}

#[test]
fn parse_timezone_fixed() {
    assert_eq!(timezone_fixed(b"+23:59"), Ok((6, 23 * 60 + 59)));
    assert_eq!(timezone_fixed(b"+2359"), Ok((5, 23 * 60 + 59)));
    assert_eq!(timezone_fixed(b"+23"), Ok((3, 23 * 60)));
}

#[test]
fn parse_timezone_utc() {
    assert_eq!(timezone_utc(b"Z"), Ok((1, 0)));
    assert_eq!(timezone_utc(b"z"), Err(ParseError::Mismatch));
}
