use iso8601::parse::date::{date, date_w, date_wd, date_ymd, month, year};
use iso8601::parse::datetime::{
    datetime_approx_any_approx, datetime_global_hms, partial_datetime_approx_any_approx,
};
use iso8601::parse::time::{
    time_global_approx, time_global_hm, time_global_hms, time_local_hms, timezone_fixed,
};
use iso8601::parse::{buf_to_frac_int, buf_to_int, sec_frac_buf_to_nanos, ParseError};
use iso8601::{
    Date, DateTime, GlobalTime, HmsTime, LocalTime, ODate, Valid, WdDate, Year, YmdDate,
};

#[test]
fn leap_years() {
    assert!(1600i32.is_leap());
    assert!(!1700i32.is_leap());
    assert!(2000i32.is_leap());
    assert!(!2023i32.is_leap());
    assert_eq!(2020i32.num_days(), 366);
    assert_eq!(2018i32.num_days(), 365);
}

#[test]
fn week_counts() {
    assert_eq!(2020i32.num_weeks(), 53);
    assert_eq!(2018i32.num_weeks(), 52);
    assert!(!WdDate {
        year: 2018,
        week: 53,
        day: 1
    }
    .is_valid());
    assert!(WdDate {
        year: 2020,
        week: 53,
        day: 1
    }
    .is_valid());
}

#[test]
fn conversion_example() {
    let ymd = YmdDate {
        year: 1985,
        month: 4,
        day: 12,
    };
    let o = ODate {
        year: 1985,
        day: 102,
    };
    let wd = WdDate {
        year: 1985,
        week: 15,
        day: 5,
    };
    assert_eq!(ODate::from_ymd(&ymd), o);
    assert_eq!(YmdDate::from_o(&o), ymd);
    assert_eq!(WdDate::from_o(&o), wd);
    assert_eq!(ODate::from_wd(&wd), o);
    assert_eq!(WdDate::from_ymd(&ymd), wd);
    assert_eq!(YmdDate::from_wd(&wd), ymd);
}

#[test]
fn round_trips_on_sample_dates() {
    let samples = [
        (2016, 2, 29),
        (1999, 12, 31),
        (2021, 1, 1),
        (1985, 4, 12),
        (2024, 6, 15),
    ];
    for (y, m, d) in samples {
        let ymd = YmdDate {
            year: y,
            month: m,
            day: d,
        };
        assert!(ymd.is_valid());
        let o = ODate::from_ymd(&ymd);
        assert!(o.is_valid());
        assert_eq!(YmdDate::from_o(&o), ymd);
    }
    let week_samples = [
        (1985, 15, 5),
        (2000, 15, 2),
        (2015, 53, 5),
        (2020, 53, 5),
        (2009, 1, 7),
        (2016, 52, 7),
    ];
    for (y, wk, d) in week_samples {
        let wd = WdDate {
            year: y,
            week: wk,
            day: d,
        };
        assert!(wd.is_valid());
        let o = ODate::from_wd(&wd);
        assert!(o.is_valid());
        assert_eq!(WdDate::from_o(&o), wd);
    }
    for (y, day) in [(2000, 1), (2000, 366), (2015, 1), (2016, 1), (2021, 1), (1985, 102)] {
        let o = ODate { year: y, day };
        assert!(o.is_valid());
        let wd = WdDate::from_o(&o);
        assert!(wd.is_valid());
        assert_eq!(ODate::from_wd(&wd), o);
    }
}

#[test]
fn reduced_parsing() {
    assert_eq!(
        date_ymd(b"2016"),
        Ok((
            4,
            YmdDate {
                year: 2016,
                month: 1,
                day: 1
            }
        ))
    );
    assert_eq!(
        date_ymd(b"2016-02"),
        Ok((
            7,
            YmdDate {
                year: 2016,
                month: 2,
                day: 1
            }
        ))
    );
}

#[test]
fn fraction_precision() {
    let base = HmsTime {
        hour: 16,
        minute: 43,
        second: 52,
    };
    let cases: [(&[u8], u32); 9] = [
        (b"16:43:52.1", 100_000_000),
        (b"16:43:52,01", 10_000_000),
        (b"16:43:52.001", 1_000_000),
        (b"16:43:52,0001", 100_000),
        (b"16:43:52.00001", 10_000),
        (b"16:43:52,000001", 1_000),
        (b"16:43:52.0000001", 100),
        (b"16:43:52,00000001", 10),
        (b"16:43:52.000000001", 1),
    ];
    for (input, nanos) in cases {
        let (consumed, t) = time_local_hms(input).unwrap();
        assert_eq!(consumed, input.len());
        assert_eq!(t.naive, base);
        assert_eq!(t.fraction, nanos);
        assert_eq!(t.nanosecond(), nanos);
    }
}

#[test]
fn boundary_rejections() {
    let (_, leap_day) = date(b"2016-02-29").unwrap();
    assert!(leap_day.is_valid());

    let (_, bad_day) = date(b"2018-02-29").unwrap();
    assert!(!bad_day.is_valid());

    assert!(date_wd(b"2018-W53").is_err());
    let (_, week) = date_w(b"2018-W53").unwrap();
    assert!(!week.is_valid());

    assert_eq!(
        time_local_hms(b"16:43:52.0000000001"),
        Err(ParseError::TooPrecise)
    );
    assert_eq!(
        time_global_hms(b"16:43:52.0000000001Z"),
        Err(ParseError::TooPrecise)
    );
}

#[test]
fn separator_guard() {
    assert!(datetime_approx_any_approx(b"2018-08-02TT22:01:39Z").is_err());
    assert!(datetime_approx_any_approx(b"2018-08-02T22:01:39Z").is_ok());
    assert!(partial_datetime_approx_any_approx(b"2018-08-02TT22:01:39Z").is_err());
    assert!(partial_datetime_approx_any_approx(b"2018-08-02T22:01:39Z").is_ok());
}

#[test]
fn fraction_needs_a_digit() {
    // A bare fraction mark matches nothing: the time ends before it.
    assert_eq!(
        time_local_hms(b"16:43:52."),
        Ok((
            8,
            LocalTime {
                naive: HmsTime {
                    hour: 16,
                    minute: 43,
                    second: 52
                },
                fraction: 0
            }
        ))
    );
    assert!(time_global_hms(b"16:43:52.Z").is_err());
}

#[test]
fn timezone_bounds() {
    let (_, almost) = time_global_hm(b"16:43+23:59").unwrap();
    assert_eq!(almost.timezone, 23 * 60 + 59);
    assert!(almost.is_valid());

    let (_, negative) = time_global_hm(b"16:43-23:59").unwrap();
    assert_eq!(negative.timezone, -(23 * 60 + 59));
    assert!(negative.is_valid());

    assert!(time_global_hm(b"16:43+24:00").is_err());
    assert!(time_global_hm(b"16:43-24:00").is_err());

    assert!(!GlobalTime {
        local: LocalTime {
            naive: HmsTime {
                hour: 0,
                minute: 0,
                second: 0
            },
            fraction: 0
        },
        timezone: 24 * 60
    }
    .is_valid());
}

#[test]
fn datetime_combined() {
    let value = DateTime {
        date: Date::YMD(YmdDate {
            year: 2007,
            month: 8,
            day: 31,
        }),
        time: GlobalTime {
            local: LocalTime {
                naive: HmsTime {
                    hour: 16,
                    minute: 47,
                    second: 22,
                },
                fraction: 0,
            },
            timezone: 5 * 60,
        },
    };
    assert_eq!(
        datetime_global_hms(b"2007-08-31T16:47:22+05:00"),
        Ok((25, value.clone()))
    );
    assert_eq!(
        datetime_global_hms(b"20070831T164722+05"),
        Ok((18, value))
    );
}

#[test]
fn error_variants() {
    assert_eq!(year(b"201"), Err(ParseError::Incomplete));
    assert_eq!(month(b"ab"), Err(ParseError::Mismatch));
    assert_eq!(timezone_fixed(b"+24:00"), Err(ParseError::OutOfRange));
    assert_eq!(
        time_local_hms(b"16:43:52.0000000001"),
        Err(ParseError::TooPrecise)
    );
}

#[test]
fn week_conversions_exact_iso() {
    // 2000-04-11 (day 102) was a Tuesday of week 15.
    assert_eq!(
        WdDate::from_o(&ODate {
            year: 2000,
            day: 102
        }),
        WdDate {
            year: 2000,
            week: 15,
            day: 2
        }
    );
    // 2000-01-03 (day 3) was the Monday opening week 1.
    assert_eq!(
        WdDate::from_o(&ODate { year: 2000, day: 3 }),
        WdDate {
            year: 2000,
            week: 1,
            day: 1
        }
    );
    // Week 1 of 2009 began in 2008: its Sunday is 2009-01-04.
    assert_eq!(
        ODate::from_wd(&WdDate {
            year: 2009,
            week: 1,
            day: 7
        }),
        ODate { year: 2009, day: 4 }
    );
}

#[test]
fn week_conversions_cross_year() {
    // 2016-01-01 was the Friday of the previous year's week 53.
    assert_eq!(
        WdDate::from_o(&ODate { year: 2016, day: 1 }),
        WdDate {
            year: 2015,
            week: 53,
            day: 5
        }
    );
    assert_eq!(
        ODate::from_wd(&WdDate {
            year: 2015,
            week: 53,
            day: 5
        }),
        ODate { year: 2016, day: 1 }
    );
    // 2020-W53-5 is 2021-01-01.
    assert_eq!(
        ODate::from_wd(&WdDate {
            year: 2020,
            week: 53,
            day: 5
        }),
        ODate { year: 2021, day: 1 }
    );
    assert_eq!(
        WdDate::from_o(&ODate { year: 2021, day: 1 }),
        WdDate {
            year: 2020,
            week: 53,
            day: 5
        }
    );
    // The calendar form of a week date that reaches into the next year.
    assert_eq!(
        YmdDate::from_wd(&WdDate {
            year: 2015,
            week: 53,
            day: 5
        }),
        YmdDate {
            year: 2016,
            month: 1,
            day: 1
        }
    );
}

#[test]
fn streaming_incomplete() {
    // A parser that could still succeed on more input says so.
    assert_eq!(
        time_global_approx(b"16:22"),
        Err(ParseError::Incomplete)
    );
    assert_eq!(date_wd(b"2018-W22"), Err(ParseError::Incomplete));
    // An empty input fails as a plain mismatch: every date alternative is
    // cut off from further input, so alternation has already decided.
    assert_eq!(
        iso8601::parse::datetime::partial_datetime_approx_any_approx(b""),
        Err(ParseError::Mismatch)
    );
}

#[test]
fn numeric_primitives() {
    assert_eq!(buf_to_int(b"0042"), 42);
    assert_eq!(buf_to_int(b""), 0);
    assert_eq!(buf_to_frac_int(b"123", 8), 123_000_000);
    assert_eq!(buf_to_frac_int(b"123456789", 8), 123_456_789);
    assert_eq!(sec_frac_buf_to_nanos(b"000000001"), 1);
    assert_eq!(sec_frac_buf_to_nanos(b"5"), 500_000_000);
}
