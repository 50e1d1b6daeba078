use iso8601::parse::date::{
    date_ymd, day, month, positive_year, week_day, year, year_day, year_week,
};
use iso8601::parse::date as pd;
use iso8601::{ApproxDate, CDate, Date, ODate, WDate, WdDate, YDate, YmDate, YmdDate};

#[test]
fn date_positive_year() {
    assert_eq!(positive_year(b"2018"), Ok((4, 2018)));
}

#[test]
fn date_year() {
    assert_eq!(year(b"2018"), Ok((4, 2018)));
    assert_eq!(year(b"+2018"), Ok((5, 2018)));
    assert_eq!(year(b"-2018"), Ok((5, -2018)));
}

#[test]
fn date_month() {
    assert_eq!(month(b"06"), Ok((2, 6)));
    assert_eq!(month(b"12"), Ok((2, 12)));
}

#[test]
fn date_year_week() {
    assert_eq!(year_week(b"01"), Ok((2, 1)));
}

#[test]
fn date_year_day() {
    assert_eq!(year_day(b"001"), Ok((3, 1)));
    assert_eq!(year_day(b"011"), Ok((3, 11)));
    assert_eq!(year_day(b"111"), Ok((3, 111)));
    assert_eq!(year_day(b"1111"), Ok((3, 111)));
}

#[test]
fn date_day() {
    assert_eq!(day(b"18"), Ok((2, 18)));
}

#[test]
fn date_week_day() {
    assert_eq!(week_day(b"1"), Ok((1, 1)));
    assert_eq!(week_day(b"2"), Ok((1, 2)));
    assert_eq!(week_day(b"3"), Ok((1, 3)));
    assert_eq!(week_day(b"4"), Ok((1, 4)));
    assert_eq!(week_day(b"5"), Ok((1, 5)));
    assert_eq!(week_day(b"6"), Ok((1, 6)));
    assert_eq!(week_day(b"7"), Ok((1, 7)));
}

#[test]
fn date_date_ymd() {
    {
        let value = YmdDate {
            year: 2015,
            month: 7,
            day: 16,
        };
        assert_eq!(date_ymd(b"2015-07-16"), Ok((10, value.clone())));
        assert_eq!(date_ymd(b"20150716"), Ok((8, value)));
    }
    {
        let value = YmdDate {
            year: -333,
            month: 6,
            day: 11,
        };
        assert_eq!(date_ymd(b"-0333-06-11"), Ok((11, value.clone())));
        assert_eq!(date_ymd(b"-03330611"), Ok((9, value)));
    }
    assert_eq!(
        date_ymd(b"2016-02-29"),
        Ok((
            10,
            YmdDate {
                year: 2016,
                month: 2,
                day: 29
            }
        ))
    );
}

#[test]
fn date_ym() {
    assert_eq!(
        pd::date_ym(b"2016-02"),
        Ok((
            7,
            YmDate {
                year: 2016,
                month: 2
            }
        ))
    );
}

#[test]
fn date_y() {
    assert_eq!(pd::date_y(b"2016"), Ok((4, YDate { year: 2016 })));
}

#[test]
fn date_c() {
    assert_eq!(pd::date_c(b"20"), Ok((2, CDate { century: 20 })));
}

#[test]
fn date_wd() {
    assert_eq!(
        pd::date_wd(b"2018-W01-1"),
        Ok((
            10,
            WdDate {
                year: 2018,
                week: 1,
                day: 1
            }
        ))
    );
    assert_eq!(
        pd::date_wd(b"2018-W52-7"),
        Ok((
            10,
            WdDate {
                year: 2018,
                week: 52,
                day: 7
            }
        ))
    );
    assert_eq!(
        pd::date_wd(b"2018W223"),
        Ok((
            8,
            WdDate {
                year: 2018,
                week: 22,
                day: 3
            }
        ))
    );
}

#[test]
fn date_w() {
    let value = WDate {
        year: 2020,
        week: 53,
    };
    assert_eq!(pd::date_w(b"2020-W53 "), Ok((8, value.clone())));
    assert_eq!(pd::date_w(b"2020-W53"), Ok((8, value.clone())));
    assert_eq!(pd::date_w(b"2020W53 "), Ok((7, value.clone())));
    assert_eq!(pd::date_w(b"2020W53"), Ok((7, value)));
}

#[test]
fn date_o() {
    let value = ODate {
        year: 1985,
        day: 102,
    };
    assert_eq!(pd::date_o(b"1985-102"), Ok((8, value.clone())));
    assert_eq!(pd::date_o(b"1985102"), Ok((7, value)));
}

#[test]
fn date_date() {
    {
        let value = Date::YMD(YmdDate {
            year: 2018,
            month: 2,
            day: 12,
        });
        assert_eq!(pd::date(b"2018-02-12"), Ok((10, value.clone())));
        assert_eq!(pd::date(b"2018-02-12 "), Ok((10, value)));
    }

    {
        let value = Date::WD(WdDate {
            year: 2018,
            week: 2,
            day: 2,
        });
        assert_eq!(pd::date(b"2018-W02-2"), Ok((10, value.clone())));
        assert_eq!(pd::date(b"2018-W02-2 "), Ok((10, value)));
    }

    {
        let value = Date::O(ODate {
            year: 2018,
            day: 102,
        });
        assert_eq!(pd::date(b"2018-102"), Ok((8, value.clone())));
        assert_eq!(pd::date(b"2018-102 "), Ok((8, value)));
    }
}

#[test]
fn date_approx() {
    {
        let value = ApproxDate::YMD(YmdDate {
            year: 2000,
            month: 5,
            day: 5,
        });
        assert_eq!(pd::date_approx(b"2000-05-05 "), Ok((10, value.clone())));
        assert_eq!(pd::date_approx(b"20000505 "), Ok((8, value.clone())));
        assert_eq!(pd::date_approx(b"2000-05-05"), Ok((10, value.clone())));
        assert_eq!(pd::date_approx(b"20000505"), Ok((8, value)));
    }
    {
        let value = ApproxDate::YM(YmDate {
            year: 2000,
            month: 5,
        });
        assert_eq!(pd::date_approx(b"2000-05 "), Ok((7, value.clone())));
        assert_eq!(pd::date_approx(b"2000-05"), Ok((7, value)));
    }
    {
        let value = ApproxDate::Y(YDate { year: 2000 });
        assert_eq!(pd::date_approx(b"2000 "), Ok((4, value.clone())));
        assert_eq!(pd::date_approx(b"2000"), Ok((4, value)));
    }
    {
        let value = ApproxDate::C(CDate { century: 20 });
        assert_eq!(pd::date_approx(b"20 "), Ok((2, value.clone())));
        assert_eq!(pd::date_approx(b"20"), Ok((2, value)));
    }

    {
        let value = ApproxDate::WD(WdDate {
            year: 2000,
            week: 5,
            day: 5,
        });
        assert_eq!(pd::date_approx(b"2000-W05-5 "), Ok((10, value.clone())));
        assert_eq!(pd::date_approx(b"2000-W05-5"), Ok((10, value.clone())));
        assert_eq!(pd::date_approx(b"2000W055 "), Ok((8, value.clone())));
        assert_eq!(pd::date_approx(b"2000W055"), Ok((8, value)));
    }
    {
        let value = ApproxDate::W(WDate {
            year: 2000,
            week: 5,
        });
        assert_eq!(pd::date_approx(b"2000-W05 "), Ok((8, value.clone())));
        assert_eq!(pd::date_approx(b"2000-W05"), Ok((8, value.clone())));
        assert_eq!(pd::date_approx(b"2000W05 "), Ok((7, value.clone())));
        assert_eq!(pd::date_approx(b"2000W05"), Ok((7, value)));
    }

    {
        let value = ApproxDate::O(ODate {
            year: 2000,
            day: 5,
        });
        assert_eq!(pd::date_approx(b"2000-005 "), Ok((8, value.clone())));
        assert_eq!(pd::date_approx(b"2000-005"), Ok((8, value.clone())));
        assert_eq!(pd::date_approx(b"2000005 "), Ok((7, value.clone())));
        assert_eq!(pd::date_approx(b"2000005"), Ok((7, value)));
    }
}
