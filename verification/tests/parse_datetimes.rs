use iso8601::parse::datetime::{datetime_approx_any_approx, partial_datetime_approx_any_approx};
use iso8601::{
    AnyTime, ApproxAnyTime, ApproxDate, DateTime, HTime, HmTime, HmsTime, LocalTime,
    PartialDateTime, YDate, YmDate, YmdDate,
};

#[test]
#[should_panic]
fn tt() {
    datetime_approx_any_approx(b"2018-08-02TT22:01:39Z").unwrap();
}

#[test]
fn partial_datetime_approx_any_approx_date_y() {
    assert_eq!(
        partial_datetime_approx_any_approx(b"2018"),
        Ok((4, PartialDateTime::Date(ApproxDate::Y(YDate { year: 2018 }))))
    );
}

#[test]
fn partial_datetime_approx_any_approx_date_ym_basic() {
    assert_eq!(
        partial_datetime_approx_any_approx(b"201808"),
        Ok((
            6,
            PartialDateTime::Date(ApproxDate::YM(YmDate {
                year: 2018,
                month: 8,
            }))
        ))
    );
}

#[test]
fn partial_datetime_approx_any_approx_date_ym_extended() {
    assert_eq!(
        partial_datetime_approx_any_approx(b"2018-08"),
        Ok((
            7,
            PartialDateTime::Date(ApproxDate::YM(YmDate {
                year: 2018,
                month: 8,
            }))
        ))
    );
}

#[test]
fn partial_datetime_approx_any_approx_date_ymd_basic() {
    assert_eq!(
        partial_datetime_approx_any_approx(b"20180802"),
        Ok((
            8,
            PartialDateTime::Date(ApproxDate::YMD(YmdDate {
                year: 2018,
                month: 8,
                day: 2,
            }))
        ))
    );
}

#[test]
fn partial_datetime_approx_any_approx_date_ymd_extended() {
    assert_eq!(
        partial_datetime_approx_any_approx(b"2018-08-02"),
        Ok((
            10,
            PartialDateTime::Date(ApproxDate::YMD(YmdDate {
                year: 2018,
                month: 8,
                day: 2,
            }))
        ))
    );
}

#[test]
fn partial_datetime_approx_any_approx_time_h() {
    assert_eq!(
        partial_datetime_approx_any_approx(b"T12"),
        Ok((
            3,
            PartialDateTime::Time(ApproxAnyTime::H(AnyTime::Local(LocalTime {
                naive: HTime { hour: 12 },
                fraction: 0,
            })))
        ))
    );
}

#[test]
fn partial_datetime_approx_any_approx_time_hm_basic() {
    assert_eq!(
        partial_datetime_approx_any_approx(b"T1230"),
        Ok((
            5,
            PartialDateTime::Time(ApproxAnyTime::HM(AnyTime::Local(LocalTime {
                naive: HmTime {
                    hour: 12,
                    minute: 30,
                },
                fraction: 0,
            })))
        ))
    );
}

#[test]
fn partial_datetime_approx_any_approx_time_hm_extended() {
    let result = PartialDateTime::Time(ApproxAnyTime::HM(AnyTime::Local(LocalTime {
        naive: HmTime {
            hour: 12,
            minute: 30,
        },
        fraction: 0,
    })));

    assert_eq!(
        partial_datetime_approx_any_approx(b"T12:30"),
        Ok((6, result.clone()))
    );
    assert_eq!(
        partial_datetime_approx_any_approx(b"12:30"),
        Ok((5, result))
    );
}

#[test]
fn partial_datetime_approx_any_approx_time_hms_basic() {
    assert_eq!(
        partial_datetime_approx_any_approx(b"T123015"),
        Ok((
            7,
            PartialDateTime::Time(ApproxAnyTime::HMS(AnyTime::Local(LocalTime {
                naive: HmsTime {
                    hour: 12,
                    minute: 30,
                    second: 15,
                },
                fraction: 0,
            })))
        ))
    );
}

#[test]
fn partial_datetime_approx_any_approx_time_hms_extended() {
    let result = PartialDateTime::Time(ApproxAnyTime::HMS(AnyTime::Local(LocalTime {
        naive: HmsTime {
            hour: 12,
            minute: 30,
            second: 15,
        },
        fraction: 0,
    })));

    assert_eq!(
        partial_datetime_approx_any_approx(b"T12:30:15"),
        Ok((9, result.clone()))
    );
    assert_eq!(
        partial_datetime_approx_any_approx(b"12:30:15"),
        Ok((8, result))
    );
}

#[test]
fn partial_datetime_approx_any_approx_time_hmsf_basic() {
    assert_eq!(
        partial_datetime_approx_any_approx(b"T123015.2"),
        Ok((
            9,
            PartialDateTime::Time(ApproxAnyTime::HMS(AnyTime::Local(LocalTime {
                naive: HmsTime {
                    hour: 12,
                    minute: 30,
                    second: 15,
                },
                fraction: 200_000_000,
            })))
        ))
    );
}

#[test]
fn partial_datetime_approx_any_approx_time_hmsf_extended() {
    let result = PartialDateTime::Time(ApproxAnyTime::HMS(AnyTime::Local(LocalTime {
        naive: HmsTime {
            hour: 12,
            minute: 30,
            second: 15,
        },
        fraction: 200_000_000,
    })));

    assert_eq!(
        partial_datetime_approx_any_approx(b"T12:30:15.2"),
        Ok((11, result.clone()))
    );
    assert_eq!(
        partial_datetime_approx_any_approx(b"12:30:15.2"),
        Ok((10, result))
    );
}

#[test]
fn partial_datetime_approx_any_approx_datetime_extended() {
    let result = PartialDateTime::DateTime(DateTime {
        date: ApproxDate::YMD(YmdDate {
            year: 2018,
            month: 8,
            day: 2,
        }),
        time: ApproxAnyTime::HMS(AnyTime::Local(LocalTime {
            naive: HmsTime {
                hour: 12,
                minute: 30,
                second: 15,
            },
            fraction: 200_000_000,
        })),
    });

    assert_eq!(
        partial_datetime_approx_any_approx(b"2018-08-02T12:30:15.2"),
        Ok((21, result.clone()))
    );
    assert_eq!(
        partial_datetime_approx_any_approx(b"20180802T123015.2"),
        Ok((17, result))
    );
}
