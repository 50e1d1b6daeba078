use iso8601::{ODate, Valid, WdDate, YmdDate};

#[test]
fn ymd_from_wd() {
    assert_eq!(
        YmdDate::from_wd(&WdDate {
            year: 1985,
            week: 15,
            day: 5
        }),
        YmdDate {
            year: 1985,
            month: 4,
            day: 12
        }
    );
}

#[test]
fn ymd_from_o() {
    assert_eq!(
        YmdDate::from_o(&ODate {
            year: 1985,
            day: 102
        }),
        YmdDate {
            year: 1985,
            month: 4,
            day: 12
        }
    );
}

#[test]
fn wd_from_ymd() {
    assert_eq!(
        WdDate::from_ymd(&YmdDate {
            year: 1985,
            month: 4,
            day: 12
        }),
        WdDate {
            year: 1985,
            week: 15,
            day: 5
        }
    );
    assert_eq!(
        WdDate::from_ymd(&YmdDate {
            year: 2023,
            month: 2,
            day: 27
        }),
        WdDate {
            year: 2023,
            week: 9,
            day: 1
        }
    );
}

#[test]
fn wd_from_o() {
    assert_eq!(
        WdDate::from_o(&ODate {
            year: 1985,
            day: 102
        }),
        WdDate {
            year: 1985,
            week: 15,
            day: 5
        }
    );
}

#[test]
fn o_from_ymd() {
    assert_eq!(
        ODate::from_ymd(&YmdDate {
            year: 1985,
            month: 4,
            day: 12
        }),
        ODate {
            year: 1985,
            day: 102
        }
    );
}

#[test]
fn o_from_wd() {
    assert_eq!(
        ODate::from_wd(&WdDate {
            year: 1985,
            week: 15,
            day: 5
        }),
        ODate {
            year: 1985,
            day: 102
        }
    );
}

#[test]
fn valid_date_ymd() {
    assert!(!YmdDate {
        year: 0,
        month: 13,
        day: 1
    }
    .is_valid());
    assert!(!YmdDate {
        year: 0,
        month: 0,
        day: 1
    }
    .is_valid());

    assert!(!YmdDate {
        year: 2018,
        month: 2,
        day: 29
    }
    .is_valid());
}

#[test]
fn valid_date_wd() {
    assert!(!WdDate {
        year: 0,
        week: 0,
        day: 1
    }
    .is_valid());
    assert!(!WdDate {
        year: 2018,
        week: 53,
        day: 1
    }
    .is_valid());

    assert!(!WdDate {
        year: 0,
        week: 1,
        day: 0
    }
    .is_valid());
    assert!(!WdDate {
        year: 0,
        week: 1,
        day: 8
    }
    .is_valid());
}

#[test]
fn valid_date_o() {
    assert!(!ODate {
        year: 2018,
        day: 366
    }
    .is_valid());
    assert!(ODate {
        year: 2020,
        day: 366
    }
    .is_valid());
}
