use iso8601::parse::time as pt;
use iso8601::parse::{sign, ParseError};
use iso8601::{
    AnyTime, ApproxAnyTime, ApproxGlobalTime, ApproxLocalTime, GlobalTime, HTime, HmTime,
    HmsTime, LocalTime,
};

#[test]
fn mod_sign() {
    assert_eq!(sign(b"-"), Ok((1, -1)));
    assert_eq!(sign(b"+"), Ok((1, 1)));
    assert_eq!(sign(b""), Err(ParseError::Incomplete));
    assert_eq!(sign(b" "), Err(ParseError::Mismatch));
}

#[test]
fn time_hour() {
    assert_eq!(pt::hour(b"02"), Ok((2, 2)));
    assert_eq!(pt::hour(b"24"), Ok((2, 24)));
}

#[test]
fn time_minute() {
    assert_eq!(pt::minute(b"02"), Ok((2, 2)));
    assert_eq!(pt::minute(b"59"), Ok((2, 59)));
}

#[test]
fn time_second() {
    assert_eq!(pt::second(b"02 "), Ok((2, 2)));
    assert_eq!(pt::second(b"02"), Ok((2, 2)));
    assert_eq!(pt::second(b"60 "), Ok((2, 60)));
    assert_eq!(pt::second(b"60"), Ok((2, 60)));
}

#[test]
fn time_timezone_fixed() {
    assert_eq!(pt::timezone_fixed(b"+23:59 "), Ok((6, 23 * 60 + 59)));
    assert_eq!(pt::timezone_fixed(b"+23:59"), Ok((6, 23 * 60 + 59)));
    assert_eq!(pt::timezone_fixed(b"+2359 "), Ok((5, 23 * 60 + 59)));
    assert_eq!(pt::timezone_fixed(b"+2359"), Ok((5, 23 * 60 + 59)));
    assert_eq!(pt::timezone_fixed(b"-23 "), Ok((3, -23 * 60)));
    assert_eq!(pt::timezone_fixed(b"-23"), Ok((3, -23 * 60)));
}

#[test]
fn time_timezone_utc() {
    assert_eq!(pt::timezone_utc(b"Z "), Ok((1, 0)));
    assert_eq!(pt::timezone_utc(b"Z"), Ok((1, 0)));
    assert_eq!(pt::timezone_utc(b"z"), Err(ParseError::Mismatch));
}

#[test]
fn timezone() {
    assert_eq!(pt::timezone(b"-22:11 "), Ok((6, -22 * 60 - 11)));
    assert_eq!(pt::timezone(b"-22:11"), Ok((6, -22 * 60 - 11)));
    assert_eq!(pt::timezone(b"-2211 "), Ok((5, -22 * 60 - 11)));
    assert_eq!(pt::timezone(b"-2211"), Ok((5, -22 * 60 - 11)));
    assert_eq!(pt::timezone(b"Z "), Ok((1, 0)));
    assert_eq!(pt::timezone(b"Z"), Ok((1, 0)));
}

#[test]
fn time_hms() {
    let value = HmsTime {
        hour: 11,
        minute: 22,
        second: 33,
    };
    assert_eq!(pt::time_hms(b"11:22:33 "), Ok((8, value.clone())));
    assert_eq!(pt::time_hms(b"11:22:33"), Ok((8, value.clone())));
    assert_eq!(pt::time_hms(b"112233 "), Ok((6, value.clone())));
    assert_eq!(pt::time_hms(b"112233"), Ok((6, value)));
}

#[test]
fn time_hm() {
    let value = HmTime {
        hour: 11,
        minute: 22,
    };
    assert_eq!(pt::time_hm(b"11:22 "), Ok((5, value.clone())));
    assert_eq!(pt::time_hm(b"11:22"), Ok((5, value.clone())));
    assert_eq!(pt::time_hm(b"1122 "), Ok((4, value.clone())));
    assert_eq!(pt::time_hm(b"1122"), Ok((4, value)));
}

#[test]
fn time_h() {
    let value = HTime { hour: 11 };
    assert_eq!(pt::time_h(b"11 "), Ok((2, value.clone())));
    assert_eq!(pt::time_h(b"11"), Ok((2, value)));
}

#[test]
fn time_local_hms() {
    let value = LocalTime {
        naive: HmsTime {
            hour: 16,
            minute: 43,
            second: 52,
        },
        fraction: 100_000_000,
    };
    assert_eq!(pt::time_local_hms(b"T16:43:52.1 "), Ok((11, value.clone())));
    assert_eq!(pt::time_local_hms(b"T16:43:52.1"), Ok((11, value.clone())));
    assert_eq!(pt::time_local_hms(b"16:43:52.1"), Ok((10, value.clone())));
    assert_eq!(pt::time_local_hms(b"T164352.1"), Ok((9, value.clone())));
    assert_eq!(pt::time_local_hms(b"164352.1"), Ok((8, value.clone())));

    let value = LocalTime {
        fraction: 0,
        ..value
    };
    assert_eq!(pt::time_local_hms(b"T16:43:52"), Ok((9, value.clone())));
    assert_eq!(pt::time_local_hms(b"16:43:52"), Ok((8, value)));
}

#[test]
fn time_local_hm() {
    let value = LocalTime {
        naive: HmTime {
            hour: 16,
            minute: 43,
        },
        fraction: 100_000_000,
    };
    assert_eq!(pt::time_local_hm(b"T16:43.1"), Ok((8, value.clone())));
    assert_eq!(pt::time_local_hm(b"16:43.1"), Ok((7, value.clone())));
    assert_eq!(pt::time_local_hm(b"T1643.1"), Ok((7, value.clone())));
    assert_eq!(pt::time_local_hm(b"1643.1"), Ok((6, value.clone())));

    let value = LocalTime {
        fraction: 0,
        ..value
    };
    assert_eq!(pt::time_local_hm(b"T16:43"), Ok((6, value.clone())));
    assert_eq!(pt::time_local_hm(b"16:43"), Ok((5, value.clone())));
    assert_eq!(pt::time_local_hm(b"T1643"), Ok((5, value.clone())));
    assert_eq!(pt::time_local_hm(b"1643"), Ok((4, value)));
}

#[test]
fn time_local_h() {
    let value = LocalTime {
        naive: HTime { hour: 16 },
        fraction: 100_000_000,
    };
    assert_eq!(pt::time_local_h(b"T16.1"), Ok((5, value.clone())));
    assert_eq!(pt::time_local_h(b"16.1"), Ok((4, value.clone())));

    let value = LocalTime {
        fraction: 0,
        ..value
    };
    assert_eq!(pt::time_local_h(b"T16"), Ok((3, value.clone())));
    assert_eq!(pt::time_local_h(b"16"), Ok((2, value)));
}

#[test]
fn time_global_hms() {
    let value = GlobalTime {
        local: LocalTime {
            naive: HmsTime {
                hour: 16,
                minute: 43,
                second: 52,
            },
            fraction: 0,
        },
        timezone: 0,
    };
    assert_eq!(pt::time_global_hms(b"T16:43:52Z"), Ok((10, value.clone())));
    assert_eq!(pt::time_global_hms(b"16:43:52Z"), Ok((9, value.clone())));
    assert_eq!(pt::time_global_hms(b"T164352Z"), Ok((8, value.clone())));
    assert_eq!(pt::time_global_hms(b"164352Z"), Ok((7, value.clone())));

    {
        let value = GlobalTime {
            timezone: 2,
            ..value.clone()
        };
        assert_eq!(
            pt::time_global_hms(b"T16:43:52+0002"),
            Ok((14, value.clone()))
        );
        assert_eq!(
            pt::time_global_hms(b"16:43:52+0002"),
            Ok((13, value.clone()))
        );
        assert_eq!(
            pt::time_global_hms(b"T164352+0002"),
            Ok((12, value.clone()))
        );
        assert_eq!(pt::time_global_hms(b"164352+0002"), Ok((11, value.clone())));

        let value = GlobalTime {
            local: LocalTime {
                fraction: 100_000_000,
                ..value.local
            },
            ..value
        };
        assert_eq!(
            pt::time_global_hms(b"T16:43:52.1+0002"),
            Ok((16, value.clone()))
        );
        assert_eq!(
            pt::time_global_hms(b"16:43:52.1+0002"),
            Ok((15, value.clone()))
        );
        assert_eq!(
            pt::time_global_hms(b"T164352.1+0002"),
            Ok((14, value.clone()))
        );
        assert_eq!(pt::time_global_hms(b"164352.1+0002"), Ok((13, value)));
    }

    let value = GlobalTime {
        local: LocalTime {
            fraction: 100_000_000,
            ..value.local
        },
        ..value
    };
    assert_eq!(
        pt::time_global_hms(b"T16:43:52.1Z"),
        Ok((12, value.clone()))
    );
    assert_eq!(pt::time_global_hms(b"16:43:52.1Z"), Ok((11, value.clone())));
    assert_eq!(pt::time_global_hms(b"T164352.1Z"), Ok((10, value.clone())));
    assert_eq!(pt::time_global_hms(b"164352.1Z"), Ok((9, value)));
}

#[test]
fn time_global_hm() {
    let value = GlobalTime {
        local: LocalTime {
            naive: HmTime {
                hour: 16,
                minute: 43,
            },
            fraction: 0,
        },
        timezone: 0,
    };
    assert_eq!(pt::time_global_hm(b"T16:43Z"), Ok((7, value.clone())));
    assert_eq!(pt::time_global_hm(b"16:43Z"), Ok((6, value.clone())));
    assert_eq!(pt::time_global_hm(b"T1643Z"), Ok((6, value.clone())));
    assert_eq!(pt::time_global_hm(b"1643Z"), Ok((5, value.clone())));

    let value = GlobalTime {
        local: LocalTime {
            fraction: 100_000_000,
            ..value.local
        },
        ..value
    };
    assert_eq!(pt::time_global_hm(b"T16:43.1Z"), Ok((9, value.clone())));
    assert_eq!(pt::time_global_hm(b"16:43.1Z"), Ok((8, value.clone())));
    assert_eq!(pt::time_global_hm(b"T1643.1Z"), Ok((8, value.clone())));
    assert_eq!(pt::time_global_hm(b"1643.1Z"), Ok((7, value)));
}

#[test]
fn time_global_h() {
    let value = GlobalTime {
        local: LocalTime {
            naive: HTime { hour: 16 },
            fraction: 0,
        },
        timezone: 0,
    };
    assert_eq!(pt::time_global_h(b"T16Z"), Ok((4, value.clone())));
    assert_eq!(pt::time_global_h(b"16Z"), Ok((3, value.clone())));

    let value = GlobalTime {
        local: LocalTime {
            fraction: 100_000_000,
            ..value.local
        },
        ..value
    };
    assert_eq!(pt::time_global_h(b"T16.1Z"), Ok((6, value.clone())));
    assert_eq!(pt::time_global_h(b"16.1Z"), Ok((5, value)));
}

#[test]
fn time_any_hms() {
    let value = AnyTime::Local(LocalTime {
        naive: HmsTime {
            hour: 16,
            minute: 43,
            second: 52,
        },
        fraction: 0,
    });
    assert_eq!(pt::time_any_hms(b"T16:43:52"), Ok((9, value.clone())));
    assert_eq!(pt::time_any_hms(b"16:43:52"), Ok((8, value.clone())));
    assert_eq!(pt::time_any_hms(b"T164352"), Ok((7, value.clone())));
    assert_eq!(pt::time_any_hms(b"164352"), Ok((6, value)));

    let value = AnyTime::Global(GlobalTime {
        local: LocalTime {
            naive: HmsTime {
                hour: 2,
                minute: 3,
                second: 52,
            },
            fraction: 0,
        },
        timezone: 0,
    });
    assert_eq!(pt::time_any_hms(b"T02:03:52Z"), Ok((10, value.clone())));
    assert_eq!(pt::time_any_hms(b"02:03:52Z"), Ok((9, value.clone())));
    assert_eq!(pt::time_any_hms(b"T020352Z"), Ok((8, value.clone())));
    assert_eq!(pt::time_any_hms(b"020352Z"), Ok((7, value)));

    let value = AnyTime::Global(GlobalTime {
        local: LocalTime {
            naive: HmsTime {
                hour: 2,
                minute: 3,
                second: 52,
            },
            fraction: 0,
        },
        timezone: -60,
    });
    assert_eq!(pt::time_any_hms(b"T02:03:52-01"), Ok((12, value.clone())));
    assert_eq!(pt::time_any_hms(b"02:03:52-01"), Ok((11, value.clone())));
    assert_eq!(pt::time_any_hms(b"T020352-01"), Ok((10, value.clone())));
    assert_eq!(pt::time_any_hms(b"020352-01"), Ok((9, value)));
}

#[test]
fn time_any_hm() {
    let value = AnyTime::Local(LocalTime {
        naive: HmTime {
            hour: 16,
            minute: 43,
        },
        fraction: 0,
    });
    assert_eq!(pt::time_any_hm(b"T16:43"), Ok((6, value.clone())));
    assert_eq!(pt::time_any_hm(b"16:43"), Ok((5, value.clone())));
    assert_eq!(pt::time_any_hm(b"T1643"), Ok((5, value.clone())));
    assert_eq!(pt::time_any_hm(b"1643"), Ok((4, value)));

    let value = AnyTime::Global(GlobalTime {
        local: LocalTime {
            naive: HmTime { hour: 2, minute: 3 },
            fraction: 0,
        },
        timezone: 0,
    });
    assert_eq!(pt::time_any_hm(b"T02:03Z"), Ok((7, value.clone())));
    assert_eq!(pt::time_any_hm(b"02:03Z"), Ok((6, value.clone())));
    assert_eq!(pt::time_any_hm(b"T0203Z"), Ok((6, value.clone())));
    assert_eq!(pt::time_any_hm(b"0203Z"), Ok((5, value)));

    let value = AnyTime::Global(GlobalTime {
        local: LocalTime {
            naive: HmTime { hour: 2, minute: 3 },
            fraction: 0,
        },
        timezone: -60,
    });
    assert_eq!(pt::time_any_hm(b"T02:03-01"), Ok((9, value.clone())));
    assert_eq!(pt::time_any_hm(b"02:03-01"), Ok((8, value.clone())));
    assert_eq!(pt::time_any_hm(b"T0203-01"), Ok((8, value.clone())));
    assert_eq!(pt::time_any_hm(b"0203-01"), Ok((7, value)));
}

#[test]
fn time_any_h() {
    let value = AnyTime::Local(LocalTime {
        naive: HTime { hour: 16 },
        fraction: 0,
    });
    assert_eq!(pt::time_any_h(b"T16"), Ok((3, value.clone())));
    assert_eq!(pt::time_any_h(b"16"), Ok((2, value)));

    let value = AnyTime::Global(GlobalTime {
        local: LocalTime {
            naive: HTime { hour: 2 },
            fraction: 0,
        },
        timezone: 0,
    });
    assert_eq!(pt::time_any_h(b"T02Z"), Ok((4, value.clone())));
    assert_eq!(pt::time_any_h(b"02Z"), Ok((3, value)));

    let value = AnyTime::Global(GlobalTime {
        local: LocalTime {
            naive: HTime { hour: 2 },
            fraction: 0,
        },
        timezone: -60,
    });
    assert_eq!(pt::time_any_h(b"T02-01"), Ok((6, value.clone())));
    assert_eq!(pt::time_any_h(b"02-01"), Ok((5, value)));
}

#[test]
fn time_local_approx() {
    assert_eq!(
        pt::time_local_approx(b"16:22:48"),
        Ok((
            8,
            ApproxLocalTime::HMS(LocalTime {
                naive: HmsTime {
                    hour: 16,
                    minute: 22,
                    second: 48
                },
                fraction: 0
            })
        ))
    );

    assert_eq!(
        pt::time_local_approx(b"16:22"),
        Ok((
            5,
            ApproxLocalTime::HM(LocalTime {
                naive: HmTime {
                    hour: 16,
                    minute: 22
                },
                fraction: 0
            })
        ))
    );

    assert_eq!(
        pt::time_local_approx(b"16"),
        Ok((
            2,
            ApproxLocalTime::H(LocalTime {
                naive: HTime { hour: 16 },
                fraction: 0
            })
        ))
    );
}

#[test]
fn time_global_approx() {
    assert_eq!(
        pt::time_global_approx(b"16:22:48Z"),
        Ok((
            9,
            ApproxGlobalTime::HMS(GlobalTime {
                local: LocalTime {
                    naive: HmsTime {
                        hour: 16,
                        minute: 22,
                        second: 48
                    },
                    fraction: 0
                },
                timezone: 0
            })
        ))
    );

    assert_eq!(
        pt::time_global_approx(b"16:22Z"),
        Ok((
            6,
            ApproxGlobalTime::HM(GlobalTime {
                local: LocalTime {
                    naive: HmTime {
                        hour: 16,
                        minute: 22
                    },
                    fraction: 0
                },
                timezone: 0
            })
        ))
    );

    assert_eq!(
        pt::time_global_approx(b"16Z"),
        Ok((
            3,
            ApproxGlobalTime::H(GlobalTime {
                local: LocalTime {
                    naive: HTime { hour: 16 },
                    fraction: 0
                },
                timezone: 0
            })
        ))
    );
}

#[test]
fn time_any_approx() {
    assert_eq!(
        pt::time_any_approx(b"16:22:48"),
        Ok((
            8,
            ApproxAnyTime::HMS(AnyTime::Local(LocalTime {
                naive: HmsTime {
                    hour: 16,
                    minute: 22,
                    second: 48
                },
                fraction: 0
            }))
        ))
    );
    assert_eq!(
        pt::time_any_approx(b"16:22"),
        Ok((
            5,
            ApproxAnyTime::HM(AnyTime::Local(LocalTime {
                naive: HmTime {
                    hour: 16,
                    minute: 22
                },
                fraction: 0
            }))
        ))
    );
    assert_eq!(
        pt::time_any_approx(b"16"),
        Ok((
            2,
            ApproxAnyTime::H(AnyTime::Local(LocalTime {
                naive: HTime { hour: 16 },
                fraction: 0
            }))
        ))
    );

    assert_eq!(
        pt::time_any_approx(b"16:22:48Z"),
        Ok((
            9,
            ApproxAnyTime::HMS(AnyTime::Global(GlobalTime {
                local: LocalTime {
                    naive: HmsTime {
                        hour: 16,
                        minute: 22,
                        second: 48
                    },
                    fraction: 0
                },
                timezone: 0
            }))
        ))
    );
    assert_eq!(
        pt::time_any_approx(b"16:22Z"),
        Ok((
            6,
            ApproxAnyTime::HM(AnyTime::Global(GlobalTime {
                local: LocalTime {
                    naive: HmTime {
                        hour: 16,
                        minute: 22
                    },
                    fraction: 0
                },
                timezone: 0
            }))
        ))
    );
    assert_eq!(
        pt::time_any_approx(b"16Z"),
        Ok((
            3,
            ApproxAnyTime::H(AnyTime::Global(GlobalTime {
                local: LocalTime {
                    naive: HTime { hour: 16 },
                    fraction: 0
                },
                timezone: 0
            }))
        ))
    );
}
