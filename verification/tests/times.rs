use iso8601::{AnyTime, GlobalTime, HTime, HmTime, HmsTime, LocalTime, Valid};

#[test]
fn valid_time_hms() {
    assert!(HmsTime {
        hour: 0,
        minute: 1,
        second: 60
    }
    .is_valid());

    assert!(!HmsTime {
        hour: 0,
        minute: 1,
        second: 61
    }
    .is_valid());
}

#[test]
fn valid_time_hm() {
    assert!(HmTime {
        hour: 0,
        minute: 59
    }
    .is_valid());

    assert!(!HmTime {
        hour: 0,
        minute: 60
    }
    .is_valid());
}

#[test]
fn valid_time_h() {
    assert!(HTime { hour: 24 }.is_valid());

    assert!(!HTime { hour: 25 }.is_valid());
}

#[test]
fn valid_time_local() {
    assert!(LocalTime {
        naive: HTime { hour: 0 },
        fraction: 999_000_000
    }
    .is_valid());

    assert!(!LocalTime {
        naive: HTime { hour: 0 },
        fraction: 1_000_000_000
    }
    .is_valid());
}

#[test]
fn valid_time_global() {
    assert!(GlobalTime {
        local: LocalTime {
            naive: HTime { hour: 0 },
            fraction: 0
        },
        timezone: 24 * 60 - 1
    }
    .is_valid());

    assert!(!GlobalTime {
        local: LocalTime {
            naive: HTime { hour: 0 },
            fraction: 0
        },
        timezone: 24 * 60
    }
    .is_valid());
    assert!(!GlobalTime {
        local: LocalTime {
            naive: HTime { hour: 0 },
            fraction: 0
        },
        timezone: -24 * 60
    }
    .is_valid());

    assert!(!GlobalTime {
        local: LocalTime {
            naive: HTime { hour: 25 },
            fraction: 0
        },
        timezone: 0
    }
    .is_valid());
}

#[test]
fn valid_time_any() {
    let local = LocalTime {
        naive: HTime { hour: 25 },
        fraction: 0,
    };
    assert!(!AnyTime::Local(local.clone()).is_valid());
    assert!(!AnyTime::Global(GlobalTime {
        local,
        timezone: 0
    })
    .is_valid());
}

#[test]
fn fraction_accessors() {
    let hms = LocalTime {
        naive: HmsTime {
            hour: 16,
            minute: 43,
            second: 52,
        },
        fraction: 123_456_789,
    };
    assert_eq!(hms.nanosecond(), 123_456_789);

    let hm = LocalTime {
        naive: HmTime {
            hour: 16,
            minute: 43,
        },
        fraction: 500_000_000,
    };
    assert_eq!(hm.second(), 30);
    assert_eq!(hm.nanosecond(), 0);

    let hm_fine = LocalTime {
        naive: HmTime {
            hour: 16,
            minute: 43,
        },
        fraction: 525_000_000,
    };
    assert_eq!(hm_fine.second(), 31);
    assert_eq!(hm_fine.nanosecond(), 500_000_000);

    let h = LocalTime {
        naive: HTime { hour: 16 },
        fraction: 250_000_000,
    };
    assert_eq!(h.minute(), 15);
    assert_eq!(h.second(), 0);
    assert_eq!(h.nanosecond(), 0);
}

#[test]
fn precision_drops() {
    let hms = HmsTime {
        hour: 1,
        minute: 2,
        second: 3,
    };
    assert_eq!(
        hms.to_hm(),
        HmTime {
            hour: 1,
            minute: 2
        }
    );
    assert_eq!(hms.to_h(), HTime { hour: 1 });

    let g = GlobalTime {
        local: LocalTime {
            naive: hms,
            fraction: 7,
        },
        timezone: 90,
    };
    assert_eq!(g.to_hm().local.naive.minute, 2);
    assert_eq!(g.to_hm().timezone, 90);
    assert_eq!(g.to_h().local.naive.hour, 1);

    let any = AnyTime::Local(LocalTime {
        naive: hms,
        fraction: 7,
    });
    assert_eq!(
        any.to_h(),
        AnyTime::Local(LocalTime {
            naive: HTime { hour: 1 },
            fraction: 7
        })
    );
}
