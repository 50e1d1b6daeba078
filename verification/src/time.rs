//! Time-of-day at three precisions (hour, hour-minute, hour-minute-second),
//! each optionally carrying a decimal fraction of its least significant
//! field, and a UTC-offset wrapper.
//!
//! A fraction is held exactly, as an integer numerator over 10^9; a value
//! below one corresponds to a numerator below [`FRACTION_UNIT`].

use vstd::prelude::*;

use crate::Valid;

verus! {

/// Denominator of every time fraction: a numerator of `FRACTION_UNIT`
/// would be a whole unit of the fraction's field.
pub const FRACTION_UNIT: u32 = 1_000_000_000;

/// Time of day to the second.
#[derive(Eq, PartialEq, Clone, Copy, Debug)]
pub struct HmsTime {
    pub hour: u8,
    pub minute: u8,
    pub second: u8,
}

/// Time of day to the minute.
#[derive(Eq, PartialEq, Clone, Copy, Debug)]
pub struct HmTime {
    pub hour: u8,
    pub minute: u8,
}

/// Time of day to the hour.
#[derive(Eq, PartialEq, Clone, Copy, Debug)]
pub struct HTime {
    pub hour: u8,
}

/// Marker for the three naive (offset-free, fraction-free) precisions.
pub trait NaiveTime {

}

impl NaiveTime for HmsTime {

}

impl NaiveTime for HmTime {

}

impl NaiveTime for HTime {

}

/// A naive time together with a decimal fraction of its least significant
/// field, held as a numerator over 10^9.
#[derive(Eq, PartialEq, Clone, Copy, Debug)]
pub struct LocalTime<N: NaiveTime> {
    pub naive: N,
    pub fraction: u32,
}

/// A local time together with its difference from UTC in minutes.
#[derive(Eq, PartialEq, Clone, Copy, Debug)]
pub struct GlobalTime<N: NaiveTime> {
    pub local: LocalTime<N>,
    /// Difference from UTC in minutes.
    pub timezone: i16,
}

/// A time that either carries a UTC offset or does not.
#[derive(Eq, PartialEq, Clone, Copy, Debug)]
pub enum AnyTime<N: NaiveTime> {
    Global(GlobalTime<N>),
    Local(LocalTime<N>),
}

/// A naive time of one of the three precisions.
#[derive(Eq, PartialEq, Clone, Copy, Debug)]
pub enum ApproxNaiveTime {
    HMS(HmsTime),
    HM(HmTime),
    H(HTime),
}

/// A local time of one of the three precisions.
#[derive(Eq, PartialEq, Clone, Copy, Debug)]
pub enum ApproxLocalTime {
    HMS(LocalTime<HmsTime>),
    HM(LocalTime<HmTime>),
    H(LocalTime<HTime>),
}

/// An offset-bearing time of one of the three precisions.
#[derive(Eq, PartialEq, Clone, Copy, Debug)]
pub enum ApproxGlobalTime {
    HMS(GlobalTime<HmsTime>),
    HM(GlobalTime<HmTime>),
    H(GlobalTime<HTime>),
}

/// An offset-bearing or offset-free time of one of the three precisions.
#[derive(Eq, PartialEq, Clone, Copy, Debug)]
pub enum ApproxAnyTime {
    HMS(AnyTime<HmsTime>),
    HM(AnyTime<HmTime>),
    H(AnyTime<HTime>),
}

/// Marker for every time representation.
pub trait Timelike {

}

impl Timelike for HmsTime {

}

impl Timelike for HmTime {

}

impl Timelike for HTime {

}

impl<N: NaiveTime> Timelike for LocalTime<N> {

}

impl<N: NaiveTime> Timelike for GlobalTime<N> {

}

impl<N: NaiveTime> Timelike for AnyTime<N> {

}

impl Timelike for ApproxLocalTime {

}

impl Timelike for ApproxGlobalTime {

}

impl Timelike for ApproxAnyTime {

}

impl Valid for HmsTime {
    /// A second of 60 is accepted on any day, since leap seconds are not
    /// predictable.
    open spec fn valid_spec(&self) -> bool {
        self.hour <= 24 && self.minute <= 59 && self.second <= 60
    }

    fn is_valid(&self) -> (r: bool) {
        let hm = self.to_hm();
        hm.is_valid() && self.second <= 60
    }
}

impl Valid for HmTime {
    open spec fn valid_spec(&self) -> bool {
        self.hour <= 24 && self.minute <= 59
    }

    fn is_valid(&self) -> (r: bool) {
        let h = self.to_h();
        h.is_valid() && self.minute <= 59
    }
}

impl Valid for HTime {
    open spec fn valid_spec(&self) -> bool {
        self.hour <= 24
    }

    fn is_valid(&self) -> (r: bool) {
        self.hour <= 24
    }
}

impl<N: NaiveTime + Valid> Valid for LocalTime<N> {
    /// The fraction must denote a value below one.
    open spec fn valid_spec(&self) -> bool {
        self.naive.valid_spec() && self.fraction < FRACTION_UNIT
    }

    fn is_valid(&self) -> (r: bool) {
        self.naive.is_valid() && self.fraction < FRACTION_UNIT
    }
}

impl<N: NaiveTime + Valid> Valid for GlobalTime<N> {
    /// The offset must lie strictly within a day in either direction.
    open spec fn valid_spec(&self) -> bool {
        self.local.valid_spec() && -24 * 60 < self.timezone && self.timezone < 24 * 60
    }

    fn is_valid(&self) -> (r: bool) {
        self.local.is_valid() && self.timezone > -24 * 60 && self.timezone < 24 * 60
    }
}

impl<N: NaiveTime + Valid> Valid for AnyTime<N> {
    open spec fn valid_spec(&self) -> bool {
        match self {
            AnyTime::Global(time) => time.valid_spec(),
            AnyTime::Local(time) => time.valid_spec(),
        }
    }

    fn is_valid(&self) -> (r: bool) {
        match self {
            AnyTime::Global(time) => time.is_valid(),
            AnyTime::Local(time) => time.is_valid(),
        }
    }
}

impl HmsTime {
    /// Drops the second.
    pub fn to_hm(&self) -> (r: HmTime)
        ensures
            r == (HmTime { hour: self.hour, minute: self.minute }),
    {
        HmTime { hour: self.hour, minute: self.minute }
    }

    /// Drops the minute and second.
    pub fn to_h(&self) -> (r: HTime)
        ensures
            r == (HTime { hour: self.hour }),
    {
        HTime { hour: self.hour }
    }
}

impl HmTime {
    /// Drops the minute.
    pub fn to_h(&self) -> (r: HTime)
        ensures
            r == (HTime { hour: self.hour }),
    {
        HTime { hour: self.hour }
    }
}

impl LocalTime<HmsTime> {
    /// The fraction of the second, in nanoseconds.
    pub fn nanosecond(&self) -> (r: u32)
        ensures
            r == self.fraction,
    {
        self.fraction
    }

    /// Drops the second; the fraction is kept as a fraction of the
    /// minute's second field no longer present, so it is dropped too.
    pub fn to_hm(&self) -> (r: LocalTime<HmTime>)
        ensures
            r == (LocalTime {
                naive: HmTime { hour: self.naive.hour, minute: self.naive.minute },
                fraction: self.fraction,
            }),
    {
        LocalTime { naive: self.naive.to_hm(), fraction: self.fraction }
    }

    /// Drops the minute and second.
    pub fn to_h(&self) -> (r: LocalTime<HTime>)
        ensures
            r == (LocalTime { naive: HTime { hour: self.naive.hour }, fraction: self.fraction }),
    {
        LocalTime { naive: self.naive.to_h(), fraction: self.fraction }
    }
}

impl LocalTime<HmTime> {
    /// The whole seconds the minute fraction denotes.
    pub fn second(&self) -> (r: u8)
        requires
            self.fraction < FRACTION_UNIT,
        ensures
            r as int == self.fraction * 60 / (FRACTION_UNIT as int),
    {
        let v: u64 = self.fraction as u64 * 60;
        proof {
            vstd::arithmetic::div_mod::lemma_fundamental_div_mod(v as int, FRACTION_UNIT as int);
            vstd::arithmetic::div_mod::lemma_mod_division_less_than_divisor(
                v as int,
                FRACTION_UNIT as int,
            );
        }
        (v / FRACTION_UNIT as u64) as u8
    }

    /// The nanoseconds within the current second that the minute fraction
    /// denotes.
    pub fn nanosecond(&self) -> (r: u32)
        requires
            self.fraction < FRACTION_UNIT,
        ensures
            r as int == self.fraction * 60 % (FRACTION_UNIT as int),
    {
        let v: u64 = self.fraction as u64 * 60;
        proof {
            vstd::arithmetic::div_mod::lemma_mod_division_less_than_divisor(
                v as int,
                FRACTION_UNIT as int,
            );
        }
        (v % FRACTION_UNIT as u64) as u32
    }

    /// Drops the minute and its fraction.
    pub fn to_h(&self) -> (r: LocalTime<HTime>)
        ensures
            r == (LocalTime { naive: HTime { hour: self.naive.hour }, fraction: self.fraction }),
    {
        LocalTime { naive: self.naive.to_h(), fraction: self.fraction }
    }
}

impl LocalTime<HTime> {
    /// The whole minutes the hour fraction denotes.
    pub fn minute(&self) -> (r: u8)
        requires
            self.fraction < FRACTION_UNIT,
        ensures
            r as int == self.fraction * 60 / (FRACTION_UNIT as int),
    {
        let v: u64 = self.fraction as u64 * 60;
        proof {
            vstd::arithmetic::div_mod::lemma_fundamental_div_mod(v as int, FRACTION_UNIT as int);
            vstd::arithmetic::div_mod::lemma_mod_division_less_than_divisor(
                v as int,
                FRACTION_UNIT as int,
            );
        }
        (v / FRACTION_UNIT as u64) as u8
    }

    /// The whole seconds within the current minute that the hour fraction
    /// denotes.
    pub fn second(&self) -> (r: u8)
        requires
            self.fraction < FRACTION_UNIT,
        ensures
            r as int == self.fraction * 3600 / (FRACTION_UNIT as int) % 60,
    {
        let v: u64 = self.fraction as u64 * 3600;
        proof {
            vstd::arithmetic::div_mod::lemma_fundamental_div_mod(v as int, FRACTION_UNIT as int);
            vstd::arithmetic::div_mod::lemma_mod_division_less_than_divisor(
                v as int,
                FRACTION_UNIT as int,
            );
            vstd::arithmetic::div_mod::lemma_mod_division_less_than_divisor(
                v as int / (FRACTION_UNIT as int),
                60,
            );
        }
        (v / FRACTION_UNIT as u64 % 60) as u8
    }

    /// The nanoseconds within the current second that the hour fraction
    /// denotes.
    pub fn nanosecond(&self) -> (r: u32)
        requires
            self.fraction < FRACTION_UNIT,
        ensures
            r as int == self.fraction * 3600 % (FRACTION_UNIT as int),
    {
        let v: u64 = self.fraction as u64 * 3600;
        proof {
            vstd::arithmetic::div_mod::lemma_mod_division_less_than_divisor(
                v as int,
                FRACTION_UNIT as int,
            );
        }
        (v % FRACTION_UNIT as u64) as u32
    }
}

impl GlobalTime<HmsTime> {
    /// Drops the second and its fraction, keeping the offset.
    pub fn to_hm(&self) -> (r: GlobalTime<HmTime>)
        ensures
            r == (GlobalTime {
                local: LocalTime {
                    naive: HmTime { hour: self.local.naive.hour, minute: self.local.naive.minute },
                    fraction: self.local.fraction,
                },
                timezone: self.timezone,
            }),
    {
        GlobalTime { local: self.local.to_hm(), timezone: self.timezone }
    }

    /// Drops the minute and second, keeping the offset.
    pub fn to_h(&self) -> (r: GlobalTime<HTime>)
        ensures
            r == (GlobalTime {
                local: LocalTime {
                    naive: HTime { hour: self.local.naive.hour },
                    fraction: self.local.fraction,
                },
                timezone: self.timezone,
            }),
    {
        GlobalTime { local: self.local.to_h(), timezone: self.timezone }
    }
}

impl GlobalTime<HmTime> {
    /// Drops the minute and its fraction, keeping the offset.
    pub fn to_h(&self) -> (r: GlobalTime<HTime>)
        ensures
            r == (GlobalTime {
                local: LocalTime {
                    naive: HTime { hour: self.local.naive.hour },
                    fraction: self.local.fraction,
                },
                timezone: self.timezone,
            }),
    {
        GlobalTime { local: self.local.to_h(), timezone: self.timezone }
    }
}

impl AnyTime<HmsTime> {
    /// Drops the second in either variant.
    pub fn to_hm(&self) -> (r: AnyTime<HmTime>)
        ensures
            r == match *self {
                AnyTime::Global(t) => AnyTime::Global(
                    GlobalTime {
                        local: LocalTime {
                            naive: HmTime {
                                hour: t.local.naive.hour,
                                minute: t.local.naive.minute,
                            },
                            fraction: t.local.fraction,
                        },
                        timezone: t.timezone,
                    },
                ),
                AnyTime::Local(t) => AnyTime::Local(
                    LocalTime {
                        naive: HmTime { hour: t.naive.hour, minute: t.naive.minute },
                        fraction: t.fraction,
                    },
                ),
            },
    {
        match self {
            AnyTime::Global(t) => AnyTime::Global(t.to_hm()),
            AnyTime::Local(t) => AnyTime::Local(t.to_hm()),
        }
    }

    /// Drops the minute and second in either variant.
    pub fn to_h(&self) -> (r: AnyTime<HTime>)
        ensures
            r == match *self {
                AnyTime::Global(t) => AnyTime::Global(
                    GlobalTime {
                        local: LocalTime {
                            naive: HTime { hour: t.local.naive.hour },
                            fraction: t.local.fraction,
                        },
                        timezone: t.timezone,
                    },
                ),
                AnyTime::Local(t) => AnyTime::Local(
                    LocalTime { naive: HTime { hour: t.naive.hour }, fraction: t.fraction },
                ),
            },
    {
        match self {
            AnyTime::Global(t) => AnyTime::Global(t.to_h()),
            AnyTime::Local(t) => AnyTime::Local(t.to_h()),
        }
    }
}

impl AnyTime<HmTime> {
    /// Drops the minute in either variant.
    pub fn to_h(&self) -> (r: AnyTime<HTime>)
        ensures
            r == match *self {
                AnyTime::Global(t) => AnyTime::Global(
                    GlobalTime {
                        local: LocalTime {
                            naive: HTime { hour: t.local.naive.hour },
                            fraction: t.local.fraction,
                        },
                        timezone: t.timezone,
                    },
                ),
                AnyTime::Local(t) => AnyTime::Local(
                    LocalTime { naive: HTime { hour: t.naive.hour }, fraction: t.fraction },
                ),
            },
    {
        match self {
            AnyTime::Global(t) => AnyTime::Global(t.to_h()),
            AnyTime::Local(t) => AnyTime::Local(t.to_h()),
        }
    }
}

} // verus!
