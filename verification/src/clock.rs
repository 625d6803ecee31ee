//! Times of day with nanosecond precision, measured by `chrono`.

use chrono::NaiveTime;
use chrono::Timelike;
use vstd::prelude::*;

verus! {

/// Nanoseconds in one second.
pub const NANOS_PER_SEC: i64 = 1_000_000_000;

/// Nanoseconds in one day of 24 hours.
pub const NANOS_PER_DAY: i64 = 86_400_000_000_000;

/// Whether `secs` seconds after midnight plus `frac` nanoseconds is a time of
/// day. A fraction of a second or more stands for a leap second, which may
/// only follow the last second of a minute.
pub open spec fn is_time_of_day(secs: int, frac: int) -> bool {
    &&& 0 <= secs < 86_400
    &&& 0 <= frac < 2_000_000_000
    &&& (frac >= 1_000_000_000 ==> secs % 60 == 59)
}

/// The signed number of nanoseconds from the time `(b_secs, b_frac)` to the
/// time `(a_secs, a_frac)` of the same day. A leap second that the earlier of
/// the two times stands in is counted; no other is assumed to exist.
pub open spec fn nanos_between(a_secs: int, a_frac: int, b_secs: int, b_frac: int) -> int {
    let leap: int = if a_secs > b_secs && b_frac >= 1_000_000_000 {
        1
    } else if a_secs < b_secs && a_frac >= 1_000_000_000 {
        -1
    } else {
        0
    };
    (a_secs - b_secs + leap) * 1_000_000_000 + (a_frac - b_frac)
}

/// Whether `hour:min:sec` names a second of the day.
pub open spec fn is_hms(hour: int, min: int, sec: int) -> bool {
    0 <= hour < 24 && 0 <= min < 60 && 0 <= sec < 60
}

/// `chrono::NaiveTime::from_hms_opt`, read back through
/// `Timelike::num_seconds_from_midnight` and `Timelike::nanosecond`.
///
/// Trusted: the time exists exactly when hour, minute and second are in
/// range, and is then that many whole seconds after midnight.
#[verifier::external_body]
fn naive_time_from_hms(hour: u32, min: u32, sec: u32) -> (time: Option<(u32, u32)>)
    ensures
        (time is Some) == is_hms(hour as int, min as int, sec as int),
        time is Some ==> time == Some(((hour * 3600 + min * 60 + sec) as u32, 0u32)),
{
    match NaiveTime::from_hms_opt(hour, min, sec) {
        Some(t) => Some((t.num_seconds_from_midnight(), t.nanosecond())),
        None => None,
    }
}

/// `chrono::NaiveTime::signed_duration_since` on two times built with
/// `NaiveTime::from_num_seconds_from_midnight_opt`, read back through
/// `TimeDelta::num_nanoseconds`.
///
/// Trusted: for two times of day the difference is `nanos_between`, and it
/// fits the result.
#[verifier::external_body]
fn naive_time_since(a_secs: u32, a_frac: u32, b_secs: u32, b_frac: u32) -> (d: Option<i64>)
    requires
        is_time_of_day(a_secs as int, a_frac as int),
        is_time_of_day(b_secs as int, b_frac as int),
    ensures
        d is Some,
        d->0 == nanos_between(a_secs as int, a_frac as int, b_secs as int, b_frac as int),
{
    let a = NaiveTime::from_num_seconds_from_midnight_opt(a_secs, a_frac)?;
    let b = NaiveTime::from_num_seconds_from_midnight_opt(b_secs, b_frac)?;
    a.signed_duration_since(b).num_nanoseconds()
}

/// A time of day without a date or a time zone.
#[derive(Clone, Copy, Debug)]
pub struct TimeOfDay {
    secs: u32,
    frac: u32,
}

impl TimeOfDay {
    /// Whole seconds since midnight.
    pub closed spec fn secs(self) -> int {
        self.secs as int
    }

    /// Nanoseconds since the last whole second; a thousand million or more
    /// inside a leap second.
    pub closed spec fn frac(self) -> int {
        self.frac as int
    }

    /// Every value of the type is a time of day.
    #[verifier::type_invariant]
    pub open spec fn wf(self) -> bool {
        is_time_of_day(self.secs(), self.frac())
    }

    /// The time `hour:min:sec`, on the whole second.
    pub closed spec fn at(hour: int, min: int, sec: int) -> TimeOfDay {
        TimeOfDay { secs: (hour * 3600 + min * 60 + sec) as u32, frac: 0 }
    }

    /// Whether `self` comes earlier in the day than `other`.
    pub open spec fn before(self, other: TimeOfDay) -> bool {
        self.secs() < other.secs() || (self.secs() == other.secs() && self.frac() < other.frac())
    }

    /// Signed nanoseconds from `earlier` to `self`.
    pub open spec fn nanos_since(self, earlier: TimeOfDay) -> int {
        nanos_between(self.secs(), self.frac(), earlier.secs(), earlier.frac())
    }

    /// The time `secs` seconds and `frac` nanoseconds after midnight, if
    /// there is one.
    pub fn new(secs: u32, frac: u32) -> (t: Option<TimeOfDay>)
        ensures
            t is Some <==> is_time_of_day(secs as int, frac as int),
            t matches Some(t) ==> t.secs() == secs && t.frac() == frac && t.wf(),
    {
        if secs >= 86_400 || frac >= 2_000_000_000 || (frac >= 1_000_000_000 && secs % 60 != 59) {
            None
        } else {
            Some(TimeOfDay { secs, frac })
        }
    }

    /// The time `hour:min:sec`, if the three are in range.
    pub fn from_hms(hour: u32, min: u32, sec: u32) -> (t: Option<TimeOfDay>)
        ensures
            t is Some <==> is_hms(hour as int, min as int, sec as int),
            t is Some ==> t == Some(TimeOfDay::at(hour as int, min as int, sec as int)),
    {
        match naive_time_from_hms(hour, min, sec) {
            Some((secs, frac)) => Some(TimeOfDay { secs, frac }),
            None => None,
        }
    }

    /// What `at` holds, for a second of the day.
    pub proof fn lemma_at(hour: int, min: int, sec: int)
        requires
            is_hms(hour, min, sec),
        ensures
            TimeOfDay::at(hour, min, sec).secs() == hour * 3600 + min * 60 + sec,
            TimeOfDay::at(hour, min, sec).frac() == 0,
            TimeOfDay::at(hour, min, sec).wf(),
    {
    }

    /// Whole seconds since midnight.
    pub fn seconds_from_midnight(&self) -> (s: u32)
        ensures
            s == self.secs(),
    {
        self.secs
    }

    /// Nanoseconds since the last whole second.
    pub fn nanosecond(&self) -> (n: u32)
        ensures
            n == self.frac(),
    {
        self.frac
    }

    /// Whether `self` comes earlier in the day than `other`.
    pub fn is_before(&self, other: &TimeOfDay) -> (b: bool)
        ensures
            b == self.before(*other),
    {
        self.secs < other.secs || (self.secs == other.secs && self.frac < other.frac)
    }

    /// Signed nanoseconds from `earlier` to `self`, both taken on one day.
    pub fn signed_nanos_since(&self, earlier: &TimeOfDay) -> (d: i64)
        ensures
            d == self.nanos_since(*earlier),
    {
        proof {
            use_type_invariant(self);
            use_type_invariant(earlier);
        }
        naive_time_since(self.secs, self.frac, earlier.secs, earlier.frac).unwrap()
    }
}

} // verus!
