//! Temporal scalar kinds. Each is an integer count from an epoch or from midnight.
use vstd::prelude::*;

use crate::error::ConversionError;

verus! {

/// Nanoseconds from the unix epoch (1 Jan 1970) to the epoch of the store (1 Jan 2000).
pub const K_NANO_OFFSET: i64 = 946_684_800_000_000_000;

/// Seconds from the unix epoch to 1 Jan 2000.
pub const K_SEC_OFFSET: i64 = 946_684_800;

/// Days from the unix epoch to 1 Jan 2000.
pub const K_DAY_OFFSET: i32 = 10_957;

/// Seconds in a day.
pub const SECONDS_PER_DAY: u64 = 86_400;

/// The number of seconds since midnight.
#[derive(Clone, Copy, Debug, PartialEq, Eq, Structural)]
pub struct Second(pub i32);

/// The number of minutes since midnight.
#[derive(Clone, Copy, Debug, PartialEq, Eq, Structural)]
pub struct Minute(pub i32);

/// The number of days since 1 Jan 2000.
#[derive(Clone, Copy, Debug, PartialEq, Eq, Structural)]
pub struct Date(pub i32);

/// The number of months since January 2000.
#[derive(Clone, Copy, Debug, PartialEq, Eq, Structural)]
pub struct Month(pub i32);

/// The number of milliseconds since midnight.
#[derive(Clone, Copy, Debug, PartialEq, Eq, Structural)]
pub struct Time(pub i32);

/// The number of nanoseconds since 1 Jan 2000.
#[derive(Clone, Copy, Debug, PartialEq, Eq, Structural)]
pub struct Timestamp(pub i64);

/// The number of nanoseconds since midnight.
#[derive(Clone, Copy, Debug, PartialEq, Eq, Structural)]
pub struct Timespan(pub i64);

impl Second {
    pub fn new(seconds_since_midnight: i32) -> (r: Self)
        ensures
            r.0 == seconds_since_midnight,
    {
        Second(seconds_since_midnight)
    }
}

impl Minute {
    pub fn new(minutes_since_midnight: i32) -> (r: Self)
        ensures
            r.0 == minutes_since_midnight,
    {
        Minute(minutes_since_midnight)
    }
}

impl Month {
    pub fn new(months_since_millenium: i32) -> (r: Self)
        ensures
            r.0 == months_since_millenium,
    {
        Month(months_since_millenium)
    }
}

impl Time {
    pub fn new(millis_since_midnight: i32) -> (r: Self)
        ensures
            r.0 == millis_since_midnight,
    {
        Time(millis_since_midnight)
    }
}

impl Timespan {
    pub fn new(nanos_since_midnight: i64) -> (r: Self)
        ensures
            r.0 == nanos_since_midnight,
    {
        Timespan(nanos_since_midnight)
    }

    /// A timespan from a count of nanoseconds, which must fit in the timespan type.
    pub fn try_from_nanos(nanos: u128) -> (r: Result<Timespan, ConversionError>)
        ensures
            nanos <= i64::MAX ==> r == Ok::<Timespan, ConversionError>(Timespan(nanos as i64)),
            nanos > i64::MAX ==> r == Err::<Timespan, ConversionError>(
                ConversionError::DurationTooLong,
            ),
    {
        if nanos > i64::MAX as u128 {
            Err(ConversionError::DurationTooLong)
        } else {
            Ok(Timespan(nanos as i64))
        }
    }
}

/// Days from 1 Jan 2000 to the given day of the proleptic Gregorian calendar.
pub open spec fn days_since_millennium(year: int, month: int, day: int) -> int {
    let y = if month <= 2 { year - 1 } else { year };
    let mp = if month > 2 { month - 3 } else { month + 9 };
    let day_of_year = (153 * mp + 2) / 5 + day - 1;
    y * 365 + y / 4 - y / 100 + y / 400 + day_of_year - 730_425
}

/// `a / b` rounded down, for a positive `b`.
fn floor_div(a: i64, b: i64) -> (r: i64)
    requires
        b > 0,
    ensures
        r == a as int / b as int,
        a >= 0 ==> 0 <= r && r <= a,
        a < 0 ==> a <= r && r < 0,
{
    proof {
        let q: int = a as int / b as int;
        assert(a >= 0 ==> 0 <= q && q <= a) by (nonlinear_arith)
            requires
                b > 0,
                q == a as int / b as int,
        ;
        assert(a < 0 ==> a <= q && q < 0) by (nonlinear_arith)
            requires
                b > 0,
                q == a as int / b as int,
        ;
    }
    a.checked_div_euclid(b).unwrap()
}

impl Date {
    /// The date of a day of the proleptic Gregorian calendar, given as year, month and day.
    /// A month outside 1 to 12, or a day past the month's end, counts on from the month the
    /// formula gives, as the calendar conversion does. The day count must fit the date type.
    pub fn new(year: i32, month: i32, day: i32) -> (r: Self)
        requires
            i32::MIN <= days_since_millennium(year as int, month as int, day as int) <= i32::MAX,
        ensures
            r.0 == days_since_millennium(year as int, month as int, day as int),
    {
        let y: i64 = if month <= 2 { year as i64 - 1 } else { year as i64 };
        let mp: i64 = if month > 2 { month as i64 - 3 } else { month as i64 + 9 };
        let day_of_year: i64 = floor_div(153 * mp + 2, 5) + day as i64 - 1;
        let days: i64 = y * 365 + floor_div(y, 4) - floor_div(y, 100) + floor_div(y, 400) + day_of_year
            - 730_425;
        Date(days as i32)
    }

    /// The date that holds the given count of seconds since the unix epoch.
    pub fn from_unix_secs(secs: u64) -> (r: Self)
        requires
            secs / SECONDS_PER_DAY <= i32::MAX,
        ensures
            r.0 == (secs / SECONDS_PER_DAY) as int - K_DAY_OFFSET,
    {
        let days: u64 = secs / SECONDS_PER_DAY;
        Date(days as i32 - K_DAY_OFFSET)
    }

    /// Seconds since the unix epoch at the start of the date.
    pub fn to_unix_secs(self) -> (r: i64)
        ensures
            r == self.0 as int * SECONDS_PER_DAY + K_SEC_OFFSET,
    {
        self.0 as i64 * 86_400 + K_SEC_OFFSET
    }
}

impl Timestamp {
    /// A timestamp from a count of nanoseconds since the unix epoch.
    pub fn from_nanos_unix(n: u64) -> (r: Timestamp)
        requires
            (n as i64) >= i64::MIN + K_NANO_OFFSET,
        ensures
            r.0 == (n as i64) - K_NANO_OFFSET,
    {
        Timestamp(n as i64 - K_NANO_OFFSET)
    }

    /// The count of nanoseconds since the unix epoch.
    pub fn to_nanos_unix(&self) -> (r: u64)
        requires
            self.0 <= i64::MAX - K_NANO_OFFSET,
        ensures
            r == (self.0 + K_NANO_OFFSET) as u64,
    {
        (self.0 + K_NANO_OFFSET) as u64
    }

    /// The stored count of nanoseconds since 1 Jan 2000.
    pub fn as_raw(&self) -> (r: i64)
        ensures
            r == self.0,
    {
        self.0
    }

    /// A timestamp from a count of nanoseconds since 1 Jan 2000.
    pub fn from_raw(nanos_since_millenium: i64) -> (r: Timestamp)
        ensures
            r.0 == nanos_since_millenium,
    {
        Timestamp(nanos_since_millenium)
    }
}

/// The calendar conversion puts 1 Jan 2000 at day zero, and the offsets between the
/// unix epoch and the store's epoch agree with each other.
pub proof fn lemma_epochs_agree()
    ensures
        days_since_millennium(2000, 1, 1) == 0,
        days_since_millennium(1970, 1, 1) == -K_DAY_OFFSET,
        K_SEC_OFFSET == K_DAY_OFFSET * SECONDS_PER_DAY,
        K_NANO_OFFSET == K_SEC_OFFSET * 1_000_000_000,
{
}

} // verus!
