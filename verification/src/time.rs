//! Points in time and spans of time, to the nanosecond.

use vstd::prelude::*;

verus! {

/// Nanoseconds in a millisecond.
pub const NANOS_PER_MILLI: u128 = 1_000_000;

/// Nanoseconds in a second.
pub const NANOS_PER_SEC: u128 = 1_000_000_000;

/// The values that 64 bits can tell apart.
pub const TWO_POW_64: u128 = 0x1_0000_0000_0000_0000;

/// A span of time. Its view is its length in nanoseconds.
#[derive(Clone, Copy, Debug, PartialEq, Eq, Structural)]
pub struct Duration {
    pub nanos: u128,
}

/// A point in time. Its view is its distance from the Unix epoch in nanoseconds, which is
/// negative for what lies before it.
#[derive(Clone, Copy, Debug, PartialEq, Eq, Structural)]
pub struct SystemTime {
    pub nanos: i128,
}

impl View for Duration {
    type V = int;

    open spec fn view(&self) -> int {
        self.nanos as int
    }
}

impl View for SystemTime {
    type V = int;

    open spec fn view(&self) -> int {
        self.nanos as int
    }
}

/// What is left of `n` when only its low 64 bits are kept.
pub open spec fn low_u64(n: int) -> u64 {
    (n % 0x1_0000_0000_0000_0000) as u64
}

/// What is left of `n` when only its low 64 bits are kept and read as a signed number.
pub open spec fn low_i64(n: int) -> i64 {
    let low = n % 0x1_0000_0000_0000_0000;
    if low < 0x8000_0000_0000_0000 {
        low as i64
    } else {
        (low - 0x1_0000_0000_0000_0000) as i64
    }
}

/// How long after `earlier` the moment `later` comes, in nanoseconds; nothing where it does
/// not come after it.
pub open spec fn elapsed(later: SystemTime, earlier: SystemTime) -> int {
    if later@ >= earlier@ {
        later@ - earlier@
    } else {
        0
    }
}

/// Keeps the low 64 bits of `n`.
pub fn truncate_u64(n: u128) -> (low: u64)
    ensures
        low == low_u64(n as int),
{
    (n % TWO_POW_64) as u64
}

/// Keeps the low 64 bits of `n` and reads them as a signed number.
pub fn truncate_i64(n: u128) -> (low: i64)
    ensures
        low == low_i64(n as int),
{
    let low: u128 = n % TWO_POW_64;
    if low < 0x8000_0000_0000_0000 {
        low as i64
    } else {
        (low as i128 - 0x1_0000_0000_0000_0000i128) as i64
    }
}

impl Duration {
    /// The span of `millis` milliseconds.
    pub fn from_millis(millis: u64) -> (d: Duration)
        ensures
            d@ == millis * NANOS_PER_MILLI,
    {
        Duration { nanos: millis as u128 * NANOS_PER_MILLI }
    }

    /// The span of `secs` seconds.
    pub fn from_secs(secs: u64) -> (d: Duration)
        ensures
            d@ == secs * NANOS_PER_SEC,
    {
        Duration { nanos: secs as u128 * NANOS_PER_SEC }
    }

    /// The whole milliseconds in the span.
    pub fn as_millis(&self) -> (millis: u128)
        ensures
            millis == self@ / NANOS_PER_MILLI as int,
    {
        self.nanos / NANOS_PER_MILLI
    }
}

/// The magnitude of the distance from `low` up to `high`.
fn distance(high: i128, low: i128) -> (d: u128)
    requires
        low <= high,
    ensures
        d == high - low,
{
    if low >= 0 || high < 0 {
        (high - low) as u128
    } else {
        high as u128 + (-(low + 1)) as u128 + 1
    }
}

impl SystemTime {
    /// The moment from which times are counted.
    pub fn unix_epoch() -> (t: SystemTime)
        ensures
            t@ == 0,
    {
        SystemTime { nanos: 0 }
    }

    /// How far this moment lies after `earlier`, or else how far before it.
    pub fn duration_since(&self, earlier: SystemTime) -> (r: Result<Duration, Duration>)
        ensures
            match r {
                Ok(d) => self@ >= earlier@ && d@ == self@ - earlier@,
                Err(d) => self@ < earlier@ && d@ == earlier@ - self@,
            },
    {
        if self.nanos >= earlier.nanos {
            Ok(Duration { nanos: distance(self.nanos, earlier.nanos) })
        } else {
            Err(Duration { nanos: distance(earlier.nanos, self.nanos) })
        }
    }

    /// How far this moment lies after `earlier`; nothing where it does not.
    pub fn since(&self, earlier: SystemTime) -> (d: Duration)
        ensures
            d@ == elapsed(*self, earlier),
    {
        match self.duration_since(earlier) {
            Ok(d) => d,
            Err(_) => Duration { nanos: 0 },
        }
    }

    /// The moment `d` after this one.
    pub fn after(&self, d: Duration) -> (t: SystemTime)
        requires
            self@ + d@ <= i128::MAX,
        ensures
            t@ == self@ + d@,
    {
        let quarter: i128 = (d.nanos / 4) as i128;
        let rest: i128 = (d.nanos - 3 * (d.nanos / 4)) as i128;
        SystemTime { nanos: self.nanos + quarter + quarter + quarter + rest }
    }

    /// The moment `d` before this one.
    pub fn before(&self, d: Duration) -> (t: SystemTime)
        requires
            self@ - d@ >= i128::MIN,
        ensures
            t@ == self@ - d@,
    {
        let quarter: i128 = (d.nanos / 4) as i128;
        let rest: i128 = (d.nanos - 3 * (d.nanos / 4)) as i128;
        SystemTime { nanos: self.nanos - quarter - quarter - quarter - rest }
    }

    /// The moment `d` before this one, if there is one.
    pub fn checked_sub(&self, d: Duration) -> (t: Option<SystemTime>)
        ensures
            match t {
                Some(t) => t@ == self@ - d@,
                None => self@ - d@ < i128::MIN,
            },
    {
        if d.nanos > distance(self.nanos, i128::MIN) {
            None
        } else {
            Some(self.before(d))
        }
    }

    /// Whether this moment is `other` or comes after it.
    pub fn reached(&self, other: SystemTime) -> (b: bool)
        ensures
            b == (self@ >= other@),
    {
        self.nanos >= other.nanos
    }

    /// Whether a moment `d` after this one can be told.
    pub fn has_after(&self, d: Duration) -> (b: bool)
        ensures
            b == (self@ + d@ <= i128::MAX),
    {
        d.nanos <= distance(i128::MAX, self.nanos)
    }
}

} // verus!
