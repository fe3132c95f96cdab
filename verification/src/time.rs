//! Points in time and the whole seconds between them.

use vstd::prelude::*;

verus! {

/// The first second that the calendar of `chrono` holds, counted from 1970.
pub const FIRST_SECOND: i64 = -8_334_601_228_800;

/// The last second that the calendar of `chrono` holds, counted from 1970.
pub const LAST_SECOND: i64 = 8_210_266_876_799;

/// A date and time in UTC.
///
/// `secs` counts the seconds since 1970 without leap seconds. `nanos` counts on
/// from there and passes one thousand million only inside a leap second, which
/// follows the last second of a minute.
#[derive(Clone, Copy, Debug, PartialEq, Eq, Structural)]
pub struct Timestamp {
    secs: i64,
    nanos: u32,
}

/// Whether `chrono` has a date and time with these two parts.
pub open spec fn is_date_time(secs: int, nanos: int) -> bool {
    &&& FIRST_SECOND <= secs <= LAST_SECOND
    &&& 0 <= nanos < 2_000_000_000
    &&& nanos >= 1_000_000_000 ==> secs % 60 == 59
}

/// The second of the day.
pub open spec fn second_of_day(secs: int) -> int {
    secs % 86_400
}

/// The leap second to be counted between two points in time beyond what their
/// `secs` differ by. It is judged by the times of day alone.
pub open spec fn leap_between(later: Timestamp, earlier: Timestamp) -> int {
    if second_of_day(later.spec_secs()) > second_of_day(earlier.spec_secs())
        && earlier.spec_nanos() >= 1_000_000_000 {
        1
    } else if second_of_day(later.spec_secs()) < second_of_day(earlier.spec_secs())
        && later.spec_nanos() >= 1_000_000_000 {
        -1
    } else {
        0
    }
}

/// The nanoseconds from `earlier` to `later`; negative where `later` comes first.
pub open spec fn elapsed_nanos(later: Timestamp, earlier: Timestamp) -> int {
    (later.spec_secs() - earlier.spec_secs() + leap_between(later, earlier)) * 1_000_000_000
        + later.spec_nanos() - earlier.spec_nanos()
}

/// The whole seconds from `earlier` to `later`: a part of a second is dropped,
/// towards zero on either side of it.
pub open spec fn elapsed_seconds(later: Timestamp, earlier: Timestamp) -> int {
    let nanos = elapsed_nanos(later, earlier);
    if nanos >= 0 {
        nanos / 1_000_000_000
    } else {
        -((-nanos) / 1_000_000_000)
    }
}

impl Timestamp {
    /// The whole seconds since 1970, leap seconds left out.
    pub closed spec fn spec_secs(self) -> int {
        self.secs as int
    }

    /// The nanoseconds beyond the whole seconds.
    pub closed spec fn spec_nanos(self) -> int {
        self.nanos as int
    }

    /// A timestamp is a date and time that the calendar holds.
    pub open spec fn valid(self) -> bool {
        is_date_time(self.spec_secs(), self.spec_nanos())
    }

    #[verifier::type_invariant]
    spec fn holds_date_time(self) -> bool {
        is_date_time(self.secs as int, self.nanos as int)
    }

    /// The date and time with the given parts, where there is one.
    pub fn new(secs: i64, nanos: u32) -> (timestamp: Option<Timestamp>)
        ensures
            timestamp is Some <==> is_date_time(secs as int, nanos as int),
            timestamp matches Some(t) ==> t.spec_secs() == secs && t.spec_nanos() == nanos,
    {
        if secs < FIRST_SECOND || secs > LAST_SECOND || nanos >= 2_000_000_000 {
            return None;
        }
        // The calendar starts with a full minute.
        let second: i64 = (secs - FIRST_SECOND) % 60;
        if nanos >= 1_000_000_000 && second != 59 {
            return None;
        }
        Some(Timestamp { secs, nanos })
    }

    /// The whole seconds since 1970, leap seconds left out.
    pub fn secs(&self) -> (secs: i64)
        ensures
            secs == self.spec_secs(),
            self.valid(),
    {
        proof {
            use_type_invariant(self);
        }
        self.secs
    }

    /// The nanoseconds beyond the whole seconds.
    pub fn nanos(&self) -> (nanos: u32)
        ensures
            nanos == self.spec_nanos(),
            self.valid(),
    {
        proof {
            use_type_invariant(self);
        }
        self.nanos
    }

    /// The whole seconds from `earlier` to this point in time.
    pub fn seconds_since(self, earlier: Timestamp) -> (secs: i64)
        ensures
            secs == elapsed_seconds(self, earlier),
            self.valid(),
            earlier.valid(),
    {
        proof {
            use_type_invariant(&self);
            use_type_invariant(&earlier);
        }
        seconds_between(self, earlier)
    }
}

/// What the machine's clock may show: a date and time not before 1970 and not
/// inside a leap second.
pub open spec fn is_clock_reading(now: Timestamp) -> bool {
    &&& now.valid()
    &&& now.spec_secs() >= 0
    &&& now.spec_nanos() < 1_000_000_000
}

/// Calls `chrono::Utc::now`.
///
/// The machine's clock decides the value. It is a date and time of the
/// calendar, not before 1970 and not inside a leap second; the call panics on a
/// machine whose clock stands before 1970 or past the calendar's end.
#[verifier::external_body]
pub(crate) fn utc_now() -> (now: Timestamp)
    ensures
        is_clock_reading(now),
{
    let now = chrono::Utc::now();
    Timestamp { secs: now.timestamp(), nanos: now.timestamp_subsec_nanos() }
}

/// Calls `chrono::DateTime::signed_duration_since` and takes the
/// `chrono::TimeDelta::num_seconds` of what it returns.
///
/// The contract states the difference as the two methods compute it, leap
/// seconds included. Both arguments are dates and times that `chrono` holds, by
/// the invariant of their type, so turning them into its type cannot fail.
#[verifier::external_body]
fn seconds_between(later: Timestamp, earlier: Timestamp) -> (secs: i64)
    ensures
        secs == elapsed_seconds(later, earlier),
{
    let later = chrono::DateTime::from_timestamp(later.secs, later.nanos).unwrap();
    let earlier = chrono::DateTime::from_timestamp(earlier.secs, earlier.nanos).unwrap();
    later.signed_duration_since(earlier).num_seconds()
}

/// Time does not run backwards: between points outside leap seconds, what has
/// elapsed since a fixed moment never shrinks as the present moves on.
pub proof fn elapsed_seconds_grow(start: Timestamp, now: Timestamp, later: Timestamp)
    requires
        start.spec_nanos() < 1_000_000_000,
        0 <= now.spec_nanos() < 1_000_000_000,
        0 <= later.spec_nanos() < 1_000_000_000,
        now.spec_secs() < later.spec_secs() || (now.spec_secs() == later.spec_secs()
            && now.spec_nanos() <= later.spec_nanos()),
    ensures
        elapsed_seconds(now, start) <= elapsed_seconds(later, start),
{
}

/// What has elapsed between points outside leap seconds: no more than a second off
/// what the clock counts, whole seconds exactly, and the same back as forth.
pub proof fn elapsed_seconds_follow_the_clock(earlier: Timestamp, later: Timestamp)
    requires
        0 <= earlier.spec_nanos() < 1_000_000_000,
        0 <= later.spec_nanos() < 1_000_000_000,
    ensures
        later.spec_nanos() == earlier.spec_nanos() ==> elapsed_seconds(later, earlier)
            == later.spec_secs() - earlier.spec_secs(),
        -1 <= elapsed_seconds(later, earlier) - (later.spec_secs() - earlier.spec_secs()) <= 1,
        elapsed_seconds(later, earlier) == -elapsed_seconds(earlier, later),
        later.spec_secs() >= earlier.spec_secs() + 1 && later.spec_nanos() < earlier.spec_nanos()
            ==> elapsed_seconds(later, earlier) == later.spec_secs() - earlier.spec_secs() - 1,
        later.spec_secs() >= earlier.spec_secs() && later.spec_nanos() >= earlier.spec_nanos()
            ==> elapsed_seconds(later, earlier) == later.spec_secs() - earlier.spec_secs(),
{
}

/// A timestamp is within the calendar, and inside a leap second only where a minute
/// ends.
pub proof fn leap_seconds_end_minutes(secs: int, nanos: int)
    ensures
        is_date_time(secs, nanos) ==> -8_334_601_228_800 <= secs <= 8_210_266_876_799,
        is_date_time(secs, nanos) ==> 0 <= nanos < 2_000_000_000,
        is_date_time(secs, nanos) && nanos >= 1_000_000_000 ==> (secs + 1) % 60 == 0,
        -8_334_601_228_800 <= secs <= 8_210_266_876_799 && 0 <= nanos < 1_000_000_000
            ==> is_date_time(secs, nanos),
        -8_334_601_228_800 <= secs <= 8_210_266_876_799 && 1_000_000_000 <= nanos < 2_000_000_000
            && (secs + 1) % 60 == 0 ==> is_date_time(secs, nanos),
{
}

} // verus!
