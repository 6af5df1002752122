//! Instants of the UTC calendar and their protobuf timestamps.
use chrono::{NaiveDate, NaiveTime, Timelike};
use vstd::prelude::*;

verus! {

/// The first day of the calendar, the first of January of the year -262143.
pub const FIRST_DAY: i32 = -95_746_129;

/// The last day of the calendar, the 31st of December of the year 262142.
pub const LAST_DAY: i32 = 95_745_399;

/// The day on which Unix time begins, the first of January 1970.
pub const UNIX_EPOCH_DAY: i32 = 719_163;

/// What an instant of the UTC calendar is made of. Days are counted in the proleptic Gregorian
/// calendar, with the first of January of the year 1 as day 1. The nanosecond goes past
/// 999,999,999 during a leap second.
pub struct Instant {
    pub day: int,
    pub second: int,
    pub nanosecond: int,
}

impl Instant {
    /// Whether the calendar holds this instant.
    pub open spec fn valid(self) -> bool {
        &&& FIRST_DAY <= self.day <= LAST_DAY
        &&& 0 <= self.second < 86_400
        &&& 0 <= self.nanosecond < 2_000_000_000
    }

    /// Whether this instant comes before `other`.
    pub open spec fn before(self, other: Instant) -> bool {
        ||| self.day < other.day
        ||| self.day == other.day && self.second < other.second
        ||| self.day == other.day && self.second == other.second && self.nanosecond
            < other.nanosecond
    }

    /// The timestamp of this instant: the seconds since Unix time began, leap seconds not
    /// counted, and the nanoseconds since the last whole second.
    pub open spec fn timestamp(self) -> Timestamp {
        Timestamp {
            seconds: ((self.day - UNIX_EPOCH_DAY) * 86_400 + self.second) as i64,
            nanos: self.nanosecond as i32,
        }
    }
}

/// An instant of the UTC calendar, from the year -262143 to the year 262142.
#[derive(Clone, Copy)]
pub struct UtcDateTime {
    day: i32,
    second: u32,
    nanosecond: u32,
}

impl View for UtcDateTime {
    type V = Instant;

    closed spec fn view(&self) -> Instant {
        Instant {
            day: self.day as int,
            second: self.second as int,
            nanosecond: self.nanosecond as int,
        }
    }
}

impl UtcDateTime {
    #[verifier::type_invariant]
    spec fn in_calendar(self) -> bool {
        self@.valid()
    }

    /// The instant on the given day, at the given second of the day and nanosecond of the
    /// second; `None` where the calendar does not hold it.
    pub fn new(day: i32, second: u32, nanosecond: u32) -> (res: Option<UtcDateTime>)
        ensures
            ({
                let instant = Instant {
                    day: day as int,
                    second: second as int,
                    nanosecond: nanosecond as int,
                };
                match res {
                    Some(value) => instant.valid() && value@ == instant,
                    None => !instant.valid(),
                }
            }),
            res is Some <==> -95_746_129 <= day <= 95_745_399 && second < 86_400 && nanosecond
                < 2_000_000_000,
            res matches Some(value) ==> {
                &&& value@.day == day
                &&& value@.second == second
                &&& value@.nanosecond == nanosecond
            },
    {
        if FIRST_DAY <= day && day <= LAST_DAY && second < 86_400 && nanosecond < 2_000_000_000 {
            Some(UtcDateTime { day, second, nanosecond })
        } else {
            None
        }
    }
}

/// A protobuf timestamp: seconds since Unix time began, and nanoseconds.
#[derive(Clone, Copy, Debug, PartialEq, Eq, Structural)]
pub struct Timestamp {
    pub seconds: i64,
    pub nanos: i32,
}

impl Timestamp {
    /// Whether this timestamp comes before `other`.
    pub open spec fn before(self, other: Timestamp) -> bool {
        ||| self.seconds < other.seconds
        ||| self.seconds == other.seconds && self.nanos < other.nanos
    }
}

/// `DateTime::timestamp` returns the number of seconds, leap seconds not counted, from the
/// start of the first of January 1970 to the instant.
#[verifier::external_body]
fn unix_seconds(day: i32, second: u32, nanosecond: u32) -> (res: i64)
    requires
        FIRST_DAY <= day <= LAST_DAY,
        second < 86_400,
        nanosecond < 2_000_000_000,
    ensures
        res == (day - UNIX_EPOCH_DAY) * 86_400 + second,
{
    let date = NaiveDate::from_num_days_from_ce_opt(day).unwrap();
    let time = NaiveTime::from_num_seconds_from_midnight_opt(second, 0).unwrap();
    date.and_time(time.with_nanosecond(nanosecond).unwrap()).and_utc().timestamp()
}

/// `DateTime::timestamp_subsec_nanos` returns the number of nanoseconds since the last whole
/// second, past 999,999,999 during a leap second.
#[verifier::external_body]
fn unix_subsec_nanos(day: i32, second: u32, nanosecond: u32) -> (res: u32)
    requires
        FIRST_DAY <= day <= LAST_DAY,
        second < 86_400,
        nanosecond < 2_000_000_000,
    ensures
        res == nanosecond,
{
    let date = NaiveDate::from_num_days_from_ce_opt(day).unwrap();
    let time = NaiveTime::from_num_seconds_from_midnight_opt(second, 0).unwrap();
    date.and_time(time.with_nanosecond(nanosecond).unwrap()).and_utc().timestamp_subsec_nanos()
}

/// Returns the timestamp of an instant.
pub fn to_timestamp(value: UtcDateTime) -> (res: Timestamp)
    ensures
        value@.valid(),
        res == value@.timestamp(),
        res.seconds == 86_400 * (value@.day - 719_163) + value@.second,
        res.nanos == value@.nanosecond,
{
    proof {
        use_type_invariant(&value);
    }
    Timestamp {
        seconds: unix_seconds(value.day, value.second, value.nanosecond),
        nanos: unix_subsec_nanos(value.day, value.second, value.nanosecond) as i32,
    }
}

/// The calendar holds the days from the first of January of the year -262143 to the 31st of
/// December of the year 262142, each with 86,400 seconds, and each second with its leap second.
pub proof fn calendar_holds_every_day_and_second(a: Instant)
    ensures
        a.valid() <==> {
            &&& -95_746_129 <= a.day <= 95_745_399
            &&& 0 <= a.second <= 86_399
            &&& 0 <= a.nanosecond <= 1_999_999_999
        },
{
}

/// A timestamp has 86,400 seconds for each day from the first of January 1970 to the day of its
/// instant, and the second of the day; its nanoseconds are those of the instant.
pub proof fn timestamp_counts_days_and_seconds(a: Instant)
    requires
        -95_746_129 <= a.day <= 95_745_399,
        0 <= a.second < 86_400,
        0 <= a.nanosecond < 2_000_000_000,
    ensures
        a.timestamp().seconds == 86_400 * (a.day - 719_163) + a.second,
        a.timestamp().nanos == a.nanosecond,
{
}

/// Instants that are a number of seconds apart have timestamps that are as many seconds apart.
pub proof fn timestamps_keep_distance(a: Instant, b: Instant)
    requires
        a.valid(),
        b.valid(),
    ensures
        b.timestamp().seconds - a.timestamp().seconds == 86_400 * (b.day - a.day) + (b.second
            - a.second),
        b.timestamp().nanos - a.timestamp().nanos == b.nanosecond - a.nanosecond,
{
}

/// The timestamps of the first of January 1970 count from the start of that day.
pub proof fn unix_time_begins_in_1970(a: Instant)
    requires
        a.valid(),
        a.day == 719_163,
    ensures
        a.timestamp().seconds == a.second,
        a.timestamp().nanos == a.nanosecond,
{
}

/// An instant comes before another exactly when fewer nanoseconds have gone by before it, each
/// second taken with its leap second; and of two different instants one comes before the other.
pub proof fn instants_are_ordered_by_time(a: Instant, b: Instant)
    requires
        a.valid(),
        b.valid(),
    ensures
        a.before(b) <==> (a.day * 86_400 + a.second) * 2_000_000_000 + a.nanosecond < (b.day
            * 86_400 + b.second) * 2_000_000_000 + b.nanosecond,
        a.before(b) || b.before(a) || a == b,
        !(a.before(b) && b.before(a)),
{
}

/// A timestamp comes before another exactly when it has fewer seconds, or as many seconds and
/// fewer nanoseconds.
pub proof fn timestamps_are_ordered_by_time(a: Timestamp, b: Timestamp)
    ensures
        a.before(b) <==> a.seconds * 0x1_0000_0000 + a.nanos < b.seconds * 0x1_0000_0000 + b.nanos,
{
}

/// Timestamps come in the order of their instants.
pub proof fn timestamps_keep_order(a: Instant, b: Instant)
    requires
        a.valid(),
        b.valid(),
    ensures
        a.timestamp().before(b.timestamp()) <==> a.before(b),
{
}

/// Different instants have different timestamps.
pub proof fn timestamps_tell_instants_apart(a: Instant, b: Instant)
    requires
        a.valid(),
        b.valid(),
        a.timestamp() == b.timestamp(),
    ensures
        a == b,
{
}

} // verus!
