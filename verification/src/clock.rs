//! Minutes since midnight and the forward distance between two clock readings.

use vstd::prelude::*;

verus! {

/// Minutes in half a day.
pub const HALF_DAY: u32 = 720;

/// Minutes in a whole day.
pub const FULL_DAY: u32 = 1440;

/// Whether `hour` and `minute` can stand on a 12-hour clock face.
pub open spec fn on_clock_face(hour: int, minute: int) -> bool {
    1 <= hour <= 12 && 0 <= minute <= 59
}

/// Minutes since midnight of a 12-hour reading: hour 12 counts as the start of its half of
/// the day, and the afternoon lies half a day after the morning.
pub open spec fn spec_minutes_of_day(hour: int, minute: int, is_afternoon: bool) -> int {
    (if hour == 12 { minute } else { hour * 60 + minute })
        + (if is_afternoon { 720int } else { 0int })
}

/// Minutes from `start` forward to `end`, both counted since midnight; an `end` that is
/// earlier than `start` lies on the next day.
pub open spec fn spec_elapsed_minutes(start: int, end: int) -> int {
    if end >= start {
        end - start
    } else {
        1440 - (start - end)
    }
}

/// Normalizes a reading of the 12-hour clock to minutes since midnight.
pub fn minutes_of_day(hour: u32, minute: u32, is_afternoon: bool) -> (total: u32)
    requires
        on_clock_face(hour as int, minute as int),
    ensures
        total == spec_minutes_of_day(hour as int, minute as int, is_afternoon),
        total < FULL_DAY,
{
    let offset: u32 = if hour == 12 { minute } else { hour * 60 + minute };
    if is_afternoon { offset + HALF_DAY } else { offset }
}

/// Minutes that pass from `start` until the clock next shows `end`; equal readings are
/// no time apart.
pub fn elapsed_minutes(start: u32, end: u32) -> (elapsed: u32)
    requires
        start < FULL_DAY,
        end < FULL_DAY,
    ensures
        elapsed == spec_elapsed_minutes(start as int, end as int),
        elapsed < FULL_DAY,
{
    if end >= start {
        end - start
    } else {
        FULL_DAY - (start - end)
    }
}

} // verus!
