//! Times in milliseconds and in seconds since the Unix epoch.

use vstd::prelude::*;

verus! {

/// The time lies in the years from -262143 to 262142.
pub open spec fn is_datetime_millis(millis: i64) -> bool {
    -8_334_601_228_800_000 <= millis <= 8_210_266_876_799_999
}

/// The time lies in the years from -262143 to 262142. More than a second of nanoseconds stands
/// for a leap second, at the end of a minute.
pub open spec fn is_time(seconds: i64, nanos: u32) -> bool {
    &&& -8_334_601_228_800 <= seconds <= 8_210_266_876_799
    &&& nanos < 1_000_000_000 || nanos < 2_000_000_000 && seconds % 60 == 59
}

/// Whole seconds of a time in milliseconds.
pub open spec fn whole_seconds(millis: i64) -> i64 {
    (millis as int / 1000) as i64
}

pub fn whole_seconds_of(millis: i64) -> (seconds: i64)
    ensures
        seconds == whole_seconds(millis),
        seconds == millis as int / 1000,
{
    if millis >= 0 {
        millis / 1000
    } else {
        let up: i64 = -(millis + 1);
        assert(-1 - (up as int / 1000) == millis as int / 1000);
        -1 - up / 1000
    }
}

} // verus!
