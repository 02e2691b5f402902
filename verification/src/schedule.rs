//! The schedule evaluator: wall-clock time to target brightness.
//!
//! Four windows partition the 24-hour clock, each half-open `[start, end)`
//! in minutes since midnight:
//!
//! * morning rise, `[0, 600)`: brightness climbs from 0 toward 90;
//! * daytime hold, `[600, 1140)`: constant 100;
//! * evening fade, `[1140, 1320)`: brightness falls from 100 toward 10;
//! * night hold, `[1320, 1440)`: constant 0.
//!
//! The two fades interpolate linearly and round to the nearest whole
//! percentage, halves away from zero.

use vstd::prelude::*;

verus! {

/// Minutes since midnight for the wall-clock time `hour:minute`.
pub open spec fn minutes_since_midnight(hour: int, minute: int) -> int {
    hour * 60 + minute
}

/// The fraction `num / den` rounded to the nearest integer, halves away
/// from zero, for `num >= 0` and `den > 0`.
pub open spec fn round_ratio(num: int, den: int) -> int
    recommends
        num >= 0,
        den > 0,
{
    (2 * num + den) / (2 * den)
}

/// The scheduled brightness percentage at `m` minutes since midnight.
///
/// The evening fade computes `100 - 90 * (m - 1140) / 180`, written below
/// as the single fraction `(18000 - 90 * (m - 1140)) / 180`; the morning
/// rise computes `90 * m / 600`; both round halves away from zero. The
/// final branch is unreachable for `0 <= m < 1440`, since the four windows
/// partition the day.
pub open spec fn target_at(m: int) -> int {
    if 1140 <= m && m < 1320 {
        round_ratio(18000 - 90 * (m - 1140), 180)
    } else if 0 <= m && m < 600 {
        round_ratio(90 * m, 600)
    } else if 600 <= m && m < 1140 {
        100
    } else if 1320 <= m && m < 1440 {
        0
    } else {
        100
    }
}

/// Brightness schedule:
/// 100% through the day,
/// 19:00 start fading,
/// 22:00 hold at the night level,
/// 00:00 to 10:00 rise back toward daytime.
pub fn calculate_target(hour: u32, minute: u32) -> (target: u32)
    requires
        hour < 24,
        minute < 60,
    ensures
        target == target_at(minutes_since_midnight(hour as int, minute as int)),
        target <= 100,
{
    let minutes: u32 = hour * 60 + minute;

    if minutes >= 1140 && minutes < 1320 {
        let num: u32 = 18000 - 90 * (minutes - 1140);
        (2 * num + 180) / 360
    } else if minutes < 600 {
        let num: u32 = 90 * minutes;
        (2 * num + 600) / 1200
    } else if minutes < 1140 {
        100
    } else {
        0
    }
}

/// Law: within the morning-rise window the schedule never falls. For any
/// two minutes `m1 < m2`, both in `[0, 600)`, the target at `m1` is at
/// most the target at `m2`.
pub proof fn lemma_morning_rise_monotone(m1: int, m2: int)
    requires
        0 <= m1,
        m1 < m2,
        m2 < 600,
    ensures
        target_at(m1) <= target_at(m2),
{
    vstd::arithmetic::div_mod::lemma_div_is_ordered(2 * (90 * m1) + 600, 2 * (90 * m2) + 600, 1200);
}

/// Law: within the evening-fade window the schedule never rises. For any
/// two minutes `m1 < m2`, both in `[1140, 1320)`, the target at `m1` is at
/// least the target at `m2`.
pub proof fn lemma_evening_fade_monotone(m1: int, m2: int)
    requires
        1140 <= m1,
        m1 < m2,
        m2 < 1320,
    ensures
        target_at(m1) >= target_at(m2),
{
    vstd::arithmetic::div_mod::lemma_div_is_ordered(
        2 * (18000 - 90 * (m2 - 1140)) + 180,
        2 * (18000 - 90 * (m1 - 1140)) + 180,
        360,
    );
}

} // verus!
