//! Fixed-point fractions in millionths.

use vstd::prelude::*;

verus! {

/// The fraction 1.0: every fraction in this crate counts millionths.
pub const ONE: i32 = 1_000_000;

/// `value` held to the closed interval from `low` to `high`.
pub open spec fn clamp_int(value: int, low: int, high: int) -> int {
    if value < low {
        low
    } else if value > high {
        high
    } else {
        value
    }
}

/// The unit-interval fraction nearest to `value`.
pub open spec fn unit(value: int) -> int {
    clamp_int(value, 0, ONE as int)
}

/// Holds a fraction to the unit interval: below 0.0 gives 0.0, above 1.0 gives 1.0.
pub fn clamp_unit(value: i32) -> (r: i32)
    ensures
        r == unit(value as int),
        0 <= r <= ONE,
{
    if value < 0 {
        0
    } else if value > ONE {
        ONE
    } else {
        value
    }
}

/// Holds a fraction to the interval from `low` to `high`.
pub fn clamp_between(value: i32, low: i32, high: i32) -> (r: i32)
    requires
        low <= high,
    ensures
        r == clamp_int(value as int, low as int, high as int),
        low <= r <= high,
{
    if value < low {
        low
    } else if value > high {
        high
    } else {
        value
    }
}

} // verus!
