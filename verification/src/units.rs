//! Fixed-point quantities shared by the whole simulation.

use vstd::prelude::*;

verus! {

/// Number of fixed-point units in one whole unit of length, time, angle or health.
pub const SCALE: i64 = 1_000_000_000;

/// Number of simulation steps in one second.
pub const TICKS_PER_SECOND: u64 = 60;

/// Side length of the square world, in fixed-point units.
pub const WORLD_SIZE: i64 = 10_000_000_000_000;

/// A point or a direction in the plane, in fixed-point units.
#[derive(Clone, Copy, PartialEq, Eq, Structural, Debug)]
pub struct Vector2 {
    pub x: i64,
    pub y: i64,
}

/// Elapsed time of `tick` steps in fixed-point seconds, rounded down.
pub open spec fn elapsed(tick: u32) -> int {
    tick as int * SCALE as int / TICKS_PER_SECOND as int
}

/// Difference of two quantities, held inside the range of `i64`.
pub open spec fn saturating_difference(a: i64, b: i64) -> i64 {
    if a - b > i64::MAX {
        i64::MAX
    } else if a - b < i64::MIN {
        i64::MIN
    } else {
        (a - b) as i64
    }
}

/// Computes `a - b`, stopping at the ends of the range of `i64`.
pub fn saturating_sub(a: i64, b: i64) -> (r: i64)
    ensures
        r == saturating_difference(a, b),
{
    if b < 0 && a > i64::MAX + b {
        i64::MAX
    } else if b > 0 && a < i64::MIN + b {
        i64::MIN
    } else {
        a - b
    }
}

/// Converts a step count into elapsed fixed-point seconds.
pub fn ticks_to_time(tick: u32) -> (t: u64)
    ensures
        t == elapsed(tick),
{
    let scaled: u64 = (tick as u64) * 1_000_000_000u64;
    scaled / TICKS_PER_SECOND
}

} // verus!
