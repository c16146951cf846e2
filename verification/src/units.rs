//! Shared fixed-point units and bounds.
//!
//! A display unit (one pixel, one speed point, one energy point) is stored as
//! `1_000_000` in its integer carrier, so a value of `2.5` becomes
//! `2_500_000`. Durations are whole milliseconds.

use vstd::prelude::*;

verus! {

/// One display unit in fixed-point millionths.
pub const UNIT: u64 = 1_000_000;

/// Largest frame duration, in milliseconds, that the update rules accept.
pub const DT_MAX: u64 = 1_000_000;

/// Coordinates live in `[-COORD_LIMIT, COORD_LIMIT]` millionths of a pixel
/// (a 2000-pixel arena around the origin); update rules clamp to this range.
pub const COORD_LIMIT: i64 = 2_000_000_000;

/// A coordinate pair that stays inside the arena.
pub open spec fn in_arena(x: i64, y: i64) -> bool {
    -COORD_LIMIT <= x <= COORD_LIMIT && -COORD_LIMIT <= y <= COORD_LIMIT
}

/// Clamp a mathematical coordinate into the arena range.
pub open spec fn clamp_coord(v: int) -> int {
    if v > COORD_LIMIT as int {
        COORD_LIMIT as int
    } else if v < -(COORD_LIMIT as int) {
        -(COORD_LIMIT as int)
    } else {
        v
    }
}

/// A point in the arena, in millionths of a pixel.
#[derive(Clone, Copy, Debug, PartialEq, Eq, Structural)]
pub struct Position {
    pub x: i64,
    pub y: i64,
}

impl Position {
    /// The point lies inside the arena.
    pub open spec fn wf(self) -> bool {
        in_arena(self.x, self.y)
    }
}

/// Clamp an `i64` into the arena range.
pub fn clamp_coord_exec(v: i64) -> (r: i64)
    ensures
        r as int == clamp_coord(v as int),
{
    if v > COORD_LIMIT {
        COORD_LIMIT
    } else if v < -COORD_LIMIT {
        -COORD_LIMIT
    } else {
        v
    }
}

/// Whether a repeating action with the given period, in milliseconds, is
/// due during a frame that starts at `elapsed` and lasts `dt`: the action
/// fires when the elapsed time's remainder falls inside the frame.
pub fn cadence_due(elapsed: u64, period: u64, dt: u64) -> (b: bool)
    requires
        period >= 1,
    ensures
        b <==> elapsed % period < dt,
{
    elapsed % period < dt
}

} // verus!
