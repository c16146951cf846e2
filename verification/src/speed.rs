//! The difficulty multiplier.
//!
//! `Speed` rises linearly with elapsed play time and is pulled back to its
//! startup value when the end screen is left. It scales fall velocity, spawn
//! cadence and score accrual.

use vstd::prelude::*;

use crate::units::DT_MAX;

verus! {

/// Speed multiplier at the start of a run, in millionths (`1.6`).
pub const STARTUP_SPEED: u64 = 1_600_000;

/// Speed gained per millisecond of play, in millionths (`0.01` per second).
pub const SPEED_SCALING: u64 = 10;

/// Ceiling the multiplier saturates at, in millionths (`1000.0`).
pub const SPEED_MAX: u64 = 1_000_000_000;

/// The difficulty multiplier, in millionths of a speed point.
pub struct Speed {
    pub speed: u64,
}

impl Speed {
    /// A `Speed` value is meaningful when it sits between its startup value
    /// and the saturation ceiling.
    pub open spec fn wf(self) -> bool {
        STARTUP_SPEED <= self.speed <= SPEED_MAX
    }

    /// The multiplier a fresh run starts with.
    pub fn startup() -> (s: Speed)
        ensures
            s.wf(),
            s.speed == STARTUP_SPEED,
    {
        Speed { speed: STARTUP_SPEED }
    }
}

/// The multiplier after `dt` milliseconds of play: linear growth, saturating
/// at the ceiling.
pub open spec fn scaled_speed(speed: int, dt: int) -> int {
    if speed + SPEED_SCALING * dt > SPEED_MAX as int {
        SPEED_MAX as int
    } else {
        speed + SPEED_SCALING * dt
    }
}

/// Advance the multiplier by one frame of `dt` milliseconds.
pub fn scaling(speed: &mut Speed, dt: u64)
    requires
        old(speed).wf(),
        dt <= DT_MAX,
    ensures
        final(speed).wf(),
        final(speed).speed as int == scaled_speed(old(speed).speed as int, dt as int),
        final(speed).speed >= old(speed).speed,
{
    let gain: u64 = SPEED_SCALING * dt;
    if speed.speed > SPEED_MAX - gain {
        speed.speed = SPEED_MAX;
    } else {
        speed.speed = speed.speed + gain;
    }
}

/// The multiplier after the end-screen-exit reset, whatever it held before.
pub open spec fn speed_after_reset(s: Speed) -> Speed {
    Speed { speed: STARTUP_SPEED }
}

/// Reset the multiplier to the configured startup value, as happens when the
/// end screen is left.
pub fn reset_speed(speed: &mut Speed)
    ensures
        final(speed).wf(),
        *final(speed) == speed_after_reset(*old(speed)),
        final(speed).speed == STARTUP_SPEED,
{
    speed.speed = STARTUP_SPEED;
}

/// Leaving the end screen twice in a row lands on exactly the same multiplier
/// as leaving it once, namely the configured startup value: the reset admits
/// no drift.
pub proof fn lemma_reset_speed_idempotent(s: Speed)
    ensures
        speed_after_reset(speed_after_reset(s)) == speed_after_reset(s),
        speed_after_reset(s).speed == STARTUP_SPEED,
{
}

} // verus!
