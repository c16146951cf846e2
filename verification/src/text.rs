//! The score counter shown in the corner of the screen.
//!
//! Score accrues with elapsed play time, faster at higher `Speed`, and is
//! pulled back to its startup value when the end screen is left.

use vstd::prelude::*;

use crate::speed::Speed;
use crate::speed::SPEED_MAX;
use crate::units::DT_MAX;
use crate::units::UNIT;

verus! {

/// Score at the start of a run, in millionths (`120.0`).
pub const STARTUP_SCORE: u64 = 120_000_000;

/// Score points gained per second per speed point.
pub const SCORE_RATE: u64 = 50;

/// Ceiling the score saturates at, in millionths.
pub const SCORE_MAX: u64 = 1_000_000_000_000_000_000;

/// The score achieved so far in a run, in millionths of a score point.
pub struct Score {
    pub score: u64,
}

impl Score {
    /// A `Score` value is meaningful when it sits between its startup value
    /// and the saturation ceiling.
    pub open spec fn wf(self) -> bool {
        STARTUP_SCORE <= self.score <= SCORE_MAX
    }

    /// The score a fresh run starts with.
    pub fn startup() -> (s: Score)
        ensures
            s.wf(),
            s.score == STARTUP_SCORE,
    {
        Score { score: STARTUP_SCORE }
    }

    /// The whole score points this value displays as.
    pub fn points(&self) -> (p: u64)
        ensures
            p == self.score / UNIT,
    {
        self.score / UNIT
    }
}

/// The score after `dt` milliseconds of play at multiplier `speed`: the gain
/// is `SCORE_RATE` per second scaled by the multiplier, saturating at the
/// ceiling.
pub open spec fn accrued_score(score: int, speed: int, dt: int) -> int {
    if score + SCORE_RATE * speed * dt / 1000 > SCORE_MAX as int {
        SCORE_MAX as int
    } else {
        score + SCORE_RATE * speed * dt / 1000
    }
}

/// Advance the score by one frame of `dt` milliseconds at the given
/// multiplier.
pub fn score_update(score: &mut Score, speed: &Speed, dt: u64)
    requires
        old(score).wf(),
        speed.wf(),
        dt <= DT_MAX,
    ensures
        final(score).wf(),
        final(score).score as int == accrued_score(
            old(score).score as int,
            speed.speed as int,
            dt as int,
        ),
        final(score).score >= old(score).score,
{
    proof {
        assert((SCORE_RATE * speed.speed) * dt <= (SCORE_RATE * SPEED_MAX) * DT_MAX)
            by (nonlinear_arith)
            requires
                speed.speed <= SPEED_MAX,
                dt <= DT_MAX,
        ;
    }
    let gain: u64 = SCORE_RATE * speed.speed * dt / 1000;
    if score.score > SCORE_MAX - gain {
        score.score = SCORE_MAX;
    } else {
        score.score = score.score + gain;
    }
}

/// The score after the end-screen-exit reset, whatever it held before.
pub open spec fn score_after_reset(s: Score) -> Score {
    Score { score: STARTUP_SCORE }
}

/// Reset the score to the configured startup value, as happens when the end
/// screen is left.
pub fn reset_score(score: &mut Score)
    ensures
        final(score).wf(),
        *final(score) == score_after_reset(*old(score)),
        final(score).score == STARTUP_SCORE,
{
    score.score = STARTUP_SCORE;
}

/// Leaving the end screen twice in a row lands on exactly the same score as
/// leaving it once, namely the configured startup value: the reset admits no
/// drift.
pub proof fn lemma_reset_score_idempotent(s: Score)
    ensures
        score_after_reset(score_after_reset(s)) == score_after_reset(s),
        score_after_reset(s).score == STARTUP_SCORE,
{
}

} // verus!
