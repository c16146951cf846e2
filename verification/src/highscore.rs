//! The persisted high score.
//!
//! A single entry in a small key-value store holds the best score achieved
//! across runs. When the play state ends, the current score is compared with
//! the stored value and written back only when it beats it; a missing entry
//! counts as a first run and is always written.

use vstd::prelude::*;

use crate::text::Score;
use crate::units::UNIT;

verus! {

/// The value to persist after a run: the score in whole points when the
/// entry is missing or beaten, nothing otherwise.
pub open spec fn highscore_update(stored: Option<i64>, points: int) -> Option<i64> {
    match stored {
        None => Some(points as i64),
        Some(h) => if h < points {
            Some(points as i64)
        } else {
            None
        },
    }
}

/// Decide the high-score write for the end of a run: `stored` is the entry
/// read from the store (`None` when absent), and the result is the value to
/// write back, if any.
pub fn update_highscore(stored: Option<i64>, score: &Score) -> (write: Option<i64>)
    requires
        score.wf(),
    ensures
        write == highscore_update(stored, score.score as int / UNIT as int),
        write matches Some(v) ==> v == score.score / UNIT,
{
    let points: i64 = (score.score / UNIT) as i64;
    match stored {
        None => Some(points),
        Some(h) => {
            if h < points {
                Some(points)
            } else {
                None
            }
        },
    }
}

} // verus!
