//! What the transposition table remembers of a position's score.

use crate::score::ONE_BITS;
use crate::score::Score;
use vstd::prelude::*;

verus! {

/// A pair of bounds for the score of a position, inclusive on both sides, so
/// that 0 and 1 stand for "no lower bound" and "no upper bound".
#[derive(Clone, Copy, Debug, PartialEq, Eq, Structural)]
pub struct ScoreInfo {
    pub min: Score,
    pub max: Score,
}

impl ScoreInfo {
    /// Whether both ends lie in `[0, 1]`, the lower not above the upper.
    pub open spec fn wf(self) -> bool {
        self.min.bits <= self.max.bits && self.max.bits <= ONE_BITS
    }

    /// The score, where the two ends meet.
    pub open spec fn spec_actual_score(self) -> Option<Score> {
        if self.min == self.max {
            Some(self.min)
        } else {
            None
        }
    }

    /// The score, if the bounds pin it down.
    pub fn actual_score(self) -> (r: Option<Score>)
        ensures
            r == self.spec_actual_score(),
    {
        if self.min.bits == self.max.bits {
            Some(self.min)
        } else {
            None
        }
    }

    /// The position is known to be worth exactly `score`.
    pub fn from_score(score: Score) -> (r: ScoreInfo)
        ensures
            r == (ScoreInfo { min: score, max: score }),
    {
        ScoreInfo { min: score, max: score }
    }

    /// The position is known to be worth at least `min`.
    pub fn from_min_score(min: Score) -> (r: ScoreInfo)
        ensures
            r == (ScoreInfo { min, max: Score::spec_one() }),
    {
        ScoreInfo { min, max: Score::one() }
    }

    /// The position is known to be worth at most `max`.
    pub fn from_max_score(max: Score) -> (r: ScoreInfo)
        ensures
            r == (ScoreInfo { min: Score::spec_zero(), max }),
    {
        ScoreInfo { min: Score::zero(), max }
    }
}

} // verus!
