//! The search window.

use crate::score::div_bits;
use crate::score::lift;
use crate::score::ONE_BITS;
use crate::score::Score;
use crate::score::sub_bits;
use super::score_info::ScoreInfo;
use vstd::prelude::*;

verus! {

/// Bounds for the scores that a search still cares about, exclusive on both
/// sides. `None` stands for no bound on that side: every score down to 0, or
/// up to 1, is inside.
#[derive(Clone, Copy, Debug, PartialEq, Eq, Structural)]
pub struct Bounds {
    pub min: Option<Score>,
    pub max: Option<Score>,
}

/// One side of a window moved down by `amount`; a side that would fall
/// below 0 is dropped.
pub open spec fn lowered(side: Option<Score>, amount: Score) -> Option<Score> {
    match side {
        Some(s) => lift(sub_bits(s.bits, amount.bits)),
        None => None,
    }
}

/// One side of a window divided by `amount`; a side that would rise above 1
/// is dropped.
pub open spec fn stretched(side: Option<Score>, amount: Score) -> Option<Score> {
    match side {
        Some(s) => match div_bits(s.bits, amount.bits) {
            Some(q) => if q <= ONE_BITS {
                Some(Score { bits: q })
            } else {
                None
            },
            None => None,
        },
        None => None,
    }
}

/// The larger of a lower bound and a score.
pub open spec fn raised_to(side: Option<Score>, score: Score) -> Option<Score> {
    match side {
        Some(s) => if score.bits > s.bits {
            Some(score)
        } else {
            side
        },
        None => Some(score),
    }
}

/// The smaller of an upper bound and a score.
pub open spec fn capped_at(side: Option<Score>, score: Score) -> Option<Score> {
    match side {
        Some(s) => if score.bits < s.bits {
            Some(score)
        } else {
            side
        },
        None => Some(score),
    }
}

fn lower_side(side: Option<Score>, amount: Score) -> (r: Option<Score>)
    ensures
        r == lowered(side, amount),
{
    match side {
        Some(s) => s.checked_sub(amount),
        None => None,
    }
}

fn stretch_side(side: Option<Score>, amount: Score) -> (r: Option<Score>)
    ensures
        r == stretched(side, amount),
{
    match side {
        Some(s) => match s.checked_div(amount) {
            Some(q) => if q.bits <= ONE_BITS {
                Some(q)
            } else {
                None
            },
            None => None,
        },
        None => None,
    }
}

impl Bounds {
    /// The window without bounds.
    pub open spec fn spec_widest() -> Bounds {
        Bounds { min: None, max: None }
    }

    /// Whether `score` is at or below the lower bound.
    pub open spec fn spec_score_too_low(self, score: Score) -> bool {
        match self.min {
            Some(min) => score.bits <= min.bits,
            None => false,
        }
    }

    /// Whether `score` is at or above the upper bound.
    pub open spec fn spec_score_too_high(self, score: Score) -> bool {
        match self.max {
            Some(max) => max.bits <= score.bits,
            None => false,
        }
    }

    /// Whether `score` is strictly inside the window.
    pub open spec fn spec_contains(self, score: Score) -> bool {
        !self.spec_score_too_low(score) && !self.spec_score_too_high(score)
    }

    /// The window with its lower bound moved down by `amount`.
    pub open spec fn spec_min_decreased_by(self, amount: Score) -> Bounds {
        Bounds { min: lowered(self.min, amount), max: self.max }
    }

    /// The window with both bounds divided by `amount`.
    pub open spec fn spec_expanded(self, amount: Score) -> Bounds {
        Bounds { min: stretched(self.min, amount), max: stretched(self.max, amount) }
    }

    /// The window with both bounds moved down by `amount`, where a missing
    /// upper bound counts as the smallest score above 1.
    pub open spec fn spec_both_decreased_by(self, amount: Score) -> Bounds {
        Bounds {
            min: lowered(self.min, amount),
            max: Some(
                match self.max {
                    Some(max) => Score { bits: (max.bits - amount.bits) as u32 },
                    None => Score { bits: (ONE_BITS - amount.bits + 1) as u32 },
                },
            ),
        }
    }

    /// Whether `amount` can be taken from the upper bound.
    pub open spec fn can_decrease_both_by(self, amount: Score) -> bool {
        match self.max {
            Some(max) => amount.bits <= max.bits,
            None => amount.bits <= ONE_BITS,
        }
    }

    /// Whether the upper bound is at most 1 and above the lower bound.
    pub open spec fn spec_valid(self) -> bool {
        match self.max {
            Some(max) => max.bits <= ONE_BITS && match self.min {
                Some(min) => min.bits < max.bits,
                None => true,
            },
            None => true,
        }
    }

    /// Whether each bound that is present lies in `[0, 1]`.
    pub open spec fn in_unit(self) -> bool {
        &&& self.min matches Some(min) ==> min.in_unit()
        &&& self.max matches Some(max) ==> max.in_unit()
    }

    /// Whether everything that `info` allows is at or below the lower bound.
    pub open spec fn spec_info_too_low(self, info: ScoreInfo) -> bool {
        match self.min {
            Some(min) => info.max.bits <= min.bits,
            None => false,
        }
    }

    /// Whether everything that `info` allows is at or above the upper bound.
    pub open spec fn spec_info_too_high(self, info: ScoreInfo) -> bool {
        match self.max {
            Some(max) => info.min.bits >= max.bits,
            None => false,
        }
    }

    #[verifier::when_used_as_spec(spec_widest)]
    pub fn widest() -> (r: Bounds)
        ensures
            r == Bounds::spec_widest(),
    {
        Bounds { min: None, max: None }
    }

    #[verifier::when_used_as_spec(spec_score_too_low)]
    pub fn score_too_low(self, score: Score) -> (r: bool)
        ensures
            r == self.spec_score_too_low(score),
    {
        match self.min {
            Some(min) => score.bits <= min.bits,
            None => false,
        }
    }

    #[verifier::when_used_as_spec(spec_score_too_high)]
    pub fn score_too_high(self, score: Score) -> (r: bool)
        ensures
            r == self.spec_score_too_high(score),
    {
        match self.max {
            Some(max) => max.bits <= score.bits,
            None => false,
        }
    }

    #[verifier::when_used_as_spec(spec_contains)]
    pub fn contains(self, score: Score) -> (r: bool)
        ensures
            r == self.spec_contains(score),
    {
        !self.score_too_low(score) && !self.score_too_high(score)
    }

    #[verifier::when_used_as_spec(spec_min_decreased_by)]
    pub fn min_decreased_by(self, amount: Score) -> (r: Bounds)
        ensures
            r == self.spec_min_decreased_by(amount),
    {
        Bounds { min: lower_side(self.min, amount), max: self.max }
    }

    /// Divides the bounds by `amount`, which widens the window since
    /// `amount` is less than 1.
    #[verifier::when_used_as_spec(spec_expanded)]
    pub fn expanded(self, amount: Score) -> (r: Bounds)
        requires
            0 < amount.bits < ONE_BITS,
        ensures
            r == self.spec_expanded(amount),
    {
        Bounds { min: stretch_side(self.min, amount), max: stretch_side(self.max, amount) }
    }

    #[verifier::when_used_as_spec(spec_both_decreased_by)]
    pub fn both_decreased_by(self, amount: Score) -> (r: Bounds)
        requires
            self.can_decrease_both_by(amount),
        ensures
            r == self.spec_both_decreased_by(amount),
    {
        let max = match self.max {
            Some(max) => max.minus(amount),
            // The bounds are exclusive, so the score 1 itself has to stay
            // inside: hence the step added.
            None => Score::one().minus(amount).plus(Score::delta()),
        };
        Bounds { min: lower_side(self.min, amount), max: Some(max) }
    }

    #[verifier::when_used_as_spec(spec_valid)]
    pub fn valid(self) -> (r: bool)
        ensures
            r == self.spec_valid(),
    {
        match self.max {
            Some(max) => max.bits <= ONE_BITS && match self.min {
                Some(min) => min.bits < max.bits,
                None => true,
            },
            None => true,
        }
    }

    /// Raises the lower bound to `score`, if that tightens the window.
    pub fn update_min(&mut self, score: Score)
        ensures
            final(self).min == raised_to(old(self).min, score),
            final(self).max == old(self).max,
    {
        match self.min {
            Some(min) => {
                if score.bits > min.bits {
                    self.min = Some(score);
                }
            },
            None => {
                self.min = Some(score);
            },
        }
    }

    /// Lowers the upper bound to `score`, if that tightens the window.
    pub fn update_max(&mut self, score: Score)
        ensures
            final(self).max == capped_at(old(self).max, score),
            final(self).min == old(self).min,
    {
        match self.max {
            Some(max) => {
                if score.bits < max.bits {
                    self.max = Some(score);
                }
            },
            None => {
                self.max = Some(score);
            },
        }
    }

    #[verifier::when_used_as_spec(spec_info_too_low)]
    pub fn info_too_low(self, score_info: ScoreInfo) -> (r: bool)
        ensures
            r == self.spec_info_too_low(score_info),
    {
        match self.min {
            Some(min) => score_info.max.bits <= min.bits,
            None => false,
        }
    }

    #[verifier::when_used_as_spec(spec_info_too_high)]
    pub fn info_too_high(self, score_info: ScoreInfo) -> (r: bool)
        ensures
            r == self.spec_info_too_high(score_info),
    {
        match self.max {
            Some(max) => score_info.min.bits >= max.bits,
            None => false,
        }
    }
}

/// Every score is inside the widest window.
pub proof fn lemma_widest_contains(score: Score)
    ensures
        Bounds::spec_widest().spec_contains(score),
        Bounds::spec_widest().spec_valid(),
{
}

/// Moving the lower bound down keeps a valid window valid.
pub proof fn lemma_min_decreased_valid(bounds: Bounds, amount: Score)
    requires
        bounds.spec_valid(),
    ensures
        bounds.spec_min_decreased_by(amount).spec_valid(),
{
}

/// Dividing both bounds by an amount strictly between 0 and 1 keeps a valid
/// window valid: the bounds stay in order, and an upper bound that would
/// leave `[0, 1]` is dropped.
pub proof fn lemma_expanded_valid(bounds: Bounds, amount: Score)
    requires
        bounds.spec_valid(),
        0 < amount.bits < ONE_BITS,
    ensures
        bounds.spec_expanded(amount).spec_valid(),
{
    let r = bounds.spec_expanded(amount);
    if let (Some(lo), Some(hi)) = (r.min, r.max) {
        let a = bounds.min->Some_0.bits as int;
        let b = bounds.max->Some_0.bits as int;
        let d = amount.bits as int;
        assert((a * 0x8000_0000) / d < (b * 0x8000_0000) / d) by (nonlinear_arith)
            requires
                0 <= a < b,
                0 < d < 0x8000_0000,
        {
            assert((a + 1) * 0x8000_0000 <= b * 0x8000_0000);
            assert(a * 0x8000_0000 + d < (a + 1) * 0x8000_0000);
            assert((a * 0x8000_0000 + d) / d == (a * 0x8000_0000) / d + 1);
            assert((a * 0x8000_0000 + d) / d <= (b * 0x8000_0000) / d);
        }
    }
}

/// Moving both bounds down by an amount that the upper bound can give keeps
/// a valid window valid, unless the upper bound is missing and the amount
/// is 0: the bound put in its place is then the smallest score above 1.
pub proof fn lemma_both_decreased_valid(bounds: Bounds, amount: Score)
    requires
        bounds.spec_valid(),
        bounds.in_unit(),
        bounds.can_decrease_both_by(amount),
        bounds.max is Some || amount.bits > 0,
    ensures
        bounds.spec_both_decreased_by(amount).spec_valid(),
        bounds.spec_both_decreased_by(amount).in_unit(),
{
}

/// Tightening a side with a score that is inside the window keeps a valid
/// window valid, and nothing but the scores beyond that score leaves it.
pub proof fn lemma_update_valid(bounds: Bounds, score: Score, other: Score)
    requires
        bounds.spec_valid(),
        score.in_unit(),
        bounds.spec_contains(score),
    ensures
        (Bounds { min: raised_to(bounds.min, score), max: bounds.max }).spec_valid(),
        (Bounds { min: bounds.min, max: capped_at(bounds.max, score) }).spec_valid(),
        (Bounds { min: raised_to(bounds.min, score), max: bounds.max }).spec_contains(other) <==> (
        bounds.spec_contains(other) && other.bits > score.bits),
        (Bounds { min: bounds.min, max: capped_at(bounds.max, score) }).spec_contains(other) <==> (
        bounds.spec_contains(other) && other.bits < score.bits),
{
}

} // verus!
