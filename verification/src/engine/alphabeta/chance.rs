//! The chance node that follows every move.
//!
//! After a move the mover gets a bonus move with chance `b_chance`, and the
//! turn passes with chance `nb_chance`. The value of the move is the mean of
//! the two outcomes. The window for each outcome is derived from the
//! window for the move by assuming the worst of the other outcome.

use crate::score::lemma_product_bounds;
use crate::score::ONE_BITS;
use crate::score::Score;
use super::bounds::Bounds;
use vstd::prelude::*;

verus! {

/// Whether the two chances are positive and add up to 1.
pub open spec fn chances_ok(b_chance: Score, nb_chance: Score) -> bool {
    &&& b_chance.bits > 0
    &&& nb_chance.bits > 0
    &&& b_chance.bits + nb_chance.bits == ONE_BITS
}

/// The value of a move: the score after a bonus and the score after none,
/// each weighted by its chance and rounded down.
pub open spec fn chance_value(
    b_score: Score,
    b_chance: Score,
    nb_score: Score,
    nb_chance: Score,
) -> Score {
    Score {
        bits: (b_score.spec_times(b_chance).bits + nb_score.spec_times(nb_chance).bits) as u32,
    }
}

/// The window for the outcome without a bonus: the bonus may be worth
/// anything from 0 to 1.
pub open spec fn no_bonus_window(bounds: Bounds, b_chance: Score, nb_chance: Score) -> Bounds {
    bounds.spec_min_decreased_by(b_chance).spec_expanded(nb_chance)
}

/// The window for the outcome with a bonus, once the outcome without is
/// known to be worth `nb_score`.
pub open spec fn bonus_window(
    bounds: Bounds,
    b_chance: Score,
    nb_score: Score,
    nb_chance: Score,
) -> Bounds {
    bounds.spec_both_decreased_by(nb_score.spec_times(nb_chance)).spec_expanded(b_chance)
}

/// The value of a move lies in `[0, 1]`, whatever the two scores in
/// `[0, 1]` and the two chances are.
pub proof fn lemma_chance_value_in_unit(
    b_score: Score,
    b_chance: Score,
    nb_score: Score,
    nb_chance: Score,
)
    requires
        chances_ok(b_chance, nb_chance),
        b_score.in_unit(),
        nb_score.in_unit(),
    ensures
        chance_value(b_score, b_chance, nb_score, nb_chance).in_unit(),
        chance_value(b_score, b_chance, nb_score, nb_chance).bits == b_score.spec_times(
            b_chance,
        ).bits + nb_score.spec_times(nb_chance).bits,
{
    lemma_product_bounds(b_score.bits as int, b_chance.bits as int);
    lemma_product_bounds(nb_score.bits as int, nb_chance.bits as int);
}

/// Computes `chance_value`.
pub fn weigh(b_score: Score, b_chance: Score, nb_score: Score, nb_chance: Score) -> (r: Score)
    requires
        chances_ok(b_chance, nb_chance),
        b_score.in_unit(),
        nb_score.in_unit(),
    ensures
        r == chance_value(b_score, b_chance, nb_score, nb_chance),
        r.in_unit(),
{
    let b_part = b_score.times(b_chance);
    let nb_part = nb_score.times(nb_chance);
    b_part.plus(nb_part)
}

/// Computes `no_bonus_window`.
pub fn window_without_bonus(bounds: Bounds, b_chance: Score, nb_chance: Score) -> (r: Bounds)
    requires
        chances_ok(b_chance, nb_chance),
    ensures
        r == no_bonus_window(bounds, b_chance, nb_chance),
{
    bounds.min_decreased_by(b_chance).expanded(nb_chance)
}

/// Computes `bonus_window`, for a score that came out of a search in the
/// window without a bonus.
pub fn window_with_bonus(
    bounds: Bounds,
    b_chance: Score,
    nb_score: Score,
    nb_chance: Score,
) -> (r: Bounds)
    requires
        chances_ok(b_chance, nb_chance),
        bounds.spec_valid(),
        nb_score.in_unit(),
        no_bonus_window(bounds, b_chance, nb_chance).spec_contains(nb_score),
    ensures
        r == bonus_window(bounds, b_chance, nb_score, nb_chance),
{
    proof {
        lemma_no_bonus_part_below_max(bounds, b_chance, nb_score, nb_chance);
    }
    bounds.both_decreased_by(nb_score.times(nb_chance)).expanded(b_chance)
}

proof fn lemma_floor(a: int, d: int)
    requires
        0 <= a,
        0 < d,
    ensures
        0 <= a / d,
        (a / d) * d <= a,
        a < (a / d + 1) * d,
{
    assert(0 <= a / d && (a / d) * d <= a && a < (a / d + 1) * d) by (nonlinear_arith)
        requires
            0 <= a,
            0 < d,
    ;
}

proof fn lemma_cancel_lt(a: int, b: int, d: int)
    requires
        0 < d,
        a * d < b * d,
    ensures
        a < b,
{
    assert(a < b) by (nonlinear_arith)
        requires
            0 < d,
            a * d < b * d,
    ;
}

proof fn lemma_scale_le(a: int, b: int, d: int)
    requires
        0 <= d,
        a <= b,
    ensures
        a * d <= b * d,
{
    assert(a * d <= b * d) by (nonlinear_arith)
        requires
            0 <= d,
            a <= b,
    ;
}

/// A score below the stretched upper bound `cap`, or any score in `[0, 1]`
/// where stretching dropped the bound, weighs less than `cap`.
proof fn lemma_weight_below_cap(cap: int, s: int, w: int)
    requires
        0 <= cap,
        0 <= s <= 0x8000_0000,
        0 < w <= 0x8000_0000,
        (cap * 0x8000_0000) / w <= 0x8000_0000 ==> s < (cap * 0x8000_0000) / w,
    ensures
        (s * w) / 0x8000_0000 < cap,
{
    let n = 0x8000_0000int;
    let t = (cap * n) / w;
    assert(0 <= cap * n) by (nonlinear_arith)
        requires
            0 <= cap,
            n == 0x8000_0000,
    ;
    lemma_floor(cap * n, w);
    assert(0 <= s * w) by (nonlinear_arith)
        requires
            0 <= s,
            0 < w,
    ;
    lemma_floor(s * w, n);
    let x = (s * w) / n;
    if t <= n {
        // (s + 1) * w <= t * w <= cap * n
        lemma_scale_le(s + 1, t, w);
        assert((s + 1) * w == s * w + w) by (nonlinear_arith);
        assert(x * n < cap * n);
        lemma_cancel_lt(x, cap, n);
    } else {
        // (n + 1) * w <= t * w <= cap * n, and s * w <= n * w
        lemma_scale_le(n + 1, t, w);
        lemma_scale_le(s, n, w);
        assert((n + 1) * w == n * w + w) by (nonlinear_arith);
        assert(x * n < cap * n);
        lemma_cancel_lt(x, cap, n);
    }
}

/// A lower bound that is at most the weight stays in `[0, 1]` when it is
/// stretched.
proof fn lemma_floor_stays(floor: int, w: int)
    requires
        0 <= floor <= w,
        0 < w <= 0x8000_0000,
    ensures
        0 <= (floor * 0x8000_0000) / w <= 0x8000_0000,
{
    let n = 0x8000_0000int;
    let t = (floor * n) / w;
    assert(0 <= floor * n) by (nonlinear_arith)
        requires
            0 <= floor,
            n == 0x8000_0000,
    ;
    lemma_floor(floor * n, w);
    lemma_scale_le(floor, w, n);
    assert(w * n == n * w) by (nonlinear_arith);
    if t > n {
        lemma_scale_le(n + 1, t, w);
        assert((n + 1) * w == n * w + w) by (nonlinear_arith);
        assert(false);
    }
}

/// A score above the stretched lower bound `floor` weighs at least `floor`.
proof fn lemma_weight_reaches_floor(floor: int, s: int, w: int)
    requires
        0 <= floor,
        0 <= s,
        0 < w <= 0x8000_0000,
        s > (floor * 0x8000_0000) / w,
    ensures
        (s * w) / 0x8000_0000 >= floor,
{
    let n = 0x8000_0000int;
    let t = (floor * n) / w;
    assert(0 <= floor * n) by (nonlinear_arith)
        requires
            0 <= floor,
            n == 0x8000_0000,
    ;
    lemma_floor(floor * n, w);
    assert(0 <= s * w) by (nonlinear_arith)
        requires
            0 <= s,
            0 < w,
    ;
    lemma_floor(s * w, n);
    let x = (s * w) / n;
    // floor * n < (t + 1) * w <= s * w < (x + 1) * n
    lemma_scale_le(t + 1, s, w);
    assert(floor * n < (x + 1) * n);
    lemma_cancel_lt(floor, x + 1, n);
}

/// A score that weighs more than `floor` is above the stretched lower bound.
proof fn lemma_heavy_above_floor(floor: int, s: int, w: int)
    requires
        0 <= floor,
        0 <= s,
        0 < w <= 0x8000_0000,
        (s * w) / 0x8000_0000 > floor,
    ensures
        s > (floor * 0x8000_0000) / w,
{
    let n = 0x8000_0000int;
    let t = (floor * n) / w;
    assert(0 <= floor * n) by (nonlinear_arith)
        requires
            0 <= floor,
            n == 0x8000_0000,
    ;
    lemma_floor(floor * n, w);
    assert(0 <= s * w) by (nonlinear_arith)
        requires
            0 <= s,
            0 < w,
    ;
    lemma_floor(s * w, n);
    let x = (s * w) / n;
    // t * w <= floor * n < x * n <= s * w
    lemma_scale_le(floor + 1, x, n);
    assert((floor + 1) * n == floor * n + n) by (nonlinear_arith);
    assert(t * w < s * w);
    lemma_cancel_lt(t, s, w);
}

/// A score that weighs less than `cap` is at most the stretched upper bound.
proof fn lemma_light_within_cap(cap: int, s: int, w: int)
    requires
        0 <= cap,
        0 <= s,
        0 < w <= 0x8000_0000,
        (s * w) / 0x8000_0000 < cap,
    ensures
        s <= (cap * 0x8000_0000) / w,
{
    let n = 0x8000_0000int;
    let t = (cap * n) / w;
    assert(0 <= cap * n) by (nonlinear_arith)
        requires
            0 <= cap,
            n == 0x8000_0000,
    ;
    lemma_floor(cap * n, w);
    assert(0 <= s * w) by (nonlinear_arith)
        requires
            0 <= s,
            0 < w,
    ;
    lemma_floor(s * w, n);
    let x = (s * w) / n;
    // s * w < (x + 1) * n <= cap * n < (t + 1) * w
    lemma_scale_le(x + 1, cap, n);
    assert(s * w < (t + 1) * w);
    lemma_cancel_lt(s, t + 1, w);
}

/// The weighted score of the outcome without a bonus stays below the upper
/// bound of the window for the move, so the window for the bonus can be
/// derived from it.
pub proof fn lemma_no_bonus_part_below_max(
    bounds: Bounds,
    b_chance: Score,
    nb_score: Score,
    nb_chance: Score,
)
    requires
        chances_ok(b_chance, nb_chance),
        bounds.spec_valid(),
        nb_score.in_unit(),
        !no_bonus_window(bounds, b_chance, nb_chance).spec_score_too_high(nb_score),
    ensures
        nb_score.spec_times(nb_chance).in_unit(),
        bounds.max matches Some(max) ==> nb_score.spec_times(nb_chance).bits < max.bits,
        bounds.can_decrease_both_by(nb_score.spec_times(nb_chance)),
{
    lemma_product_bounds(nb_score.bits as int, nb_chance.bits as int);
    if let Some(max) = bounds.max {
        lemma_weight_below_cap(max.bits as int, nb_score.bits as int, nb_chance.bits as int);
    }
}

/// The window for the bonus is valid, and has no upper bound where the
/// window for the move has none.
pub proof fn lemma_bonus_window_valid(
    bounds: Bounds,
    b_chance: Score,
    nb_score: Score,
    nb_chance: Score,
)
    requires
        chances_ok(b_chance, nb_chance),
        bounds.spec_valid(),
        bounds.in_unit(),
        nb_score.in_unit(),
        !no_bonus_window(bounds, b_chance, nb_chance).spec_score_too_high(nb_score),
    ensures
        bonus_window(bounds, b_chance, nb_score, nb_chance).spec_valid(),
        bonus_window(bounds, b_chance, nb_score, nb_chance).in_unit(),
        no_bonus_window(bounds, b_chance, nb_chance).spec_valid(),
        no_bonus_window(bounds, b_chance, nb_chance).in_unit(),
        bonus_window(bounds, b_chance, nb_score, nb_chance).min is Some ==> bounds.min is Some,
        bonus_window(bounds, b_chance, nb_score, nb_chance).max is Some ==> bounds.max is Some,
        no_bonus_window(bounds, b_chance, nb_chance).min is Some ==> bounds.min is Some,
        no_bonus_window(bounds, b_chance, nb_chance).max is Some ==> bounds.max is Some,
{
    let n = 0x8000_0000int;
    let p = b_chance.bits as int;
    let q = nb_chance.bits as int;
    let part = nb_score.spec_times(nb_chance);
    lemma_product_bounds(nb_score.bits as int, q);
    lemma_no_bonus_part_below_max(bounds, b_chance, nb_score, nb_chance);
    super::bounds::lemma_min_decreased_valid(bounds, b_chance);
    super::bounds::lemma_expanded_valid(bounds.spec_min_decreased_by(b_chance), nb_chance);
    let lowered_both = bounds.spec_both_decreased_by(part);
    if bounds.max is None {
        // The bound put in place of the missing one is more than the
        // chance of a bonus, so stretching drops it again.
        let cap = n - part.bits + 1;
        assert(lowered_both.max == Some(Score { bits: cap as u32 }));
        assert((cap * n) / p > n) by (nonlinear_arith)
            requires
                cap >= p + 1,
                0 < p < n,
                n == 0x8000_0000,
        {
            assert(cap * n >= (p + 1) * n);
            assert((p + 1) * n == (n + 1) * p + (n - p));
            assert(((n + 1) * p + (n - p)) / p >= n + 1);
        }
        assert(lowered_both.spec_expanded(b_chance).max is None);
        assert(lowered_both.spec_expanded(b_chance).spec_valid());
    } else {
        assert(lowered_both.spec_valid());
        super::bounds::lemma_expanded_valid(lowered_both, b_chance);
    }
}

/// Soundness of the two windows. If the outcome without a bonus is worth a
/// score inside its window, and the outcome with a bonus a score inside the
/// window derived from that, then the value of the move is in `[0, 1]`,
/// below the upper bound of the window for the move, and not below its
/// lower bound. Rounding can put it exactly on the lower bound, never
/// further out.
pub proof fn lemma_windows_sound(
    bounds: Bounds,
    b_score: Score,
    b_chance: Score,
    nb_score: Score,
    nb_chance: Score,
)
    requires
        chances_ok(b_chance, nb_chance),
        bounds.spec_valid(),
        bounds.in_unit(),
        b_score.in_unit(),
        nb_score.in_unit(),
        no_bonus_window(bounds, b_chance, nb_chance).spec_contains(nb_score),
        bonus_window(bounds, b_chance, nb_score, nb_chance).spec_contains(b_score),
    ensures
        chance_value(b_score, b_chance, nb_score, nb_chance).in_unit(),
        !bounds.spec_score_too_high(chance_value(b_score, b_chance, nb_score, nb_chance)),
        bounds.spec_contains(chance_value(b_score, b_chance, nb_score, nb_chance))
            || bounds.min == Some(chance_value(b_score, b_chance, nb_score, nb_chance)),
{
    let n = 0x8000_0000int;
    let p = b_chance.bits as int;
    let q = nb_chance.bits as int;
    let ns = nb_score.bits as int;
    let b = b_score.bits as int;
    let x = (ns * q) / n;
    let y = (b * p) / n;
    lemma_product_bounds(ns, q);
    lemma_product_bounds(b, p);
    lemma_no_bonus_part_below_max(bounds, b_chance, nb_score, nb_chance);
    let part = nb_score.spec_times(nb_chance);
    assert(part.bits == x);
    let c = chance_value(b_score, b_chance, nb_score, nb_chance);
    assert(c.bits == x + y);
    let lowered_both = bounds.spec_both_decreased_by(part);
    if let Some(max) = bounds.max {
        let cap = max.bits - x;
        assert(lowered_both.max == Some(Score { bits: cap as u32 }));
        lemma_weight_below_cap(cap, b, p);
    }
    if let Some(min) = bounds.min {
        let m = min.bits as int;
        if m >= p {
            lemma_floor_stays(m - p, q);
            lemma_weight_reaches_floor(m - p, ns, q);
        }
        assert(x >= m - p);
        if m >= x {
            lemma_floor_stays(m - x, p);
            lemma_weight_reaches_floor(m - x, b, p);
        }
        assert(x + y >= m);
    }
}

/// A weight of at most `floor`, for a score at or below the stretched lower
/// bound.
proof fn lemma_weight_stays_below(floor: int, s: int, w: int)
    requires
        0 <= floor,
        0 <= s <= (floor * 0x8000_0000) / w,
        0 < w <= 0x8000_0000,
    ensures
        (s * w) / 0x8000_0000 <= floor,
{
    let n = 0x8000_0000int;
    let t = (floor * n) / w;
    assert(0 <= floor * n) by (nonlinear_arith)
        requires
            0 <= floor,
            n == 0x8000_0000,
    ;
    lemma_floor(floor * n, w);
    assert(0 <= s * w) by (nonlinear_arith)
        requires
            0 <= s,
            0 < w,
    ;
    lemma_floor(s * w, n);
    let x = (s * w) / n;
    // x * n <= s * w <= t * w <= floor * n
    lemma_scale_le(s, t, w);
    assert(x * n < (floor + 1) * n) by (nonlinear_arith)
        requires
            x * n <= floor * n,
            n == 0x8000_0000,
    ;
    lemma_cancel_lt(x, floor + 1, n);
}

/// A weight of at least `cap - 1`, for a score at or above the stretched
/// upper bound.
proof fn lemma_weight_stays_above(cap: int, s: int, w: int)
    requires
        0 <= cap,
        0 <= s,
        s >= (cap * 0x8000_0000) / w,
        0 < w <= 0x8000_0000,
    ensures
        (s * w) / 0x8000_0000 >= cap - 1,
{
    let n = 0x8000_0000int;
    let t = (cap * n) / w;
    assert(0 <= cap * n) by (nonlinear_arith)
        requires
            0 <= cap,
            n == 0x8000_0000,
    ;
    lemma_floor(cap * n, w);
    assert(0 <= s * w) by (nonlinear_arith)
        requires
            0 <= s,
            0 < w,
    ;
    lemma_floor(s * w, n);
    let x = (s * w) / n;
    // (cap - 1) * n <= cap * n - w < t * w <= s * w < (x + 1) * n
    lemma_scale_le(t, s, w);
    assert((t + 1) * w == t * w + w) by (nonlinear_arith);
    assert((cap - 1) * n == cap * n - n) by (nonlinear_arith);
    assert((cap - 1) * n < (x + 1) * n);
    lemma_cancel_lt(cap - 1, x + 1, n);
}

/// Why a search of one outcome that ends with `Low` settles the move. If
/// the score without a bonus is at or below the lower bound of its window,
/// the value of the move is at or below the lower bound of the window for
/// the move, whatever the bonus is worth. And so it is if the score with a
/// bonus is at or below the lower bound of its window.
pub proof fn lemma_low_settles_the_move(
    bounds: Bounds,
    b_score: Score,
    b_chance: Score,
    nb_score: Score,
    nb_chance: Score,
)
    requires
        chances_ok(b_chance, nb_chance),
        bounds.in_unit(),
        b_score.in_unit(),
        nb_score.in_unit(),
        bounds.can_decrease_both_by(nb_score.spec_times(nb_chance)),
        no_bonus_window(bounds, b_chance, nb_chance).spec_score_too_low(nb_score) || bonus_window(
            bounds,
            b_chance,
            nb_score,
            nb_chance,
        ).spec_score_too_low(b_score),
    ensures
        bounds.spec_score_too_low(chance_value(b_score, b_chance, nb_score, nb_chance)),
{
    let n = 0x8000_0000int;
    let p = b_chance.bits as int;
    let q = nb_chance.bits as int;
    let ns = nb_score.bits as int;
    let b = b_score.bits as int;
    let x = (ns * q) / n;
    lemma_product_bounds(ns, q);
    lemma_product_bounds(b, p);
    let m = bounds.min->Some_0.bits as int;
    if no_bonus_window(bounds, b_chance, nb_chance).spec_score_too_low(nb_score) {
        lemma_floor_stays(m - p, q);
        lemma_weight_stays_below(m - p, ns, q);
    } else {
        assert(nb_score.spec_times(nb_chance).bits == x);
        lemma_weight_stays_below(m - x, b, p);
    }
}

/// Why a search of one outcome that ends with `High` settles the move, up
/// to one step of rounding. If the score without a bonus is at or above the
/// upper bound of its window, the value of the move is at most one step
/// below the upper bound of the window for the move, whatever the bonus is
/// worth. And so it is if the score with a bonus is at or above the upper
/// bound of its window.
pub proof fn lemma_high_settles_the_move(
    bounds: Bounds,
    b_score: Score,
    b_chance: Score,
    nb_score: Score,
    nb_chance: Score,
)
    requires
        chances_ok(b_chance, nb_chance),
        bounds.spec_valid(),
        b_score.in_unit(),
        nb_score.in_unit(),
        bounds.max is Some,
        bounds.can_decrease_both_by(nb_score.spec_times(nb_chance)),
        no_bonus_window(bounds, b_chance, nb_chance).spec_score_too_high(nb_score) || bonus_window(
            bounds,
            b_chance,
            nb_score,
            nb_chance,
        ).spec_score_too_high(b_score),
    ensures
        chance_value(b_score, b_chance, nb_score, nb_chance).bits + 1 >= bounds.max->Some_0.bits,
{
    let n = 0x8000_0000int;
    let p = b_chance.bits as int;
    let q = nb_chance.bits as int;
    let ns = nb_score.bits as int;
    let b = b_score.bits as int;
    let x = (ns * q) / n;
    lemma_product_bounds(ns, q);
    lemma_product_bounds(b, p);
    let max = bounds.max->Some_0.bits as int;
    if no_bonus_window(bounds, b_chance, nb_chance).spec_score_too_high(nb_score) {
        lemma_weight_stays_above(max, ns, q);
    } else {
        assert(nb_score.spec_times(nb_chance).bits == x);
        lemma_weight_stays_above(max - x, b, p);
    }
}

/// Completeness of the two windows. If the value of a move is strictly
/// inside the window for the move, then the score without a bonus is inside
/// its window and the score with a bonus inside the window derived from it,
/// unless rounding put one of the two scores exactly on the upper bound of
/// its window.
pub proof fn lemma_windows_complete(
    bounds: Bounds,
    b_score: Score,
    b_chance: Score,
    nb_score: Score,
    nb_chance: Score,
)
    requires
        chances_ok(b_chance, nb_chance),
        bounds.spec_valid(),
        bounds.in_unit(),
        b_score.in_unit(),
        nb_score.in_unit(),
        bounds.spec_contains(chance_value(b_score, b_chance, nb_score, nb_chance)),
        no_bonus_window(bounds, b_chance, nb_chance).max != Some(nb_score),
        bonus_window(bounds, b_chance, nb_score, nb_chance).max != Some(b_score),
    ensures
        no_bonus_window(bounds, b_chance, nb_chance).spec_contains(nb_score),
        bounds.can_decrease_both_by(nb_score.spec_times(nb_chance)),
        bonus_window(bounds, b_chance, nb_score, nb_chance).spec_contains(b_score),
{
    let n = 0x8000_0000int;
    let p = b_chance.bits as int;
    let q = nb_chance.bits as int;
    let ns = nb_score.bits as int;
    let b = b_score.bits as int;
    let x = (ns * q) / n;
    let y = (b * p) / n;
    lemma_product_bounds(ns, q);
    lemma_product_bounds(b, p);
    let part = nb_score.spec_times(nb_chance);
    assert(part.bits == x);
    let c = chance_value(b_score, b_chance, nb_score, nb_chance);
    assert(c.bits == x + y);
    if let Some(min) = bounds.min {
        let m = min.bits as int;
        if m >= p {
            lemma_heavy_above_floor(m - p, ns, q);
        }
        if m >= x {
            lemma_heavy_above_floor(m - x, b, p);
        }
    }
    match bounds.max {
        Some(max) => {
            lemma_light_within_cap(max.bits as int, ns, q);
            lemma_light_within_cap(max.bits - x, b, p);
        },
        None => {
            lemma_light_within_cap(n - x + 1, b, p);
        },
    }
}

} // verus!
