//! Engines that choose a move for the side to move.

pub mod alphabeta;
pub mod evaluator;
pub mod feature_eval;
pub mod greedy;
pub mod minimax;
pub mod position_table;
pub mod proportion_count;

use alphabeta::chance::weigh;
use crate::board_model::lemma_all_moves_can_move;
use crate::board_model::BoardState;
use crate::board_model::Status;
use crate::bonus_chance;
use crate::chess_types::ChessMove;
use crate::chess_types::Color;
use crate::logger::Logger;
use crate::my_board::MyBoard;
use crate::no_bonus_chance;
use crate::score::Score;
use minimax::mean_of;
use vstd::prelude::*;

verus! {

/// Why an engine has no move to offer.
#[derive(Clone, Copy, Debug, PartialEq, Eq, Structural)]
pub enum MoveError {
    /// The side to move has no move, though the game is in progress.
    NoLegalMove,
    /// The time was up before the search to depth 2 was done.
    NoDepthCompleted,
}

/// The better of the best move so far and a new one: the new one if it is
/// the first, or if its score is better for the mover.
pub open spec fn better_of(
    is_maxing: bool,
    best: Option<(Score, ChessMove)>,
    score: Score,
    mv: ChessMove,
) -> Option<(Score, ChessMove)> {
    match best {
        None => Some((score, mv)),
        Some((best_score, _)) => if (is_maxing && score.bits > best_score.bits) || (!is_maxing
            && score.bits < best_score.bits) {
            Some((score, mv))
        } else {
            best
        },
    }
}

/// Computes `better_of`.
pub fn keep_better(
    is_maxing: bool,
    best: Option<(Score, ChessMove)>,
    score: Score,
    mv: ChessMove,
) -> (r: Option<(Score, ChessMove)>)
    ensures
        r == better_of(is_maxing, best, score, mv),
{
    match best {
        None => Some((score, mv)),
        Some((best_score, _)) => if (is_maxing && score.bits > best_score.bits) || (!is_maxing
            && score.bits < best_score.bits) {
            Some((score, mv))
        } else {
            best
        },
    }
}

/// Whether the two outcomes of a move were given scores in `[0, 1]`.
pub open spec fn both_valued<M>(with_bonus: Score, first: M, without_bonus: Score, second: M) -> bool {
    with_bonus.in_unit() && without_bonus.in_unit()
}

/// Whether an engine that looks at the moves of a state one after the
/// other, from the `k`-th on, can come to `choice` and be left with what it
/// remembers as `after`.
///
/// `valued` says what the engine can make of a state: with what it
/// remembers before, the state, a score and what it remembers then. With no
/// move left the choice is the best so far. Else the move is made and the
/// state after a bonus is valued, then the state after none; the mean of the
/// two scores is the worth of the move; and the moves that follow are
/// looked at with the better of the best so far and this move, of two that
/// are as good the earlier.
#[verifier::opaque]
pub open spec fn choice_comes_to<M>(
    valued: spec_fn(M, BoardState, Score, M) -> bool,
    before: M,
    state: BoardState,
    k: nat,
    best: Option<(Score, ChessMove)>,
    choice: Option<(Score, ChessMove)>,
    after: M,
) -> bool
    decreases state.all_moves().len() - k,
{
    if k >= state.all_moves().len() {
        choice == best && after == before
    } else {
        let mv = state.all_moves()[k as int];
        exists|with_bonus: Score, first: M, without_bonus: Score, second: M|
            #[trigger] both_valued(with_bonus, first, without_bonus, second) && valued(
                before,
                state.moved(mv).bonus(true),
                with_bonus,
                first,
            ) && valued(first, state.moved(mv).bonus(false), without_bonus, second)
                && choice_comes_to(
                valued,
                second,
                state,
                k + 1,
                better_of(
                    state.side_to_move == Color::White,
                    best,
                    mean_of(with_bonus, without_bonus),
                    mv,
                ),
                choice,
                after,
            )
    }
}

/// With no move left, the best so far is the choice.
pub proof fn lemma_choice_made<M>(
    valued: spec_fn(M, BoardState, Score, M) -> bool,
    memory: M,
    state: BoardState,
    k: nat,
    best: Option<(Score, ChessMove)>,
)
    requires
        k >= state.all_moves().len(),
    ensures
        choice_comes_to(valued, memory, state, k, best, best, memory),
{
    reveal(choice_comes_to);
}

/// What the moves after the `k`-th come to, once its two outcomes are
/// valued, is what the moves from the `k`-th on come to.
pub proof fn lemma_choice_goes_on<M>(
    valued: spec_fn(M, BoardState, Score, M) -> bool,
    before: M,
    state: BoardState,
    k: nat,
    best: Option<(Score, ChessMove)>,
    with_bonus: Score,
    first: M,
    without_bonus: Score,
    second: M,
    choice: Option<(Score, ChessMove)>,
    after: M,
)
    requires
        k < state.all_moves().len(),
        both_valued(with_bonus, first, without_bonus, second),
        valued(before, state.moved(state.all_moves()[k as int]).bonus(true), with_bonus, first),
        valued(
            first,
            state.moved(state.all_moves()[k as int]).bonus(false),
            without_bonus,
            second,
        ),
        choice_comes_to(
            valued,
            second,
            state,
            k + 1,
            better_of(
                state.side_to_move == Color::White,
                best,
                mean_of(with_bonus, without_bonus),
                state.all_moves()[k as int],
            ),
            choice,
            after,
        ),
    ensures
        choice_comes_to(valued, before, state, k, best, choice, after),
{
    reveal(choice_comes_to);
}

/// Whether an engine can make one thing only of a state: the same memory
/// and state give the same score and the same memory.
pub open spec fn values_one_way<M>(valued: spec_fn(M, BoardState, Score, M) -> bool) -> bool {
    forall|before: M, state: BoardState, score: Score, after: M, other: Score, other_after: M|
        #![trigger valued(before, state, score, after), valued(before, state, other, other_after)]
        valued(before, state, score, after) && valued(before, state, other, other_after) ==> score
            == other && after == other_after
}

/// An engine that can make one thing only of a state comes to one choice
/// only: with the same memory it names the same move for the same state.
pub proof fn lemma_choice_determined<M>(
    valued: spec_fn(M, BoardState, Score, M) -> bool,
    before: M,
    state: BoardState,
    k: nat,
    best: Option<(Score, ChessMove)>,
    choice: Option<(Score, ChessMove)>,
    after: M,
    other_choice: Option<(Score, ChessMove)>,
    other_after: M,
)
    requires
        values_one_way(valued),
        choice_comes_to(valued, before, state, k, best, choice, after),
        choice_comes_to(valued, before, state, k, best, other_choice, other_after),
    ensures
        choice == other_choice,
        after == other_after,
    decreases state.all_moves().len() - k,
{
    reveal(choice_comes_to);
    if k < state.all_moves().len() {
        let mv = state.all_moves()[k as int];
        let is_maxing = state.side_to_move == Color::White;
        let (with_bonus, first, without_bonus, second) = choose|
            with_bonus: Score,
            first: M,
            without_bonus: Score,
            second: M,
        |
            #[trigger] both_valued(with_bonus, first, without_bonus, second) && valued(
                before,
                state.moved(mv).bonus(true),
                with_bonus,
                first,
            ) && valued(first, state.moved(mv).bonus(false), without_bonus, second)
                && choice_comes_to(
                valued,
                second,
                state,
                k + 1,
                better_of(is_maxing, best, mean_of(with_bonus, without_bonus), mv),
                choice,
                after,
            );
        let (other_with_bonus, other_first, other_without_bonus, other_second) = choose|
            with_bonus: Score,
            first: M,
            without_bonus: Score,
            second: M,
        |
            #[trigger] both_valued(with_bonus, first, without_bonus, second) && valued(
                before,
                state.moved(mv).bonus(true),
                with_bonus,
                first,
            ) && valued(first, state.moved(mv).bonus(false), without_bonus, second)
                && choice_comes_to(
                valued,
                second,
                state,
                k + 1,
                better_of(is_maxing, best, mean_of(with_bonus, without_bonus), mv),
                other_choice,
                other_after,
            );
        assert(with_bonus == other_with_bonus && first == other_first);
        assert(without_bonus == other_without_bonus && second == other_second);
        lemma_choice_determined(
            valued,
            second,
            state,
            k + 1,
            better_of(is_maxing, best, mean_of(with_bonus, without_bonus), mv),
            choice,
            after,
            other_choice,
            other_after,
        );
    }
}

/// The boards after a move with and without a bonus, in this order. With
/// `checked`, a board on which the side to move has no move is drawn.
pub fn next_boards(board: &MyBoard, mv: ChessMove, checked: bool) -> (r: (MyBoard, MyBoard))
    requires
        board.wf(),
        board@.can_move(mv),
    ensures
        r.0.wf(),
        r.1.wf(),
        !r.0@.awaiting_bonus,
        !r.1@.awaiting_bonus,
        checked ==> r.0@ == board@.moved(mv).bonus(true) && r.1@ == board@.moved(mv).bonus(false),
        !checked ==> r.0@ == board@.moved(mv).bonus_unchecked(true) && r.1@ == board@.moved(
            mv,
        ).bonus_unchecked(false),
        checked ==> r.0@.settled() && r.1@.settled(),
{
    let mut new_board = *board;
    new_board.apply_move_unchecked(mv);
    let mut bonus_board = new_board;
    let mut no_bonus_board = new_board;
    if checked {
        bonus_board.apply_bonus(true);
        no_bonus_board.apply_bonus(false);
    } else {
        bonus_board.apply_bonus_unchecked(true);
        no_bonus_board.apply_bonus_unchecked(false);
    }
    (bonus_board, no_bonus_board)
}

/// A player: something that values positions and chooses moves.
pub trait Engine {
    /// Whether the engine is fit for use.
    spec fn ready(&self) -> bool;

    /// Whether the engine is set up so that it can choose a move.
    spec fn fit_to_choose(&self) -> bool;

    /// Whether the engine may end without a move on a board that has one,
    /// as an engine does that searches against a clock.
    spec fn may_give_up(&self) -> bool;

    /// The worth of a position for White, between 0 and 1.
    fn evaluate(&mut self, board: &MyBoard) -> (score: Score)
        requires
            old(self).ready(),
            board.wf(),
            !board@.awaiting_bonus,
        ensures
            final(self).ready(),
            final(self).fit_to_choose() == old(self).fit_to_choose(),
            final(self).may_give_up() == old(self).may_give_up(),
            score.in_unit(),
    ;

    /// A move for the side to move. The engine values the two outcomes of
    /// each move, with and without a bonus, weighs them by their chances
    /// and keeps the move that is worth most to the mover, among several
    /// such moves the first: see `weigh` and `keep_better`. What it makes
    /// of an outcome is up to `evaluate`, so of the choice no more is
    /// promised here than that it is a move of the board; the engines of
    /// this library say of their own choice what it comes to, see
    /// `choice_comes_to`. Only an engine that `may_give_up` ends without a
    /// move on a board that has one.
    fn get_move(&mut self, board: &MyBoard) -> (r: Result<ChessMove, MoveError>)
        requires
            old(self).ready(),
            old(self).fit_to_choose(),
            board.wf(),
            !board@.awaiting_bonus,
            board@.status == Status::InProgress,
        ensures
            final(self).ready(),
            final(self).fit_to_choose(),
            r matches Ok(m) ==> board@.all_moves().contains(m),
            r == Err::<ChessMove, MoveError>(MoveError::NoLegalMove) <==> board@.all_moves().len()
                == 0,
            r == Err::<ChessMove, MoveError>(MoveError::NoDepthCompleted) ==> old(
                self,
            ).may_give_up(),
            board@.all_moves().len() > 0 && !old(self).may_give_up() ==> r is Ok,
            final(self).may_give_up() == old(self).may_give_up(),
    {
        let moves = board.all_moves();
        let is_maxing = board.get_side_to_move() == Color::White;
        let mut best: Option<(Score, ChessMove)> = None;
        let mut k: usize = 0;
        while k < moves.len()
            invariant
                k <= moves.len(),
                self.ready(),
                self.fit_to_choose(),
                self.may_give_up() == old(self).may_give_up(),
                board.wf(),
                !board@.awaiting_bonus,
                moves@ == board@.all_moves(),
                k > 0 ==> best is Some,
                best matches Some((_, m)) ==> board@.all_moves().contains(m),
            decreases moves.len() - k,
        {
            let mv = moves[k];
            proof {
                board.lemma_wf();
                assert(moves@.contains(mv));
                lemma_all_moves_can_move(board@, mv);
            }
            let (bonus_board, no_bonus_board) = next_boards(board, mv, true);
            let with_bonus = self.evaluate(&bonus_board);
            let without_bonus = self.evaluate(&no_bonus_board);
            let evaluation = weigh(with_bonus, bonus_chance(), without_bonus, no_bonus_chance());
            best = keep_better(is_maxing, best, evaluation, mv);
            k += 1;
        }
        self.log_info();
        match best {
            Some((_, mv)) => Ok(mv),
            None => Err(MoveError::NoLegalMove),
        }
    }

    /// Writes into the log what there is to say about the last choice.
    fn log_info(&mut self)
        requires
            old(self).ready(),
        ensures
            final(self).ready(),
            final(self).fit_to_choose() == old(self).fit_to_choose(),
            final(self).may_give_up() == old(self).may_give_up(),
    {
    }

    /// The log of the engine.
    spec fn logger(&self) -> Logger;

    /// The log of the engine.
    fn get_logger(&self) -> (r: &Logger)
        ensures
            *r == self.logger(),
    ;
}

/// The engine that plays where nothing else is asked for.
pub fn default_engine() -> (engine: alphabeta::AlphaBeta<proportion_count::ProportionCount>)
    ensures
        engine.ready(),
        engine.fit_to_choose(),
{
    alphabeta::AlphaBeta::default(proportion_count::ProportionCount)
}

} // verus!
