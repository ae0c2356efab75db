//! The engine that looks one move ahead.

use crate::board_model::lemma_all_moves_can_move;
use crate::board_model::BoardState;
use crate::bonus_chance;
use crate::chess_types::ChessMove;
use crate::chess_types::Color;
use crate::logger::Logger;
use crate::my_board::MyBoard;
use crate::no_bonus_chance;
use crate::score::Score;
use super::alphabeta::chance::weigh;
use super::choice_comes_to;
use super::evaluator::answer_for;
use super::evaluator::lemma_answer_given;
use super::evaluator::of_one_mind;
use super::evaluator::StaticEvaluator;
use super::keep_better;
use super::lemma_choice_determined;
use super::lemma_choice_goes_on;
use super::lemma_choice_made;
use super::next_boards;
use super::values_one_way;
use super::Engine;
use super::MoveError;
use vstd::prelude::*;

verus! {

/// What an engine that looks one move ahead makes of a state: an answer of
/// its judge. It remembers nothing.
pub open spec fn greedy_values<E: StaticEvaluator>(judge: E) -> spec_fn(
    (),
    BoardState,
    Score,
    (),
) -> bool {
    |before: (), state: BoardState, score: Score, after: ()| answer_for(&judge, state, score)
}

/// With a judge of one mind, the engine names one move only for a state.
pub proof fn lemma_greedy_choice_determined<E: StaticEvaluator>(
    judge: E,
    state: BoardState,
    choice: Option<(Score, ChessMove)>,
    other_choice: Option<(Score, ChessMove)>,
)
    requires
        of_one_mind(&judge),
        choice_comes_to(greedy_values(judge), (), state, 0, None, choice, ()),
        choice_comes_to(greedy_values(judge), (), state, 0, None, other_choice, ()),
    ensures
        choice == other_choice,
{
    assert(values_one_way(greedy_values(judge)));
    lemma_choice_determined(
        greedy_values(judge),
        (),
        state,
        0,
        None,
        choice,
        (),
        other_choice,
        (),
    );
}

/// The engine whose worth of a position is the judge's own word.
pub struct Greedy<E: StaticEvaluator> {
    static_evaluator: E,
    logger: Logger,
}

impl<E: StaticEvaluator> Greedy<E> {
    /// The judge that the engine asks.
    pub closed spec fn judge(&self) -> E {
        self.static_evaluator
    }

    /// The engine that asks the given judge, with an empty log that keeps
    /// next to nothing.
    pub fn default(static_evaluator: E) -> (engine: Self)
        ensures
            engine.ready(),
            engine.judge() == static_evaluator,
            engine.logger().level() == 0,
            engine.logger().lines().len() == 0,
    {
        Greedy { static_evaluator, logger: Logger::new(0) }
    }
}

impl<E: StaticEvaluator> Engine for Greedy<E> {
    open spec fn ready(&self) -> bool {
        true
    }

    /// What the judge makes of the board. The engine stays as it is.
    fn evaluate(&mut self, board: &MyBoard) -> (score: Score)
        ensures
            answer_for(&old(self).judge(), board@, score),
            *final(self) == *old(self),
    {
        let score = self.static_evaluator.evaluate(board);
        proof {
            lemma_answer_given(&self.static_evaluator, board, score);
        }
        score
    }

    /// The move that the judge likes best: the choice that the moves of
    /// the board come to when the judge values the two outcomes of each, see
    /// `choice_comes_to`. The engine stays as it is.
    fn get_move(&mut self, board: &MyBoard) -> (r: Result<ChessMove, MoveError>)
        ensures
            *final(self) == *old(self),
            r matches Ok(m) ==> exists|score: Score|
                #[trigger] choice_comes_to(
                    greedy_values(old(self).judge()),
                    (),
                    board@,
                    0,
                    None,
                    Some((score, m)),
                    (),
                ),
    {
        let moves = board.all_moves();
        let is_maxing = board.get_side_to_move() == Color::White;
        let mut best: Option<(Score, ChessMove)> = None;
        let mut k: usize = 0;
        let ghost values = greedy_values(self.judge());
        while k < moves.len()
            invariant
                k <= moves.len(),
                *self == *old(self),
                board.wf(),
                !board@.awaiting_bonus,
                moves@ == board@.all_moves(),
                is_maxing == (board@.side_to_move == Color::White),
                values == greedy_values(old(self).judge()),
                k > 0 ==> best is Some,
                best matches Some((_, m)) ==> board@.all_moves().contains(m),
                forall|choice: Option<(Score, ChessMove)>| #[trigger]
                    choice_comes_to(values, (), board@, k as nat, best, choice, ())
                        ==> choice_comes_to(values, (), board@, 0, None, choice, ()),
            decreases moves.len() - k,
        {
            let mv = moves[k];
            proof {
                board.lemma_wf();
                assert(moves@.contains(mv));
                lemma_all_moves_can_move(board@, mv);
            }
            let (bonus_board, no_bonus_board) = next_boards(board, mv, true);
            let with_bonus = self.evaluate(&bonus_board);
            let without_bonus = self.evaluate(&no_bonus_board);
            let evaluation = weigh(with_bonus, bonus_chance(), without_bonus, no_bonus_chance());
            let ghost earlier = best;
            best = keep_better(is_maxing, best, evaluation, mv);
            k += 1;
            proof {
                assert forall|choice: Option<(Score, ChessMove)>| #[trigger]
                    choice_comes_to(values, (), board@, k as nat, best, choice, ()) implies
                    choice_comes_to(values, (), board@, 0, None, choice, ()) by {
                    lemma_choice_goes_on(
                        values,
                        (),
                        board@,
                        (k - 1) as nat,
                        earlier,
                        with_bonus,
                        (),
                        without_bonus,
                        (),
                        choice,
                        (),
                    );
                }
            }
        }
        proof {
            lemma_choice_made(values, (), board@, k as nat, best);
        }
        self.log_info();
        match best {
            Some((score, mv)) => {
                proof {
                    assert(choice_comes_to(values, (), board@, k as nat, best, best, ()));
                    assert(choice_comes_to(values, (), board@, 0, None, Some((score, mv)), ()));
                }
                Ok(mv)
            },
            None => Err(MoveError::NoLegalMove),
        }
    }

    /// There is nothing to say: the engine stays as it is.
    fn log_info(&mut self)
        ensures
            *final(self) == *old(self),
    {
    }

    open spec fn fit_to_choose(&self) -> bool {
        true
    }

    /// An engine that looks one move ahead always finds a move where there
    /// is one.
    open spec fn may_give_up(&self) -> bool {
        false
    }

    closed spec fn logger(&self) -> Logger {
        self.logger
    }

    fn get_logger(&self) -> (r: &Logger) {
        &self.logger
    }
}

} // verus!
