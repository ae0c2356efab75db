//! What an engine asks of a judge of positions.

use crate::board_model::BoardState;
use crate::board_model::Status;
use crate::chess_types::Color;
use crate::my_board::MyBoard;
use crate::score::Score;
use vstd::prelude::*;

verus! {

/// What a game that has ended is worth for White: 1 if White won, 0 if
/// Black won, one half for a draw. A game in progress has no such value.
pub open spec fn terminal_value(status: Status) -> Option<Score> {
    match status {
        Status::InProgress => None,
        Status::Win(Color::Black) => Some(Score::spec_zero()),
        Status::Win(Color::White) => Some(Score::spec_one()),
        Status::Draw => Some(Score::spec_half()),
    }
}

/// Computes `terminal_value`.
pub fn value_of_status(status: Status) -> (r: Option<Score>)
    ensures
        r == terminal_value(status),
{
    match status {
        Status::InProgress => None,
        Status::Win(Color::Black) => Some(Score::zero()),
        Status::Win(Color::White) => Some(Score::one()),
        Status::Draw => Some(Score::half()),
    }
}

/// Whether `score` is an answer of a judge to a state of the game: what
/// `evaluate` gave, or could have given, for a board in that state. A judge
/// need not give the same answer twice.
pub open spec fn answer_for<E: StaticEvaluator>(judge: &E, state: BoardState, score: Score) -> bool {
    exists|board: MyBoard|
        #![trigger call_ensures(E::evaluate, (judge, &board), score)]
        board.wf() && board@ == state && call_ensures(E::evaluate, (judge, &board), score)
}

/// What `evaluate` gave for a board is an answer to the state of the board.
pub proof fn lemma_answer_given<E: StaticEvaluator>(judge: &E, board: &MyBoard, score: Score)
    requires
        board.wf(),
        call_ensures(E::evaluate, (judge, board), score),
    ensures
        answer_for(judge, board@, score),
{
}

/// Every answer of a judge lies in `[0, 1]`, and is the worth of the
/// outcome once the game has ended.
pub proof fn lemma_answer_sound<E: StaticEvaluator>(judge: &E, state: BoardState, score: Score)
    requires
        answer_for(judge, state, score),
    ensures
        score.in_unit(),
        state.status != Status::InProgress ==> Some(score) == terminal_value(state.status),
{
}

/// Whether a judge gives every state of the game one answer only.
pub open spec fn of_one_mind<E: StaticEvaluator>(judge: &E) -> bool {
    forall|state: BoardState, a: Score, b: Score|
        #![trigger answer_for(judge, state, a), answer_for(judge, state, b)]
        answer_for(judge, state, a) && answer_for(judge, state, b) ==> a == b
}

/// A judge of positions that looks at the board alone.
pub trait StaticEvaluator {
    /// The worth of the position for White, between 0 and 1: the chance
    /// that White wins plus half the chance of a draw. For a game that has
    /// ended it is the worth of the outcome.
    fn evaluate(&self, board: &MyBoard) -> (score: Score)
        requires
            board.wf(),
        ensures
            score.in_unit(),
            board@.status != Status::InProgress ==> Some(score) == terminal_value(board@.status),
    ;

    /// The worth of a game that has ended, or `None` while it is in
    /// progress.
    fn evaluate_terminal(&self, board: &MyBoard) -> (r: Option<Score>)
        ensures
            r == terminal_value(board@.status),
    {
        value_of_status(board.get_status())
    }
}

} // verus!
