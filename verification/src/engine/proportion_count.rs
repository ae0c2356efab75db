//! A judge that counts material.

use crate::board_model::holds;
use crate::board_model::Slot;
use crate::chess_types::Color;
use crate::chess_types::Piece;
use crate::chess_types::Square;
use crate::my_board::MyBoard;
use crate::score::ratio_bits;
use crate::score::Score;
use super::evaluator::StaticEvaluator;
use super::evaluator::answer_for;
use super::evaluator::of_one_mind;
use crate::board_model::BoardState;
use super::evaluator::terminal_value;
use super::evaluator::value_of_status;
use vstd::prelude::*;

verus! {

/// What a piece counts for: pawn 1, knight 3, bishop 3, rook 5, queen 9,
/// king 1.
pub open spec fn piece_value(piece: Piece) -> nat {
    match piece {
        Piece::Pawn => 1,
        Piece::Knight => 3,
        Piece::Bishop => 3,
        Piece::Rook => 5,
        Piece::Queen => 9,
        Piece::King => 1,
    }
}

/// What the pieces of a colour on the first `n` squares count for.
pub open spec fn material(pieces: Seq<Slot>, color: Color, n: nat) -> nat
    decreases n,
{
    if n == 0 {
        0
    } else {
        material(pieces, color, (n - 1) as nat) + if holds(pieces[n - 1], color) {
            piece_value(pieces[n - 1]->Some_0.0)
        } else {
            0
        }
    }
}

/// White's share of the material, as the nearest score; one half on a board
/// without pieces.
pub open spec fn proportion(white: nat, black: nat) -> Score {
    if white + black == 0 {
        Score::spec_half()
    } else {
        Score { bits: ratio_bits(white, white + black) as u32 }
    }
}

/// What the judge makes of a board: the worth of the outcome if the game
/// has ended, else White's share of the material.
pub open spec fn proportion_count(board: &MyBoard) -> Score {
    match terminal_value(board@.status) {
        Some(score) => score,
        None => proportion(
            material(board@.pieces, Color::White, 64),
            material(board@.pieces, Color::Black, 64),
        ),
    }
}

fn value_of_piece(piece: Piece) -> (r: u32)
    ensures
        r == piece_value(piece),
        r <= 9,
{
    match piece {
        Piece::Pawn => 1,
        Piece::Knight => 3,
        Piece::Bishop => 3,
        Piece::Rook => 5,
        Piece::Queen => 9,
        Piece::King => 1,
    }
}

/// What the pieces of a colour count for.
pub fn material_of(board: &MyBoard, color: Color) -> (r: u32)
    ensures
        r == material(board@.pieces, color, 64),
        r <= 576,
{
    let mut total: u32 = 0;
    let mut i: u8 = 0;
    while i < 64
        invariant
            i <= 64,
            total == material(board@.pieces, color, i as nat),
            total <= 9 * i,
        decreases 64 - i,
    {
        match board.piece_on(Square::from_index(i)) {
            Some((piece, c)) => {
                if c == color {
                    total += value_of_piece(piece);
                }
            },
            None => {},
        }
        i += 1;
    }
    total
}

/// The judge that values a position by White's share of the material.
#[derive(Clone, Copy, Debug)]
pub struct ProportionCount;

impl Default for ProportionCount {
    fn default() -> (r: ProportionCount)
        ensures
            r == ProportionCount,
    {
        ProportionCount
    }
}

impl StaticEvaluator for ProportionCount {
    fn evaluate(&self, board: &MyBoard) -> (score: Score)
        ensures
            score == proportion_count(board),
    {
        match value_of_status(board.get_status()) {
            Some(score) => score,
            None => {
                let white_value = material_of(board, Color::White);
                let black_value = material_of(board, Color::Black);
                let total_value = white_value + black_value;
                if total_value == 0 {
                    Score::half()
                } else {
                    Score::from_ratio(white_value, total_value)
                }
            },
        }
    }
}

/// The judge that counts material gives every state of the game one answer
/// only: what `proportion_count` says of it.
pub proof fn lemma_proportion_count_of_one_mind(judge: &ProportionCount)
    ensures
        of_one_mind(judge),
{
    assert forall|state: BoardState, a: Score, b: Score|
        #![trigger answer_for(judge, state, a), answer_for(judge, state, b)]
        answer_for(judge, state, a) && answer_for(judge, state, b) implies a == b by {
        let first = choose|board: MyBoard|
            #![trigger call_ensures(ProportionCount::evaluate, (judge, &board), a)]
            board.wf() && board@ == state && call_ensures(
                ProportionCount::evaluate,
                (judge, &board),
                a,
            );
        let second = choose|board: MyBoard|
            #![trigger call_ensures(ProportionCount::evaluate, (judge, &board), b)]
            board.wf() && board@ == state && call_ensures(
                ProportionCount::evaluate,
                (judge, &board),
                b,
            );
        assert(a == proportion_count(&first));
        assert(b == proportion_count(&second));
    }
}

} // verus!
