//! A search engine for Random Chess: chess in which, after every move, a
//! biased coin decides whether the mover plays again.

pub mod attacks;
pub mod board_model;
pub mod chess_types;
pub mod deadline;
pub mod display;
pub mod engine;
pub mod game;
pub mod logger;
pub mod my_board;
pub mod score;
pub mod text;
pub mod zobrist;

pub use board_model::Status;
pub use chess_types::CastleRights;
pub use chess_types::ChessMove;
pub use chess_types::Color;
pub use chess_types::Piece;
pub use chess_types::Square;
pub use deadline::Deadline;
pub use engine::alphabeta::AlphaBeta;
pub use engine::default_engine;
pub use engine::evaluator::StaticEvaluator;
pub use engine::feature_eval::Features;
pub use engine::greedy::Greedy;
pub use engine::minimax::Minimax;
pub use engine::proportion_count::ProportionCount;
pub use engine::Engine;
pub use engine::MoveError;
pub use logger::Logger;
pub use my_board::MyBoard;
pub use score::Score;
use score::ONE_BITS;
use vstd::prelude::*;

verus! {

/// The bits of the chance of a bonus, one quarter.
pub const BONUS_BITS: u32 = 0x2000_0000;

/// The chance that a move is followed by a bonus move: one quarter.
pub fn bonus_chance() -> (r: Score)
    ensures
        r.bits == BONUS_BITS,
{
    Score::one().div_int(4)
}

/// The chance that a move is followed by no bonus move: three quarters.
pub fn no_bonus_chance() -> (r: Score)
    ensures
        r.bits == ONE_BITS - BONUS_BITS,
{
    Score::one().minus(bonus_chance())
}

} // verus!
