//! How a search ends.

use crate::chess_types::ChessMove;
use crate::score::Score;
use vstd::prelude::*;

verus! {

#[derive(Clone, Copy, Debug, PartialEq, Eq, Structural)]
pub enum SearchResult {
    /// A score inside the window, with the move that leads to it where
    /// the search went through the moves.
    Result(Score, Option<ChessMove>),
    /// The position is worth no more than the lower bound of the window.
    Low,
    /// The position is worth no less than the upper bound of the window.
    High,
    /// The deadline expired before the search was done.
    Timeout,
}

} // verus!
