//! What a judge by features reads off a board.
//!
//! The features are whole numbers. How a judge weighs them is its own
//! affair.

use crate::attacks::bishop_attacks;
use crate::attacks::get_bishop_moves;
use crate::attacks::get_knight_moves;
use crate::attacks::get_rook_moves;
use crate::attacks::knight_attacks;
use crate::attacks::rook_attacks;
use crate::board_model::BoardState;
use crate::board_model::Slot;
use crate::board_model::Status;
use crate::chess_types::Color;
use crate::chess_types::Piece;
use crate::chess_types::Square;
use crate::my_board::MyBoard;
use vstd::prelude::*;

verus! {

/// The number of squares among the first `n` that are in a set.
pub open spec fn count_squares(set: u64, n: nat) -> nat
    decreases n,
{
    if n == 0 {
        0
    } else {
        count_squares(set, (n - 1) as nat) + if set & (1u64 << ((n - 1) as u8)) != 0 {
            1nat
        } else {
            0nat
        }
    }
}

/// Whether a piece of the kind and colour stands in the slot.
pub open spec fn is_piece(slot: Slot, piece: Piece, color: Color) -> bool {
    slot == Some((piece, color))
}

/// The number of pieces of a kind and colour on the first `n` squares.
pub open spec fn count_kind(pieces: Seq<Slot>, piece: Piece, color: Color, n: nat) -> nat
    decreases n,
{
    if n == 0 {
        0
    } else {
        count_kind(pieces, piece, color, (n - 1) as nat) + if is_piece(
            pieces[n - 1],
            piece,
            color,
        ) {
            1nat
        } else {
            0nat
        }
    }
}

/// The squares from which a knight, a bishop or a rook would attack a king
/// of a side on `square`, where only that side's own pieces, `own`, stand
/// in the way and none of them can be the attacker.
pub open spec fn danger_squares(square: u8, own: u64) -> u64 {
    (knight_attacks(square) | bishop_attacks(square, own) | rook_attacks(square, own)) & !own
}

/// The number of squares, summed over the kings of a colour on the first
/// `n` squares, from which the king could be attacked.
pub open spec fn king_danger(state: BoardState, color: Color, n: nat) -> nat
    decreases n,
{
    if n == 0 {
        0
    } else {
        king_danger(state, color, (n - 1) as nat) + if is_piece(
            state.pieces[n - 1],
            Piece::King,
            color,
        ) {
            count_squares(danger_squares((n - 1) as u8, state.occupied(color)), 64)
        } else {
            0
        }
    }
}

/// How far a pawn of a colour on a rank has come from the rank on which
/// its side's pawns start.
pub open spec fn advancement(rank: int, color: Color) -> int {
    match color {
        Color::White => rank - 1,
        Color::Black => 6 - rank,
    }
}

/// How far the pawns of a colour on the first `n` squares have come, taken
/// together.
pub open spec fn pawn_advancement(pieces: Seq<Slot>, color: Color, n: nat) -> int
    decreases n,
{
    if n == 0 {
        0
    } else {
        pawn_advancement(pieces, color, (n - 1) as nat) + if is_piece(
            pieces[n - 1],
            Piece::Pawn,
            color,
        ) {
            advancement((n - 1) / 8, color)
        } else {
            0
        }
    }
}

/// What a judge by features reads off a board. Index 0 stands for White,
/// index 1 for Black.
#[derive(Clone, Copy, Debug, PartialEq, Eq)]
pub struct Features {
    /// The number of pieces of each kind for each side.
    pub pieces: [[u32; 6]; 2],
    /// The number of squares from which each side's king could be attacked.
    pub king_danger: [u32; 2],
    /// How far each side's pawns have come, taken together. Divided by the
    /// number of pawns it gives the mean.
    pub pawn_advancement: [i32; 2],
    /// 1 if White is to move, -1 if Black is.
    pub side_to_move: i32,
}

/// The two colours by their index.
pub open spec fn color_at(index: int) -> Color {
    if index == 0 {
        Color::White
    } else {
        Color::Black
    }
}

/// The six kinds of piece by their index.
pub open spec fn kind_at(index: int) -> Piece {
    Piece::spec_from_index(index as usize)->Some_0
}

impl Features {
    /// Whether the features are those of a state of the game.
    pub open spec fn of(self, state: BoardState) -> bool {
        &&& forall|c: int, p: int|
            0 <= c < 2 && 0 <= p < 6 ==> (#[trigger] self.pieces@[c]@[p]) == count_kind(
                state.pieces,
                kind_at(p),
                color_at(c),
                64,
            )
        &&& forall|c: int|
            0 <= c < 2 ==> (#[trigger] self.king_danger@[c]) == king_danger(state, color_at(c), 64)
        &&& forall|c: int|
            0 <= c < 2 ==> (#[trigger] self.pawn_advancement@[c]) == pawn_advancement(
                state.pieces,
                color_at(c),
                64,
            )
        &&& self.side_to_move == match state.side_to_move {
            Color::White => 1int,
            Color::Black => -1int,
        }
    }

    /// Reads the features off a board on which the game is in progress.
    pub fn from_board(board: &MyBoard) -> (features: Features)
        requires
            board.wf(),
            board@.status == Status::InProgress,
        ensures
            features.of(board@),
    {
        let white = side_features(board, Color::White);
        let black = side_features(board, Color::Black);
        let side_to_move: i32 = match board.get_side_to_move() {
            Color::White => 1,
            Color::Black => -1,
        };
        Features {
            pieces: [white.0, black.0],
            king_danger: [white.1, black.1],
            pawn_advancement: [white.2, black.2],
            side_to_move,
        }
    }
}

/// The number of squares in a set.
pub fn popcount(set: u64) -> (n: u32)
    ensures
        n == count_squares(set, 64),
        n <= 64,
{
    let mut n: u32 = 0;
    let mut i: u8 = 0;
    while i < 64
        invariant
            i <= 64,
            n == count_squares(set, i as nat),
            n <= i,
        decreases 64 - i,
    {
        if set & (1u64 << i) != 0 {
            n += 1;
        }
        i += 1;
    }
    n
}

/// The number of pieces of one kind and colour.
fn count_of(board: &MyBoard, piece: Piece, color: Color) -> (n: u32)
    ensures
        n == count_kind(board@.pieces, piece, color, 64),
{
    let mut n: u32 = 0;
    let mut i: u8 = 0;
    while i < 64
        invariant
            i <= 64,
            n == count_kind(board@.pieces, piece, color, i as nat),
            n <= i,
        decreases 64 - i,
    {
        match board.piece_on(Square::from_index(i)) {
            Some((p, c)) => {
                if p == piece && c == color {
                    n += 1;
                }
            },
            None => {},
        }
        i += 1;
    }
    n
}

/// The features of one side: the numbers of its pieces by kind, the danger
/// to its king, and how far its pawns have come.
fn side_features(board: &MyBoard, color: Color) -> (r: ([u32; 6], u32, i32))
    requires
        board.wf(),
    ensures
        forall|p: int|
            0 <= p < 6 ==> (#[trigger] r.0@[p]) == count_kind(
                board@.pieces,
                kind_at(p),
                color,
                64,
            ),
        r.1 == king_danger(board@, color, 64),
        r.2 == pawn_advancement(board@.pieces, color, 64),
{
    let pieces: [u32; 6] = [
        count_of(board, Piece::Pawn, color),
        count_of(board, Piece::Knight, color),
        count_of(board, Piece::Bishop, color),
        count_of(board, Piece::Rook, color),
        count_of(board, Piece::Queen, color),
        count_of(board, Piece::King, color),
    ];
    let own = match color {
        Color::White => board.get_white_pieces(),
        Color::Black => board.get_black_pieces(),
    };
    let mut danger: u32 = 0;
    let mut advance: i32 = 0;
    let mut i: u8 = 0;
    while i < 64
        invariant
            i <= 64,
            own == board@.occupied(color),
            danger == king_danger(board@, color, i as nat),
            danger <= 64 * i,
            advance == pawn_advancement(board@.pieces, color, i as nat),
            -8 * i <= advance <= 8 * i,
        decreases 64 - i,
    {
        match board.piece_on(Square::from_index(i)) {
            Some((p, c)) => {
                if c == color && p == Piece::King {
                    let reach = (get_knight_moves(i) | get_bishop_moves(i, own) | get_rook_moves(
                        i,
                        own,
                    )) & !own;
                    danger += popcount(reach);
                }
                if c == color && p == Piece::Pawn {
                    let rank = (i / 8) as i32;
                    advance += match color {
                        Color::White => rank - 1,
                        Color::Black => 6 - rank,
                    };
                }
            },
            None => {},
        }
        i += 1;
    }
    (pieces, danger, advance)
}

} // verus!
