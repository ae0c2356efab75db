//! The state of a game as a mathematical value, and what the rules make of
//! it: where the pieces stand, which squares each side holds, the hash of
//! the position, the moves of the side to move and the state after a move.

use crate::attacks::bishop_attacks;
use crate::attacks::king_attacks;
use crate::attacks::knight_attacks;
use crate::attacks::pawn_targets;
use crate::attacks::rook_attacks;
use crate::chess_types::CastleRights;
use crate::chess_types::ChessMove;
use crate::chess_types::Color;
use crate::chess_types::Piece;
use crate::chess_types::promotion_pieces;
use crate::chess_types::Square;
use crate::zobrist::Zobrist;
use vstd::prelude::*;

verus! {

/// How a game stands.
#[derive(Copy, Clone, Debug, PartialEq, Eq, Structural)]
pub enum Status {
    InProgress,
    Win(Color),
    Draw,
}

impl Status {
    pub open spec fn spec_is_in_progress(&self) -> bool {
        *self == Status::InProgress
    }

    #[verifier::when_used_as_spec(spec_is_in_progress)]
    pub fn is_in_progress(&self) -> (r: bool)
        ensures
            r == self.spec_is_in_progress(),
    {
        match self {
            Status::InProgress => true,
            _ => false,
        }
    }
}

/// What stands on a square.
pub type Slot = Option<(Piece, Color)>;

/// The set that holds square `i` alone.
pub open spec fn square_bit(i: u8) -> u64 {
    1u64 << i
}

/// Whether a piece of the colour stands in the slot.
pub open spec fn holds(slot: Slot, color: Color) -> bool {
    slot matches Some((_, c)) && c == color
}

/// The set of square `i` if a piece of the colour stands in the slot, else
/// the empty set.
pub open spec fn slot_bit(slot: Slot, color: Color, i: u8) -> u64 {
    if holds(slot, color) {
        square_bit(i)
    } else {
        0
    }
}

/// The set of those among the first `n` squares that hold a piece of the
/// colour.
pub open spec fn occupancy(pieces: Seq<Slot>, color: Color, n: nat) -> u64
    decreases n,
{
    if n == 0 {
        0
    } else {
        occupancy(pieces, color, (n - 1) as nat) | slot_bit(
            pieces[n - 1],
            color,
            (n - 1) as u8,
        )
    }
}

/// The key of what stands on square `i`; 0 for an empty square.
pub open spec fn slot_key(slot: Slot, i: u8) -> u64 {
    match slot {
        Some((piece, color)) => Zobrist::spec_piece(piece, i, color),
        None => 0,
    }
}

/// The XOR of the keys of what stands on the first `n` squares.
pub open spec fn pieces_hash(pieces: Seq<Slot>, n: nat) -> u64
    decreases n,
{
    if n == 0 {
        0
    } else {
        pieces_hash(pieces, (n - 1) as nat) ^ slot_key(pieces[n - 1], (n - 1) as u8)
    }
}

/// The key that the side to move adds to the hash.
pub open spec fn side_key(side: Color) -> u64 {
    match side {
        Color::White => 0,
        Color::Black => Zobrist::spec_color(),
    }
}

/// Squares at or above `n` are not in the occupancy of the first `n`.
pub proof fn lemma_occupancy_above(pieces: Seq<Slot>, color: Color, n: nat, i: u8)
    requires
        n <= i < 64,
    ensures
        occupancy(pieces, color, n) & square_bit(i) == 0,
    decreases n,
{
    if n == 0 {
        assert(0u64 & (1u64 << i) == 0) by (bit_vector);
    } else {
        lemma_occupancy_above(pieces, color, (n - 1) as nat, i);
        let a = occupancy(pieces, color, (n - 1) as nat);
        let j = (n - 1) as u8;
        assert((a | (1u64 << j)) & (1u64 << i) == 0 && (a | 0) & (1u64 << i) == 0)
            by (bit_vector)
            requires
                a & (1u64 << i) == 0,
                j < i < 64,
        ;
    }
}

/// A square among the first `n` is in their occupancy exactly if it holds a
/// piece of the colour.
pub proof fn lemma_occupancy_has(pieces: Seq<Slot>, color: Color, n: nat, i: u8)
    requires
        i < n <= 64,
    ensures
        occupancy(pieces, color, n) & square_bit(i) != 0 <==> holds(pieces[i as int], color),
    decreases n,
{
    let a = occupancy(pieces, color, (n - 1) as nat);
    let j = (n - 1) as u8;
    if i == j {
        lemma_occupancy_above(pieces, color, (n - 1) as nat, i);
        assert((a | (1u64 << i)) & (1u64 << i) != 0 && (a | 0) & (1u64 << i) == 0)
            by (bit_vector)
            requires
                a & (1u64 << i) == 0,
                i < 64,
        ;
    } else {
        lemma_occupancy_has(pieces, color, (n - 1) as nat, i);
        assert((a | (1u64 << j)) & (1u64 << i) == a & (1u64 << i) && (a | 0) & (1u64 << i) == a
            & (1u64 << i)) by (bit_vector)
            requires
                i < j < 64,
        ;
    }
}

/// Putting something else on square `i` takes the square out of the
/// occupancy and puts it back if the new piece has the colour.
pub proof fn lemma_occupancy_update(pieces: Seq<Slot>, color: Color, n: nat, i: u8, slot: Slot)
    requires
        i < 64,
        n <= 64,
        pieces.len() == 64,
    ensures
        occupancy(pieces.update(i as int, slot), color, n) == if i < n {
            (occupancy(pieces, color, n) & !square_bit(i)) | slot_bit(slot, color, i)
        } else {
            occupancy(pieces, color, n)
        },
    decreases n,
{
    if n > 0 {
        let k = (n - 1) as u8;
        let changed = pieces.update(i as int, slot);
        lemma_occupancy_update(pieces, color, (n - 1) as nat, i, slot);
        let a = occupancy(pieces, color, (n - 1) as nat);
        let x = slot_bit(slot, color, i);
        if i == k {
            lemma_occupancy_above(pieces, color, (n - 1) as nat, i);
            assert(((a | (1u64 << i)) & !(1u64 << i)) | x == a | x && ((a | 0) & !(1u64 << i)) | x
                == a | x) by (bit_vector)
                requires
                    a & (1u64 << i) == 0,
                    i < 64,
            ;
        } else if i < k {
            let y = slot_bit(pieces[k as int], color, k);
            assert(((a | y) & !(1u64 << i)) | x == ((a & !(1u64 << i)) | x) | y) by (bit_vector)
                requires
                    y == 1u64 << k || y == 0,
                    i < k < 64,
            ;
        }
    }
}

/// Putting something else on square `i` replaces the key of the old piece
/// by that of the new one.
pub proof fn lemma_pieces_hash_update(pieces: Seq<Slot>, n: nat, i: u8, slot: Slot)
    requires
        i < 64,
        n <= 64,
        pieces.len() == 64,
    ensures
        pieces_hash(pieces.update(i as int, slot), n) == if i < n {
            pieces_hash(pieces, n) ^ slot_key(pieces[i as int], i) ^ slot_key(slot, i)
        } else {
            pieces_hash(pieces, n)
        },
    decreases n,
{
    if n > 0 {
        let k = (n - 1) as u8;
        lemma_pieces_hash_update(pieces, (n - 1) as nat, i, slot);
        let a = pieces_hash(pieces, (n - 1) as nat);
        let x = slot_key(pieces[i as int], i);
        let y = slot_key(slot, i);
        if i == k {
            assert(a ^ y == (a ^ x) ^ x ^ y) by (bit_vector);
        } else if i < k {
            let z = slot_key(pieces[k as int], k);
            assert((a ^ x ^ y) ^ z == (a ^ z) ^ x ^ y) by (bit_vector);
        }
    }
}

/// The castling square of the king on the king's side: g on the back rank.
pub open spec fn kingside_castle_square(color: Color) -> u8 {
    (color.spec_my_backrank() * 8 + 6) as u8
}

/// The castling square of the king on the queen's side: c on the back rank.
pub open spec fn queenside_castle_square(color: Color) -> u8 {
    (color.spec_my_backrank() * 8 + 2) as u8
}

/// The moves from `source` to the squares of `targets` among the first `n`
/// squares, in the order of the squares. A move onto the rank `promote_on`
/// stands four times, once for each piece a pawn can become.
pub open spec fn dest_moves(source: u8, targets: u64, promote_on: Option<u8>, n: nat) -> Seq<
    ChessMove,
>
    decreases n,
{
    if n == 0 {
        Seq::empty()
    } else {
        let dest = (n - 1) as u8;
        let before = dest_moves(source, targets, promote_on, (n - 1) as nat);
        if targets & square_bit(dest) == 0 {
            before
        } else if promote_on == Some((dest / 8) as u8) {
            before + promotion_pieces().map_values(
                |p: Piece|
                    ChessMove {
                        source: Square::at(source),
                        dest: Square::at(dest),
                        promotion: Some(p),
                    },
            )
        } else {
            before.push(
                ChessMove { source: Square::at(source), dest: Square::at(dest), promotion: None },
            )
        }
    }
}

/// Where the pieces stand after a piece of a colour has made a move. The
/// piece goes to its new square; a king that leaves the e-file for the g- or
/// c-file takes the rook of the corner along; a promoted pawn is replaced.
pub open spec fn shifted(pieces: Seq<Slot>, m: ChessMove, piece: Piece, color: Color) -> Seq<
    Slot,
> {
    let source = m.source.idx();
    let dest = m.dest.idx();
    let base = (color.spec_my_backrank() * 8) as u8;
    let moved = pieces.update(dest as int, Some((piece, color))).update(source as int, None);
    let castled = if piece == Piece::King && source % 8 == 4 && dest % 8 == 6 {
        moved.update(base + 5, Some((Piece::Rook, color))).update(base + 7, None)
    } else if piece == Piece::King && source % 8 == 4 && dest % 8 == 2 {
        moved.update(base + 3, Some((Piece::Rook, color))).update(base as int, None)
    } else {
        moved
    };
    match m.promotion {
        Some(p) => castled.update(dest as int, Some((p, color))),
        None => castled,
    }
}

/// What the rules need to know of a game.
pub struct BoardState {
    /// What stands on each of the 64 squares.
    pub pieces: Seq<Slot>,
    pub side_to_move: Color,
    pub white_rights: CastleRights,
    pub black_rights: CastleRights,
    /// The moves made since the last capture or pawn move.
    pub dead_moves: u8,
    pub status: Status,
    /// Whether a move was made and the coin has not been flipped yet.
    pub awaiting_bonus: bool,
}

impl BoardState {
    /// The castling rights of a side.
    pub open spec fn rights(self, color: Color) -> CastleRights {
        match color {
            Color::White => self.white_rights,
            Color::Black => self.black_rights,
        }
    }

    /// The state with other castling rights for a side.
    pub open spec fn with_rights(self, color: Color, rights: CastleRights) -> BoardState {
        match color {
            Color::White => BoardState { white_rights: rights, ..self },
            Color::Black => BoardState { black_rights: rights, ..self },
        }
    }

    /// The state with something else on a square.
    pub open spec fn with_piece(self, square: u8, slot: Slot) -> BoardState {
        BoardState { pieces: self.pieces.update(square as int, slot), ..self }
    }

    /// The state with the other side to move.
    pub open spec fn with_side_switched(self) -> BoardState {
        BoardState { side_to_move: self.side_to_move.spec_other(), ..self }
    }

    /// The squares that hold a piece of the colour.
    pub open spec fn occupied(self, color: Color) -> u64 {
        occupancy(self.pieces, color, 64)
    }

    /// The squares that hold a piece.
    pub open spec fn all_occupied(self) -> u64 {
        self.occupied(Color::White) | self.occupied(Color::Black)
    }

    /// The hash of the position: the pieces, the castling rights and the
    /// side to move.
    pub open spec fn hash(self) -> u64 {
        pieces_hash(self.pieces, 64) ^ Zobrist::spec_castles(self.white_rights, Color::White)
            ^ Zobrist::spec_castles(self.black_rights, Color::Black) ^ side_key(
            self.side_to_move,
        )
    }

    /// The squares that the piece on `square` can go to, castling aside:
    /// where a piece of its kind gets to, less the squares of its own side.
    pub open spec fn targets(self, square: u8, piece: Piece, color: Color) -> u64 {
        let all = self.all_occupied();
        let reach = match piece {
            Piece::Pawn => pawn_targets(square, color.spec_to_index(), all),
            Piece::Knight => knight_attacks(square),
            Piece::Bishop => bishop_attacks(square, all),
            Piece::Rook => rook_attacks(square, all),
            Piece::Queen => bishop_attacks(square, all) | rook_attacks(square, all),
            Piece::King => king_attacks(square),
        };
        reach & !self.occupied(color)
    }

    /// The castling move of the king on `square` to `dest`, if the side
    /// still has the right and the squares in `between` are empty.
    pub open spec fn castle_moves(self, square: u8, allowed: bool, between: u64, dest: u8) -> Seq<
        ChessMove,
    > {
        if allowed && self.all_occupied() & between == 0 {
            seq![ChessMove { source: Square::at(square), dest: Square::at(dest), promotion: None }]
        } else {
            Seq::empty()
        }
    }

    /// The moves of the piece on `square`: none when the game is over, the
    /// square empty or the piece not of the side to move; else its moves to
    /// the squares it can go to, in the order of the squares, and for a king
    /// the castling moves, the king's side first.
    pub open spec fn moves_from(self, square: u8) -> Seq<ChessMove> {
        if self.status != Status::InProgress {
            Seq::empty()
        } else {
            match self.pieces[square as int] {
                None => Seq::empty(),
                Some((piece, color)) => if color != self.side_to_move {
                    Seq::empty()
                } else {
                    let promote_on = if piece == Piece::Pawn {
                        Some(color.spec_their_backrank())
                    } else {
                        None
                    };
                    let rights = self.rights(color);
                    dest_moves(square, self.targets(square, piece, color), promote_on, 64)
                        + self.castle_moves(
                        square,
                        piece == Piece::King && rights.spec_has_kingside(),
                        CastleRights::spec_kingside_squares(color),
                        kingside_castle_square(color),
                    ) + self.castle_moves(
                        square,
                        piece == Piece::King && rights.spec_has_queenside(),
                        CastleRights::spec_queenside_squares(color),
                        queenside_castle_square(color),
                    )
                },
            }
        }
    }

    /// The moves of the pieces on the first `n` squares, in the order of
    /// the squares.
    pub open spec fn moves_upto(self, n: nat) -> Seq<ChessMove>
        decreases n,
    {
        if n == 0 {
            Seq::empty()
        } else {
            self.moves_upto((n - 1) as nat) + self.moves_from((n - 1) as u8)
        }
    }

    /// The moves of the side to move.
    pub open spec fn all_moves(self) -> Seq<ChessMove> {
        self.moves_upto(64)
    }

    /// Whether a move can be made on the board: no coin flip is due, a
    /// piece stands on the square the move leaves, and the count of moves
    /// without capture or pawn move has room for one more.
    pub open spec fn can_move(self, m: ChessMove) -> bool {
        &&& !self.awaiting_bonus
        &&& self.pieces.len() == 64
        &&& self.pieces[m.source.idx() as int] matches Some((piece, _))
        &&& (self.pieces[m.dest.idx() as int] is Some || piece == Piece::Pawn || self.dead_moves
            < 50)
    }

    /// Whether the move takes a piece or moves a pawn.
    pub open spec fn is_lively(self, m: ChessMove) -> bool {
        self.pieces[m.dest.idx() as int] is Some || (self.pieces[m.source.idx() as int] matches Some(
            (piece, _),
        ) && piece == Piece::Pawn)
    }

    /// The count of moves without capture or pawn move after a move.
    pub open spec fn dead_moves_after(self, m: ChessMove) -> u8 {
        if self.is_lively(m) {
            0
        } else {
            (self.dead_moves + 1) as u8
        }
    }

    /// How the game stands after a move: drawn when the count reaches 50,
    /// won when a king was taken, else as before.
    pub open spec fn status_after(self, m: ChessMove) -> Status {
        let mover = self.pieces[m.source.idx() as int]->Some_0.1;
        if !self.is_lively(m) && self.dead_moves + 1 == 50 {
            Status::Draw
        } else if self.pieces[m.dest.idx() as int] matches Some((piece, _)) && piece
            == Piece::King {
            Status::Win(mover)
        } else {
            self.status
        }
    }

    /// Where the pieces stand after a move.
    pub open spec fn pieces_after(self, m: ChessMove) -> Seq<Slot> {
        let (piece, color) = self.pieces[m.source.idx() as int]->Some_0;
        shifted(self.pieces, m, piece, color)
    }

    /// The castling rights after a move: the mover loses those that hang
    /// on the square left, the opponent those that hang on the square
    /// reached.
    pub open spec fn rights_after(self, m: ChessMove, color: Color) -> BoardState {
        let own = self.rights(color).spec_remove(
            CastleRights::spec_square_to_castle_rights(color, m.source),
        );
        let their = self.rights(color.spec_other()).spec_remove(
            CastleRights::spec_square_to_castle_rights(color.spec_other(), m.dest),
        );
        self.with_rights(color, own).with_rights(color.spec_other(), their)
    }

    /// The state after a move, before the coin is flipped: the mover loses
    /// the castling rights that hang on the square left, the opponent those
    /// that hang on the square reached, and the turn passes.
    pub open spec fn moved(self, m: ChessMove) -> BoardState {
        let color = self.pieces[m.source.idx() as int]->Some_0.1;
        let with_rights = self.rights_after(m, color);
        BoardState {
            pieces: self.pieces_after(m),
            side_to_move: self.side_to_move.spec_other(),
            white_rights: with_rights.white_rights,
            black_rights: with_rights.black_rights,
            dead_moves: self.dead_moves_after(m),
            status: self.status_after(m),
            awaiting_bonus: true,
        }
    }

    /// The state after the coin flip, without a look at the moves left: on
    /// a bonus the turn goes back to the mover.
    pub open spec fn bonus_unchecked(self, is_bonus: bool) -> BoardState {
        BoardState {
            awaiting_bonus: false,
            side_to_move: if is_bonus {
                self.side_to_move.spec_other()
            } else {
                self.side_to_move
            },
            ..self
        }
    }

    /// The state after the coin flip: a game in progress in which the side
    /// to move has no move is drawn.
    pub open spec fn bonus(self, is_bonus: bool) -> BoardState {
        let flipped = self.bonus_unchecked(is_bonus);
        if flipped.all_moves().len() == 0 && flipped.status == Status::InProgress {
            BoardState { status: Status::Draw, ..flipped }
        } else {
            flipped
        }
    }

    /// The first among the first `n` squares that holds the king of a
    /// colour.
    pub open spec fn king_square_upto(self, color: Color, n: nat) -> Option<u8>
        decreases n,
    {
        if n == 0 {
            None
        } else {
            match self.king_square_upto(color, (n - 1) as nat) {
                Some(square) => Some(square),
                None => if self.pieces[n - 1] == Some((Piece::King, color)) {
                    Some((n - 1) as u8)
                } else {
                    None
                },
            }
        }
    }

    /// The square of the king of a colour, if it is on the board.
    pub open spec fn king_square(self, color: Color) -> Option<u8> {
        self.king_square_upto(color, 64)
    }

    /// Whether a piece of the colour `by` on the square `from` can go to
    /// the square `target`, were it its turn.
    pub open spec fn attacks(self, from: u8, target: u8, by: Color) -> bool {
        self.pieces[from as int] matches Some((piece, color)) && color == by && self.targets(
            from,
            piece,
            by,
        ) & square_bit(target) != 0
    }

    /// Whether a piece of the colour `by` on one of the first `n` squares
    /// can go to the square `target`, were it its turn.
    pub open spec fn attacked_upto(self, target: u8, by: Color, n: nat) -> bool
        decreases n,
    {
        n > 0 && (self.attacked_upto(target, by, (n - 1) as nat) || self.attacks(
            (n - 1) as u8,
            target,
            by,
        ))
    }

    /// Whether the king of a colour is on the board and a piece of the
    /// other colour could take it, were it its turn.
    pub open spec fn in_check(self, color: Color) -> bool {
        match self.king_square(color) {
            Some(square) => self.attacked_upto(square, color.spec_other(), 64),
            None => false,
        }
    }

    /// Whether a game in progress has a move for the side to move, as it
    /// has after every coin flip that looked.
    pub open spec fn settled(self) -> bool {
        self.status == Status::InProgress ==> self.all_moves().len() > 0
    }
}

/// The piece on a file of the back rank at the start of a game.
pub open spec fn back_rank_piece(file: u8) -> Piece {
    if file == 0 || file == 7 {
        Piece::Rook
    } else if file == 1 || file == 6 {
        Piece::Knight
    } else if file == 2 || file == 5 {
        Piece::Bishop
    } else if file == 3 {
        Piece::Queen
    } else {
        Piece::King
    }
}

/// What stands on square `i` at the start of a game.
pub open spec fn initial_slot(i: u8) -> Slot {
    let rank = i / 8;
    let file = i % 8;
    if rank == 0 {
        Some((back_rank_piece(file), Color::White))
    } else if rank == 1 {
        Some((Piece::Pawn, Color::White))
    } else if rank == 6 {
        Some((Piece::Pawn, Color::Black))
    } else if rank == 7 {
        Some((back_rank_piece(file), Color::Black))
    } else {
        None
    }
}

/// The state at the start of a game in which `starting_color` moves first.
pub open spec fn initial_state(starting_color: Color) -> BoardState {
    BoardState {
        pieces: Seq::new(64, |i: int| initial_slot(i as u8)),
        side_to_move: starting_color,
        white_rights: CastleRights::Both,
        black_rights: CastleRights::Both,
        dead_moves: 0,
        status: Status::InProgress,
        awaiting_bonus: false,
    }
}

/// The same piece in the other colour.
pub open spec fn recolored(slot: Slot) -> Slot {
    match slot {
        Some((piece, color)) => Some((piece, color.spec_other())),
        None => None,
    }
}

/// The rights with the two sides of the board exchanged.
pub open spec fn sides_exchanged(rights: CastleRights) -> CastleRights {
    match rights {
        CastleRights::KingSide => CastleRights::QueenSide,
        CastleRights::QueenSide => CastleRights::KingSide,
        _ => rights,
    }
}

/// The number of pieces on the first `n` squares.
pub open spec fn count_pieces(pieces: Seq<Slot>, n: nat) -> nat
    decreases n,
{
    if n == 0 {
        0
    } else {
        count_pieces(pieces, (n - 1) as nat) + if pieces[n - 1] is Some {
            1nat
        } else {
            0nat
        }
    }
}

impl BoardState {
    /// The game seen from the other side of the board: every piece changes
    /// its colour and its rank, the sides exchange their castling rights,
    /// the turn and the win.
    pub open spec fn ranks_and_colors_inverted(self) -> BoardState {
        BoardState {
            pieces: Seq::new(64, |i: int| recolored(self.pieces[(7 - i / 8) * 8 + i % 8])),
            side_to_move: self.side_to_move.spec_other(),
            white_rights: self.black_rights,
            black_rights: self.white_rights,
            dead_moves: self.dead_moves,
            status: match self.status {
                Status::Win(c) => Status::Win(c.spec_other()),
                _ => self.status,
            },
            awaiting_bonus: self.awaiting_bonus,
        }
    }

    /// The game seen in a mirror: every piece changes its file, and each
    /// side's castling rights change their side of the board.
    pub open spec fn files_inverted(self) -> BoardState {
        BoardState {
            pieces: Seq::new(64, |i: int| self.pieces[i / 8 * 8 + 7 - i % 8]),
            white_rights: sides_exchanged(self.white_rights),
            black_rights: sides_exchanged(self.black_rights),
            ..self
        }
    }

    /// The game with no castling rights left.
    pub open spec fn rights_stripped(self) -> BoardState {
        BoardState {
            white_rights: CastleRights::NoRights,
            black_rights: CastleRights::NoRights,
            ..self
        }
    }
}

/// A king found among the first squares is the king found among more.
pub proof fn lemma_king_square_stays(state: BoardState, color: Color, n: nat, m: nat)
    requires
        n <= m,
        state.king_square_upto(color, n) is Some,
    ensures
        state.king_square_upto(color, m) == state.king_square_upto(color, n),
    decreases m,
{
    if n < m {
        lemma_king_square_stays(state, color, n, (m - 1) as nat);
    }
}

/// Every move from a square starts on that square.
pub proof fn lemma_dest_moves_source(
    source: u8,
    targets: u64,
    promote_on: Option<u8>,
    n: nat,
    k: int,
)
    requires
        0 <= k < dest_moves(source, targets, promote_on, n).len(),
        n <= 64,
    ensures
        dest_moves(source, targets, promote_on, n)[k].source == Square::at(source),
        dest_moves(source, targets, promote_on, n)[k].dest.idx() < 64,
    decreases n,
{
    broadcast use Square::lemma_at_idx;

    if n > 0 {
        let before = dest_moves(source, targets, promote_on, (n - 1) as nat);
        if k < before.len() {
            lemma_dest_moves_source(source, targets, promote_on, (n - 1) as nat, k);
        }
    }
}

/// Every move from a square leads to one of the squares it was made for.
pub proof fn lemma_dest_moves_target(
    source: u8,
    targets: u64,
    promote_on: Option<u8>,
    n: nat,
    k: int,
)
    requires
        0 <= k < dest_moves(source, targets, promote_on, n).len(),
        n <= 64,
    ensures
        targets & square_bit(dest_moves(source, targets, promote_on, n)[k].dest.idx()) != 0,
    decreases n,
{
    broadcast use Square::lemma_at_idx;

    if n > 0 {
        let before = dest_moves(source, targets, promote_on, (n - 1) as nat);
        if k < before.len() {
            lemma_dest_moves_target(source, targets, promote_on, (n - 1) as nat, k);
        }
    }
}

/// No move lands on a piece of the mover's own side.
pub proof fn lemma_moves_spare_own_pieces(state: BoardState, square: u8, k: int)
    requires
        square < 64,
        0 <= k < state.moves_from(square).len(),
        state.pieces.len() == 64,
    ensures
        state.moves_from(square)[k].dest.idx() < 64,
        !holds(
            state.pieces[state.moves_from(square)[k].dest.idx() as int],
            state.side_to_move,
        ),
{
    broadcast use Square::lemma_at_idx;

    let (piece, color) = state.pieces[square as int]->Some_0;
    let promote_on = if piece == Piece::Pawn {
        Some(color.spec_their_backrank())
    } else {
        None
    };
    let targets = state.targets(square, piece, color);
    let normal = dest_moves(square, targets, promote_on, 64);
    let own = state.occupied(color);
    let dest = state.moves_from(square)[k].dest.idx();
    if k < normal.len() {
        lemma_dest_moves_source(square, targets, promote_on, 64, k);
        lemma_dest_moves_target(square, targets, promote_on, 64, k);
        let reach = targets;
        assert(own & (1u64 << dest) == 0) by (bit_vector)
            requires
                exists|r: u64| reach == r & !own,
                reach & (1u64 << dest) != 0,
                dest < 64,
        ;
    } else {
        let white = state.occupied(Color::White);
        let black = state.occupied(Color::Black);
        let all = white | black;
        let between = if dest % 8 == 6 {
            CastleRights::spec_kingside_squares(color)
        } else {
            CastleRights::spec_queenside_squares(color)
        };
        assert(all & between == 0);
        assert(white & (1u64 << dest) == 0 && black & (1u64 << dest) == 0) by (bit_vector)
            requires
                (white | black) & between == 0,
                (dest == 6 && between == 0x60) || (dest == 62 && between
                    == 0x6000_0000_0000_0000) || (dest == 2 && between == 0xe) || (dest == 58
                    && between == 0x0e00_0000_0000_0000),
        ;
    }
    lemma_occupancy_has(state.pieces, color, 64, dest);
}

/// A move of the piece on a square starts on that square and can be made.
pub proof fn lemma_moves_from_can_move(state: BoardState, square: u8, k: int)
    requires
        square < 64,
        0 <= k < state.moves_from(square).len(),
        state.pieces.len() == 64,
        !state.awaiting_bonus,
        state.status == Status::InProgress ==> state.dead_moves < 50,
    ensures
        state.moves_from(square)[k].source.idx() == square,
        state.can_move(state.moves_from(square)[k]),
{
    broadcast use Square::lemma_at_idx;

    let (piece, color) = state.pieces[square as int]->Some_0;
    let promote_on = if piece == Piece::Pawn {
        Some(color.spec_their_backrank())
    } else {
        None
    };
    let normal = dest_moves(square, state.targets(square, piece, color), promote_on, 64);
    if k < normal.len() {
        lemma_dest_moves_source(square, state.targets(square, piece, color), promote_on, 64, k);
    }
}

/// A move among the moves of the pieces on the first `n` squares is a move
/// of the piece on the square it starts from.
pub proof fn lemma_moves_upto_from(state: BoardState, n: nat, m: ChessMove)
    requires
        n <= 64,
        state.moves_upto(n).contains(m),
        state.pieces.len() == 64,
        !state.awaiting_bonus,
        state.status == Status::InProgress ==> state.dead_moves < 50,
    ensures
        m.source.idx() < n,
        state.moves_from(m.source.idx()).contains(m),
        state.can_move(m),
    decreases n,
{
    if n > 0 {
        let before = state.moves_upto((n - 1) as nat);
        let here = state.moves_from((n - 1) as u8);
        let all = state.moves_upto(n);
        let w = choose|w: int| 0 <= w < all.len() && all[w] == m;
        if w < before.len() {
            assert(before[w] == m);
            lemma_moves_upto_from(state, (n - 1) as nat, m);
        } else {
            let k = w - before.len();
            assert(here[k] == m);
            lemma_moves_from_can_move(state, (n - 1) as u8, k);
        }
    }
}

/// Every move of the side to move can be made, and is a move of the piece
/// on the square it starts from.
pub proof fn lemma_all_moves_can_move(state: BoardState, m: ChessMove)
    requires
        state.all_moves().contains(m),
        state.pieces.len() == 64,
        !state.awaiting_bonus,
        state.status == Status::InProgress ==> state.dead_moves < 50,
    ensures
        state.moves_from(m.source.idx()).contains(m),
        state.can_move(m),
{
    lemma_moves_upto_from(state, 64, m);
}

/// While the game is not in progress there are no moves.
pub proof fn lemma_no_moves_when_over(state: BoardState, n: nat)
    requires
        state.status != Status::InProgress,
    ensures
        state.moves_upto(n).len() == 0,
    decreases n,
{
    if n > 0 {
        lemma_no_moves_when_over(state, (n - 1) as nat);
    }
}

} // verus!
