//! The board: the state of a game, with the sets of squares that each side
//! holds and the hash of the position kept up to date move by move.

use crate::attacks::get_bishop_moves;
use crate::attacks::get_king_moves;
use crate::attacks::get_knight_moves;
use crate::attacks::get_pawn_moves;
use crate::attacks::get_rook_moves;
use crate::board_model::BoardState;
use crate::board_model::count_pieces;
use crate::board_model::dest_moves;
use crate::board_model::initial_slot;
use crate::board_model::initial_state;
use crate::board_model::lemma_king_square_stays;
use crate::board_model::lemma_occupancy_update;
use crate::board_model::lemma_pieces_hash_update;
use crate::board_model::occupancy;
use crate::board_model::pieces_hash;
use crate::board_model::recolored;
use crate::board_model::shifted;
use crate::board_model::sides_exchanged;
use crate::board_model::slot_bit;
use crate::board_model::slot_key;
use crate::board_model::Status;
use crate::chess_types::CastleRights;
use crate::chess_types::ChessMove;
use crate::chess_types::Color;
use crate::chess_types::Piece;
use crate::chess_types::promotion_pieces;
use crate::chess_types::Square;
use crate::zobrist::Zobrist;
use vstd::prelude::*;

verus! {

/// A board of Random Chess.
#[derive(Copy, Clone, Debug)]
pub struct MyBoard {
    pieces: [Option<(Piece, Color)>; 64],
    side_to_move: Color,
    castle_rights: [CastleRights; 2],
    dead_moves: u8,
    status: Status,
    awaiting_bonus: bool,
    white_pieces: u64,
    black_pieces: u64,
    zobrist_hash: u64,
}

impl View for MyBoard {
    type V = BoardState;

    closed spec fn view(&self) -> BoardState {
        BoardState {
            pieces: self.pieces@,
            side_to_move: self.side_to_move,
            white_rights: self.castle_rights@[0],
            black_rights: self.castle_rights@[1],
            dead_moves: self.dead_moves,
            status: self.status,
            awaiting_bonus: self.awaiting_bonus,
        }
    }
}

/// The set of square `i` for a piece of the colour, else the empty set.
fn bit_if(slot: Option<(Piece, Color)>, color: Color, i: u8) -> (r: u64)
    requires
        i < 64,
    ensures
        r == slot_bit(slot, color, i),
{
    match slot {
        Some((_, c)) => if c == color {
            1u64 << i
        } else {
            0
        },
        None => 0,
    }
}

/// Whether a move is among some moves.
pub fn has_move(moves: &Vec<ChessMove>, m: ChessMove) -> (found: bool)
    ensures
        found == moves@.contains(m),
{
    let mut found = false;
    let mut k: usize = 0;
    while k < moves.len()
        invariant
            k <= moves.len(),
            found == moves@.subrange(0, k as int).contains(m),
        decreases moves.len() - k,
    {
        if moves[k] == m {
            found = true;
        }
        proof {
            assert(moves@.subrange(0, k + 1) =~= moves@.subrange(0, k as int).push(
                moves@[k as int],
            ));
            if moves@.subrange(0, k as int).contains(m) {
                let w = choose|w: int| 0 <= w < k && moves@.subrange(0, k as int)[w] == m;
                assert(moves@.subrange(0, k + 1)[w] == m);
            }
            if moves@[k as int] == m {
                assert(moves@.subrange(0, k + 1)[k as int] == m);
            }
        }
        k += 1;
    }
    proof {
        assert(moves@.subrange(0, k as int) =~= moves@);
    }
    found
}

fn exchange_sides(rights: CastleRights) -> (r: CastleRights)
    ensures
        r == sides_exchanged(rights),
{
    match rights {
        CastleRights::KingSide => CastleRights::QueenSide,
        CastleRights::QueenSide => CastleRights::KingSide,
        other => other,
    }
}

/// The key of what stands on a square.
fn key_of(slot: Option<(Piece, Color)>, square: Square) -> (r: u64)
    ensures
        r == slot_key(slot, square.idx()),
{
    match slot {
        Some((piece, color)) => Zobrist::piece(piece, square, color),
        None => 0,
    }
}

/// The squares that hold a piece of the colour, found square by square.
fn occupancy_of(pieces: &[Option<(Piece, Color)>; 64], color: Color) -> (r: u64)
    ensures
        r == occupancy(pieces@, color, 64),
{
    let mut set: u64 = 0;
    let mut i: u8 = 0;
    while i < 64
        invariant
            i <= 64,
            set == occupancy(pieces@, color, i as nat),
        decreases 64 - i,
    {
        set = set | bit_if(pieces[i as usize], color, i);
        i += 1;
    }
    set
}

/// The XOR of the keys of the pieces, found square by square.
fn pieces_hash_of(pieces: &[Option<(Piece, Color)>; 64]) -> (r: u64)
    ensures
        r == pieces_hash(pieces@, 64),
{
    let mut hash: u64 = 0;
    let mut i: u8 = 0;
    while i < 64
        invariant
            i <= 64,
            hash == pieces_hash(pieces@, i as nat),
        decreases 64 - i,
    {
        hash = hash ^ key_of(pieces[i as usize], Square::from_index(i));
        i += 1;
    }
    hash
}

impl MyBoard {
    /// Whether the sets of squares and the hash agree with the state.
    pub closed spec fn consistent(&self) -> bool {
        &&& self.white_pieces == self@.occupied(Color::White)
        &&& self.black_pieces == self@.occupied(Color::Black)
        &&& self.zobrist_hash == self@.hash()
    }

    /// Whether the board is one that play can have led to: the sets of
    /// squares and the hash agree with the state, and while the game is in
    /// progress fewer than 50 moves were made without capture or pawn move.
    pub closed spec fn wf(&self) -> bool {
        &&& self.consistent()
        &&& self@.status == Status::InProgress ==> self@.dead_moves < 50
    }

    /// What a well-formed board promises of its state.
    pub proof fn lemma_wf(&self)
        requires
            self.wf(),
        ensures
            self@.pieces.len() == 64,
            self@.status == Status::InProgress ==> self@.dead_moves < 50,
    {
    }

    pub fn get_side_to_move(&self) -> (r: Color)
        ensures
            r == self@.side_to_move,
    {
        self.side_to_move
    }

    pub fn get_castle_rights(&self, color: Color) -> (r: CastleRights)
        ensures
            r == self@.rights(color),
    {
        match color {
            Color::White => self.castle_rights[0],
            Color::Black => self.castle_rights[1],
        }
    }

    pub fn get_dead_moves(&self) -> (r: u8)
        ensures
            r == self@.dead_moves,
    {
        self.dead_moves
    }

    pub fn get_status(&self) -> (r: Status)
        ensures
            r == self@.status,
    {
        self.status
    }

    /// Whether a move was made and the coin has not been flipped yet.
    pub fn is_awaiting_bonus(&self) -> (r: bool)
        ensures
            r == self@.awaiting_bonus,
    {
        self.awaiting_bonus
    }

    /// The squares that hold a white piece.
    pub fn get_white_pieces(&self) -> (r: u64)
        requires
            self.wf(),
        ensures
            r == self@.occupied(Color::White),
    {
        self.white_pieces
    }

    /// The squares that hold a black piece.
    pub fn get_black_pieces(&self) -> (r: u64)
        requires
            self.wf(),
        ensures
            r == self@.occupied(Color::Black),
    {
        self.black_pieces
    }

    /// The hash of the position.
    pub fn get_zobrist_hash(&self) -> (r: u64)
        requires
            self.wf(),
        ensures
            r == self@.hash(),
    {
        self.zobrist_hash
    }

    /// What stands on a square.
    pub fn piece_on(&self, square: Square) -> (r: Option<(Piece, Color)>)
        ensures
            r == self@.pieces[square.idx() as int],
    {
        self.pieces[square.to_index() as usize]
    }

    /// The board with the given state, its sets of squares and its hash
    /// computed from the pieces.
    fn assemble(
        pieces: [Option<(Piece, Color)>; 64],
        side_to_move: Color,
        castle_rights: [CastleRights; 2],
        dead_moves: u8,
        status: Status,
        awaiting_bonus: bool,
    ) -> (board: MyBoard)
        ensures
            board.consistent(),
            board@ == (BoardState {
                pieces: pieces@,
                side_to_move,
                white_rights: castle_rights@[0],
                black_rights: castle_rights@[1],
                dead_moves,
                status,
                awaiting_bonus,
            }),
    {
        let white_pieces = occupancy_of(&pieces, Color::White);
        let black_pieces = occupancy_of(&pieces, Color::Black);
        let side = match side_to_move {
            Color::White => 0,
            Color::Black => Zobrist::color(),
        };
        let zobrist_hash = pieces_hash_of(&pieces) ^ Zobrist::castles(
            castle_rights[0],
            Color::White,
        ) ^ Zobrist::castles(castle_rights[1], Color::Black) ^ side;
        MyBoard {
            pieces,
            side_to_move,
            castle_rights,
            dead_moves,
            status,
            awaiting_bonus,
            white_pieces,
            black_pieces,
            zobrist_hash,
        }
    }

    /// The board at the start of a game in which `starting_color` moves
    /// first.
    pub fn initial_board(starting_color: Color) -> (board: MyBoard)
        ensures
            board.wf(),
            board@ == initial_state(starting_color),
    {
        let mut pieces: [Option<(Piece, Color)>; 64] = [None;64];
        let mut i: u8 = 0;
        while i < 64
            invariant
                i <= 64,
                forall|j: int| 0 <= j < i ==> pieces@[j] == initial_slot(j as u8),
            decreases 64 - i,
        {
            let rank = i / 8;
            let file = i % 8;
            let piece = if file == 0 || file == 7 {
                Piece::Rook
            } else if file == 1 || file == 6 {
                Piece::Knight
            } else if file == 2 || file == 5 {
                Piece::Bishop
            } else if file == 3 {
                Piece::Queen
            } else {
                Piece::King
            };
            let slot = if rank == 0 {
                Some((piece, Color::White))
            } else if rank == 1 {
                Some((Piece::Pawn, Color::White))
            } else if rank == 6 {
                Some((Piece::Pawn, Color::Black))
            } else if rank == 7 {
                Some((piece, Color::Black))
            } else {
                None
            };
            pieces[i as usize] = slot;
            i += 1;
        }
        let board = MyBoard::assemble(
            pieces,
            starting_color,
            [CastleRights::Both, CastleRights::Both],
            0,
            Status::InProgress,
            false,
        );
        proof {
            assert(board@.pieces =~= initial_state(starting_color).pieces);
        }
        board
    }

    /// A board with the given pieces and side to move, on which the game is
    /// in progress, no side may castle, and the last move was a capture or
    /// a pawn move.
    pub fn with_pieces(pieces: [Option<(Piece, Color)>; 64], side_to_move: Color) -> (board:
        MyBoard)
        ensures
            board.wf(),
            board@ == (BoardState {
                pieces: pieces@,
                side_to_move,
                white_rights: CastleRights::NoRights,
                black_rights: CastleRights::NoRights,
                dead_moves: 0,
                status: Status::InProgress,
                awaiting_bonus: false,
            }),
    {
        MyBoard::assemble(
            pieces,
            side_to_move,
            [CastleRights::NoRights, CastleRights::NoRights],
            0,
            Status::InProgress,
            false,
        )
    }

    /// Sets the castling rights of a side and brings the hash up to date.
    fn set_castle_rights(&mut self, color: Color, rights: CastleRights)
        requires
            old(self).consistent(),
        ensures
            final(self).consistent(),
            final(self)@ == old(self)@.with_rights(color, rights),
    {
        let before = self.get_castle_rights(color);
        let out = Zobrist::castles(before, color);
        let new = Zobrist::castles(rights, color);
        self.zobrist_hash = self.zobrist_hash ^ out ^ new;
        match color {
            Color::White => {
                self.castle_rights[0] = rights;
            },
            Color::Black => {
                self.castle_rights[1] = rights;
            },
        }
        proof {
            let p = pieces_hash(self@.pieces, 64);
            let w = Zobrist::spec_castles(old(self)@.white_rights, Color::White);
            let b = Zobrist::spec_castles(old(self)@.black_rights, Color::Black);
            let s = crate::board_model::side_key(self@.side_to_move);
            assert((p ^ w ^ b ^ s) ^ w ^ new == p ^ new ^ b ^ s) by (bit_vector);
            assert((p ^ w ^ b ^ s) ^ b ^ new == p ^ w ^ new ^ s) by (bit_vector);
            assert(final(self)@ =~= old(self)@.with_rights(color, rights));
        }
    }

    /// Puts something else on a square and brings the sets of squares and
    /// the hash up to date.
    fn set_piece(&mut self, square: Square, piece: Option<(Piece, Color)>)
        requires
            old(self).consistent(),
        ensures
            final(self).consistent(),
            final(self)@ == old(self)@.with_piece(square.idx(), piece),
    {
        let i = square.to_index();
        let before = self.pieces[i as usize];
        let mask = !(1u64 << i);
        self.white_pieces = (self.white_pieces & mask) | bit_if(piece, Color::White, i);
        self.black_pieces = (self.black_pieces & mask) | bit_if(piece, Color::Black, i);
        self.zobrist_hash = self.zobrist_hash ^ key_of(before, square) ^ key_of(piece, square);
        self.pieces[i as usize] = piece;
        proof {
            let pieces = old(self)@.pieces;
            lemma_occupancy_update(pieces, Color::White, 64, i, piece);
            lemma_occupancy_update(pieces, Color::Black, 64, i, piece);
            lemma_pieces_hash_update(pieces, 64, i, piece);
            let p = pieces_hash(pieces, 64);
            let w = Zobrist::spec_castles(self@.white_rights, Color::White);
            let b = Zobrist::spec_castles(self@.black_rights, Color::Black);
            let s = crate::board_model::side_key(self@.side_to_move);
            let x = slot_key(before, i);
            let y = slot_key(piece, i);
            assert((p ^ w ^ b ^ s) ^ x ^ y == (p ^ x ^ y) ^ w ^ b ^ s) by (bit_vector);
            assert(final(self)@ =~= old(self)@.with_piece(square.idx(), piece));
        }
    }

    /// The squares that the piece on a square can go to, castling aside.
    fn targets_of(&self, square: Square, piece: Piece, color: Color) -> (r: u64)
        requires
            self.consistent(),
        ensures
            r == self@.targets(square.idx(), piece, color),
    {
        let i = square.to_index();
        let all = self.white_pieces | self.black_pieces;
        let own = match color {
            Color::White => self.white_pieces,
            Color::Black => self.black_pieces,
        };
        let reach = match piece {
            Piece::Pawn => get_pawn_moves(i, color.to_index(), all),
            Piece::Knight => get_knight_moves(i),
            Piece::Bishop => get_bishop_moves(i, all),
            Piece::Rook => get_rook_moves(i, all),
            Piece::Queen => get_bishop_moves(i, all) | get_rook_moves(i, all),
            Piece::King => get_king_moves(i),
        };
        reach & !own
    }

    /// The square of the king of a colour, if it is on the board.
    pub fn king_square(&self, color: Color) -> (r: Option<Square>)
        ensures
            r is Some == self@.king_square(color) is Some,
            r matches Some(square) ==> self@.king_square(color) == Some(square.idx()),
    {
        let mut i: u8 = 0;
        while i < 64
            invariant
                i <= 64,
                self@.king_square_upto(color, i as nat) is None,
            decreases 64 - i,
        {
            match self.pieces[i as usize] {
                Some((Piece::King, c)) => {
                    if c == color {
                        proof {
                            lemma_king_square_stays(self@, color, (i + 1) as nat, 64);
                        }
                        return Some(Square::from_index(i));
                    }
                },
                _ => {},
            }
            i += 1;
        }
        None
    }

    /// Whether the king of a colour is on the board and a piece of the
    /// other colour could take it, were it its turn.
    pub fn in_check(&self, color: Color) -> (r: bool)
        requires
            self.wf(),
        ensures
            r == self@.in_check(color),
    {
        let king = match self.king_square(color) {
            Some(square) => square,
            None => {
                return false;
            },
        };
        let target = king.to_index();
        let by = color.other();
        let mut found = false;
        let mut i: u8 = 0;
        while i < 64
            invariant
                i <= 64,
                target < 64,
                self.consistent(),
                found == self@.attacked_upto(target, by, i as nat),
            decreases 64 - i,
        {
            let from = Square::from_index(i);
            match self.piece_on(from) {
                Some((piece, c)) => {
                    if c == by && self.targets_of(from, piece, by) & (1u64 << target) != 0 {
                        found = true;
                    }
                },
                None => {},
            }
            i += 1;
        }
        found
    }

    /// Adds to `moves` the castling move of a king, if it can be made.
    fn push_castle_move(
        &self,
        moves: &mut Vec<ChessMove>,
        square: Square,
        allowed: bool,
        between: u64,
        dest: u8,
    )
        requires
            self.consistent(),
            dest < 64,
        ensures
            final(moves)@ == old(moves)@ + self@.castle_moves(square.idx(), allowed, between, dest),
    {
        broadcast use Square::lemma_idx_at;

        let all = self.white_pieces | self.black_pieces;
        if allowed && all & between == 0 {
            moves.push(ChessMove::new(square, Square::from_index(dest), None));
        }
        proof {
            assert(final(moves)@ =~= old(moves)@ + self@.castle_moves(
                square.idx(),
                allowed,
                between,
                dest,
            ));
        }
    }

    /// The moves of the piece on a square; see `BoardState::moves_from`.
    pub fn moves_from(&self, sq: Square) -> (moves: Vec<ChessMove>)
        requires
            self.wf(),
            !self@.awaiting_bonus,
        ensures
            moves@ == self@.moves_from(sq.idx()),
    {
        broadcast use Square::lemma_idx_at;

        let mut moves: Vec<ChessMove> = Vec::new();
        if !self.status.is_in_progress() {
            return moves;
        }
        let (piece, color) = match self.piece_on(sq) {
            Some(found) => found,
            None => {
                return moves;
            },
        };
        if color != self.side_to_move {
            return moves;
        }
        let source = sq.to_index();
        let targets = self.targets_of(sq, piece, color);
        let promote_on = if piece == Piece::Pawn {
            Some(color.to_their_backrank())
        } else {
            None
        };
        let mut dest: u8 = 0;
        while dest < 64
            invariant
                dest <= 64,
                source == sq.idx(),
                moves@ == dest_moves(source, targets, promote_on, dest as nat),
            decreases 64 - dest,
        {
            let ghost before = moves@;
            if targets & (1u64 << dest) != 0 {
                let to = Square::from_index(dest);
                if promote_on == Some(dest / 8) {
                    moves.push(ChessMove::new(sq, to, Some(Piece::Queen)));
                    moves.push(ChessMove::new(sq, to, Some(Piece::Knight)));
                    moves.push(ChessMove::new(sq, to, Some(Piece::Rook)));
                    moves.push(ChessMove::new(sq, to, Some(Piece::Bishop)));
                } else {
                    moves.push(ChessMove::new(sq, to, None));
                }
            }
            proof {
                let promoted = promotion_pieces().map_values(
                    |p: Piece|
                        ChessMove {
                            source: Square::at(source),
                            dest: Square::at(dest),
                            promotion: Some(p),
                        },
                );
                assert(promoted.len() == 4);
                assert(promoted[0].promotion == Some(Piece::Queen));
                assert(promoted[1].promotion == Some(Piece::Knight));
                assert(promoted[2].promotion == Some(Piece::Rook));
                assert(promoted[3].promotion == Some(Piece::Bishop));
                sq.lemma_idx_at();
                assert(Square::at(source) == sq);
                if targets & (1u64 << dest) != 0 {
                    if promote_on == Some((dest / 8) as u8) {
                        assert(moves@ =~= before + promoted);
                    } else {
                        assert(moves@ =~= before.push(
                            ChessMove { source: sq, dest: Square::at(dest), promotion: None },
                        ));
                    }
                }
                assert(moves@ =~= dest_moves(source, targets, promote_on, (dest + 1) as nat));
            }
            dest += 1;
        }
        let is_king = piece == Piece::King;
        let rights = self.get_castle_rights(color);
        let base = color.to_my_backrank() * 8;
        self.push_castle_move(
            &mut moves,
            sq,
            is_king && rights.has_kingside(),
            CastleRights::kingside_squares(color),
            base + 6,
        );
        self.push_castle_move(
            &mut moves,
            sq,
            is_king && rights.has_queenside(),
            CastleRights::queenside_squares(color),
            base + 2,
        );
        moves
    }

    /// The moves of the side to move, in the order of the squares they
    /// start from.
    pub fn all_moves(&self) -> (moves: Vec<ChessMove>)
        requires
            self.wf(),
            !self@.awaiting_bonus,
        ensures
            moves@ == self@.all_moves(),
    {
        let mut moves: Vec<ChessMove> = Vec::new();
        let mut i: u8 = 0;
        while i < 64
            invariant
                i <= 64,
                self.wf(),
                !self@.awaiting_bonus,
                moves@ == self@.moves_upto(i as nat),
            decreases 64 - i,
        {
            let mut from = self.moves_from(Square::from_index(i));
            moves.append(&mut from);
            i += 1;
        }
        moves
    }

    /// Makes a move that the rules allow, and leaves the board waiting for
    /// the coin flip.
    pub fn apply_move(&mut self, m: ChessMove)
        requires
            old(self).wf(),
            !old(self)@.awaiting_bonus,
            old(self)@.moves_from(m.source.idx()).contains(m),
        ensures
            final(self).wf(),
            final(self)@ == old(self)@.moved(m),
    {
        self.apply_move_unchecked(m);
    }

    /// Makes a move if the rules allow it, and says whether they did. A
    /// board that waits for the coin flip allows no move.
    pub fn try_apply_move(&mut self, m: ChessMove) -> (done: bool)
        requires
            old(self).wf(),
        ensures
            final(self).wf(),
            done == (!old(self)@.awaiting_bonus && old(self)@.moves_from(m.source.idx()).contains(
                m,
            )),
            done ==> final(self)@ == old(self)@.moved(m),
            !done ==> *final(self) == *old(self),
    {
        if self.awaiting_bonus {
            return false;
        }
        let moves = self.moves_from(m.get_source());
        let found = has_move(&moves, m);
        if found {
            self.apply_move(m);
        }
        found
    }

    /// Flips the coin: on a bonus the mover moves again. A game in which
    /// the side to move is left without a move is drawn.
    pub fn apply_bonus(&mut self, is_bonus: bool)
        requires
            old(self).wf(),
            old(self)@.awaiting_bonus,
        ensures
            final(self).wf(),
            final(self)@ == old(self)@.bonus(is_bonus),
            final(self)@.settled(),
    {
        self.apply_bonus_unchecked(is_bonus);
        let moves = self.all_moves();
        if moves.len() == 0 && self.status.is_in_progress() {
            self.status = Status::Draw;
        }
    }

    /// Takes away the castling rights that a move costs.
    fn lose_rights(&mut self, m: ChessMove, color: Color)
        requires
            old(self).consistent(),
        ensures
            final(self).consistent(),
            final(self)@ == old(self)@.rights_after(m, color),
    {
        let own = self.get_castle_rights(color).remove(
            CastleRights::square_to_castle_rights(color, m.get_source()),
        );
        let their = self.get_castle_rights(color.other()).remove(
            CastleRights::square_to_castle_rights(color.other(), m.get_dest()),
        );
        self.set_castle_rights(color, own);
        self.set_castle_rights(color.other(), their);
    }

    /// Moves the piece, and with it what the move drags along.
    fn shift_pieces(&mut self, m: ChessMove, piece: Piece, color: Color)
        requires
            old(self).consistent(),
        ensures
            final(self).consistent(),
            final(self)@ == (BoardState {
                pieces: shifted(old(self)@.pieces, m, piece, color),
                ..old(self)@
            }),
    {
        let source = m.get_source();
        let dest = m.get_dest();
        self.set_piece(dest, Some((piece, color)));
        self.set_piece(source, None);
        // Castling moves the rook as well.
        if piece == Piece::King && source.get_file() == 4 {
            let base = color.to_my_backrank() * 8;
            if dest.get_file() == 6 {
                self.set_piece(Square::from_index(base + 5), Some((Piece::Rook, color)));
                self.set_piece(Square::from_index(base + 7), None);
            } else if dest.get_file() == 2 {
                self.set_piece(Square::from_index(base + 3), Some((Piece::Rook, color)));
                self.set_piece(Square::from_index(base), None);
            }
        }
        match m.get_promotion() {
            Some(promoted) => {
                self.set_piece(dest, Some((promoted, color)));
            },
            None => {},
        }
    }

    /// Makes a move without asking whether the rules allow it, and leaves
    /// the board waiting for the coin flip.
    pub fn apply_move_unchecked(&mut self, m: ChessMove)
        requires
            old(self).wf(),
            old(self)@.can_move(m),
        ensures
            final(self).wf(),
            final(self)@ == old(self)@.moved(m),
    {
        let (p, c) = match self.piece_on(m.get_source()) {
            Some(found) => found,
            None => vstd::pervasive::unreached(),
        };
        let taken = self.piece_on(m.get_dest());
        self.lose_rights(m, c);
        self.shift_pieces(m, p, c);
        self.switch_side_to_move();
        self.awaiting_bonus = true;
        // A king that is taken ends the game.
        let king_taken = match taken {
            Some((Piece::King, _)) => true,
            _ => false,
        };
        if king_taken {
            self.status = Status::Win(c);
        }
        // Fifty moves without capture or pawn move end it in a draw.
        if taken.is_some() || p == Piece::Pawn {
            self.dead_moves = 0;
        } else {
            self.dead_moves = self.dead_moves + 1;
            if self.dead_moves == 50 {
                self.status = Status::Draw;
            }
        }
    }

    /// Flips the coin without a look at the moves that are left: on a
    /// bonus the mover moves again.
    pub fn apply_bonus_unchecked(&mut self, is_bonus: bool)
        requires
            old(self).wf(),
            old(self)@.awaiting_bonus,
        ensures
            final(self).wf(),
            final(self)@ == old(self)@.bonus_unchecked(is_bonus),
    {
        self.awaiting_bonus = false;
        if is_bonus {
            self.switch_side_to_move();
        }
    }

    /// The number of pieces on the board.
    pub fn piece_count(&self) -> (n: u32)
        ensures
            n == count_pieces(self@.pieces, 64),
            n <= 64,
    {
        let mut n: u32 = 0;
        let mut i: u8 = 0;
        while i < 64
            invariant
                i <= 64,
                n == count_pieces(self@.pieces, i as nat),
                n <= i,
            decreases 64 - i,
        {
            if self.pieces[i as usize].is_some() {
                n += 1;
            }
            i += 1;
        }
        n
    }

    /// Turns the board round: see `ranks_and_colors_inverted`.
    pub fn invert_ranks_and_colors(&mut self)
        requires
            old(self).wf(),
        ensures
            final(self).wf(),
            final(self)@ == old(self)@.ranks_and_colors_inverted(),
    {
        let mut pieces: [Option<(Piece, Color)>; 64] = [None;64];
        let mut i: u8 = 0;
        while i < 64
            invariant
                i <= 64,
                forall|j: int|
                    0 <= j < i ==> pieces@[j] == recolored(
                        self@.pieces[(7 - j / 8) * 8 + j % 8],
                    ),
            decreases 64 - i,
        {
            let from = (7 - i / 8) * 8 + i % 8;
            pieces[i as usize] = match self.pieces[from as usize] {
                Some((piece, color)) => Some((piece, color.other())),
                None => None,
            };
            i += 1;
        }
        let status = match self.status {
            Status::Win(c) => Status::Win(c.other()),
            other => other,
        };
        let board = MyBoard::assemble(
            pieces,
            self.side_to_move.other(),
            [self.castle_rights[1], self.castle_rights[0]],
            self.dead_moves,
            status,
            self.awaiting_bonus,
        );
        proof {
            assert(board@.pieces =~= old(self)@.ranks_and_colors_inverted().pieces);
        }
        *self = board;
    }

    /// Mirrors the board: see `files_inverted`.
    pub fn invert_files(&mut self)
        requires
            old(self).wf(),
        ensures
            final(self).wf(),
            final(self)@ == old(self)@.files_inverted(),
    {
        let mut pieces: [Option<(Piece, Color)>; 64] = [None;64];
        let mut i: u8 = 0;
        while i < 64
            invariant
                i <= 64,
                forall|j: int| 0 <= j < i ==> pieces@[j] == self@.pieces[j / 8 * 8 + 7 - j % 8],
            decreases 64 - i,
        {
            let from = i / 8 * 8 + 7 - i % 8;
            pieces[i as usize] = self.pieces[from as usize];
            i += 1;
        }
        let board = MyBoard::assemble(
            pieces,
            self.side_to_move,
            [exchange_sides(self.castle_rights[0]), exchange_sides(self.castle_rights[1])],
            self.dead_moves,
            self.status,
            self.awaiting_bonus,
        );
        proof {
            assert(board@.pieces =~= old(self)@.files_inverted().pieces);
        }
        *self = board;
    }

    /// Takes the castling rights of both sides away.
    pub fn strip_castle_rights(&mut self)
        requires
            old(self).wf(),
        ensures
            final(self).wf(),
            final(self)@ == old(self)@.rights_stripped(),
    {
        self.set_castle_rights(Color::White, CastleRights::NoRights);
        self.set_castle_rights(Color::Black, CastleRights::NoRights);
    }

    /// Passes the turn and brings the hash up to date.
    fn switch_side_to_move(&mut self)
        requires
            old(self).consistent(),
        ensures
            final(self).consistent(),
            final(self)@ == old(self)@.with_side_switched(),
    {
        let key = Zobrist::color();
        self.zobrist_hash = self.zobrist_hash ^ key;
        self.side_to_move = self.side_to_move.other();
        proof {
            let p = pieces_hash(self@.pieces, 64);
            let w = Zobrist::spec_castles(self@.white_rights, Color::White);
            let b = Zobrist::spec_castles(self@.black_rights, Color::Black);
            assert((p ^ w ^ b ^ 0) ^ key == p ^ w ^ b ^ key) by (bit_vector);
            assert((p ^ w ^ b ^ key) ^ key == p ^ w ^ b ^ 0) by (bit_vector);
        }
    }
}

} // verus!
