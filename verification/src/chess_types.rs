//! Colours, pieces, squares, moves and castling rights.

use vstd::prelude::*;

verus! {

/// One of the two players.
#[derive(Clone, Copy, Debug, PartialEq, Eq, Hash, Structural)]
pub enum Color {
    White,
    Black,
}

impl Color {
    /// 0 for White, 1 for Black.
    pub open spec fn spec_to_index(self) -> usize {
        match self {
            Color::White => 0,
            Color::Black => 1,
        }
    }

    /// The opponent.
    pub open spec fn spec_other(self) -> Color {
        match self {
            Color::White => Color::Black,
            Color::Black => Color::White,
        }
    }

    /// The rank, counted from 0, on which this side's pieces start.
    pub open spec fn spec_my_backrank(self) -> u8 {
        match self {
            Color::White => 0,
            Color::Black => 7,
        }
    }

    /// The rank, counted from 0, on which this side's pawns promote.
    pub open spec fn spec_their_backrank(self) -> u8 {
        match self {
            Color::White => 7,
            Color::Black => 0,
        }
    }

    #[verifier::when_used_as_spec(spec_to_index)]
    pub fn to_index(self) -> (r: usize)
        ensures
            r == self.spec_to_index(),
    {
        match self {
            Color::White => 0,
            Color::Black => 1,
        }
    }

    #[verifier::when_used_as_spec(spec_other)]
    pub fn other(self) -> (r: Color)
        ensures
            r == self.spec_other(),
    {
        match self {
            Color::White => Color::Black,
            Color::Black => Color::White,
        }
    }

    #[verifier::when_used_as_spec(spec_my_backrank)]
    pub fn to_my_backrank(self) -> (r: u8)
        ensures
            r == self.spec_my_backrank(),
    {
        match self {
            Color::White => 0,
            Color::Black => 7,
        }
    }

    #[verifier::when_used_as_spec(spec_their_backrank)]
    pub fn to_their_backrank(self) -> (r: u8)
        ensures
            r == self.spec_their_backrank(),
    {
        match self {
            Color::White => 7,
            Color::Black => 0,
        }
    }
}

/// A kind of piece.
#[derive(Clone, Copy, Debug, PartialEq, Eq, Hash, Structural)]
pub enum Piece {
    Pawn,
    Knight,
    Bishop,
    Rook,
    Queen,
    King,
}

impl Piece {
    /// The place of the piece in the order pawn, knight, bishop, rook,
    /// queen, king, counted from 0.
    pub open spec fn spec_to_index(self) -> usize {
        match self {
            Piece::Pawn => 0,
            Piece::Knight => 1,
            Piece::Bishop => 2,
            Piece::Rook => 3,
            Piece::Queen => 4,
            Piece::King => 5,
        }
    }

    /// The piece at a place in that order.
    pub open spec fn spec_from_index(index: usize) -> Option<Piece> {
        if index == 0 {
            Some(Piece::Pawn)
        } else if index == 1 {
            Some(Piece::Knight)
        } else if index == 2 {
            Some(Piece::Bishop)
        } else if index == 3 {
            Some(Piece::Rook)
        } else if index == 4 {
            Some(Piece::Queen)
        } else if index == 5 {
            Some(Piece::King)
        } else {
            None
        }
    }

    #[verifier::when_used_as_spec(spec_to_index)]
    pub fn to_index(self) -> (r: usize)
        ensures
            r == self.spec_to_index(),
    {
        match self {
            Piece::Pawn => 0,
            Piece::Knight => 1,
            Piece::Bishop => 2,
            Piece::Rook => 3,
            Piece::Queen => 4,
            Piece::King => 5,
        }
    }

    #[verifier::when_used_as_spec(spec_from_index)]
    pub fn from_index(index: usize) -> (r: Option<Piece>)
        ensures
            r == Piece::spec_from_index(index),
    {
        if index == 0 {
            Some(Piece::Pawn)
        } else if index == 1 {
            Some(Piece::Knight)
        } else if index == 2 {
            Some(Piece::Bishop)
        } else if index == 3 {
            Some(Piece::Rook)
        } else if index == 4 {
            Some(Piece::Queen)
        } else if index == 5 {
            Some(Piece::King)
        } else {
            None
        }
    }
}

/// The pieces a pawn can become, in the order in which the promotions of
/// one pawn move are listed.
pub open spec fn promotion_pieces() -> Seq<Piece> {
    seq![Piece::Queen, Piece::Knight, Piece::Rook, Piece::Bishop]
}

/// A square of the board. Squares are numbered from 0 (a1) along the first
/// rank to 7 (h1), then along the second rank, up to 63 (h8).
#[derive(Clone, Copy, Debug, PartialEq, Eq, Hash, Structural)]
pub struct Square {
    index: u8,
}

impl Square {
    #[verifier::type_invariant]
    spec fn on_board(self) -> bool {
        self.index < 64
    }

    /// The number of the square.
    pub closed spec fn idx(self) -> u8 {
        self.index
    }

    /// The square with the given number.
    pub closed spec fn at(index: u8) -> Square {
        Square { index }
    }

    /// `at` and `idx` undo each other.
    pub broadcast proof fn lemma_at_idx(index: u8)
        ensures
            #[trigger] Square::at(index).idx() == index,
    {
    }

    pub broadcast proof fn lemma_idx_at(self)
        ensures
            #[trigger] Square::at(self.idx()) == self,
    {
    }

    /// The rank of the square, counted from 0.
    pub open spec fn spec_rank(self) -> u8 {
        self.idx() / 8
    }

    /// The file of the square, counted from 0.
    pub open spec fn spec_file(self) -> u8 {
        self.idx() % 8
    }

    /// Two squares with the same number are the same square.
    pub broadcast proof fn lemma_same_index(self, other: Square)
        ensures
            #![trigger self.idx(), other.idx()]
            self.idx() == other.idx() <==> self == other,
    {
    }

    /// The square with the given number, if there is one.
    pub fn new(index: u8) -> (r: Option<Square>)
        ensures
            index < 64 ==> r == Some(Square::at(index)),
            index >= 64 ==> r is None,
    {
        if index < 64 {
            Some(Square { index })
        } else {
            None
        }
    }

    /// The square with the given number, which is less than 64.
    pub fn from_index(index: u8) -> (r: Square)
        requires
            index < 64,
        ensures
            r == Square::at(index),
            r.idx() == index,
    {
        Square { index }
    }

    /// The square on the given rank and file, both counted from 0, if
    /// there is one.
    pub fn make_square(rank: u8, file: u8) -> (r: Option<Square>)
        ensures
            rank < 8 && file < 8 ==> r == Some(Square::at((rank * 8 + file) as u8)),
            !(rank < 8 && file < 8) ==> r is None,
    {
        if rank < 8 && file < 8 {
            Some(Square { index: rank * 8 + file })
        } else {
            None
        }
    }

    /// The number of the square, less than 64.
    pub fn to_index(self) -> (r: u8)
        ensures
            r == self.idx(),
            r < 64,
    {
        proof {
            use_type_invariant(&self);
        }
        self.index
    }

    pub fn get_rank(self) -> (r: u8)
        ensures
            r == self.spec_rank(),
            r < 8,
    {
        proof {
            use_type_invariant(&self);
        }
        self.index / 8
    }

    pub fn get_file(self) -> (r: u8)
        ensures
            r == self.spec_file(),
            r < 8,
    {
        self.index % 8
    }
}

/// A move: the square a piece leaves, the square it lands on, and what a
/// pawn becomes there.
#[derive(Clone, Copy, Debug, PartialEq, Eq, Hash, Structural)]
pub struct ChessMove {
    pub source: Square,
    pub dest: Square,
    pub promotion: Option<Piece>,
}

impl ChessMove {
    pub fn new(source: Square, dest: Square, promotion: Option<Piece>) -> (r: ChessMove)
        ensures
            r == (ChessMove { source, dest, promotion }),
    {
        ChessMove { source, dest, promotion }
    }

    pub fn get_source(&self) -> (r: Square)
        ensures
            r == self.source,
    {
        self.source
    }

    pub fn get_dest(&self) -> (r: Square)
        ensures
            r == self.dest,
    {
        self.dest
    }

    pub fn get_promotion(&self) -> (r: Option<Piece>)
        ensures
            r == self.promotion,
    {
        self.promotion
    }
}

/// The sides on which a player may still castle.
#[derive(Clone, Copy, Debug, PartialEq, Eq, Hash, Structural)]
pub enum CastleRights {
    NoRights,
    KingSide,
    QueenSide,
    Both,
}

impl CastleRights {
    /// Bit 0 stands for the king's side, bit 1 for the queen's side.
    pub open spec fn spec_to_index(self) -> usize {
        match self {
            CastleRights::NoRights => 0,
            CastleRights::KingSide => 1,
            CastleRights::QueenSide => 2,
            CastleRights::Both => 3,
        }
    }

    pub open spec fn spec_has_kingside(self) -> bool {
        self == CastleRights::KingSide || self == CastleRights::Both
    }

    pub open spec fn spec_has_queenside(self) -> bool {
        self == CastleRights::QueenSide || self == CastleRights::Both
    }

    /// The rights with the given sides.
    pub open spec fn with_sides(kingside: bool, queenside: bool) -> CastleRights {
        if kingside && queenside {
            CastleRights::Both
        } else if kingside {
            CastleRights::KingSide
        } else if queenside {
            CastleRights::QueenSide
        } else {
            CastleRights::NoRights
        }
    }

    /// What is left of these rights once `taken` is lost.
    pub open spec fn spec_remove(self, taken: CastleRights) -> CastleRights {
        CastleRights::with_sides(
            self.spec_has_kingside() && !taken.spec_has_kingside(),
            self.spec_has_queenside() && !taken.spec_has_queenside(),
        )
    }

    /// The rights that `color` loses when a piece leaves `square` or is
    /// taken there: both on the king's square, one on a rook's square.
    pub open spec fn spec_square_to_castle_rights(color: Color, square: Square) -> CastleRights {
        let base = color.spec_my_backrank() * 8;
        if square.idx() == base {
            CastleRights::QueenSide
        } else if square.idx() == base + 4 {
            CastleRights::Both
        } else if square.idx() == base + 7 {
            CastleRights::KingSide
        } else {
            CastleRights::NoRights
        }
    }

    /// The squares between king and rook on the king's side: f and g on the
    /// back rank.
    pub open spec fn spec_kingside_squares(color: Color) -> u64 {
        match color {
            Color::White => 0x0000_0000_0000_0060,
            Color::Black => 0x6000_0000_0000_0000,
        }
    }

    /// The squares between king and rook on the queen's side: b, c and d on
    /// the back rank.
    pub open spec fn spec_queenside_squares(color: Color) -> u64 {
        match color {
            Color::White => 0x0000_0000_0000_000e,
            Color::Black => 0x0e00_0000_0000_0000,
        }
    }

    #[verifier::when_used_as_spec(spec_to_index)]
    pub fn to_index(self) -> (r: usize)
        ensures
            r == self.spec_to_index(),
    {
        match self {
            CastleRights::NoRights => 0,
            CastleRights::KingSide => 1,
            CastleRights::QueenSide => 2,
            CastleRights::Both => 3,
        }
    }

    #[verifier::when_used_as_spec(spec_has_kingside)]
    pub fn has_kingside(self) -> (r: bool)
        ensures
            r == self.spec_has_kingside(),
    {
        match self {
            CastleRights::KingSide => true,
            CastleRights::Both => true,
            _ => false,
        }
    }

    #[verifier::when_used_as_spec(spec_has_queenside)]
    pub fn has_queenside(self) -> (r: bool)
        ensures
            r == self.spec_has_queenside(),
    {
        match self {
            CastleRights::QueenSide => true,
            CastleRights::Both => true,
            _ => false,
        }
    }

    #[verifier::when_used_as_spec(spec_remove)]
    pub fn remove(self, taken: CastleRights) -> (r: CastleRights)
        ensures
            r == self.spec_remove(taken),
    {
        let kingside = self.has_kingside() && !taken.has_kingside();
        let queenside = self.has_queenside() && !taken.has_queenside();
        if kingside && queenside {
            CastleRights::Both
        } else if kingside {
            CastleRights::KingSide
        } else if queenside {
            CastleRights::QueenSide
        } else {
            CastleRights::NoRights
        }
    }

    #[verifier::when_used_as_spec(spec_square_to_castle_rights)]
    pub fn square_to_castle_rights(color: Color, square: Square) -> (r: CastleRights)
        ensures
            r == CastleRights::spec_square_to_castle_rights(color, square),
    {
        let base = color.to_my_backrank() * 8;
        let index = square.to_index();
        if index == base {
            CastleRights::QueenSide
        } else if index == base + 4 {
            CastleRights::Both
        } else if index == base + 7 {
            CastleRights::KingSide
        } else {
            CastleRights::NoRights
        }
    }

    #[verifier::when_used_as_spec(spec_kingside_squares)]
    pub fn kingside_squares(color: Color) -> (r: u64)
        ensures
            r == CastleRights::spec_kingside_squares(color),
    {
        match color {
            Color::White => 0x0000_0000_0000_0060,
            Color::Black => 0x6000_0000_0000_0000,
        }
    }

    #[verifier::when_used_as_spec(spec_queenside_squares)]
    pub fn queenside_squares(color: Color) -> (r: u64)
        ensures
            r == CastleRights::spec_queenside_squares(color),
    {
        match color {
            Color::White => 0x0000_0000_0000_000e,
            Color::Black => 0x0e00_0000_0000_0000,
        }
    }
}

} // verus!
