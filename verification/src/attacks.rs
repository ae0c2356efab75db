//! Where a piece on a square can go, as sets of squares.
//!
//! A set of squares is a `u64`: bit `i` stands for square `i`. The sets come
//! out of the lookup tables of the `chess` crate, which are not verified
//! here. What each lookup gives is said in full, square by square.

use vstd::prelude::*;

verus! {

/// How far apart two numbers are.
pub open spec fn apart(a: int, b: int) -> int {
    if a >= b {
        a - b
    } else {
        b - a
    }
}

/// Whether a knight gets from one square to another in a move: two ranks
/// and one file away, or one rank and two files.
pub open spec fn is_knight_step(from: u8, to: u8) -> bool {
    let ranks = apart(from as int / 8, to as int / 8);
    let files = apart(from as int % 8, to as int % 8);
    (ranks == 2 && files == 1) || (ranks == 1 && files == 2)
}

/// Whether a king gets from one square to another in a move: at most one
/// rank and one file away, and not the same square.
pub open spec fn is_king_step(from: u8, to: u8) -> bool {
    apart(from as int / 8, to as int / 8) <= 1 && apart(from as int % 8, to as int % 8) <= 1
        && from != to
}

/// Those among the first `n` squares that are a knight's move away from
/// square `sq`.
pub open spec fn knight_reach(sq: u8, n: nat) -> u64
    decreases n,
{
    if n == 0 {
        0
    } else {
        knight_reach(sq, (n - 1) as nat) | if is_knight_step(sq, (n - 1) as u8) {
            1u64 << ((n - 1) as u8)
        } else {
            0
        }
    }
}

/// Those among the first `n` squares that are next to square `sq`.
pub open spec fn king_reach(sq: u8, n: nat) -> u64
    decreases n,
{
    if n == 0 {
        0
    } else {
        king_reach(sq, (n - 1) as nat) | if is_king_step(sq, (n - 1) as u8) {
            1u64 << ((n - 1) as u8)
        } else {
            0
        }
    }
}

/// The squares a knight's move away from square `sq`.
pub open spec fn knight_attacks(sq: u8) -> u64 {
    knight_reach(sq, 64)
}

/// The squares next to square `sq`.
pub open spec fn king_attacks(sq: u8) -> u64 {
    king_reach(sq, 64)
}

/// Whether a set of squares holds square `sq`.
pub open spec fn holds(squares: u64, sq: u8) -> bool {
    squares & (1u64 << sq) != 0
}

/// Whether `m` is `a`, `b` or a number between them.
pub open spec fn within(a: int, m: int, b: int) -> bool {
    (a <= m && m <= b) || (b <= m && m <= a)
}

/// Whether two different squares are lined up: on one rank or one file if
/// `straight`, on one diagonal if not.
pub open spec fn lined_up(straight: bool, from: u8, to: u8) -> bool {
    from != to && if straight {
        from / 8 == to / 8 || from % 8 == to % 8
    } else {
        apart(from as int / 8, to as int / 8) == apart(from as int % 8, to as int % 8)
    }
}

/// Whether square `mid` lies on the line from `from` to `to`, strictly
/// between the two.
pub open spec fn on_the_way(straight: bool, from: u8, mid: u8, to: u8) -> bool {
    lined_up(straight, from, mid) && lined_up(straight, mid, to) && within(
        from as int / 8,
        mid as int / 8,
        to as int / 8,
    ) && within(from as int % 8, mid as int % 8, to as int % 8)
}

/// Whether a piece that slides, straight or along diagonals, gets from one
/// square to another: the two are lined up and none of `blockers` stands on
/// the way. What stands on the two squares themselves does not count.
pub open spec fn is_slide(straight: bool, from: u8, to: u8, blockers: u64) -> bool {
    lined_up(straight, from, to) && forall|mid: u8|
        mid < 64 && on_the_way(straight, from, mid, to) ==> !#[trigger] holds(blockers, mid)
}

/// Those among the first `n` squares that a sliding piece on square `sq`
/// gets to.
pub open spec fn slide_reach(straight: bool, sq: u8, blockers: u64, n: nat) -> u64
    decreases n,
{
    if n == 0 {
        0
    } else {
        slide_reach(straight, sq, blockers, (n - 1) as nat) | if is_slide(
            straight,
            sq,
            (n - 1) as u8,
            blockers,
        ) {
            1u64 << ((n - 1) as u8)
        } else {
            0
        }
    }
}

/// The squares a bishop on square `sq` reaches along its diagonals, up to
/// and including the first of `blockers` each way.
pub open spec fn bishop_attacks(sq: u8, blockers: u64) -> u64 {
    slide_reach(false, sq, blockers, 64)
}

/// The squares a rook on square `sq` reaches along its rank and file, up to
/// and including the first of `blockers` each way.
pub open spec fn rook_attacks(sq: u8, blockers: u64) -> u64 {
    slide_reach(true, sq, blockers, 64)
}

/// How far a step forward takes a pawn of the colour with index `color`
/// (0 for White, 1 for Black) in the numbering of the squares.
pub open spec fn pawn_way(color: usize) -> int {
    if color == 0 {
        8
    } else {
        -8
    }
}

/// Whether a pawn gets from one square to another without a capture: one
/// step forward onto a square that is free, or from the rank where its
/// side's pawns start two steps over a free square onto a free square.
pub open spec fn is_pawn_push(from: u8, color: usize, to: u8, blockers: u64) -> bool {
    let ahead = from as int + pawn_way(color);
    let at_home = from as int / 8 == if color == 0 {
        1int
    } else {
        6int
    };
    0 <= ahead < 64 && !holds(blockers, ahead as u8) && (to as int == ahead || (at_home && to as int
        == ahead + pawn_way(color) && !holds(blockers, to)))
}

/// Whether a pawn gets from one square to another by a capture: one rank
/// forward and one file to the side, onto one of `blockers`.
pub open spec fn is_pawn_capture(from: u8, color: usize, to: u8, blockers: u64) -> bool {
    to as int / 8 * 8 == from as int / 8 * 8 + pawn_way(color) && apart(
        from as int % 8,
        to as int % 8,
    ) == 1 && holds(blockers, to)
}

/// Those among the first `n` squares that a pawn on square `sq` can go to.
pub open spec fn pawn_reach(sq: u8, color: usize, blockers: u64, n: nat) -> u64
    decreases n,
{
    if n == 0 {
        0
    } else {
        pawn_reach(sq, color, blockers, (n - 1) as nat) | if is_pawn_push(
            sq,
            color,
            (n - 1) as u8,
            blockers,
        ) || is_pawn_capture(sq, color, (n - 1) as u8, blockers) {
            1u64 << ((n - 1) as u8)
        } else {
            0
        }
    }
}

/// The squares a pawn of the colour with index `color` (0 for White, 1 for
/// Black) on square `sq` can go to: forward where `blockers` leaves room,
/// diagonally forward onto one of `blockers`.
pub open spec fn pawn_targets(sq: u8, color: usize, blockers: u64) -> u64 {
    pawn_reach(sq, color, blockers, 64)
}

/// `chess::get_knight_moves`, a table lookup by square. The table holds
/// for each square the squares two ranks and one file, or one rank and two
/// files, away.
#[verifier::external_body]
pub(crate) fn get_knight_moves(sq: u8) -> (r: u64)
    requires
        sq < 64,
    ensures
        r == knight_attacks(sq),
{
    chess::get_knight_moves(chess::ALL_SQUARES[sq as usize]).0
}

/// `chess::get_king_moves`, a table lookup by square. The table holds for
/// each square the other squares at most one rank and one file away.
#[verifier::external_body]
pub(crate) fn get_king_moves(sq: u8) -> (r: u64)
    requires
        sq < 64,
    ensures
        r == king_attacks(sq),
{
    chess::get_king_moves(chess::ALL_SQUARES[sq as usize]).0
}

/// `chess::get_bishop_moves`, a table lookup by square and blockers. The
/// table holds for each square and each set of blockers on its diagonals
/// the squares along them from the square outwards, each way up to and
/// including the first blocker or the edge of the board.
#[verifier::external_body]
pub(crate) fn get_bishop_moves(sq: u8, blockers: u64) -> (r: u64)
    requires
        sq < 64,
    ensures
        r == bishop_attacks(sq, blockers),
{
    chess::get_bishop_moves(chess::ALL_SQUARES[sq as usize], chess::BitBoard(blockers)).0
}

/// `chess::get_rook_moves`, a table lookup by square and blockers. The
/// table holds for each square and each set of blockers on its rank and
/// file the squares along them from the square outwards, each way up to and
/// including the first blocker or the edge of the board.
#[verifier::external_body]
pub(crate) fn get_rook_moves(sq: u8, blockers: u64) -> (r: u64)
    requires
        sq < 64,
    ensures
        r == rook_attacks(sq, blockers),
{
    chess::get_rook_moves(chess::ALL_SQUARES[sq as usize], chess::BitBoard(blockers)).0
}

/// `chess::get_pawn_moves`, two table lookups by colour and square, masked
/// by the blockers: the squares diagonally forward that hold a blocker,
/// and, unless a blocker stands on the square ahead, the squares one step
/// forward, and two from the rank where the pawns start, that hold none.
#[verifier::external_body]
pub(crate) fn get_pawn_moves(sq: u8, color: usize, blockers: u64) -> (r: u64)
    requires
        sq < 64,
        color < 2,
    ensures
        r == pawn_targets(sq, color, blockers),
{
    chess::get_pawn_moves(
        chess::ALL_SQUARES[sq as usize],
        chess::ALL_COLORS[color],
        chess::BitBoard(blockers),
    ).0
}

} // verus!
