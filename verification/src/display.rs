//! The board as text for a terminal that knows colours.
//!
//! The colours are put on by the `ansi_term` crate: a piece of text that is
//! painted stands between a code that switches the paint on and the code
//! that switches everything off.

use ansi_term::Colour;
use ansi_term::Style;
use crate::board_model::BoardState;
use crate::board_model::Status;
use crate::chess_types::CastleRights;
use crate::chess_types::Color;
use crate::chess_types::Piece;
use crate::chess_types::Square;
use crate::game::status_text;
use crate::game::status_words;
use crate::my_board::MyBoard;
use crate::text::decimal;
use crate::text::push_decimal;
use crate::text::push_text;
use vstd::prelude::*;

verus! {

/// The code that switches all paint off.
pub open spec fn reset_code() -> Seq<char> {
    "\x1B[0m"@
}

/// The code that switches to one of the 256 colours.
pub open spec fn colour_code(colour: u8) -> Seq<char> {
    "\x1B[38;5;"@ + decimal(colour as nat) + "m"@
}

/// The code that switches to bold type in one of the 256 colours.
pub open spec fn bold_colour_code(colour: u8) -> Seq<char> {
    "\x1B[1;38;5;"@ + decimal(colour as nat) + "m"@
}

/// The code that switches underlining on.
pub open spec fn underline_code() -> Seq<char> {
    "\x1B[4m"@
}

/// `Colour::Fixed(colour).paint(text)`, written out: the code of the
/// colour, the text, the code that switches all paint off.
#[verifier::external_body]
fn paint_colour(colour: u8, text: &str) -> (r: String)
    ensures
        r@ == colour_code(colour) + text@ + reset_code(),
{
    Colour::Fixed(colour).paint(text).to_string()
}

/// `Colour::Fixed(colour).bold().paint(text)`, written out: the code of
/// bold type and the colour, the text, the code that switches all paint
/// off.
#[verifier::external_body]
fn paint_bold_colour(colour: u8, text: &str) -> (r: String)
    ensures
        r@ == bold_colour_code(colour) + text@ + reset_code(),
{
    Colour::Fixed(colour).bold().paint(text).to_string()
}

/// `Style::new().underline().paint(text)`, written out: the code of
/// underlining, the text, the code that switches all paint off.
#[verifier::external_body]
fn paint_underline(text: &str) -> (r: String)
    ensures
        r@ == underline_code() + text@ + reset_code(),
{
    Style::new().underline().paint(text).to_string()
}

/// `Style::new().paint(text)`, written out: the text as it is, since the
/// plain style has no codes.
#[verifier::external_body]
fn paint_plain(text: &str) -> (r: String)
    ensures
        r@ == text@,
{
    Style::new().paint(text).to_string()
}

/// The letter of a kind of piece.
pub open spec fn piece_letter(piece: Piece) -> Seq<char> {
    match piece {
        Piece::Pawn => "P"@,
        Piece::Knight => "N"@,
        Piece::Bishop => "B"@,
        Piece::Rook => "R"@,
        Piece::Queen => "Q"@,
        Piece::King => "K"@,
    }
}

/// Text in the paint of a side: light for White, dark and bold for Black.
pub open spec fn in_colours_of(color: Color, text: Seq<char>) -> Seq<char> {
    match color {
        Color::White => colour_code(253) + text + reset_code(),
        Color::Black => bold_colour_code(240) + text + reset_code(),
    }
}

/// The name of a side.
pub open spec fn color_name(color: Color) -> Seq<char> {
    match color {
        Color::White => "White"@,
        Color::Black => "Black"@,
    }
}

/// Whether the rights of a side say that the rook that started on the
/// square has not moved.
pub open spec fn is_unmoved_rook(rights: CastleRights, color: Color, square: u8) -> bool {
    let base = color.spec_my_backrank() * 8;
    (rights.spec_has_queenside() && square == base) || (rights.spec_has_kingside() && square
        == base + 7)
}

/// Underlined text.
pub open spec fn underlined(text: Seq<char>) -> Seq<char> {
    underline_code() + text + reset_code()
}

/// What is shown of a square: the letter of the piece in the paint of its
/// side, or nothing, and a space; underlined on a square on which a rook
/// stands that can still castle.
pub open spec fn cell_text(state: BoardState, square: u8) -> Seq<char> {
    let plain = match state.pieces[square as int] {
        Some((piece, color)) => in_colours_of(color, piece_letter(piece)) + " "@,
        None => "  "@,
    };
    let first = if is_unmoved_rook(state.white_rights, Color::White, square) {
        underlined(plain)
    } else {
        plain
    };
    if is_unmoved_rook(state.black_rights, Color::Black, square) {
        underlined(first)
    } else {
        first
    }
}

/// What is shown of the first `n` squares of a rank.
pub open spec fn cells_text(state: BoardState, rank: u8, n: nat) -> Seq<char>
    decreases n,
{
    if n == 0 {
        Seq::empty()
    } else {
        cells_text(state, rank, (n - 1) as nat) + cell_text(state, (rank * 8 + n - 1) as u8)
    }
}

/// The line of a rank: its number in brown, its squares.
pub open spec fn rank_text(state: BoardState, rank: u8) -> Seq<char> {
    colour_code(94) + ("  "@ + decimal((rank + 1) as nat) + " "@) + reset_code() + cells_text(
        state,
        rank,
        8,
    ) + "\n"@
}

/// The lines of the `n` ranks that are furthest from White, the furthest
/// first.
pub open spec fn ranks_text(state: BoardState, n: nat) -> Seq<char>
    decreases n,
{
    if n == 0 {
        Seq::empty()
    } else {
        ranks_text(state, (n - 1) as nat) + rank_text(state, (8 - n) as u8)
    }
}

/// The line above the board: who is to move, or how the game ended.
pub open spec fn heading_text(state: BoardState) -> Seq<char> {
    if state.status == Status::InProgress {
        "    "@ + in_colours_of(state.side_to_move, color_name(state.side_to_move))
            + " to move\n"@
    } else {
        status_text(state.status) + "\n"@
    }
}

/// The board as it is shown: after an empty line the heading, the ranks
/// from the eighth to the first, and the letters of the files in brown. Of
/// a board that waits for the coin flip only that is said.
pub open spec fn board_text(state: BoardState) -> Seq<char> {
    if state.awaiting_bonus {
        "Board which is awaiting bonus move\n"@
    } else {
        "\n"@ + heading_text(state) + ranks_text(state, 8) + (colour_code(94)
            + "    A B C D E F G H\n"@ + reset_code())
    }
}

fn letter_of(piece: Piece) -> (r: &'static str)
    ensures
        r@ == piece_letter(piece),
{
    match piece {
        Piece::Pawn => "P",
        Piece::Knight => "N",
        Piece::Bishop => "B",
        Piece::Rook => "R",
        Piece::Queen => "Q",
        Piece::King => "K",
    }
}

fn paint_for(color: Color, text: &str) -> (r: String)
    ensures
        r@ == in_colours_of(color, text@),
{
    match color {
        Color::White => paint_colour(253, text),
        Color::Black => paint_bold_colour(240, text),
    }
}

fn unmoved_rook(rights: CastleRights, color: Color, square: u8) -> (r: bool)
    requires
        square < 64,
    ensures
        r == is_unmoved_rook(rights, color, square),
{
    let base = color.to_my_backrank() * 8;
    (rights.has_queenside() && square == base) || (rights.has_kingside() && square == base + 7)
}

fn cell_of(board: &MyBoard, square: Square) -> (r: String)
    ensures
        r@ == cell_text(board@, square.idx()),
{
    let mut cell = match board.piece_on(square) {
        Some((piece, color)) => {
            let mut painted = paint_for(color, letter_of(piece));
            push_text(&mut painted, " ");
            painted
        },
        None => {
            let mut blank = String::new();
            push_text(&mut blank, "  ");
            proof {
                assert(blank@ =~= "  "@);
            }
            blank
        },
    };
    if unmoved_rook(board.get_castle_rights(Color::White), Color::White, square.to_index()) {
        cell = paint_underline(cell.as_str());
    }
    if unmoved_rook(board.get_castle_rights(Color::Black), Color::Black, square.to_index()) {
        cell = paint_underline(cell.as_str());
    }
    cell
}

fn push_rank(text: &mut String, board: &MyBoard, rank: u8)
    requires
        rank < 8,
    ensures
        final(text)@ == old(text)@ + rank_text(board@, rank),
{
    let mut number = String::new();
    push_text(&mut number, "  ");
    push_decimal(&mut number, (rank + 1) as u128);
    push_text(&mut number, " ");
    proof {
        assert(number@ =~= "  "@ + decimal((rank + 1) as nat) + " "@);
    }
    let painted = paint_colour(94, number.as_str());
    push_text(text, painted.as_str());
    let ghost start = text@;
    let mut file: u8 = 0;
    while file < 8
        invariant
            file <= 8,
            rank < 8,
            text@ == start + cells_text(board@, rank, file as nat),
        decreases 8 - file,
    {
        let cell = cell_of(board, Square::from_index(rank * 8 + file));
        push_text(text, cell.as_str());
        file += 1;
        proof {
            assert(text@ =~= start + cells_text(board@, rank, file as nat));
        }
    }
    push_text(text, "\n");
    proof {
        assert(final(text)@ =~= old(text)@ + rank_text(board@, rank));
    }
}

fn push_heading(text: &mut String, board: &MyBoard)
    ensures
        final(text)@ == old(text)@ + heading_text(board@),
{
    if board.get_status().is_in_progress() {
        let side = board.get_side_to_move();
        let name = match side {
            Color::White => "White",
            Color::Black => "Black",
        };
        let painted = paint_for(side, name);
        push_text(text, "    ");
        push_text(text, painted.as_str());
        push_text(text, " to move\n");
        proof {
            assert(final(text)@ =~= old(text)@ + heading_text(board@));
        }
    } else {
        push_text(text, status_words(board.get_status()));
        push_text(text, "\n");
        proof {
            assert(final(text)@ =~= old(text)@ + heading_text(board@));
        }
    }
}

impl MyBoard {
    /// The board as text for a terminal: see `board_text`.
    pub fn to_text(&self) -> (text: String)
        ensures
            text@ == board_text(self@),
    {
        let mut text = String::new();
        if self.is_awaiting_bonus() {
            push_text(&mut text, "Board which is awaiting bonus move\n");
            proof {
                assert(text@ =~= "Board which is awaiting bonus move\n"@);
            }
            return text;
        }
        push_text(&mut text, "\n");
        push_heading(&mut text, self);
        let ghost start = text@;
        let mut n: u8 = 0;
        while n < 8
            invariant
                n <= 8,
                text@ == start + ranks_text(self@, n as nat),
            decreases 8 - n,
        {
            push_rank(&mut text, self, 7 - n);
            n += 1;
            proof {
                assert(text@ =~= start + ranks_text(self@, n as nat));
            }
        }
        let files = paint_colour(94, "    A B C D E F G H\n");
        push_text(&mut text, files.as_str());
        let shown = paint_plain(text.as_str());
        proof {
            assert(shown@ =~= board_text(self@));
        }
        shown
    }
}

} // verus!
