//! A game between the engine and a player at a terminal, as far as it can
//! be told without a terminal: what is due next, what a line that the
//! player typed means, and what is said of a move and of the outcome.
//!
//! A move is typed as five numbers with single spaces between them: the
//! file and the rank of the square that the piece leaves, the file and the
//! rank of the square that it goes to, all counted from 0, and what a pawn
//! becomes: 0 for nothing, 1 for a knight, 2 for a bishop, 3 for a rook, 4
//! for a queen.

use crate::board_model::BoardState;
use crate::board_model::Status;
use crate::chess_types::ChessMove;
use crate::chess_types::Color;
use crate::chess_types::Piece;
use crate::chess_types::Square;
use crate::my_board::has_move;
use crate::my_board::MyBoard;
use crate::text::push_text;
use vstd::prelude::*;
use vstd::string::StrSliceExecFns;

verus! {

/// Whether a character is white space, as `char::is_whitespace` has it.
pub open spec fn is_space(c: char) -> bool {
    let code = c as u32;
    ||| 0x09 <= code <= 0x0d
    ||| code == 0x20
    ||| code == 0x85
    ||| code == 0xa0
    ||| code == 0x1680
    ||| 0x2000 <= code <= 0x200a
    ||| code == 0x2028
    ||| code == 0x2029
    ||| code == 0x202f
    ||| code == 0x205f
    ||| code == 0x3000
}

/// A text without the white space at its start.
pub open spec fn trimmed_start(text: Seq<char>) -> Seq<char>
    decreases text.len(),
{
    if text.len() > 0 && is_space(text.first()) {
        trimmed_start(text.drop_first())
    } else {
        text
    }
}

/// A text without the white space at its end.
pub open spec fn trimmed_end(text: Seq<char>) -> Seq<char>
    decreases text.len(),
{
    if text.len() > 0 && is_space(text.last()) {
        trimmed_end(text.drop_last())
    } else {
        text
    }
}

/// A text without the white space at its start and its end.
pub open spec fn trimmed(text: Seq<char>) -> Seq<char> {
    trimmed_end(trimmed_start(text))
}

/// The pieces into which the spaces cut a text. There is one more piece
/// than there are spaces; a piece can be empty.
pub open spec fn fields(text: Seq<char>) -> Seq<Seq<char>>
    decreases text.len(),
{
    if text.len() == 0 {
        seq![Seq::empty()]
    } else {
        let before = fields(text.drop_last());
        if text.last() == ' ' {
            before.push(Seq::empty())
        } else {
            before.drop_last().push(before.last().push(text.last()))
        }
    }
}

/// Whether a character is a decimal digit.
pub open spec fn is_digit(c: char) -> bool {
    '0' <= c <= '9'
}

/// The number that a sequence of digits stands for.
pub open spec fn digits_value(digits: Seq<char>) -> nat
    decreases digits.len(),
{
    if digits.len() == 0 {
        0
    } else {
        digits_value(digits.drop_last()) * 10 + (digits.last() as u32 - '0' as u32) as nat
    }
}

/// The digits of a number as it is typed: the text without a plus sign at
/// its start.
pub open spec fn unsigned(token: Seq<char>) -> Seq<char> {
    if token.len() > 0 && token.first() == '+' {
        token.drop_first()
    } else {
        token
    }
}

/// The number below 8 that a piece of text stands for: one or more digits,
/// with or without a plus sign before them.
pub open spec fn small_number(token: Seq<char>) -> Option<u8> {
    let digits = unsigned(token);
    if digits.len() > 0 && (forall|i: int| 0 <= i < digits.len() ==> is_digit(#[trigger] digits[i]))
        && digits_value(digits) < 8 {
        Some(digits_value(digits) as u8)
    } else {
        None
    }
}

/// The piece that a number stands for in a move as it is typed.
pub open spec fn promotion_of(code: u8) -> Option<Piece> {
    if code == 1 {
        Some(Piece::Knight)
    } else if code == 2 {
        Some(Piece::Bishop)
    } else if code == 3 {
        Some(Piece::Rook)
    } else if code == 4 {
        Some(Piece::Queen)
    } else {
        None
    }
}

/// The move that five numbers stand for.
pub open spec fn move_of_numbers(n: Seq<u8>) -> ChessMove {
    ChessMove {
        source: Square::at((n[1] * 8 + n[0]) as u8),
        dest: Square::at((n[3] * 8 + n[2]) as u8),
        promotion: promotion_of(n[4]),
    }
}

/// The move that a line stands for: the line, without the white space
/// around it, is cut by spaces into five numbers below 8, of which the last
/// is at most 4.
pub open spec fn parsed_move(line: Seq<char>) -> Option<ChessMove> {
    let pieces = fields(trimmed(line));
    if pieces.len() == 5 && (forall|i: int|
        0 <= i < 5 ==> small_number(#[trigger] pieces[i]) is Some) && small_number(
        pieces[4],
    )->Some_0 <= 4 {
        Some(move_of_numbers(Seq::new(5, |i: int| small_number(pieces[i])->Some_0)))
    } else {
        None
    }
}

/// What a line says of the coin: `bonus` or `no_bonus`, with or without
/// white space around it.
pub open spec fn parsed_bonus(line: Seq<char>) -> Option<bool> {
    if trimmed(line) == seq!['b', 'o', 'n', 'u', 's'] {
        Some(true)
    } else if trimmed(line) == seq!['n', 'o', '_', 'b', 'o', 'n', 'u', 's'] {
        Some(false)
    } else {
        None
    }
}

fn space(c: char) -> (r: bool)
    ensures
        r == is_space(c),
{
    let code = c as u32;
    (0x09 <= code && code <= 0x0d) || code == 0x20 || code == 0x85 || code == 0xa0 || code
        == 0x1680 || (0x2000 <= code && code <= 0x200a) || code == 0x2028 || code == 0x2029
        || code == 0x202f || code == 0x205f || code == 0x3000
}

/// The characters of a text.
fn characters(text: &str) -> (r: Vec<char>)
    ensures
        r@ == text@,
{
    let n = text.unicode_len();
    let mut chars: Vec<char> = Vec::new();
    let mut i: usize = 0;
    while i < n
        invariant
            i <= n,
            n == text@.len(),
            chars@ == text@.subrange(0, i as int),
        decreases n - i,
    {
        chars.push(text.get_char(i));
        proof {
            assert(chars@ =~= text@.subrange(0, i + 1));
        }
        i += 1;
    }
    proof {
        assert(text@.subrange(0, n as int) =~= text@);
    }
    chars
}

/// The characters of a text without the white space around it.
fn trim(chars: &Vec<char>) -> (r: Vec<char>)
    ensures
        r@ == trimmed(chars@),
{
    let mut start: usize = 0;
    proof {
        assert(chars@.skip(0) =~= chars@);
    }
    while start < chars.len() && space(chars[start])
        invariant
            start <= chars.len(),
            trimmed_start(chars@) == trimmed_start(chars@.skip(start as int)),
        decreases chars.len() - start,
    {
        proof {
            assert(chars@.skip(start as int).drop_first() =~= chars@.skip(start + 1));
        }
        start += 1;
    }
    let ghost rest = chars@.skip(start as int);
    proof {
        assert(chars@.skip(0) =~= chars@);
        assert(trimmed_start(chars@) == rest);
    }
    let mut end: usize = chars.len();
    while end > start && space(chars[end - 1])
        invariant
            start <= end <= chars.len(),
            rest == chars@.skip(start as int),
            trimmed_end(rest) == trimmed_end(chars@.subrange(start as int, end as int)),
        decreases end - start,
    {
        proof {
            assert(chars@.subrange(start as int, end as int).drop_last() =~= chars@.subrange(
                start as int,
                end - 1,
            ));
        }
        end -= 1;
    }
    proof {
        assert(chars@.subrange(start as int, chars@.len() as int) =~= rest);
    }
    let mut out: Vec<char> = Vec::new();
    let mut i: usize = start;
    while i < end
        invariant
            start <= i <= end <= chars.len(),
            out@ == chars@.subrange(start as int, i as int),
        decreases end - i,
    {
        out.push(chars[i]);
        proof {
            assert(out@ =~= chars@.subrange(start as int, i + 1));
        }
        i += 1;
    }
    out
}

/// All digits of a number are digits of a longer one, which is no less.
proof fn lemma_value_grows(digits: Seq<char>, k: int)
    requires
        0 <= k <= digits.len(),
    ensures
        digits_value(digits.subrange(0, k)) <= digits_value(digits),
    decreases digits.len() - k,
{
    if k < digits.len() {
        lemma_value_grows(digits.drop_last(), k);
        assert(digits.drop_last().subrange(0, k) =~= digits.subrange(0, k));
    } else {
        assert(digits.subrange(0, k) =~= digits);
    }
}

/// Reads a number below 8 from the characters of a line between two
/// places.
fn read_small_number(chars: &Vec<char>, from: usize, to: usize) -> (r: Option<u8>)
    requires
        from <= to <= chars.len(),
    ensures
        r == small_number(chars@.subrange(from as int, to as int)),
{
    let ghost token = chars@.subrange(from as int, to as int);
    let first = if from < to && chars[from] == '+' {
        from + 1
    } else {
        from
    };
    let ghost digits = chars@.subrange(first as int, to as int);
    proof {
        assert(digits =~= unsigned(token));
    }
    if first == to {
        return None;
    }
    let mut value: u8 = 0;
    let mut i: usize = first;
    while i < to
        invariant
            first <= i <= to <= chars.len(),
            from <= first,
            token == chars@.subrange(from as int, to as int),
            digits == unsigned(token),
            digits == chars@.subrange(first as int, to as int),
            forall|j: int| 0 <= j < i - first ==> is_digit(#[trigger] digits[j]),
            value == digits_value(digits.subrange(0, i - first)),
            value < 8,
        decreases to - i,
    {
        let c = chars[i];
        if !('0' <= c && c <= '9') {
            proof {
                assert(digits[i - first] == c);
            }
            return None;
        }
        let d = (c as u32 - '0' as u32) as u8;
        proof {
            let longer = digits.subrange(0, i - first + 1);
            assert(longer.drop_last() =~= digits.subrange(0, i - first));
            assert(longer.last() == c);
            assert(digits_value(longer) == value * 10 + d);
        }
        if value > 0 || d >= 8 {
            proof {
                lemma_value_grows(digits, i - first + 1);
                assert(digits_value(digits) >= 8);
            }
            return None;
        }
        value = d;
        i += 1;
    }
    proof {
        assert(digits.subrange(0, to - first) =~= digits);
    }
    Some(value)
}

/// The places of the spaces of a line, and the number of its fields.
proof fn lemma_fields_len(text: Seq<char>)
    ensures
        fields(text).len() >= 1,
    decreases text.len(),
{
    if text.len() > 0 {
        lemma_fields_len(text.drop_last());
    }
}

/// Cuts the characters of a line at its spaces.
fn split(chars: &Vec<char>) -> (r: Vec<Vec<char>>)
    ensures
        r@.len() == fields(chars@).len(),
        forall|i: int| 0 <= i < r@.len() ==> (#[trigger] r@[i])@ == fields(chars@)[i],
{
    let mut done: Vec<Vec<char>> = Vec::new();
    let mut current: Vec<char> = Vec::new();
    let mut i: usize = 0;
    while i < chars.len()
        invariant
            i <= chars.len(),
            done@.len() + 1 == fields(chars@.subrange(0, i as int)).len(),
            forall|j: int|
                0 <= j < done@.len() ==> (#[trigger] done@[j])@ == fields(
                    chars@.subrange(0, i as int),
                )[j],
            current@ == fields(chars@.subrange(0, i as int)).last(),
        decreases chars.len() - i,
    {
        proof {
            assert(chars@.subrange(0, i + 1).drop_last() =~= chars@.subrange(0, i as int));
            assert(chars@.subrange(0, i + 1).last() == chars@[i as int]);
            lemma_fields_len(chars@.subrange(0, i as int));
        }
        if chars[i] == ' ' {
            done.push(current);
            current = Vec::new();
        } else {
            current.push(chars[i]);
        }
        i += 1;
    }
    proof {
        assert(chars@.subrange(0, chars@.len() as int) =~= chars@);
    }
    done.push(current);
    done
}

/// The move that a line stands for, if it stands for one.
pub fn parse_move(line: &str) -> (r: Option<ChessMove>)
    ensures
        r == parsed_move(line@),
{
    let chars = characters(line);
    let core = trim(&chars);
    let pieces = split(&core);
    if pieces.len() != 5 {
        return None;
    }
    let mut numbers: [u8; 5] = [0;5];
    let mut i: usize = 0;
    while i < 5
        invariant
            i <= 5,
            pieces@.len() == 5,
            forall|j: int|
                0 <= j < 5 ==> (#[trigger] pieces@[j])@ == fields(trimmed(line@))[j],
            fields(trimmed(line@)).len() == 5,
            forall|j: int|
                0 <= j < i ==> small_number(#[trigger] fields(trimmed(line@))[j]) == Some(
                    numbers@[j],
                ),
        decreases 5 - i,
    {
        let token = &pieces[i];
        proof {
            assert(token@.subrange(0, token@.len() as int) =~= token@);
        }
        match read_small_number(token, 0, token.len()) {
            Some(n) => {
                numbers[i] = n;
            },
            None => {
                return None;
            },
        }
        i += 1;
    }
    if numbers[4] > 4 {
        return None;
    }
    let promotion = if numbers[4] == 1 {
        Some(Piece::Knight)
    } else if numbers[4] == 2 {
        Some(Piece::Bishop)
    } else if numbers[4] == 3 {
        Some(Piece::Rook)
    } else if numbers[4] == 4 {
        Some(Piece::Queen)
    } else {
        None
    };
    let ghost wanted = Seq::new(5, |i: int| small_number(fields(trimmed(line@))[i])->Some_0);
    proof {
        assert(wanted =~= numbers@);
    }
    Some(
        ChessMove::new(
            Square::from_index(numbers[1] * 8 + numbers[0]),
            Square::from_index(numbers[3] * 8 + numbers[2]),
            promotion,
        ),
    )
}

fn same_text(chars: &Vec<char>, word: &Vec<char>) -> (r: bool)
    ensures
        r == (chars@ == word@),
{
    if chars.len() != word.len() {
        return false;
    }
    let mut i: usize = 0;
    while i < chars.len()
        invariant
            i <= chars.len(),
            chars.len() == word.len(),
            forall|j: int| 0 <= j < i ==> chars@[j] == word@[j],
        decreases chars.len() - i,
    {
        if chars[i] != word[i] {
            return false;
        }
        i += 1;
    }
    proof {
        assert(chars@ =~= word@);
    }
    true
}

/// What a line says of the coin, if it says anything.
pub fn parse_bonus(line: &str) -> (r: Option<bool>)
    ensures
        r == parsed_bonus(line@),
{
    let chars = characters(line);
    let core = trim(&chars);
    let bonus: Vec<char> = vec!['b', 'o', 'n', 'u', 's'];
    let no_bonus: Vec<char> = vec!['n', 'o', '_', 'b', 'o', 'n', 'u', 's'];
    proof {
        assert(bonus@ =~= seq!['b', 'o', 'n', 'u', 's']);
        assert(no_bonus@ =~= seq!['n', 'o', '_', 'b', 'o', 'n', 'u', 's']);
    }
    if same_text(&core, &bonus) {
        Some(true)
    } else if same_text(&core, &no_bonus) {
        Some(false)
    } else {
        None
    }
}

/// What is due next in a game between the engine and a player.
#[derive(Clone, Copy, Debug, PartialEq, Eq, Structural)]
pub enum Step {
    /// The engine is to move.
    EngineMove,
    /// The player is to move.
    AskMove,
    /// The coin is to be flipped.
    AskBonus,
    /// The game has ended.
    Finished(Status),
}

/// What is due next: nothing once the game has ended; the coin flip after
/// a move; else the move of the side to move.
pub open spec fn step_due(state: BoardState, engine_color: Color) -> Step {
    if state.status != Status::InProgress {
        Step::Finished(state.status)
    } else if state.awaiting_bonus {
        Step::AskBonus
    } else if state.side_to_move == engine_color {
        Step::EngineMove
    } else {
        Step::AskMove
    }
}

/// Computes `step_due`.
pub fn next_step(board: &MyBoard, engine_color: Color) -> (step: Step)
    ensures
        step == step_due(board@, engine_color),
{
    let status = board.get_status();
    if !status.is_in_progress() {
        Step::Finished(status)
    } else if board.is_awaiting_bonus() {
        Step::AskBonus
    } else if board.get_side_to_move() == engine_color {
        Step::EngineMove
    } else {
        Step::AskMove
    }
}

/// What became of a line that was to be a move.
#[derive(Clone, Copy, Debug, PartialEq, Eq, Structural)]
pub enum MoveEntry {
    /// The move was made.
    Made(ChessMove),
    /// The line is no move.
    Invalid,
    /// The rules do not allow the move.
    Illegal,
}

/// Makes the move that a line stands for, if it stands for one that the
/// rules allow. Else the board stays as it is.
pub fn enter_move(board: &mut MyBoard, line: &str) -> (entry: MoveEntry)
    requires
        old(board).wf(),
    ensures
        final(board).wf(),
        parsed_move(line@) is None ==> entry == MoveEntry::Invalid,
        parsed_move(line@) matches Some(m) ==> entry == if !old(board)@.awaiting_bonus && old(
            board,
        )@.moves_from(m.source.idx()).contains(m) {
            MoveEntry::Made(m)
        } else {
            MoveEntry::Illegal
        },
        entry matches MoveEntry::Made(m) ==> final(board)@ == old(board)@.moved(m),
        !(entry is Made) ==> *final(board) == *old(board),
{
    match parse_move(line) {
        None => MoveEntry::Invalid,
        Some(m) => {
            if board.try_apply_move(m) {
                MoveEntry::Made(m)
            } else {
                MoveEntry::Illegal
            }
        },
    }
}

/// What the rules say of a piece going from one square to another:
/// `Some(false)` if that is a move, `Some(true)` if it is one once it says
/// what the pawn becomes, `None` if it is none.
pub open spec fn move_kind(state: BoardState, from: Square, to: Square) -> Option<bool> {
    let moves = state.moves_from(from.idx());
    if moves.contains(ChessMove { source: from, dest: to, promotion: None }) {
        Some(false)
    } else if moves.contains(
        ChessMove { source: from, dest: to, promotion: Some(Piece::Knight) },
    ) {
        Some(true)
    } else {
        None
    }
}

/// Computes `move_kind`.
pub fn check_move(board: &MyBoard, from: Square, to: Square) -> (r: Option<bool>)
    requires
        board.wf(),
        !board@.awaiting_bonus,
    ensures
        r == move_kind(board@, from, to),
{
    let moves = board.moves_from(from);
    if has_move(&moves, ChessMove::new(from, to, None)) {
        Some(false)
    } else if has_move(&moves, ChessMove::new(from, to, Some(Piece::Knight))) {
        Some(true)
    } else {
        None
    }
}

/// Flips the coin as a line says, if the line says how and a flip is due.
/// Else the board stays as it is.
pub fn enter_bonus(board: &mut MyBoard, line: &str) -> (flipped: bool)
    requires
        old(board).wf(),
    ensures
        final(board).wf(),
        flipped == (old(board)@.awaiting_bonus && parsed_bonus(line@) is Some),
        flipped ==> final(board)@ == old(board)@.bonus(parsed_bonus(line@)->Some_0),
        !flipped ==> *final(board) == *old(board),
{
    if !board.is_awaiting_bonus() {
        return false;
    }
    match parse_bonus(line) {
        Some(is_bonus) => {
            board.apply_bonus(is_bonus);
            true
        },
        None => false,
    }
}

/// The line that tells the outcome of a game that has ended.
pub open spec fn outcome_text(status: Status) -> Option<Seq<char>> {
    match status {
        Status::InProgress => None,
        Status::Win(Color::White) => Some("white wins"@),
        Status::Win(Color::Black) => Some("black wins"@),
        Status::Draw => Some("draw"@),
    }
}

/// Computes `outcome_text`.
pub fn outcome_line(status: Status) -> (r: Option<&'static str>)
    ensures
        r is Some == outcome_text(status) is Some,
        r matches Some(line) ==> Some(line@) == outcome_text(status),
{
    match status {
        Status::InProgress => None,
        Status::Win(Color::White) => Some("white wins"),
        Status::Win(Color::Black) => Some("black wins"),
        Status::Draw => Some("draw"),
    }
}

/// How the game stands, in words.
pub open spec fn status_text(status: Status) -> Seq<char> {
    match status {
        Status::InProgress => "In Progress"@,
        Status::Win(Color::White) => "White Wins"@,
        Status::Win(Color::Black) => "Black Wins"@,
        Status::Draw => "Draw"@,
    }
}

/// Computes `status_text`.
pub fn status_words(status: Status) -> (r: &'static str)
    ensures
        r@ == status_text(status),
{
    match status {
        Status::InProgress => "In Progress",
        Status::Win(Color::White) => "White Wins",
        Status::Win(Color::Black) => "Black Wins",
        Status::Draw => "Draw",
    }
}

/// The number of a file or rank, or of what a pawn becomes, as it is
/// typed.
pub open spec fn figure(n: u8) -> Seq<char> {
    if n == 0 {
        "0"@
    } else if n == 1 {
        "1"@
    } else if n == 2 {
        "2"@
    } else if n == 3 {
        "3"@
    } else if n == 4 {
        "4"@
    } else if n == 5 {
        "5"@
    } else if n == 6 {
        "6"@
    } else {
        "7"@
    }
}

fn figure_of(n: u8) -> (r: &'static str)
    ensures
        r@ == figure(n),
{
    if n == 0 {
        "0"
    } else if n == 1 {
        "1"
    } else if n == 2 {
        "2"
    } else if n == 3 {
        "3"
    } else if n == 4 {
        "4"
    } else if n == 5 {
        "5"
    } else if n == 6 {
        "6"
    } else {
        "7"
    }
}

/// The letter of a file.
pub open spec fn file_letter(file: u8) -> Seq<char> {
    if file == 0 {
        "a"@
    } else if file == 1 {
        "b"@
    } else if file == 2 {
        "c"@
    } else if file == 3 {
        "d"@
    } else if file == 4 {
        "e"@
    } else if file == 5 {
        "f"@
    } else if file == 6 {
        "g"@
    } else {
        "h"@
    }
}

fn letter_of(file: u8) -> (r: &'static str)
    ensures
        r@ == file_letter(file),
{
    if file == 0 {
        "a"
    } else if file == 1 {
        "b"
    } else if file == 2 {
        "c"
    } else if file == 3 {
        "d"
    } else if file == 4 {
        "e"
    } else if file == 5 {
        "f"
    } else if file == 6 {
        "g"
    } else {
        "h"
    }
}

/// The name of a square: the letter of its file and the number of its
/// rank, counted from 1.
pub open spec fn square_name(square: Square) -> Seq<char> {
    file_letter(square.spec_file()) + if square.spec_rank() < 7 {
        figure((square.spec_rank() + 1) as u8)
    } else {
        "8"@
    }
}

/// The number that stands for what a pawn becomes in a move as it is
/// typed.
pub open spec fn promotion_code(promotion: Option<Piece>) -> u8 {
    match promotion {
        Some(piece) => piece.spec_to_index() as u8,
        None => 0,
    }
}

/// A move as it is typed: five numbers with spaces between them.
pub open spec fn move_numbers(m: ChessMove) -> Seq<char> {
    figure(m.source.spec_file()) + " "@ + figure(m.source.spec_rank()) + " "@ + figure(
        m.dest.spec_file(),
    ) + " "@ + figure(m.dest.spec_rank()) + " "@ + figure(promotion_code(m.promotion))
}

/// What is said of a move of the engine: the move as it would be typed,
/// and unless `quiet` also in words.
pub open spec fn move_text(m: ChessMove, quiet: bool) -> Seq<char> {
    if quiet {
        move_numbers(m)
    } else {
        "Engine played: "@ + move_numbers(m) + " ["@ + square_name(m.source) + " -> "@
            + square_name(m.dest) + "]"@
    }
}

fn push_square_name(text: &mut String, square: Square)
    ensures
        final(text)@ == old(text)@ + square_name(square),
{
    push_text(text, letter_of(square.get_file()));
    if square.get_rank() < 7 {
        push_text(text, figure_of(square.get_rank() + 1));
    } else {
        push_text(text, "8");
    }
    proof {
        assert(final(text)@ =~= old(text)@ + square_name(square));
    }
}

fn push_move_numbers(text: &mut String, m: ChessMove)
    ensures
        final(text)@ == old(text)@ + move_numbers(m),
{
    let code: u8 = match m.get_promotion() {
        Some(piece) => piece.to_index() as u8,
        None => 0,
    };
    push_text(text, figure_of(m.get_source().get_file()));
    push_text(text, " ");
    push_text(text, figure_of(m.get_source().get_rank()));
    push_text(text, " ");
    push_text(text, figure_of(m.get_dest().get_file()));
    push_text(text, " ");
    push_text(text, figure_of(m.get_dest().get_rank()));
    push_text(text, " ");
    push_text(text, figure_of(code));
    proof {
        assert(final(text)@ =~= old(text)@ + move_numbers(m));
    }
}

/// Computes `move_text`.
pub fn move_line(m: ChessMove, quiet: bool) -> (line: String)
    ensures
        line@ == move_text(m, quiet),
{
    let mut line = String::new();
    if quiet {
        push_move_numbers(&mut line, m);
        proof {
            assert(line@ =~= move_numbers(m));
        }
    } else {
        push_text(&mut line, "Engine played: ");
        push_move_numbers(&mut line, m);
        push_text(&mut line, " [");
        push_square_name(&mut line, m.get_source());
        push_text(&mut line, " -> ");
        push_square_name(&mut line, m.get_dest());
        push_text(&mut line, "]");
        proof {
            assert(line@ =~= move_text(m, quiet));
        }
    }
    line
}

} // verus!
