//! The transposition table: what earlier searches found out about
//! positions, kept by the hash of the position.
//!
//! The table has a fixed number of slots. A position belongs in the slot
//! given by its hash, and pushes out what was there unless that is a better
//! record of the same position. Two positions with the same hash are taken
//! for one.

use crate::my_board::MyBoard;
use crate::text::decimal;
use crate::text::percent;
use crate::text::percent_of;
use crate::text::push_decimal;
use crate::text::push_text;
use vstd::prelude::*;

verus! {

/// The number of slots.
pub const TABLE_SIZE: usize = 0x100_0000;

/// Under what conditions a score was found.
#[derive(Clone, Copy, Debug, PartialEq, Eq, Structural)]
pub struct Parameters {
    /// The depth to which the position was searched.
    pub depth: u8,
    /// The moves without capture or pawn move that led to the position.
    pub dead_moves: u8,
}

/// The key of a position: its hash.
#[derive(Clone, Copy, Debug, PartialEq, Eq, Structural)]
pub struct Position {
    pub zobrist_hash: u64,
}

/// A record of the table.
#[derive(Clone, Copy)]
pub struct Evaluation<S> {
    pub position: Position,
    pub parameters: Parameters,
    pub score: S,
}

/// Counters that tell how the table is doing. They stop at the largest
/// number that they can hold.
#[derive(Clone, Copy, Debug, PartialEq, Eq, Structural)]
pub struct TableCounters {
    /// Records written into an empty slot since the table was made.
    pub items: usize,
    pub insert_attempts: u64,
    pub insert_additions: u64,
    pub insert_ignores: u64,
    pub insert_overwrites: u64,
    pub get_attempts: u64,
    pub get_blanks: u64,
    pub get_hits: u64,
    pub get_incorrects: u64,
}

pub struct PositionTable<S: Copy> {
    table: Vec<Option<Evaluation<S>>>,
    counters: TableCounters,
}

/// One more, unless the counter is full.
pub open spec fn bumped(counter: u64) -> u64 {
    if counter < u64::MAX {
        (counter + 1) as u64
    } else {
        counter
    }
}

/// One more, unless the counter is full.
pub open spec fn bumped_size(counter: usize) -> usize {
    if counter < usize::MAX {
        (counter + 1) as usize
    } else {
        counter
    }
}

fn bump(counter: u64) -> (r: u64)
    ensures
        r == bumped(counter),
{
    if counter < u64::MAX {
        counter + 1
    } else {
        counter
    }
}

fn bump_size(counter: usize) -> (r: usize)
    ensures
        r == bumped_size(counter),
{
    if counter < usize::MAX {
        counter + 1
    } else {
        counter
    }
}

impl Parameters {
    /// Whether the search that found the score reached the point at which
    /// the count of moves without capture or pawn move ends the game:
    /// `50 - dead_moves <= depth`.
    pub open spec fn spec_saw_50_move_rule(&self) -> bool {
        50 - self.dead_moves <= self.depth
    }

    /// Whether a record under `self` should replace one of the same
    /// position under `other`.
    pub open spec fn spec_should_replace(&self, other: &Parameters) -> bool {
        self.depth >= other.depth || (self.dead_moves != other.dead_moves && (
        self.spec_saw_50_move_rule() || other.spec_saw_50_move_rule()))
    }

    /// Whether a record under `self` can be trusted by a search under
    /// `other`.
    pub open spec fn spec_better_than(&self, other: &Parameters) -> bool {
        self.depth >= other.depth && (self.dead_moves == other.dead_moves || (
        !self.spec_saw_50_move_rule() && !other.spec_saw_50_move_rule()))
    }

    #[verifier::when_used_as_spec(spec_saw_50_move_rule)]
    pub fn saw_50_move_rule(&self) -> (r: bool)
        ensures
            r == self.spec_saw_50_move_rule(),
    {
        self.dead_moves >= 50 || 50 - self.dead_moves <= self.depth
    }

    #[verifier::when_used_as_spec(spec_should_replace)]
    pub fn should_replace(&self, other: &Parameters) -> (r: bool)
        ensures
            r == self.spec_should_replace(other),
    {
        self.depth >= other.depth || (self.dead_moves != other.dead_moves && (
        self.saw_50_move_rule() || other.saw_50_move_rule()))
    }

    #[verifier::when_used_as_spec(spec_better_than)]
    pub fn better_than(&self, other: &Parameters) -> (r: bool)
        ensures
            r == self.spec_better_than(other),
    {
        self.depth >= other.depth && (self.dead_moves == other.dead_moves || (
        !self.saw_50_move_rule() && !other.saw_50_move_rule()))
    }
}

impl Position {
    /// The key of the position on a board.
    pub open spec fn of(board: &MyBoard) -> Position {
        Position { zobrist_hash: board@.hash() }
    }

    /// The key of the same position with the other side to move.
    pub open spec fn spec_switched(self) -> Position {
        Position { zobrist_hash: self.zobrist_hash ^ crate::zobrist::Zobrist::spec_color() }
    }

    /// The slot in which the position belongs.
    pub open spec fn spec_as_index(&self) -> usize {
        (self.zobrist_hash % (TABLE_SIZE as u64)) as usize
    }

    pub fn from_board(board: &MyBoard) -> (r: Position)
        requires
            board.wf(),
        ensures
            r == Position::of(board),
    {
        Position { zobrist_hash: board.get_zobrist_hash() }
    }

    pub fn switch_side_to_move(&mut self)
        ensures
            *final(self) == old(self).spec_switched(),
    {
        self.zobrist_hash = self.zobrist_hash ^ crate::zobrist::Zobrist::color();
    }

    #[verifier::when_used_as_spec(spec_as_index)]
    pub fn as_index(&self) -> (r: usize)
        ensures
            r == self.spec_as_index(),
            r < TABLE_SIZE,
    {
        (self.zobrist_hash % (TABLE_SIZE as u64)) as usize
    }
}

/// The parameters of a search of a board to a depth.
pub open spec fn parameters_of(board: &MyBoard, depth: u8) -> Parameters {
    Parameters { depth, dead_moves: board@.dead_moves }
}

/// Whether a slot takes a new record: it is empty, holds another position,
/// or holds a record that the new one should replace.
pub open spec fn accepts<S>(slot: Option<Evaluation<S>>, position: Position, params: Parameters) -> bool {
    match slot {
        None => true,
        Some(evaluation) => evaluation.position != position || params.spec_should_replace(
            &evaluation.parameters,
        ),
    }
}

/// The slots after a record was offered.
pub open spec fn inserted<S>(
    slots: Seq<Option<Evaluation<S>>>,
    position: Position,
    params: Parameters,
    score: S,
) -> Seq<Option<Evaluation<S>>> {
    let index = position.spec_as_index() as int;
    if accepts(slots[index], position, params) {
        slots.update(index, Some(Evaluation { position, parameters: params, score }))
    } else {
        slots
    }
}

/// What the table answers to a search under `params`: the score of a
/// record of the position that the search can trust.
pub open spec fn looked_up<S>(
    slots: Seq<Option<Evaluation<S>>>,
    position: Position,
    params: Parameters,
) -> Option<S> {
    match slots[position.spec_as_index() as int] {
        Some(evaluation) => if evaluation.position == position
            && evaluation.parameters.spec_better_than(&params) {
            Some(evaluation.score)
        } else {
            None
        },
        None => None,
    }
}

/// What the table answers when any record of the position will do.
pub open spec fn looked_up_leniently<S>(
    slots: Seq<Option<Evaluation<S>>>,
    position: Position,
) -> Option<S> {
    match slots[position.spec_as_index() as int] {
        Some(evaluation) => if evaluation.position == position {
            Some(evaluation.score)
        } else {
            None
        },
        None => None,
    }
}

/// The counters after a record was offered to a slot.
pub open spec fn counted_insert<S>(
    counters: TableCounters,
    slot: Option<Evaluation<S>>,
    position: Position,
    params: Parameters,
) -> TableCounters {
    let attempted = TableCounters {
        insert_attempts: bumped(counters.insert_attempts),
        ..counters
    };
    if slot is None {
        TableCounters {
            insert_additions: bumped(counters.insert_additions),
            items: bumped_size(counters.items),
            ..attempted
        }
    } else if accepts(slot, position, params) {
        TableCounters { insert_overwrites: bumped(counters.insert_overwrites), ..attempted }
    } else {
        TableCounters { insert_ignores: bumped(counters.insert_ignores), ..attempted }
    }
}

/// The counters after a search asked for a position.
pub open spec fn counted_get<S>(
    counters: TableCounters,
    slot: Option<Evaluation<S>>,
    position: Position,
    params: Parameters,
) -> TableCounters {
    let attempted = TableCounters { get_attempts: bumped(counters.get_attempts), ..counters };
    match slot {
        Some(evaluation) => if evaluation.position != position {
            TableCounters { get_incorrects: bumped(counters.get_incorrects), ..attempted }
        } else if evaluation.parameters.spec_better_than(&params) {
            TableCounters { get_hits: bumped(counters.get_hits), ..attempted }
        } else {
            TableCounters { get_blanks: bumped(counters.get_blanks), ..attempted }
        },
        None => TableCounters { get_blanks: bumped(counters.get_blanks), ..attempted },
    }
}

/// The counters with all but `items` back at zero.
pub open spec fn counters_reset(counters: TableCounters) -> TableCounters {
    TableCounters {
        items: counters.items,
        insert_attempts: 0,
        insert_additions: 0,
        insert_ignores: 0,
        insert_overwrites: 0,
        get_attempts: 0,
        get_blanks: 0,
        get_hits: 0,
        get_incorrects: 0,
    }
}

/// A line of the report on a table: a label, a count and the share of a
/// whole that it makes.
pub open spec fn share_line(label: Seq<char>, count: u64, whole: u64) -> Seq<char> {
    label + decimal(count as nat) + " ("@ + decimal(percent(count as nat, whole as nat)) + "%)\n"@
}

/// What the counters of a table say of how full it is.
pub open spec fn fill_text(counters: TableCounters) -> Seq<char> {
    "Position table with "@ + decimal(counters.items as nat) + "/"@ + decimal(TABLE_SIZE as nat)
        + " entries ("@ + decimal(percent(counters.items as nat, TABLE_SIZE as nat))
        + "% full):\n"@
}

/// What the counters of a table say of the records that were offered.
pub open spec fn inserts_text(counters: TableCounters) -> Seq<char> {
    "\tTotal insert attempts: "@ + decimal(counters.insert_attempts as nat) + "\n"@ + share_line(
        "\t\tAdditions: "@,
        counters.insert_additions,
        counters.insert_attempts,
    ) + share_line("\t\tOverwrites: "@, counters.insert_overwrites, counters.insert_attempts)
        + share_line("\t\tIgnores: "@, counters.insert_ignores, counters.insert_attempts)
}

/// What the counters of a table say of the records that were asked for.
pub open spec fn gets_text(counters: TableCounters) -> Seq<char> {
    "\tTotal get attempts: "@ + decimal(counters.get_attempts as nat) + "\n"@ + share_line(
        "\t\tHits: "@,
        counters.get_hits,
        counters.get_attempts,
    ) + share_line("\t\tBlanks: "@, counters.get_blanks, counters.get_attempts) + share_line(
        "\t\tIncorrects: "@,
        counters.get_incorrects,
        counters.get_attempts,
    )
}

/// What the counters of a table say.
pub open spec fn info_text(counters: TableCounters) -> Seq<char> {
    fill_text(counters) + inserts_text(counters) + gets_text(counters)
}

fn push_share_line(text: &mut String, label: &str, count: u64, whole: u64)
    ensures
        final(text)@ == old(text)@ + share_line(label@, count, whole),
{
    push_text(text, label);
    push_decimal(text, count as u128);
    push_text(text, " (");
    push_decimal(text, percent_of(count, whole));
    push_text(text, "%)\n");
    proof {
        assert(final(text)@ =~= old(text)@ + share_line(label@, count, whole));
    }
}

fn push_fill(text: &mut String, c: TableCounters)
    ensures
        final(text)@ == old(text)@ + fill_text(c),
{
    push_text(text, "Position table with ");
    push_decimal(text, c.items as u128);
    push_text(text, "/");
    push_decimal(text, TABLE_SIZE as u128);
    push_text(text, " entries (");
    push_decimal(text, percent_of(c.items as u64, TABLE_SIZE as u64));
    push_text(text, "% full):\n");
    proof {
        assert(final(text)@ =~= old(text)@ + fill_text(c));
    }
}

fn push_inserts(text: &mut String, c: TableCounters)
    ensures
        final(text)@ == old(text)@ + inserts_text(c),
{
    push_text(text, "\tTotal insert attempts: ");
    push_decimal(text, c.insert_attempts as u128);
    push_text(text, "\n");
    push_share_line(text, "\t\tAdditions: ", c.insert_additions, c.insert_attempts);
    push_share_line(text, "\t\tOverwrites: ", c.insert_overwrites, c.insert_attempts);
    push_share_line(text, "\t\tIgnores: ", c.insert_ignores, c.insert_attempts);
    proof {
        assert(final(text)@ =~= old(text)@ + inserts_text(c));
    }
}

fn push_gets(text: &mut String, c: TableCounters)
    ensures
        final(text)@ == old(text)@ + gets_text(c),
{
    push_text(text, "\tTotal get attempts: ");
    push_decimal(text, c.get_attempts as u128);
    push_text(text, "\n");
    push_share_line(text, "\t\tHits: ", c.get_hits, c.get_attempts);
    push_share_line(text, "\t\tBlanks: ", c.get_blanks, c.get_attempts);
    push_share_line(text, "\t\tIncorrects: ", c.get_incorrects, c.get_attempts);
    proof {
        assert(final(text)@ =~= old(text)@ + gets_text(c));
    }
}

impl<S: Copy> View for PositionTable<S> {
    type V = Seq<Option<Evaluation<S>>>;

    closed spec fn view(&self) -> Seq<Option<Evaluation<S>>> {
        self.table@
    }
}

impl<S: Copy> PositionTable<S> {
    /// Whether the table has all its slots.
    pub closed spec fn wf(&self) -> bool {
        self.table@.len() == TABLE_SIZE
    }

    /// The counters of the table.
    pub closed spec fn counters(&self) -> TableCounters {
        self.counters
    }

    /// A well-formed table has `TABLE_SIZE` slots.
    pub proof fn lemma_wf(&self)
        requires
            self.wf(),
        ensures
            self@.len() == TABLE_SIZE,
    {
    }

    /// A table with every slot empty and every counter at zero.
    pub fn new() -> (table: PositionTable<S>)
        ensures
            table.wf(),
            forall|i: int| 0 <= i < TABLE_SIZE ==> table@[i] is None,
            table.counters() == counters_reset(table.counters()),
            table.counters().items == 0,
    {
        let table: Vec<Option<Evaluation<S>>> = vec![None; TABLE_SIZE];
        PositionTable {
            table,
            counters: TableCounters {
                items: 0,
                insert_attempts: 0,
                insert_additions: 0,
                insert_ignores: 0,
                insert_overwrites: 0,
                get_attempts: 0,
                get_blanks: 0,
                get_hits: 0,
                get_incorrects: 0,
            },
        }
    }

    /// Offers the table the score of a board searched to a depth.
    pub fn insert(&mut self, board: &MyBoard, depth: u8, score: S)
        requires
            old(self).wf(),
            board.wf(),
        ensures
            final(self).wf(),
            final(self)@ == inserted(
                old(self)@,
                Position::of(board),
                parameters_of(board, depth),
                score,
            ),
            final(self).counters() == counted_insert(
                old(self).counters(),
                old(self)@[Position::of(board).spec_as_index() as int],
                Position::of(board),
                parameters_of(board, depth),
            ),
    {
        let new_params = Parameters { depth, dead_moves: board.get_dead_moves() };
        let position = Position::from_board(board);
        self.insert_position(position, new_params, score);
    }

    /// Offers the table the score of a board searched to a depth, for
    /// either side to move: of use where the side to move does not enter
    /// into the score.
    pub fn insert_both_colors(&mut self, board: &MyBoard, depth: u8, score: S)
        requires
            old(self).wf(),
            board.wf(),
        ensures
            final(self).wf(),
            final(self)@ == inserted(
                inserted(old(self)@, Position::of(board), parameters_of(board, depth), score),
                Position::of(board).spec_switched(),
                parameters_of(board, depth),
                score,
            ),
            final(self).counters() == counted_insert(
                counted_insert(
                    old(self).counters(),
                    old(self)@[Position::of(board).spec_as_index() as int],
                    Position::of(board),
                    parameters_of(board, depth),
                ),
                inserted(old(self)@, Position::of(board), parameters_of(board, depth), score)[Position::of(
                    board,
                ).spec_switched().spec_as_index() as int],
                Position::of(board).spec_switched(),
                parameters_of(board, depth),
            ),
    {
        let new_params = Parameters { depth, dead_moves: board.get_dead_moves() };
        let mut position = Position::from_board(board);
        self.insert_position(position, new_params, score);
        position.switch_side_to_move();
        self.insert_position(position, new_params, score);
    }

    /// Offers the table a record.
    pub fn insert_position(&mut self, position: Position, params: Parameters, score: S)
        requires
            old(self).wf(),
        ensures
            final(self).wf(),
            final(self)@ == inserted(old(self)@, position, params, score),
            final(self).counters() == counted_insert(
                old(self).counters(),
                old(self)@[position.spec_as_index() as int],
                position,
                params,
            ),
    {
        let index = position.as_index();
        self.counters.insert_attempts = bump(self.counters.insert_attempts);
        let write = match self.table[index] {
            None => {
                self.counters.insert_additions = bump(self.counters.insert_additions);
                self.counters.items = bump_size(self.counters.items);
                true
            },
            Some(evaluation) => {
                if evaluation.position == position && !params.should_replace(
                    &evaluation.parameters,
                ) {
                    self.counters.insert_ignores = bump(self.counters.insert_ignores);
                    false
                } else {
                    self.counters.insert_overwrites = bump(self.counters.insert_overwrites);
                    true
                }
            },
        };
        if write {
            self.table[index] = Some(Evaluation { position, parameters: params, score });
        }
    }

    /// The score of a board, if the table holds one that a search to the
    /// depth can trust.
    pub fn get(&mut self, board: &MyBoard, depth: u8) -> (found: Option<S>)
        requires
            old(self).wf(),
            board.wf(),
        ensures
            final(self).wf(),
            final(self)@ == old(self)@,
            found == looked_up(old(self)@, Position::of(board), parameters_of(board, depth)),
            final(self).counters() == counted_get(
                old(self).counters(),
                old(self)@[Position::of(board).spec_as_index() as int],
                Position::of(board),
                parameters_of(board, depth),
            ),
    {
        self.counters.get_attempts = bump(self.counters.get_attempts);
        let params = Parameters { depth, dead_moves: board.get_dead_moves() };
        let pos = Position::from_board(board);
        match self.table[pos.as_index()] {
            Some(evaluation) => {
                if evaluation.position != pos {
                    // Another position has the slot.
                    self.counters.get_incorrects = bump(self.counters.get_incorrects);
                    None
                } else if evaluation.parameters.better_than(&params) {
                    self.counters.get_hits = bump(self.counters.get_hits);
                    Some(evaluation.score)
                } else {
                    self.counters.get_blanks = bump(self.counters.get_blanks);
                    None
                }
            },
            None => {
                self.counters.get_blanks = bump(self.counters.get_blanks);
                None
            },
        }
    }

    /// The score of a board, if the table holds any: to whatever depth and
    /// after however many moves without capture or pawn move it was found.
    /// Good enough to put moves in order. The counters stay as they are.
    pub fn get_lenient(&self, board: &MyBoard) -> (found: Option<S>)
        requires
            self.wf(),
            board.wf(),
        ensures
            found == looked_up_leniently(self@, Position::of(board)),
    {
        let pos = Position::from_board(board);
        match self.table[pos.as_index()] {
            Some(evaluation) => if evaluation.position == pos {
                Some(evaluation.score)
            } else {
                None
            },
            None => None,
        }
    }

    /// The counters of the table.
    pub fn get_counters(&self) -> (r: TableCounters)
        ensures
            r == self.counters(),
    {
        self.counters
    }

    /// What the counters say, in words.
    pub fn info(&self) -> (text: String)
        ensures
            text@ == info_text(self.counters()),
    {
        let mut text = String::new();
        push_fill(&mut text, self.counters);
        push_inserts(&mut text, self.counters);
        push_gets(&mut text, self.counters);
        proof {
            assert(text@ =~= info_text(self.counters()));
        }
        text
    }

    /// Sets all counters but `items` back to zero.
    pub fn reset_debug_info(&mut self)
        ensures
            final(self)@ == old(self)@,
            final(self).wf() == old(self).wf(),
            final(self).counters() == counters_reset(old(self).counters()),
    {
        self.counters.insert_attempts = 0;
        self.counters.insert_additions = 0;
        self.counters.insert_ignores = 0;
        self.counters.insert_overwrites = 0;
        self.counters.get_attempts = 0;
        self.counters.get_hits = 0;
        self.counters.get_blanks = 0;
        self.counters.get_incorrects = 0;
    }
}

/// A record that the table took is found again by every search that can
/// trust it, and by no other: by a search to `depth` after `dead_moves`
/// moves without capture or pawn move exactly if the record was made at
/// that depth or deeper, and either after as many such moves or with both
/// searches short of the fiftieth. A lenient search finds it in any case.
pub proof fn lemma_insert_then_get<S>(
    slots: Seq<Option<Evaluation<S>>>,
    position: Position,
    stored: Parameters,
    score: S,
    asked: Parameters,
)
    requires
        slots.len() == TABLE_SIZE,
        accepts(slots[position.spec_as_index() as int], position, stored),
    ensures
        looked_up(inserted(slots, position, stored, score), position, asked) == if asked.depth
            <= stored.depth && (asked.dead_moves == stored.dead_moves || (
        !stored.spec_saw_50_move_rule() && !asked.spec_saw_50_move_rule())) {
            Some(score)
        } else {
            None
        },
        looked_up_leniently(inserted(slots, position, stored, score), position) == Some(score),
{
}

/// A record that the table did not take leaves the table as it was.
pub proof fn lemma_insert_ignored<S>(
    slots: Seq<Option<Evaluation<S>>>,
    position: Position,
    stored: Parameters,
    score: S,
)
    requires
        !accepts(slots[position.spec_as_index() as int], position, stored),
    ensures
        inserted(slots, position, stored, score) == slots,
{
}

/// Offering a record changes no slot but the one in which the position
/// belongs.
pub proof fn lemma_insert_elsewhere<S>(
    slots: Seq<Option<Evaluation<S>>>,
    position: Position,
    stored: Parameters,
    score: S,
    other: int,
)
    requires
        slots.len() == TABLE_SIZE,
        0 <= other < slots.len(),
        other != position.spec_as_index(),
    ensures
        inserted(slots, position, stored, score)[other] == slots[other],
        inserted(slots, position, stored, score).len() == slots.len(),
{
}

} // verus!
