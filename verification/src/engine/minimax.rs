//! The engine that goes through every line of play to a fixed depth.

use crate::board_model::BoardState;
use crate::board_model::lemma_all_moves_can_move;
use crate::board_model::Status;
use crate::BONUS_BITS;
use crate::bonus_chance;
use crate::chess_types::ChessMove;
use crate::chess_types::Color;
use crate::logger::Logger;
use crate::my_board::MyBoard;
use crate::no_bonus_chance;
use crate::score::ONE_BITS;
use crate::score::Score;
use super::alphabeta::chance::chance_value;
use super::alphabeta::chance::lemma_chance_value_in_unit;
use super::alphabeta::chance::weigh;
use super::choice_comes_to;
use super::keep_better;
use super::lemma_choice_determined;
use super::lemma_choice_goes_on;
use super::lemma_choice_made;
use super::Engine;
use super::MoveError;
use super::evaluator::answer_for;
use super::evaluator::lemma_answer_given;
use super::evaluator::lemma_answer_sound;
use super::evaluator::of_one_mind;
use super::evaluator::StaticEvaluator;
use super::next_boards;
use super::position_table::Evaluation;
use super::position_table::inserted;
use super::position_table::looked_up;
use super::position_table::Parameters;
use super::position_table::Position;
use super::position_table::PositionTable;
use super::position_table::TABLE_SIZE;
use vstd::prelude::*;

verus! {

/// Whether every score of a table lies in `[0, 1]`.
pub open spec fn scores_in_unit(slots: Seq<Option<Evaluation<Score>>>) -> bool {
    forall|i: int|
        0 <= i < slots.len() ==> ((#[trigger] slots[i]) matches Some(e) ==> e.score.in_unit())
}

/// A table of scores in `[0, 1]` stays one when it is offered such a score.
pub proof fn lemma_insert_in_unit(
    slots: Seq<Option<Evaluation<Score>>>,
    position: Position,
    params: Parameters,
    score: Score,
)
    requires
        slots.len() == TABLE_SIZE,
        scores_in_unit(slots),
        score.in_unit(),
    ensures
        scores_in_unit(inserted(slots, position, params, score)),
        inserted(slots, position, params, score).len() == TABLE_SIZE,
{
    let out = inserted(slots, position, params, score);
    assert forall|i: int| 0 <= i < out.len() implies ((#[trigger] out[i]) matches Some(e)
        ==> e.score.in_unit()) by {
        if i != position.spec_as_index() {
            assert(out[i] == slots[i]);
        }
    }
}

/// The records of a table of scores.
pub type ScoreTable = Seq<Option<Evaluation<Score>>>;

/// The state after a move and the flip of the coin, with or without a look
/// at the moves that are left.
pub open spec fn after_move_and_flip(
    state: BoardState,
    mv: ChessMove,
    checked: bool,
    is_bonus: bool,
) -> BoardState {
    if checked {
        state.moved(mv).bonus(is_bonus)
    } else {
        state.moved(mv).bonus_unchecked(is_bonus)
    }
}

/// The worth of a move whose outcomes with and without a bonus are worth
/// the two scores: their mean by the chances of a quarter and three
/// quarters.
pub open spec fn mean_of(with_bonus: Score, without_bonus: Score) -> Score {
    chance_value(
        with_bonus,
        Score { bits: BONUS_BITS },
        without_bonus,
        Score { bits: (ONE_BITS - BONUS_BITS) as u32 },
    )
}

/// The better for the mover of the best worth so far and a new one; of
/// two that are as good, the earlier.
pub open spec fn better_score(is_maxing: bool, best: Option<Score>, value: Score) -> Option<
    Score,
> {
    match best {
        None => Some(value),
        Some(so_far) => if (is_maxing && value.bits > so_far.bits) || (!is_maxing && value.bits
            < so_far.bits) {
            Some(value)
        } else {
            best
        },
    }
}

/// Whether a table has all its slots.
pub open spec fn whole(table: ScoreTable) -> bool {
    table.len() == TABLE_SIZE
}

/// Whether the two searches of a move gave scores in `[0, 1]` and left the
/// table whole.
pub open spec fn sound_results(
    with_bonus: Score,
    first: ScoreTable,
    without_bonus: Score,
    second: ScoreTable,
) -> bool {
    with_bonus.in_unit() && whole(first) && without_bonus.in_unit() && whole(second)
}

/// Whether a search of a state for `cutoff` moves, with a judge and a
/// table, can end with `score` and leave the table as `after`.
///
/// A score that the table has for the search is the score, and the table
/// stays as it is. Else, at the end of the lookahead or of the game, the
/// score is an answer of the judge, and goes into the table for either side
/// to move. Else the score is the best that the moves come to, and goes
/// into the table.
#[verifier::opaque]
pub open spec fn comes_of<E: StaticEvaluator>(
    judge: &E,
    before: ScoreTable,
    state: BoardState,
    cutoff: u8,
    score: Score,
    after: ScoreTable,
) -> bool
    decreases cutoff, 2nat, 0nat,
{
    let position = Position { zobrist_hash: state.hash() };
    let params = Parameters { depth: cutoff, dead_moves: state.dead_moves };
    match looked_up(before, position, params) {
        Some(known) => score == known && after == before,
        None => if cutoff == 0 || state.status != Status::InProgress {
            answer_for(judge, state, score) && after == inserted(
                inserted(before, position, params, score),
                position.spec_switched(),
                params,
                score,
            )
        } else {
            exists|mid: ScoreTable|
                #[trigger] whole(mid) && moves_come_to(
                    judge,
                    before,
                    state,
                    cutoff,
                    0,
                    None,
                    score,
                    mid,
                ) && after == inserted(mid, position, params, score)
        },
    }
}

/// Whether the moves of a state from the `k`-th on, searched one after the
/// other with a judge and a table, can make `score` of the best worth so
/// far and leave the table as `after`.
///
/// With no move left the best so far is the score. Else the move is made,
/// the state after a bonus is searched, then the state after none, for one
/// move less and with the table as the search before left it; the mean of
/// the two scores is the worth of the move; and the moves that follow make
/// the score of the better of the two worths. On the last level the coin
/// is flipped without a look at the moves that are left.
#[verifier::opaque]
pub open spec fn moves_come_to<E: StaticEvaluator>(
    judge: &E,
    before: ScoreTable,
    state: BoardState,
    cutoff: u8,
    k: nat,
    best: Option<Score>,
    score: Score,
    after: ScoreTable,
) -> bool
    decreases cutoff, 1nat, state.all_moves().len() - k,
{
    if k >= state.all_moves().len() {
        best == Some(score) && after == before
    } else if cutoff == 0 {
        false
    } else {
        let mv = state.all_moves()[k as int];
        exists|with_bonus: Score, first: ScoreTable, without_bonus: Score, second: ScoreTable|
            #[trigger] sound_results(with_bonus, first, without_bonus, second) && comes_of(
                judge,
                before,
                after_move_and_flip(state, mv, cutoff != 1, true),
                (cutoff - 1) as u8,
                with_bonus,
                first,
            ) && comes_of(
                judge,
                first,
                after_move_and_flip(state, mv, cutoff != 1, false),
                (cutoff - 1) as u8,
                without_bonus,
                second,
            ) && moves_come_to(
                judge,
                second,
                state,
                cutoff,
                k + 1,
                better_score(
                    state.side_to_move == Color::White,
                    best,
                    mean_of(with_bonus, without_bonus),
                ),
                score,
                after,
            )
    }
}

/// With a judge of one mind, a search has one score and leaves one table.
pub proof fn lemma_comes_of_determined<E: StaticEvaluator>(
    judge: &E,
    before: ScoreTable,
    state: BoardState,
    cutoff: u8,
    score: Score,
    after: ScoreTable,
    other_score: Score,
    other_after: ScoreTable,
)
    requires
        of_one_mind(judge),
        comes_of(judge, before, state, cutoff, score, after),
        comes_of(judge, before, state, cutoff, other_score, other_after),
    ensures
        score == other_score,
        after == other_after,
    decreases cutoff, 2nat, 0nat,
{
    reveal(comes_of);
    reveal(moves_come_to);
    let position = Position { zobrist_hash: state.hash() };
    let params = Parameters { depth: cutoff, dead_moves: state.dead_moves };
    if looked_up(before, position, params) is None && cutoff != 0 && state.status
        == Status::InProgress {
        let mid = choose|mid: ScoreTable|
            #[trigger] whole(mid) && moves_come_to(
                judge,
                before,
                state,
                cutoff,
                0,
                None,
                score,
                mid,
            ) && after == inserted(mid, position, params, score);
        let other_mid = choose|mid: ScoreTable|
            #[trigger] whole(mid) && moves_come_to(
                judge,
                before,
                state,
                cutoff,
                0,
                None,
                other_score,
                mid,
            ) && other_after == inserted(mid, position, params, other_score);
        lemma_moves_determined(
            judge,
            before,
            state,
            cutoff,
            0,
            None,
            score,
            mid,
            other_score,
            other_mid,
        );
    }
}

/// With a judge of one mind, the moves that are left make one score and
/// leave one table.
pub proof fn lemma_moves_determined<E: StaticEvaluator>(
    judge: &E,
    before: ScoreTable,
    state: BoardState,
    cutoff: u8,
    k: nat,
    best: Option<Score>,
    score: Score,
    after: ScoreTable,
    other_score: Score,
    other_after: ScoreTable,
)
    requires
        of_one_mind(judge),
        moves_come_to(judge, before, state, cutoff, k, best, score, after),
        moves_come_to(judge, before, state, cutoff, k, best, other_score, other_after),
    ensures
        score == other_score,
        after == other_after,
    decreases cutoff, 1nat, state.all_moves().len() - k,
{
    reveal(comes_of);
    reveal(moves_come_to);
    if k < state.all_moves().len() {
        let mv = state.all_moves()[k as int];
        let b_state = after_move_and_flip(state, mv, cutoff != 1, true);
        let nb_state = after_move_and_flip(state, mv, cutoff != 1, false);
        let is_maxing = state.side_to_move == Color::White;
        let (with_bonus, first, without_bonus, second) = choose|
            with_bonus: Score,
            first: ScoreTable,
            without_bonus: Score,
            second: ScoreTable,
        |
            #[trigger] sound_results(with_bonus, first, without_bonus, second) && comes_of(
                judge,
                before,
                b_state,
                (cutoff - 1) as u8,
                with_bonus,
                first,
            ) && comes_of(judge, first, nb_state, (cutoff - 1) as u8, without_bonus, second)
                && moves_come_to(
                judge,
                second,
                state,
                cutoff,
                k + 1,
                better_score(is_maxing, best, mean_of(with_bonus, without_bonus)),
                score,
                after,
            );
        let (other_with_bonus, other_first, other_without_bonus, other_second) = choose|
            with_bonus: Score,
            first: ScoreTable,
            without_bonus: Score,
            second: ScoreTable,
        |
            #[trigger] sound_results(with_bonus, first, without_bonus, second) && comes_of(
                judge,
                before,
                b_state,
                (cutoff - 1) as u8,
                with_bonus,
                first,
            ) && comes_of(judge, first, nb_state, (cutoff - 1) as u8, without_bonus, second)
                && moves_come_to(
                judge,
                second,
                state,
                cutoff,
                k + 1,
                better_score(is_maxing, best, mean_of(with_bonus, without_bonus)),
                other_score,
                other_after,
            );
        lemma_comes_of_determined(
            judge,
            before,
            b_state,
            (cutoff - 1) as u8,
            with_bonus,
            first,
            other_with_bonus,
            other_first,
        );
        lemma_comes_of_determined(
            judge,
            first,
            nb_state,
            (cutoff - 1) as u8,
            without_bonus,
            second,
            other_without_bonus,
            other_second,
        );
        lemma_moves_determined(
            judge,
            second,
            state,
            cutoff,
            k + 1,
            better_score(is_maxing, best, mean_of(with_bonus, without_bonus)),
            score,
            after,
            other_score,
            other_after,
        );
    }
}

/// What an engine that looks `lookahead` moves ahead makes of a state, with
/// a table before and after: one half of a game in progress in which the
/// side to move has no move, the table left alone; else what comes of the
/// search for one move less than the lookahead.
pub open spec fn minimax_values<E: StaticEvaluator>(judge: E, lookahead: u8) -> spec_fn(
    ScoreTable,
    BoardState,
    Score,
    ScoreTable,
) -> bool {
    |before: ScoreTable, state: BoardState, score: Score, after: ScoreTable|
        if state.status == Status::InProgress && state.all_moves().len() == 0 {
            score == Score::spec_half() && after == before
        } else {
            comes_of(&judge, before, state, (lookahead - 1) as u8, score, after)
        }
}

/// With a judge of one mind, the engine names one move only for a state
/// and a table, and leaves one table.
pub proof fn lemma_minimax_choice_determined<E: StaticEvaluator>(
    judge: E,
    lookahead: u8,
    before: ScoreTable,
    state: BoardState,
    choice: Option<(Score, ChessMove)>,
    after: ScoreTable,
    other_choice: Option<(Score, ChessMove)>,
    other_after: ScoreTable,
)
    requires
        of_one_mind(&judge),
        choice_comes_to(minimax_values(judge, lookahead), before, state, 0, None, choice, after),
        choice_comes_to(
            minimax_values(judge, lookahead),
            before,
            state,
            0,
            None,
            other_choice,
            other_after,
        ),
    ensures
        choice == other_choice,
        after == other_after,
{
    let values = minimax_values(judge, lookahead);
    assert forall|
        table: ScoreTable,
        at: BoardState,
        score: Score,
        then: ScoreTable,
        other: Score,
        other_then: ScoreTable,
    |
        #![trigger values(table, at, score, then), values(table, at, other, other_then)]
        values(table, at, score, then) && values(table, at, other, other_then) implies score
        == other && then == other_then by {
        if !(at.status == Status::InProgress && at.all_moves().len() == 0) {
            lemma_comes_of_determined(
                &judge,
                table,
                at,
                (lookahead - 1) as u8,
                score,
                then,
                other,
                other_then,
            );
        }
    }
    lemma_choice_determined(values, before, state, 0, None, choice, after, other_choice, other_after);
}

/// Whatever comes of a search with a whole table of scores in `[0, 1]`: the
/// score lies in `[0, 1]`, and the table is such a table afterwards.
pub proof fn lemma_comes_of_in_unit<E: StaticEvaluator>(
    judge: &E,
    before: ScoreTable,
    state: BoardState,
    cutoff: u8,
    score: Score,
    after: ScoreTable,
)
    requires
        whole(before),
        scores_in_unit(before),
        comes_of(judge, before, state, cutoff, score, after),
    ensures
        score.in_unit(),
        whole(after),
        scores_in_unit(after),
    decreases cutoff, 2nat, 0nat,
{
    reveal(comes_of);
    reveal(moves_come_to);
    let position = Position { zobrist_hash: state.hash() };
    let params = Parameters { depth: cutoff, dead_moves: state.dead_moves };
    if looked_up(before, position, params) is Some {
        assert(before[position.spec_as_index() as int] is Some);
    } else if cutoff == 0 || state.status != Status::InProgress {
        lemma_answer_sound(judge, state, score);
        lemma_insert_in_unit(before, position, params, score);
        lemma_insert_in_unit(
            inserted(before, position, params, score),
            position.spec_switched(),
            params,
            score,
        );
    } else {
        let mid = choose|mid: ScoreTable|
            #[trigger] whole(mid) && moves_come_to(
                judge,
                before,
                state,
                cutoff,
                0,
                None,
                score,
                mid,
            ) && after == inserted(mid, position, params, score);
        lemma_moves_in_unit(judge, before, state, cutoff, 0, None, score, mid);
        lemma_insert_in_unit(mid, position, params, score);
    }
}

/// Whatever the moves that are left make of a best worth so far in
/// `[0, 1]`, with a whole table of scores in `[0, 1]`: the score lies in
/// `[0, 1]`, and the table is such a table afterwards.
pub proof fn lemma_moves_in_unit<E: StaticEvaluator>(
    judge: &E,
    before: ScoreTable,
    state: BoardState,
    cutoff: u8,
    k: nat,
    best: Option<Score>,
    score: Score,
    after: ScoreTable,
)
    requires
        whole(before),
        scores_in_unit(before),
        best matches Some(so_far) ==> so_far.in_unit(),
        moves_come_to(judge, before, state, cutoff, k, best, score, after),
    ensures
        score.in_unit(),
        whole(after),
        scores_in_unit(after),
    decreases cutoff, 1nat, state.all_moves().len() - k,
{
    reveal(comes_of);
    reveal(moves_come_to);
    if k < state.all_moves().len() {
        let mv = state.all_moves()[k as int];
        let b_state = after_move_and_flip(state, mv, cutoff != 1, true);
        let nb_state = after_move_and_flip(state, mv, cutoff != 1, false);
        let is_maxing = state.side_to_move == Color::White;
        let (with_bonus, first, without_bonus, second) = choose|
            with_bonus: Score,
            first: ScoreTable,
            without_bonus: Score,
            second: ScoreTable,
        |
            #[trigger] sound_results(with_bonus, first, without_bonus, second) && comes_of(
                judge,
                before,
                b_state,
                (cutoff - 1) as u8,
                with_bonus,
                first,
            ) && comes_of(judge, first, nb_state, (cutoff - 1) as u8, without_bonus, second)
                && moves_come_to(
                judge,
                second,
                state,
                cutoff,
                k + 1,
                better_score(is_maxing, best, mean_of(with_bonus, without_bonus)),
                score,
                after,
            );
        lemma_comes_of_in_unit(judge, before, b_state, (cutoff - 1) as u8, with_bonus, first);
        lemma_comes_of_in_unit(judge, first, nb_state, (cutoff - 1) as u8, without_bonus, second);
        lemma_chance_value_in_unit(
            with_bonus,
            Score { bits: BONUS_BITS },
            without_bonus,
            Score { bits: (ONE_BITS - BONUS_BITS) as u32 },
        );
        lemma_moves_in_unit(
            judge,
            second,
            state,
            cutoff,
            k + 1,
            better_score(is_maxing, best, mean_of(with_bonus, without_bonus)),
            score,
            after,
        );
    }
}

/// A score that the table has for a search is what comes of the search.
pub proof fn lemma_comes_of_table<E: StaticEvaluator>(
    judge: &E,
    before: ScoreTable,
    state: BoardState,
    cutoff: u8,
    score: Score,
)
    requires
        looked_up(
            before,
            Position { zobrist_hash: state.hash() },
            Parameters { depth: cutoff, dead_moves: state.dead_moves },
        ) == Some(score),
    ensures
        comes_of(judge, before, state, cutoff, score, before),
{
    reveal(comes_of);
}

/// At the end of the lookahead or of the game, an answer of the judge is
/// what comes of a search for which the table has no score.
pub proof fn lemma_comes_of_judge<E: StaticEvaluator>(
    judge: &E,
    before: ScoreTable,
    state: BoardState,
    cutoff: u8,
    score: Score,
)
    requires
        looked_up(
            before,
            Position { zobrist_hash: state.hash() },
            Parameters { depth: cutoff, dead_moves: state.dead_moves },
        ) is None,
        cutoff == 0 || state.status != Status::InProgress,
        answer_for(judge, state, score),
    ensures
        comes_of(
            judge,
            before,
            state,
            cutoff,
            score,
            inserted(
                inserted(
                    before,
                    Position { zobrist_hash: state.hash() },
                    Parameters { depth: cutoff, dead_moves: state.dead_moves },
                    score,
                ),
                Position { zobrist_hash: state.hash() }.spec_switched(),
                Parameters { depth: cutoff, dead_moves: state.dead_moves },
                score,
            ),
        ),
{
    reveal(comes_of);
}

/// What the moves come to is what comes of a search that has to go through
/// them.
pub proof fn lemma_comes_of_moves<E: StaticEvaluator>(
    judge: &E,
    before: ScoreTable,
    state: BoardState,
    cutoff: u8,
    score: Score,
    mid: ScoreTable,
)
    requires
        looked_up(
            before,
            Position { zobrist_hash: state.hash() },
            Parameters { depth: cutoff, dead_moves: state.dead_moves },
        ) is None,
        cutoff > 0,
        state.status == Status::InProgress,
        whole(mid),
        moves_come_to(judge, before, state, cutoff, 0, None, score, mid),
    ensures
        comes_of(
            judge,
            before,
            state,
            cutoff,
            score,
            inserted(
                mid,
                Position { zobrist_hash: state.hash() },
                Parameters { depth: cutoff, dead_moves: state.dead_moves },
                score,
            ),
        ),
{
    reveal(comes_of);
    reveal(moves_come_to);
}

/// With no move left, the best worth so far is what the moves come to.
pub proof fn lemma_moves_done<E: StaticEvaluator>(
    judge: &E,
    table: ScoreTable,
    state: BoardState,
    cutoff: u8,
    k: nat,
    score: Score,
)
    requires
        k >= state.all_moves().len(),
    ensures
        moves_come_to(judge, table, state, cutoff, k, Some(score), score, table),
{
    reveal(moves_come_to);
}

/// What the moves after the `k`-th come to, once the `k`-th was searched,
/// is what the moves from the `k`-th on come to.
pub proof fn lemma_moves_step<E: StaticEvaluator>(
    judge: &E,
    before: ScoreTable,
    state: BoardState,
    cutoff: u8,
    k: nat,
    best: Option<Score>,
    with_bonus: Score,
    first: ScoreTable,
    without_bonus: Score,
    second: ScoreTable,
    score: Score,
    after: ScoreTable,
)
    requires
        k < state.all_moves().len(),
        cutoff > 0,
        sound_results(with_bonus, first, without_bonus, second),
        comes_of(
            judge,
            before,
            after_move_and_flip(state, state.all_moves()[k as int], cutoff != 1, true),
            (cutoff - 1) as u8,
            with_bonus,
            first,
        ),
        comes_of(
            judge,
            first,
            after_move_and_flip(state, state.all_moves()[k as int], cutoff != 1, false),
            (cutoff - 1) as u8,
            without_bonus,
            second,
        ),
        moves_come_to(
            judge,
            second,
            state,
            cutoff,
            k + 1,
            better_score(
                state.side_to_move == Color::White,
                best,
                mean_of(with_bonus, without_bonus),
            ),
            score,
            after,
        ),
    ensures
        moves_come_to(judge, before, state, cutoff, k, best, score, after),
{
    reveal(comes_of);
    reveal(moves_come_to);
}

/// The engine that searches without a window, with a table of scores.
pub struct Minimax<E: StaticEvaluator> {
    static_evaluator: E,
    lookahead: u8,
    position_table: PositionTable<Score>,
    logger: Logger,
}

impl<E: StaticEvaluator> Minimax<E> {
    /// The number of moves that the engine looks ahead, the move to choose
    /// counted in.
    pub closed spec fn lookahead(&self) -> u8 {
        self.lookahead
    }

    /// The judge that the engine asks.
    pub closed spec fn judge(&self) -> E {
        self.static_evaluator
    }

    /// The records of the table.
    pub closed spec fn table(&self) -> ScoreTable {
        self.position_table@
    }

    /// Whether the engine is fit to search: it looks ahead at least one
    /// move, and its table is whole and holds scores in `[0, 1]` only.
    pub closed spec fn wf(&self) -> bool {
        &&& self.lookahead > 0
        &&& self.position_table.wf()
        &&& scores_in_unit(self.position_table@)
    }

    /// The table of an engine that is fit to search has all its slots and
    /// holds scores in `[0, 1]` only.
    pub proof fn lemma_table_in_unit(&self)
        requires
            self.wf(),
        ensures
            whole(self.table()),
            scores_in_unit(self.table()),
    {
        self.position_table.lemma_wf();
    }

    /// An engine with an empty table.
    pub fn new(static_evaluator: E, lookahead: u8) -> (engine: Self)
        requires
            lookahead > 0,
        ensures
            engine.wf(),
            engine.lookahead() == lookahead,
            engine.judge() == static_evaluator,
            engine.table().len() == TABLE_SIZE,
            forall|i: int| 0 <= i < TABLE_SIZE ==> engine.table()[i] is None,
    {
        let position_table: PositionTable<Score> = PositionTable::new();
        proof {
            position_table.lemma_wf();
            assert(scores_in_unit(position_table@));
        }
        Minimax { static_evaluator, lookahead, position_table, logger: Logger::new(0) }
    }

    /// The engine that looks four moves ahead.
    pub fn default(static_evaluator: E) -> (engine: Self)
        ensures
            engine.wf(),
            engine.lookahead() == 4,
            engine.judge() == static_evaluator,
            engine.table().len() == TABLE_SIZE,
            forall|i: int| 0 <= i < TABLE_SIZE ==> engine.table()[i] is None,
    {
        Minimax::new(static_evaluator, 4)
    }

    /// The worth of a board when both sides play the best moves for
    /// `cutoff` moves and the judge values what comes of it: the score of
    /// the best move, where the score of a move is the mean of the scores
    /// with and without a bonus. A score that the table has is not computed
    /// again.
    pub fn evaluate_with_cutoff(&mut self, board: &MyBoard, cutoff: u8) -> (score: Score)
        requires
            old(self).wf(),
            board.wf(),
            !board@.awaiting_bonus,
            cutoff > 0 ==> board@.settled(),
        ensures
            final(self).wf(),
            final(self).lookahead() == old(self).lookahead(),
            final(self).judge() == old(self).judge(),
            final(self).logger() == old(self).logger(),
            score.in_unit(),
            comes_of(
                &old(self).judge(),
                old(self).table(),
                board@,
                cutoff,
                score,
                final(self).table(),
            ),
        decreases cutoff,
    {
        proof {
            self.position_table.lemma_wf();
        }
        match self.position_table.get(board, cutoff) {
            Some(score) => {
                proof {
                    lemma_comes_of_table(
                        &self.static_evaluator,
                        self.position_table@,
                        board@,
                        cutoff,
                        score,
                    );
                }
                return score;
            },
            None => {},
        }
        if cutoff == 0 || !board.get_status().is_in_progress() {
            let evaluation = self.static_evaluator.evaluate(board);
            proof {
                lemma_answer_given(&self.static_evaluator, board, evaluation);
                lemma_comes_of_judge(
                    &self.static_evaluator,
                    self.position_table@,
                    board@,
                    cutoff,
                    evaluation,
                );
                let params = super::position_table::parameters_of(board, cutoff);
                lemma_insert_in_unit(self.position_table@, Position::of(board), params, evaluation);
                lemma_insert_in_unit(
                    inserted(self.position_table@, Position::of(board), params, evaluation),
                    Position::of(board).spec_switched(),
                    params,
                    evaluation,
                );
            }
            self.position_table.insert_both_colors(board, cutoff, evaluation);
            return evaluation;
        }
        let is_maxing = board.get_side_to_move() == Color::White;
        let moves = board.all_moves();
        let mut best: Option<Score> = None;
        let mut k: usize = 0;
        let ghost judge = self.judge();
        let ghost start = self.table();
        while k < moves.len()
            invariant
                k <= moves.len(),
                self.wf(),
                self.lookahead() == old(self).lookahead(),
                self.judge() == judge,
                self.logger() == old(self).logger(),
                board.wf(),
                !board@.awaiting_bonus,
                cutoff > 0,
                is_maxing == (board@.side_to_move == Color::White),
                moves@ == board@.all_moves(),
                k > 0 ==> best is Some,
                best matches Some(s) ==> s.in_unit(),
                forall|s: Score, t: ScoreTable| #[trigger]
                    moves_come_to(&judge, self.table(), board@, cutoff, k as nat, best, s, t)
                        ==> moves_come_to(&judge, start, board@, cutoff, 0, None, s, t),
            decreases moves.len() - k,
        {
            let mv = moves[k];
            let ghost before = self.table();
            let ghost best_before = best;
            proof {
                board.lemma_wf();
                assert(moves@.contains(mv));
                lemma_all_moves_can_move(board@, mv);
            }
            // On the last level the look for a draw is left out: it is
            // rare, and it is what costs most.
            let (bonus_board, no_bonus_board) = next_boards(board, mv, cutoff != 1);
            let with_bonus = self.evaluate_with_cutoff(&bonus_board, cutoff - 1);
            let ghost first = self.table();
            proof {
                self.position_table.lemma_wf();
            }
            let without_bonus = self.evaluate_with_cutoff(&no_bonus_board, cutoff - 1);
            let ghost second = self.table();
            proof {
                self.position_table.lemma_wf();
            }
            let value = weigh(with_bonus, bonus_chance(), without_bonus, no_bonus_chance());
            best = match best {
                None => Some(value),
                Some(so_far) => if (is_maxing && value.bits > so_far.bits) || (!is_maxing
                    && value.bits < so_far.bits) {
                    Some(value)
                } else {
                    best
                },
            };
            k += 1;
            proof {
                assert(value == mean_of(with_bonus, without_bonus));
                assert(best == better_score(is_maxing, best_before, value));
                assert forall|s: Score, t: ScoreTable| #[trigger]
                    moves_come_to(
                        &judge,
                        self.table(),
                        board@,
                        cutoff,
                        k as nat,
                        best,
                        s,
                        t,
                    ) implies moves_come_to(&judge, start, board@, cutoff, 0, None, s, t) by {
                    lemma_moves_step(
                        &judge,
                        before,
                        board@,
                        cutoff,
                        (k - 1) as nat,
                        best_before,
                        with_bonus,
                        first,
                        without_bonus,
                        second,
                        s,
                        t,
                    );
                }
            }
        }
        let score = match best {
            Some(score) => score,
            None => vstd::pervasive::unreached(),
        };
        let ghost mid = self.table();
        proof {
            self.position_table.lemma_wf();
            lemma_moves_done(&judge, mid, board@, cutoff, k as nat, score);
            lemma_comes_of_moves(&judge, start, board@, cutoff, score, mid);
            self.position_table.lemma_wf();
            lemma_insert_in_unit(
                self.position_table@,
                Position::of(board),
                super::position_table::parameters_of(board, cutoff),
                score,
            );
        }
        self.position_table.insert(board, cutoff, score);
        score
    }
}

impl<E: StaticEvaluator> Engine for Minimax<E> {
    open spec fn ready(&self) -> bool {
        self.wf()
    }

    /// The worth of a board when both sides play the best moves for one
    /// move less than the lookahead. A game in progress in which the side
    /// to move has no move counts as drawn.
    fn evaluate(&mut self, board: &MyBoard) -> (score: Score)
        ensures
            final(self).lookahead() == old(self).lookahead(),
            final(self).judge() == old(self).judge(),
            final(self).logger() == old(self).logger(),
            if board@.status == Status::InProgress && board@.all_moves().len() == 0 {
                score == Score::spec_half() && final(self).table() == old(self).table()
            } else {
                comes_of(
                    &old(self).judge(),
                    old(self).table(),
                    board@,
                    (old(self).lookahead() - 1) as u8,
                    score,
                    final(self).table(),
                )
            },
    {
        let moves = board.all_moves();
        if board.get_status().is_in_progress() && moves.len() == 0 {
            return Score::half();
        }
        let cutoff = self.lookahead - 1;
        self.evaluate_with_cutoff(board, cutoff)
    }

    /// The move that is worth most to the mover: the choice that the moves
    /// of the board come to when the two outcomes of each are valued as
    /// `evaluate` values them, each with the table as the one before left
    /// it; see `choice_comes_to`.
    fn get_move(&mut self, board: &MyBoard) -> (r: Result<ChessMove, MoveError>)
        ensures
            final(self).lookahead() == old(self).lookahead(),
            final(self).judge() == old(self).judge(),
            final(self).logger() == old(self).logger(),
            board@.all_moves().len() == 0 ==> final(self).table() == old(self).table(),
            r matches Ok(m) ==> exists|score: Score|
                #[trigger] choice_comes_to(
                    minimax_values(old(self).judge(), old(self).lookahead()),
                    old(self).table(),
                    board@,
                    0,
                    None,
                    Some((score, m)),
                    final(self).table(),
                ),
    {
        let moves = board.all_moves();
        let is_maxing = board.get_side_to_move() == Color::White;
        let mut best: Option<(Score, ChessMove)> = None;
        let mut k: usize = 0;
        let ghost values = minimax_values(self.judge(), self.lookahead());
        let ghost start = self.table();
        while k < moves.len()
            invariant
                k <= moves.len(),
                self.wf(),
                self.lookahead() == old(self).lookahead(),
                self.judge() == old(self).judge(),
                self.logger() == old(self).logger(),
                board.wf(),
                !board@.awaiting_bonus,
                moves@ == board@.all_moves(),
                is_maxing == (board@.side_to_move == Color::White),
                values == minimax_values(old(self).judge(), old(self).lookahead()),
                start == old(self).table(),
                k == 0 ==> self.table() == start,
                k > 0 ==> best is Some,
                best matches Some((_, m)) ==> board@.all_moves().contains(m),
                forall|choice: Option<(Score, ChessMove)>, after: ScoreTable| #[trigger]
                    choice_comes_to(values, self.table(), board@, k as nat, best, choice, after)
                        ==> choice_comes_to(values, start, board@, 0, None, choice, after),
            decreases moves.len() - k,
        {
            let mv = moves[k];
            proof {
                board.lemma_wf();
                assert(moves@.contains(mv));
                lemma_all_moves_can_move(board@, mv);
            }
            let (bonus_board, no_bonus_board) = next_boards(board, mv, true);
            let ghost before = self.table();
            let with_bonus = self.evaluate(&bonus_board);
            let ghost first = self.table();
            let without_bonus = self.evaluate(&no_bonus_board);
            let evaluation = weigh(with_bonus, bonus_chance(), without_bonus, no_bonus_chance());
            let ghost earlier = best;
            best = keep_better(is_maxing, best, evaluation, mv);
            k += 1;
            proof {
                assert forall|choice: Option<(Score, ChessMove)>, after: ScoreTable| #[trigger]
                    choice_comes_to(
                        values,
                        self.table(),
                        board@,
                        k as nat,
                        best,
                        choice,
                        after,
                    ) implies choice_comes_to(values, start, board@, 0, None, choice, after) by {
                    lemma_choice_goes_on(
                        values,
                        before,
                        board@,
                        (k - 1) as nat,
                        earlier,
                        with_bonus,
                        first,
                        without_bonus,
                        self.table(),
                        choice,
                        after,
                    );
                }
            }
        }
        proof {
            lemma_choice_made(values, self.table(), board@, k as nat, best);
        }
        self.log_info();
        match best {
            Some((score, mv)) => {
                proof {
                    assert(choice_comes_to(
                        values,
                        self.table(),
                        board@,
                        k as nat,
                        best,
                        best,
                        self.table(),
                    ));
                    assert(choice_comes_to(
                        values,
                        start,
                        board@,
                        0,
                        None,
                        Some((score, mv)),
                        self.table(),
                    ));
                }
                Ok(mv)
            },
            None => Err(MoveError::NoLegalMove),
        }
    }

    /// There is nothing to say: the engine stays as it is.
    fn log_info(&mut self)
        ensures
            *final(self) == *old(self),
    {
    }

    open spec fn fit_to_choose(&self) -> bool {
        true
    }

    /// A search without a clock always finds a move where there is one.
    open spec fn may_give_up(&self) -> bool {
        false
    }

    closed spec fn logger(&self) -> Logger {
        self.logger
    }

    fn get_logger(&self) -> (r: &Logger) {
        &self.logger
    }
}

} // verus!
