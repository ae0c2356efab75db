//! What can come of a search in a window.
//!
//! A search asks a judge, and a judge need not give the same answer twice.
//! So what a search returns is not a function of the board: it is related
//! to the board, the window, the depth and the table by the answers that
//! the judge can give. The relations here say how: they follow the search
//! step by step, and hand the table from each step to the next.

use crate::board_model::BoardState;
use crate::board_model::count_pieces;
use crate::board_model::Status;
use crate::chess_types::ChessMove;
use crate::chess_types::Color;
use crate::engine::alphabeta::AfterMove;
use crate::engine::alphabeta::bounds::Bounds;
use crate::engine::alphabeta::bounds::capped_at;
use crate::engine::alphabeta::bounds::raised_to;
use crate::engine::alphabeta::chance::bonus_window;
use crate::engine::alphabeta::chance::chance_value;
use crate::engine::alphabeta::chance::no_bonus_window;
use crate::engine::alphabeta::known_score;
use crate::engine::alphabeta::order_key;
use crate::engine::alphabeta::ordering::KeyedMove;
use crate::engine::alphabeta::ordering::moves_of;
use crate::engine::alphabeta::ordering::sorted_by_key;
use crate::engine::alphabeta::reckoned_chances;
use crate::engine::alphabeta::record_of_result;
use crate::engine::alphabeta::record_verdict;
use crate::engine::alphabeta::score_info::ScoreInfo;
use crate::engine::alphabeta::score_verdict;
use crate::engine::alphabeta::search_result::SearchResult;
use crate::engine::alphabeta::step_after;
use crate::engine::alphabeta::verdict_of_moves;
use crate::engine::better_of;
use crate::engine::evaluator::answer_for;
use crate::engine::evaluator::StaticEvaluator;
use crate::engine::minimax::after_move_and_flip;
use crate::engine::position_table::Evaluation;
use crate::engine::position_table::inserted;
use crate::engine::position_table::looked_up;
use crate::engine::position_table::Parameters;
use crate::engine::position_table::Position;
use crate::engine::position_table::TABLE_SIZE;
use crate::score::Score;
use vstd::prelude::*;

verus! {

/// The records of a table of bounds on scores.
pub type InfoTable = Seq<Option<Evaluation<ScoreInfo>>>;

/// The depth at which a search stops to look ahead: 1 for a focussed
/// search, else 0.
pub open spec fn finish_of(is_focussed: bool) -> u8 {
    if is_focussed {
        1
    } else {
        0
    }
}

/// The key of a state in the table.
pub open spec fn position_at(state: BoardState) -> Position {
    Position { zobrist_hash: state.hash() }
}

/// The parameters of a search of a state to a depth.
pub open spec fn parameters_at(state: BoardState, depth: u8) -> Parameters {
    Parameters { depth, dead_moves: state.dead_moves }
}

/// Whether a table has all its slots.
pub open spec fn whole(table: InfoTable) -> bool {
    table.len() == TABLE_SIZE
}

/// Whether a score for the order of the moves lies in `[0, 1]` and the
/// table before it was whole.
pub open spec fn scored(score: Score, table: InfoTable) -> bool {
    score.in_unit() && whole(table)
}

/// Whether the search of a move left the table whole.
pub open spec fn step_taken(step: SearchResult, table: InfoTable) -> bool {
    whole(table)
}

/// Whether the searches of the two outcomes of a move left the table
/// whole.
pub open spec fn two_steps(
    nb_result: SearchResult,
    first: InfoTable,
    b_result: SearchResult,
    second: InfoTable,
) -> bool {
    whole(first) && whole(second)
}

/// The table after it was told how the search of a state to a depth in a
/// window ended. After a timeout it is told nothing.
pub open spec fn told(
    table: InfoTable,
    state: BoardState,
    depth: u8,
    window: Bounds,
    result: SearchResult,
) -> InfoTable {
    match record_of_result(window, result) {
        Some(info) => inserted(table, position_at(state), parameters_at(state, depth), info),
        None => table,
    }
}

/// The window narrowed by the score of a move: the side that wants a high
/// score raises the lower bound, the other lowers the upper bound.
pub open spec fn narrowed(window: Bounds, is_maxing: bool, score: Score) -> Bounds {
    if is_maxing {
        Bounds { min: raised_to(window.min, score), max: window.max }
    } else {
        Bounds { min: window.min, max: capped_at(window.max, score) }
    }
}

/// Whether `score` can be the score of a state for the order of the moves,
/// with `after` the table then: the score that the table pins down, with
/// the table as it was; or, where it pins none down, an answer of the
/// judge, which goes into the table as a record of the finish depth.
pub open spec fn score_for_order<E: StaticEvaluator>(
    judge: &E,
    is_focussed: bool,
    before: InfoTable,
    state: BoardState,
    score: Score,
    after: InfoTable,
) -> bool {
    match known_score(before, position_at(state)) {
        Some(known) => score == known && after == before,
        None => answer_for(judge, state, score) && after == inserted(
            before,
            position_at(state),
            parameters_at(state, finish_of(is_focussed)),
            ScoreInfo { min: score, max: score },
        ),
    }
}

/// Whether the first `n` moves of a state can get these keys, one after
/// the other, with `after` the table then. The key of a move comes from the
/// score for the order of the state after the move and no bonus, the coin
/// flipped without a look at the moves that are left.
#[verifier::opaque]
pub open spec fn keys_come_to<E: StaticEvaluator>(
    judge: &E,
    is_focussed: bool,
    before: InfoTable,
    state: BoardState,
    n: nat,
    keyed: Seq<KeyedMove>,
    after: InfoTable,
) -> bool
    decreases n,
{
    if n == 0 {
        keyed.len() == 0 && after == before
    } else {
        let mv = state.all_moves()[n - 1];
        let child = after_move_and_flip(state, mv, false, false);
        keyed.len() == n && keyed.last().mv == mv && exists|score: Score, mid: InfoTable|
            #[trigger] scored(score, mid) && keys_come_to(
                judge,
                is_focussed,
                before,
                state,
                (n - 1) as nat,
                keyed.drop_last(),
                mid,
            ) && score_for_order(judge, is_focussed, mid, child, score, after) && keyed.last().key
                == order_key(state.side_to_move == Color::White, score)
    }
}

/// Whether a search of a state to a depth can try the moves in this order,
/// with `after` the table then. A search that goes more than one move
/// beyond the finish depth tries them in the order of their keys, moves
/// with the same key in the order of the board; a shallower search tries
/// them in the order of the board and leaves the table alone.
pub open spec fn order_comes_to<E: StaticEvaluator>(
    judge: &E,
    is_focussed: bool,
    before: InfoTable,
    state: BoardState,
    depth: u8,
    moves: Seq<ChessMove>,
    after: InfoTable,
) -> bool {
    if depth > finish_of(is_focussed) + 1 {
        exists|keyed: Seq<KeyedMove>|
            #[trigger] keys_come_to(
                judge,
                is_focussed,
                before,
                state,
                state.all_moves().len(),
                keyed,
                after,
            ) && moves == moves_of(sorted_by_key(keyed))
    } else {
        moves == state.all_moves() && after == before
    }
}

/// What a record of the table settles for a search, if the table has one
/// that the search can trust.
pub open spec fn settled_by_table(
    before: InfoTable,
    state: BoardState,
    bounds: Bounds,
    depth: u8,
    get_move: bool,
) -> Option<SearchResult> {
    match looked_up(before, position_at(state), parameters_at(state, depth)) {
        Some(info) => record_verdict(bounds, info, get_move),
        None => None,
    }
}

/// Whether a search of a state to a depth in a window, with a judge and a
/// table, can end with `result` and leave the table as `after`, the
/// deadline never expiring.
///
/// What a record of the table settles is the result, and the table stays as
/// it is. Else, at the finish depth or the end of the game, the result is
/// the verdict on an answer of the judge, which goes into the table. Else
/// the moves are put in order and tried one after the other, and the result
/// is what they come to.
#[verifier::opaque]
pub open spec fn search_comes_of<E: StaticEvaluator>(
    judge: &E,
    is_pessimistic: bool,
    is_focussed: bool,
    before: InfoTable,
    state: BoardState,
    bounds: Bounds,
    depth: u8,
    get_move: bool,
    result: SearchResult,
    after: InfoTable,
) -> bool
    decreases depth, 2nat, 0nat,
{
    match settled_by_table(before, state, bounds, depth, get_move) {
        Some(verdict) => result == verdict && after == before,
        None => if depth <= finish_of(is_focussed) || state.status != Status::InProgress {
            exists|score: Score|
                #[trigger] answer_for(judge, state, score) && result == score_verdict(
                    bounds,
                    score,
                ) && after == inserted(
                    before,
                    position_at(state),
                    parameters_at(state, depth),
                    ScoreInfo { min: score, max: score },
                )
        } else {
            exists|moves: Seq<ChessMove>, ordered: InfoTable|
                #[trigger] order_comes_to(judge, is_focussed, before, state, depth, moves, ordered)
                    && moves_come_to(
                    judge,
                    is_pessimistic,
                    is_focussed,
                    ordered,
                    state,
                    bounds,
                    depth,
                    moves,
                    0,
                    None,
                    result,
                    after,
                )
        },
    }
}

/// Whether the moves from the `k`-th on, tried one after the other in a
/// window that the scores narrow, can come to `result` and leave the table
/// as `after`.
///
/// With no move left the result is the best score so far with its move, or
/// `Low` or `High` if every move was passed over, and the table is told.
/// Else the `k`-th move is searched. A move that ends the search is the
/// result, and the table is told. A score narrows the window and is kept if
/// it is better than the best so far. Then the next move is tried.
#[verifier::opaque]
pub open spec fn moves_come_to<E: StaticEvaluator>(
    judge: &E,
    is_pessimistic: bool,
    is_focussed: bool,
    before: InfoTable,
    state: BoardState,
    window: Bounds,
    depth: u8,
    moves: Seq<ChessMove>,
    k: nat,
    best: Option<(Score, ChessMove)>,
    result: SearchResult,
    after: InfoTable,
) -> bool
    decreases depth, 1nat, moves.len() - k,
{
    let is_maxing = state.side_to_move == Color::White;
    if k >= moves.len() {
        result == verdict_of_moves(is_maxing, best) && after == told(
            before,
            state,
            depth,
            window,
            result,
        )
    } else {
        exists|step: SearchResult, mid: InfoTable|
            #[trigger] step_taken(step, mid) && move_comes_of(
                judge,
                is_pessimistic,
                is_focussed,
                before,
                state,
                moves[k as int],
                window,
                depth,
                step,
                mid,
            ) && match step_after(is_maxing, step) {
                AfterMove::End(verdict) => result == verdict && after == told(
                    mid,
                    state,
                    depth,
                    window,
                    verdict,
                ),
                AfterMove::TakeNote(score) => moves_come_to(
                    judge,
                    is_pessimistic,
                    is_focussed,
                    mid,
                    state,
                    narrowed(window, is_maxing, score),
                    depth,
                    moves,
                    k + 1,
                    better_of(is_maxing, best, score, moves[k as int]),
                    result,
                    after,
                ),
                AfterMove::PassOver => moves_come_to(
                    judge,
                    is_pessimistic,
                    is_focussed,
                    mid,
                    state,
                    window,
                    depth,
                    moves,
                    k + 1,
                    best,
                    result,
                    after,
                ),
            }
    }
}

/// The depth to which the state after a bonus is searched: two less for
/// a focussed search, else one less.
pub open spec fn bonus_depth(is_focussed: bool, depth: u8) -> u8 {
    if is_focussed {
        (depth - 2) as u8
    } else {
        (depth - 1) as u8
    }
}

/// What comes of the two scores of a move in the window for the move.
pub open spec fn joined(
    window: Bounds,
    b_chance: Score,
    nb_chance: Score,
    nb_score: Score,
    b_result: SearchResult,
) -> SearchResult {
    match b_result {
        SearchResult::Result(b_score, _) => score_verdict(
            window,
            chance_value(b_score, b_chance, nb_score, nb_chance),
        ),
        _ => b_result,
    }
}

/// Whether the search of a move in a window can end with `result` and leave
/// the table as `after`.
///
/// The move is made. The state after no bonus is searched one move less
/// deep, in the window that allows for every worth of the bonus. If that
/// gives no score, it is the result. Else the state after a bonus is
/// searched in the window that the score leaves it; if that gives no score,
/// it is the result; else the result is the verdict on the mean of the two
/// scores. One move above the finish depth the coin is flipped without a
/// look at the moves that are left.
#[verifier::opaque]
pub open spec fn move_comes_of<E: StaticEvaluator>(
    judge: &E,
    is_pessimistic: bool,
    is_focussed: bool,
    before: InfoTable,
    state: BoardState,
    mv: ChessMove,
    window: Bounds,
    depth: u8,
    result: SearchResult,
    after: InfoTable,
) -> bool
    decreases depth, 0nat, 0nat,
{
    let finish = finish_of(is_focussed);
    if depth <= finish {
        false
    } else {
        let b_state = after_move_and_flip(state, mv, depth > finish + 1, true);
        let nb_state = after_move_and_flip(state, mv, depth > finish + 1, false);
        let chances = reckoned_chances(
            is_pessimistic,
            state.side_to_move == Color::White,
            count_pieces(b_state.pieces, 64),
        );
        exists|nb_result: SearchResult, first: InfoTable, b_result: SearchResult, second: InfoTable|
            #[trigger] two_steps(nb_result, first, b_result, second) && search_comes_of(
                judge,
                is_pessimistic,
                is_focussed,
                before,
                nb_state,
                no_bonus_window(window, chances.0, chances.1),
                (depth - 1) as u8,
                false,
                nb_result,
                first,
            ) && match nb_result {
                SearchResult::Result(nb_score, _) => search_comes_of(
                    judge,
                    is_pessimistic,
                    is_focussed,
                    first,
                    b_state,
                    bonus_window(window, chances.0, nb_score, chances.1),
                    bonus_depth(is_focussed, depth),
                    false,
                    b_result,
                    second,
                ) && result == joined(window, chances.0, chances.1, nb_score, b_result) && after
                    == second,
                _ => result == nb_result && after == first,
            }
    }
}

/// How the moves go on after the search of the `k`-th: what `moves_come_to`
/// says of the step.
pub open spec fn goes_on_to<E: StaticEvaluator>(
    judge: &E,
    is_pessimistic: bool,
    is_focussed: bool,
    state: BoardState,
    window: Bounds,
    depth: u8,
    moves: Seq<ChessMove>,
    k: nat,
    best: Option<(Score, ChessMove)>,
    step: SearchResult,
    mid: InfoTable,
    result: SearchResult,
    after: InfoTable,
) -> bool {
    let is_maxing = state.side_to_move == Color::White;
    match step_after(is_maxing, step) {
        AfterMove::End(verdict) => result == verdict && after == told(
            mid,
            state,
            depth,
            window,
            verdict,
        ),
        AfterMove::TakeNote(score) => moves_come_to(
            judge,
            is_pessimistic,
            is_focussed,
            mid,
            state,
            narrowed(window, is_maxing, score),
            depth,
            moves,
            k + 1,
            better_of(is_maxing, best, score, moves[k as int]),
            result,
            after,
        ),
        AfterMove::PassOver => moves_come_to(
            judge,
            is_pessimistic,
            is_focussed,
            mid,
            state,
            window,
            depth,
            moves,
            k + 1,
            best,
            result,
            after,
        ),
    }
}

/// How the search of a move goes on after the search of the state without
/// a bonus: what `move_comes_of` says of the second search.
pub open spec fn with_bonus_to<E: StaticEvaluator>(
    judge: &E,
    is_pessimistic: bool,
    is_focussed: bool,
    b_state: BoardState,
    window: Bounds,
    chances: (Score, Score),
    depth: u8,
    nb_result: SearchResult,
    first: InfoTable,
    b_result: SearchResult,
    second: InfoTable,
    result: SearchResult,
    after: InfoTable,
) -> bool {
    match nb_result {
        SearchResult::Result(nb_score, _) => search_comes_of(
            judge,
            is_pessimistic,
            is_focussed,
            first,
            b_state,
            bonus_window(window, chances.0, nb_score, chances.1),
            bonus_depth(is_focussed, depth),
            false,
            b_result,
            second,
        ) && result == joined(window, chances.0, chances.1, nb_score, b_result) && after == second,
        _ => result == nb_result && after == first,
    }
}

/// No keys are what none of the moves get.
pub proof fn lemma_keys_none<E: StaticEvaluator>(
    judge: &E,
    is_focussed: bool,
    table: InfoTable,
    state: BoardState,
)
    ensures
        keys_come_to(judge, is_focussed, table, state, 0, Seq::<KeyedMove>::empty(), table),
{
    reveal(keys_come_to);
}

/// The keys of the first moves and the key of the next are the keys of
/// one move more.
pub proof fn lemma_keys_more<E: StaticEvaluator>(
    judge: &E,
    is_focussed: bool,
    before: InfoTable,
    state: BoardState,
    n: nat,
    keyed: Seq<KeyedMove>,
    mid: InfoTable,
    score: Score,
    after: InfoTable,
)
    requires
        n < state.all_moves().len(),
        scored(score, mid),
        keys_come_to(judge, is_focussed, before, state, n, keyed, mid),
        keyed.len() == n,
        score_for_order(
            judge,
            is_focussed,
            mid,
            after_move_and_flip(state, state.all_moves()[n as int], false, false),
            score,
            after,
        ),
    ensures
        keys_come_to(
            judge,
            is_focussed,
            before,
            state,
            n + 1,
            keyed.push(
                KeyedMove {
                    key: order_key(state.side_to_move == Color::White, score),
                    mv: state.all_moves()[n as int],
                },
            ),
            after,
        ),
{
    reveal(keys_come_to);
    let longer = keyed.push(
        KeyedMove {
            key: order_key(state.side_to_move == Color::White, score),
            mv: state.all_moves()[n as int],
        },
    );
    assert(longer.drop_last() =~= keyed);
}

/// What a record of the table settles is what comes of the search.
pub proof fn lemma_search_settled<E: StaticEvaluator>(
    judge: &E,
    is_pessimistic: bool,
    is_focussed: bool,
    before: InfoTable,
    state: BoardState,
    bounds: Bounds,
    depth: u8,
    get_move: bool,
    verdict: SearchResult,
)
    requires
        settled_by_table(before, state, bounds, depth, get_move) == Some(verdict),
    ensures
        search_comes_of(
            judge,
            is_pessimistic,
            is_focussed,
            before,
            state,
            bounds,
            depth,
            get_move,
            verdict,
            before,
        ),
{
    reveal(search_comes_of);
}

/// At the finish depth or the end of the game, the verdict on an answer of
/// the judge is what comes of a search that the table does not settle.
pub proof fn lemma_search_judged<E: StaticEvaluator>(
    judge: &E,
    is_pessimistic: bool,
    is_focussed: bool,
    before: InfoTable,
    state: BoardState,
    bounds: Bounds,
    depth: u8,
    get_move: bool,
    score: Score,
)
    requires
        settled_by_table(before, state, bounds, depth, get_move) is None,
        depth <= finish_of(is_focussed) || state.status != Status::InProgress,
        answer_for(judge, state, score),
    ensures
        search_comes_of(
            judge,
            is_pessimistic,
            is_focussed,
            before,
            state,
            bounds,
            depth,
            get_move,
            score_verdict(bounds, score),
            inserted(
                before,
                position_at(state),
                parameters_at(state, depth),
                ScoreInfo { min: score, max: score },
            ),
        ),
{
    reveal(search_comes_of);
}

/// What the moves come to, tried in their order, is what comes of a search
/// that has to go through them.
pub proof fn lemma_search_moves<E: StaticEvaluator>(
    judge: &E,
    is_pessimistic: bool,
    is_focussed: bool,
    before: InfoTable,
    state: BoardState,
    bounds: Bounds,
    depth: u8,
    get_move: bool,
    moves: Seq<ChessMove>,
    ordered: InfoTable,
    result: SearchResult,
    after: InfoTable,
)
    requires
        settled_by_table(before, state, bounds, depth, get_move) is None,
        depth > finish_of(is_focussed),
        state.status == Status::InProgress,
        order_comes_to(judge, is_focussed, before, state, depth, moves, ordered),
        moves_come_to(
            judge,
            is_pessimistic,
            is_focussed,
            ordered,
            state,
            bounds,
            depth,
            moves,
            0,
            None,
            result,
            after,
        ),
    ensures
        search_comes_of(
            judge,
            is_pessimistic,
            is_focussed,
            before,
            state,
            bounds,
            depth,
            get_move,
            result,
            after,
        ),
{
    reveal(search_comes_of);
    reveal(moves_come_to);
}

/// With no move left, the verdict on the best so far is what the moves
/// come to.
pub proof fn lemma_moves_done<E: StaticEvaluator>(
    judge: &E,
    is_pessimistic: bool,
    is_focussed: bool,
    table: InfoTable,
    state: BoardState,
    window: Bounds,
    depth: u8,
    moves: Seq<ChessMove>,
    k: nat,
    best: Option<(Score, ChessMove)>,
)
    requires
        k >= moves.len(),
    ensures
        moves_come_to(
            judge,
            is_pessimistic,
            is_focussed,
            table,
            state,
            window,
            depth,
            moves,
            k,
            best,
            verdict_of_moves(state.side_to_move == Color::White, best),
            told(
                table,
                state,
                depth,
                window,
                verdict_of_moves(state.side_to_move == Color::White, best),
            ),
        ),
{
    reveal(moves_come_to);
}

/// A move that ends the search is what the moves come to.
pub proof fn lemma_moves_end<E: StaticEvaluator>(
    judge: &E,
    is_pessimistic: bool,
    is_focussed: bool,
    before: InfoTable,
    state: BoardState,
    window: Bounds,
    depth: u8,
    moves: Seq<ChessMove>,
    k: nat,
    best: Option<(Score, ChessMove)>,
    step: SearchResult,
    mid: InfoTable,
    verdict: SearchResult,
)
    requires
        k < moves.len(),
        step_taken(step, mid),
        move_comes_of(
            judge,
            is_pessimistic,
            is_focussed,
            before,
            state,
            moves[k as int],
            window,
            depth,
            step,
            mid,
        ),
        step_after(state.side_to_move == Color::White, step) == AfterMove::End(verdict),
    ensures
        moves_come_to(
            judge,
            is_pessimistic,
            is_focussed,
            before,
            state,
            window,
            depth,
            moves,
            k,
            best,
            verdict,
            told(mid, state, depth, window, verdict),
        ),
{
    reveal(moves_come_to);
    reveal(move_comes_of);
}

/// What the moves after the `k`-th come to, once the `k`-th was searched
/// and did not end the search, is what the moves from the `k`-th on come
/// to.
pub proof fn lemma_moves_on<E: StaticEvaluator>(
    judge: &E,
    is_pessimistic: bool,
    is_focussed: bool,
    before: InfoTable,
    state: BoardState,
    window: Bounds,
    depth: u8,
    moves: Seq<ChessMove>,
    k: nat,
    best: Option<(Score, ChessMove)>,
    step: SearchResult,
    mid: InfoTable,
    result: SearchResult,
    after: InfoTable,
)
    requires
        k < moves.len(),
        step_taken(step, mid),
        move_comes_of(
            judge,
            is_pessimistic,
            is_focussed,
            before,
            state,
            moves[k as int],
            window,
            depth,
            step,
            mid,
        ),
        match step_after(state.side_to_move == Color::White, step) {
            AfterMove::End(_) => false,
            AfterMove::TakeNote(score) => moves_come_to(
                judge,
                is_pessimistic,
                is_focussed,
                mid,
                state,
                narrowed(window, state.side_to_move == Color::White, score),
                depth,
                moves,
                k + 1,
                better_of(state.side_to_move == Color::White, best, score, moves[k as int]),
                result,
                after,
            ),
            AfterMove::PassOver => moves_come_to(
                judge,
                is_pessimistic,
                is_focussed,
                mid,
                state,
                window,
                depth,
                moves,
                k + 1,
                best,
                result,
                after,
            ),
        },
    ensures
        moves_come_to(
            judge,
            is_pessimistic,
            is_focussed,
            before,
            state,
            window,
            depth,
            moves,
            k,
            best,
            result,
            after,
        ),
{
    reveal(moves_come_to);
    reveal(move_comes_of);
}

/// What the searches of the two outcomes of a move give is what comes of
/// the search of the move. Where the search without a bonus gives no score,
/// the search with a bonus is not made.
pub proof fn lemma_move_searched<E: StaticEvaluator>(
    judge: &E,
    is_pessimistic: bool,
    is_focussed: bool,
    before: InfoTable,
    state: BoardState,
    mv: ChessMove,
    window: Bounds,
    depth: u8,
    nb_result: SearchResult,
    first: InfoTable,
    b_result: SearchResult,
    second: InfoTable,
)
    requires
        depth > finish_of(is_focussed),
        two_steps(nb_result, first, b_result, second),
        ({
            let finish = finish_of(is_focussed);
            let b_state = after_move_and_flip(state, mv, depth > finish + 1, true);
            let nb_state = after_move_and_flip(state, mv, depth > finish + 1, false);
            let chances = reckoned_chances(
                is_pessimistic,
                state.side_to_move == Color::White,
                count_pieces(b_state.pieces, 64),
            );
            &&& search_comes_of(
                judge,
                is_pessimistic,
                is_focussed,
                before,
                nb_state,
                no_bonus_window(window, chances.0, chances.1),
                (depth - 1) as u8,
                false,
                nb_result,
                first,
            )
            &&& nb_result matches SearchResult::Result(nb_score, _) ==> search_comes_of(
                judge,
                is_pessimistic,
                is_focussed,
                first,
                b_state,
                bonus_window(window, chances.0, nb_score, chances.1),
                bonus_depth(is_focussed, depth),
                false,
                b_result,
                second,
            )
        }),
    ensures
        ({
            let finish = finish_of(is_focussed);
            let b_state = after_move_and_flip(state, mv, depth > finish + 1, true);
            let chances = reckoned_chances(
                is_pessimistic,
                state.side_to_move == Color::White,
                count_pieces(b_state.pieces, 64),
            );
            match nb_result {
                SearchResult::Result(nb_score, _) => move_comes_of(
                    judge,
                    is_pessimistic,
                    is_focussed,
                    before,
                    state,
                    mv,
                    window,
                    depth,
                    joined(window, chances.0, chances.1, nb_score, b_result),
                    second,
                ),
                _ => move_comes_of(
                    judge,
                    is_pessimistic,
                    is_focussed,
                    before,
                    state,
                    mv,
                    window,
                    depth,
                    nb_result,
                    first,
                ),
            }
        }),
{
    reveal(move_comes_of);
    reveal(search_comes_of);
}

/// Whether the search before was one that can be built on: it left the
/// table whole and gave a score in `[0, 1]`.
pub open spec fn deepened(before: InfoTable, score: Score, earlier: ChessMove) -> bool {
    whole(before) && score.in_unit()
}

/// Whether searches of a state to the depths from 2 to `depth`, one after
/// the other with the widest window and each with the table as the one
/// before left it, can all be done, the last of them naming the move `mv`
/// and leaving the table as `after`.
#[verifier::opaque]
pub open spec fn deepening_comes_to<E: StaticEvaluator>(
    judge: &E,
    is_pessimistic: bool,
    is_focussed: bool,
    start: InfoTable,
    state: BoardState,
    depth: u8,
    mv: ChessMove,
    after: InfoTable,
) -> bool
    decreases depth,
{
    depth >= 2 && exists|before: InfoTable, score: Score, earlier: ChessMove|
        #[trigger] deepened(before, score, earlier) && (if depth == 2 {
            before == start
        } else {
            deepening_comes_to(
                judge,
                is_pessimistic,
                is_focussed,
                start,
                state,
                (depth - 1) as u8,
                earlier,
                before,
            )
        }) && search_comes_of(
            judge,
            is_pessimistic,
            is_focussed,
            before,
            state,
            Bounds::spec_widest(),
            depth,
            true,
            SearchResult::Result(score, Some(mv)),
            after,
        )
}

/// One more search that was done, on top of those before, is a deepening
/// to its depth.
pub proof fn lemma_deepening_more<E: StaticEvaluator>(
    judge: &E,
    is_pessimistic: bool,
    is_focussed: bool,
    start: InfoTable,
    state: BoardState,
    depth: u8,
    earlier: ChessMove,
    before: InfoTable,
    score: Score,
    mv: ChessMove,
    after: InfoTable,
)
    requires
        depth >= 2,
        deepened(before, score, earlier),
        if depth == 2 {
            before == start
        } else {
            deepening_comes_to(
                judge,
                is_pessimistic,
                is_focussed,
                start,
                state,
                (depth - 1) as u8,
                earlier,
                before,
            )
        },
        search_comes_of(
            judge,
            is_pessimistic,
            is_focussed,
            before,
            state,
            Bounds::spec_widest(),
            depth,
            true,
            SearchResult::Result(score, Some(mv)),
            after,
        ),
    ensures
        deepening_comes_to(judge, is_pessimistic, is_focussed, start, state, depth, mv, after),
{
    reveal(deepening_comes_to);
}

} // verus!
