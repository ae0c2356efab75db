//! Every score that comes of a search lies in `[0, 1]`.
//!
//! The scores of a search are answers of the judge, scores that the table
//! pins down, and means of such scores by chances that add up to 1. So they
//! lie in `[0, 1]` whatever the window is, as long as the table pins no
//! score down outside `[0, 1]`; and the search leaves a table of that kind.

use crate::board_model::count_pieces;
use crate::board_model::BoardState;
use crate::board_model::Status;
use crate::chess_types::ChessMove;
use crate::chess_types::Color;
use crate::engine::alphabeta::bounds::Bounds;
use crate::engine::alphabeta::chance::bonus_window;
use crate::engine::alphabeta::chance::chances_ok;
use crate::engine::alphabeta::chance::lemma_chance_value_in_unit;
use crate::engine::alphabeta::chance::no_bonus_window;
use crate::engine::alphabeta::relation::goes_on_to;
use crate::engine::alphabeta::relation::with_bonus_to;
use crate::engine::alphabeta::order_key;
use crate::engine::alphabeta::ordering::moves_of;
use crate::engine::alphabeta::ordering::sorted_by_key;
use crate::engine::alphabeta::ordering::KeyedMove;
use crate::engine::alphabeta::reckoned_chances;
use crate::engine::alphabeta::record_of_result;
use crate::engine::alphabeta::relation::bonus_depth;
use crate::engine::alphabeta::relation::finish_of;
use crate::engine::alphabeta::relation::keys_come_to;
use crate::engine::alphabeta::relation::move_comes_of;
use crate::engine::alphabeta::relation::moves_come_to;
use crate::engine::alphabeta::relation::narrowed;
use crate::engine::alphabeta::relation::order_comes_to;
use crate::engine::alphabeta::relation::parameters_at;
use crate::engine::alphabeta::relation::position_at;
use crate::engine::alphabeta::relation::score_for_order;
use crate::engine::alphabeta::relation::scored;
use crate::engine::alphabeta::relation::search_comes_of;
use crate::engine::alphabeta::relation::settled_by_table;
use crate::engine::alphabeta::relation::step_taken;
use crate::engine::alphabeta::relation::told;
use crate::engine::alphabeta::relation::two_steps;
use crate::engine::alphabeta::relation::whole;
use crate::engine::alphabeta::relation::InfoTable;
use crate::engine::alphabeta::score_info::ScoreInfo;
use crate::engine::alphabeta::search_result::SearchResult;
use crate::engine::alphabeta::step_after;
use crate::engine::alphabeta::AfterMove;
use crate::engine::better_of;
use crate::engine::evaluator::lemma_answer_sound;
use crate::engine::evaluator::StaticEvaluator;
use crate::engine::minimax::after_move_and_flip;
use crate::engine::position_table::inserted;
use crate::engine::position_table::Parameters;
use crate::engine::position_table::Position;
use crate::score::Score;
use vstd::prelude::*;

verus! {

/// Whether a record that pins a score down pins it in `[0, 1]`.
pub open spec fn pins_in_unit(info: ScoreInfo) -> bool {
    info.spec_actual_score() matches Some(score) ==> score.in_unit()
}

/// Whether a table has all its slots and pins no score down outside
/// `[0, 1]`.
pub open spec fn tame(table: InfoTable) -> bool {
    whole(table) && forall|i: int|
        0 <= i < table.len() ==> ((#[trigger] table[i]) matches Some(e) ==> pins_in_unit(e.score))
}

/// Whether a result with a score has it in `[0, 1]`.
pub open spec fn score_in_unit(result: SearchResult) -> bool {
    result matches SearchResult::Result(score, _) ==> score.in_unit()
}

/// A tame table stays tame when it is offered a record that pins no score
/// down outside `[0, 1]`.
pub proof fn lemma_insert_tame(
    table: InfoTable,
    position: Position,
    params: Parameters,
    info: ScoreInfo,
)
    requires
        tame(table),
        pins_in_unit(info),
    ensures
        tame(inserted(table, position, params, info)),
{
    let out = inserted(table, position, params, info);
    assert forall|i: int| 0 <= i < out.len() implies ((#[trigger] out[i]) matches Some(e)
        ==> pins_in_unit(e.score)) by {
        if i != position.spec_as_index() {
            assert(out[i] == table[i]);
        }
    }
}

/// A tame table stays tame when it is told how a search ended whose score,
/// if it has one, lies in `[0, 1]`.
pub proof fn lemma_told_tame(
    table: InfoTable,
    state: BoardState,
    depth: u8,
    window: Bounds,
    result: SearchResult,
)
    requires
        tame(table),
        score_in_unit(result),
    ensures
        tame(told(table, state, depth, window, result)),
{
    match record_of_result(window, result) {
        Some(info) => {
            lemma_insert_tame(table, position_at(state), parameters_at(state, depth), info);
        },
        None => {},
    }
}

/// The chances that a search reckons with are positive and add up to 1.
pub proof fn lemma_reckoned_chances_ok(is_pessimistic: bool, is_maxing: bool, piece_count: nat)
    ensures
        chances_ok(
            reckoned_chances(is_pessimistic, is_maxing, piece_count).0,
            reckoned_chances(is_pessimistic, is_maxing, piece_count).1,
        ),
{
}

/// The scores for the order of the moves leave a tame table tame.
pub proof fn lemma_keys_tame<E: StaticEvaluator>(
    judge: &E,
    is_focussed: bool,
    before: InfoTable,
    state: BoardState,
    n: nat,
    keyed: Seq<KeyedMove>,
    after: InfoTable,
)
    requires
        tame(before),
        keys_come_to(judge, is_focussed, before, state, n, keyed, after),
    ensures
        tame(after),
    decreases n,
{
    reveal(keys_come_to);
    if n > 0 {
        let child = after_move_and_flip(state, state.all_moves()[n - 1], false, false);
        let is_maxing = state.side_to_move == Color::White;
        let (score, mid) = choose|score: Score, mid: InfoTable|
            #[trigger] scored(score, mid) && keys_come_to(
                judge,
                is_focussed,
                before,
                state,
                (n - 1) as nat,
                keyed.drop_last(),
                mid,
            ) && score_for_order(judge, is_focussed, mid, child, score, after) && keyed.last().key
                == order_key(is_maxing, score);
        lemma_keys_tame(judge, is_focussed, before, state, (n - 1) as nat, keyed.drop_last(), mid);
        if after != mid {
            lemma_answer_sound(judge, child, score);
            lemma_insert_tame(
                mid,
                position_at(child),
                parameters_at(child, finish_of(is_focussed)),
                ScoreInfo { min: score, max: score },
            );
        }
    }
}

/// Whatever comes of a search with a tame table, in whatever window: a
/// score lies in `[0, 1]`, and the table is tame afterwards.
pub proof fn lemma_search_in_unit<E: StaticEvaluator>(
    judge: &E,
    is_pessimistic: bool,
    is_focussed: bool,
    before: InfoTable,
    state: BoardState,
    bounds: Bounds,
    depth: u8,
    get_move: bool,
    result: SearchResult,
    after: InfoTable,
)
    requires
        tame(before),
        search_comes_of(
            judge,
            is_pessimistic,
            is_focussed,
            before,
            state,
            bounds,
            depth,
            get_move,
            result,
            after,
        ),
    ensures
        score_in_unit(result),
        tame(after),
    decreases depth, 2nat, 0nat,
{
    reveal(search_comes_of);
    reveal(moves_come_to);
    reveal(move_comes_of);
    if settled_by_table(before, state, bounds, depth, get_move) is Some {
        assert(before[position_at(state).spec_as_index() as int] is Some);
    } else if depth <= finish_of(is_focussed) || state.status != Status::InProgress {
        let score = choose|score: Score|
            #[trigger] crate::engine::evaluator::answer_for(judge, state, score) && result
                == crate::engine::alphabeta::score_verdict(bounds, score) && after == inserted(
                before,
                position_at(state),
                parameters_at(state, depth),
                ScoreInfo { min: score, max: score },
            );
        lemma_answer_sound(judge, state, score);
        lemma_insert_tame(
            before,
            position_at(state),
            parameters_at(state, depth),
            ScoreInfo { min: score, max: score },
        );
    } else {
        let (moves, ordered) = choose|moves: Seq<ChessMove>, ordered: InfoTable|
            #[trigger] order_comes_to(judge, is_focussed, before, state, depth, moves, ordered)
                && moves_come_to(
                judge,
                is_pessimistic,
                is_focussed,
                ordered,
                state,
                bounds,
                depth,
                moves,
                0,
                None,
                result,
                after,
            );
        if depth > finish_of(is_focussed) + 1 {
            let n = state.all_moves().len();
            let keyed = choose|keyed: Seq<KeyedMove>|
                #[trigger] keys_come_to(judge, is_focussed, before, state, n, keyed, ordered)
                    && moves == moves_of(sorted_by_key(keyed));
            lemma_keys_tame(judge, is_focussed, before, state, n, keyed, ordered);
        }
        lemma_moves_in_unit(
            judge,
            is_pessimistic,
            is_focussed,
            ordered,
            state,
            bounds,
            depth,
            moves,
            0,
            None,
            result,
            after,
        );
    }
}

/// Whatever the moves that are left come to, with a tame table and a best
/// score so far in `[0, 1]`: a score lies in `[0, 1]`, and the table is tame
/// afterwards.
pub proof fn lemma_moves_in_unit<E: StaticEvaluator>(
    judge: &E,
    is_pessimistic: bool,
    is_focussed: bool,
    before: InfoTable,
    state: BoardState,
    window: Bounds,
    depth: u8,
    moves: Seq<ChessMove>,
    k: nat,
    best: Option<(Score, ChessMove)>,
    result: SearchResult,
    after: InfoTable,
)
    requires
        tame(before),
        best matches Some((score, _)) ==> score.in_unit(),
        moves_come_to(
            judge,
            is_pessimistic,
            is_focussed,
            before,
            state,
            window,
            depth,
            moves,
            k,
            best,
            result,
            after,
        ),
    ensures
        score_in_unit(result),
        tame(after),
    decreases depth, 1nat, moves.len() - k,
{
    reveal(search_comes_of);
    reveal(moves_come_to);
    reveal(move_comes_of);
    let is_maxing = state.side_to_move == Color::White;
    if k >= moves.len() {
        lemma_told_tame(before, state, depth, window, result);
    } else {
        let (step, mid) = choose|step: SearchResult, mid: InfoTable|
            #[trigger] step_taken(step, mid) && move_comes_of(
                judge,
                is_pessimistic,
                is_focussed,
                before,
                state,
                moves[k as int],
                window,
                depth,
                step,
                mid,
            ) && goes_on_to(
                judge,
                is_pessimistic,
                is_focussed,
                state,
                window,
                depth,
                moves,
                k,
                best,
                step,
                mid,
                result,
                after,
            );
        lemma_move_in_unit(
            judge,
            is_pessimistic,
            is_focussed,
            before,
            state,
            moves[k as int],
            window,
            depth,
            step,
            mid,
        );
        match step_after(is_maxing, step) {
            AfterMove::End(verdict) => {
                lemma_told_tame(mid, state, depth, window, verdict);
            },
            AfterMove::TakeNote(score) => {
                lemma_moves_in_unit(
                    judge,
                    is_pessimistic,
                    is_focussed,
                    mid,
                    state,
                    narrowed(window, is_maxing, score),
                    depth,
                    moves,
                    k + 1,
                    better_of(is_maxing, best, score, moves[k as int]),
                    result,
                    after,
                );
            },
            AfterMove::PassOver => {
                lemma_moves_in_unit(
                    judge,
                    is_pessimistic,
                    is_focussed,
                    mid,
                    state,
                    window,
                    depth,
                    moves,
                    k + 1,
                    best,
                    result,
                    after,
                );
            },
        }
    }
}

/// Whatever comes of the search of a move with a tame table: a score lies
/// in `[0, 1]`, and the table is tame afterwards.
pub proof fn lemma_move_in_unit<E: StaticEvaluator>(
    judge: &E,
    is_pessimistic: bool,
    is_focussed: bool,
    before: InfoTable,
    state: BoardState,
    mv: ChessMove,
    window: Bounds,
    depth: u8,
    result: SearchResult,
    after: InfoTable,
)
    requires
        tame(before),
        move_comes_of(
            judge,
            is_pessimistic,
            is_focussed,
            before,
            state,
            mv,
            window,
            depth,
            result,
            after,
        ),
    ensures
        score_in_unit(result),
        tame(after),
    decreases depth, 0nat, 0nat,
{
    reveal(search_comes_of);
    reveal(moves_come_to);
    reveal(move_comes_of);
    let finish = finish_of(is_focussed);
    let b_state = after_move_and_flip(state, mv, depth > finish + 1, true);
    let nb_state = after_move_and_flip(state, mv, depth > finish + 1, false);
    let chances = reckoned_chances(
        is_pessimistic,
        state.side_to_move == Color::White,
        count_pieces(b_state.pieces, 64),
    );
    let nb_window = no_bonus_window(window, chances.0, chances.1);
    let (nb_result, first, b_result, second) = choose|
        nb_result: SearchResult,
        first: InfoTable,
        b_result: SearchResult,
        second: InfoTable,
    |
        #[trigger] two_steps(nb_result, first, b_result, second) && search_comes_of(
            judge,
            is_pessimistic,
            is_focussed,
            before,
            nb_state,
            nb_window,
            (depth - 1) as u8,
            false,
            nb_result,
            first,
        ) && with_bonus_to(
            judge,
            is_pessimistic,
            is_focussed,
            b_state,
            window,
            chances,
            depth,
            nb_result,
            first,
            b_result,
            second,
            result,
            after,
        );
    lemma_search_in_unit(
        judge,
        is_pessimistic,
        is_focussed,
        before,
        nb_state,
        nb_window,
        (depth - 1) as u8,
        false,
        nb_result,
        first,
    );
    match nb_result {
        SearchResult::Result(nb_score, _) => {
            lemma_search_in_unit(
                judge,
                is_pessimistic,
                is_focussed,
                first,
                b_state,
                bonus_window(window, chances.0, nb_score, chances.1),
                bonus_depth(is_focussed, depth),
                false,
                b_result,
                second,
            );
            match b_result {
                SearchResult::Result(b_score, _) => {
                    lemma_reckoned_chances_ok(
                        is_pessimistic,
                        state.side_to_move == Color::White,
                        count_pieces(b_state.pieces, 64),
                    );
                    lemma_chance_value_in_unit(b_score, chances.0, nb_score, chances.1);
                },
                _ => {},
            }
        },
        _ => {},
    }
}

} // verus!
