//! A search with a judge that gives every state one answer only has one
//! outcome only.
//!
//! What a search returns is related to its inputs by the answers that the
//! judge can give. Where the judge can give one answer only, the relation
//! is a function: the same table, state, window and depth lead to the same
//! result and the same table, as long as no deadline cuts the search short.

use crate::board_model::count_pieces;
use crate::board_model::BoardState;
use crate::chess_types::ChessMove;
use crate::chess_types::Color;
use crate::engine::alphabeta::bounds::Bounds;
use crate::engine::alphabeta::chance::bonus_window;
use crate::engine::alphabeta::chance::no_bonus_window;
use crate::engine::alphabeta::ordering::KeyedMove;
use crate::engine::alphabeta::reckoned_chances;
use crate::engine::alphabeta::relation::bonus_depth;
use crate::engine::alphabeta::relation::deepened;
use crate::engine::alphabeta::relation::deepening_comes_to;
use crate::engine::alphabeta::relation::finish_of;
use crate::engine::alphabeta::relation::goes_on_to;
use crate::engine::alphabeta::relation::keys_come_to;
use crate::engine::alphabeta::relation::move_comes_of;
use crate::engine::alphabeta::relation::moves_come_to;
use crate::engine::alphabeta::relation::narrowed;
use crate::engine::alphabeta::relation::order_comes_to;
use crate::engine::alphabeta::relation::parameters_at;
use crate::engine::alphabeta::relation::position_at;
use crate::engine::alphabeta::relation::score_for_order;
use crate::engine::alphabeta::relation::scored;
use crate::engine::alphabeta::relation::search_comes_of;
use crate::engine::alphabeta::relation::step_taken;
use crate::engine::alphabeta::relation::two_steps;
use crate::engine::alphabeta::relation::with_bonus_to;
use crate::engine::alphabeta::relation::InfoTable;
use crate::engine::alphabeta::relation::settled_by_table;
use crate::board_model::Status;
use crate::engine::alphabeta::search_result::SearchResult;
use crate::engine::alphabeta::score_verdict;
use crate::engine::alphabeta::step_after;
use crate::engine::alphabeta::AfterMove;
use crate::engine::better_of;
use crate::engine::evaluator::of_one_mind;
use crate::engine::evaluator::StaticEvaluator;
use crate::engine::minimax::after_move_and_flip;
use crate::engine::position_table::looked_up;
use crate::score::Score;
use vstd::prelude::*;

verus! {

/// With a judge of one mind, a state has one score for the order of the
/// moves, and the table after it is one table.
pub proof fn lemma_order_score_determined<E: StaticEvaluator>(
    judge: &E,
    is_focussed: bool,
    before: InfoTable,
    state: BoardState,
    score: Score,
    after: InfoTable,
    other_score: Score,
    other_after: InfoTable,
)
    requires
        of_one_mind(judge),
        score_for_order(judge, is_focussed, before, state, score, after),
        score_for_order(judge, is_focussed, before, state, other_score, other_after),
    ensures
        score == other_score,
        after == other_after,
{
}

/// With a judge of one mind, the moves of a state get one sequence of keys.
pub proof fn lemma_keys_determined<E: StaticEvaluator>(
    judge: &E,
    is_focussed: bool,
    before: InfoTable,
    state: BoardState,
    n: nat,
    keyed: Seq<KeyedMove>,
    after: InfoTable,
    other_keyed: Seq<KeyedMove>,
    other_after: InfoTable,
)
    requires
        of_one_mind(judge),
        keys_come_to(judge, is_focussed, before, state, n, keyed, after),
        keys_come_to(judge, is_focussed, before, state, n, other_keyed, other_after),
    ensures
        keyed == other_keyed,
        after == other_after,
    decreases n,
{
    reveal(keys_come_to);
    if n == 0 {
        assert(keyed =~= other_keyed);
    } else {
        let child = after_move_and_flip(state, state.all_moves()[n - 1], false, false);
        let is_maxing = state.side_to_move == Color::White;
        let (score, mid) = choose|score: Score, mid: InfoTable|
            #[trigger] scored(score, mid) && keys_come_to(
                judge,
                is_focussed,
                before,
                state,
                (n - 1) as nat,
                keyed.drop_last(),
                mid,
            ) && score_for_order(judge, is_focussed, mid, child, score, after) && keyed.last().key
                == crate::engine::alphabeta::order_key(is_maxing, score);
        let (other_score, other_mid) = choose|score: Score, mid: InfoTable|
            #[trigger] scored(score, mid) && keys_come_to(
                judge,
                is_focussed,
                before,
                state,
                (n - 1) as nat,
                other_keyed.drop_last(),
                mid,
            ) && score_for_order(judge, is_focussed, mid, child, score, other_after)
                && other_keyed.last().key == crate::engine::alphabeta::order_key(is_maxing, score);
        lemma_keys_determined(
            judge,
            is_focussed,
            before,
            state,
            (n - 1) as nat,
            keyed.drop_last(),
            mid,
            other_keyed.drop_last(),
            other_mid,
        );
        lemma_order_score_determined(
            judge,
            is_focussed,
            mid,
            child,
            score,
            after,
            other_score,
            other_after,
        );
        assert(keyed =~= keyed.drop_last().push(keyed.last()));
        assert(other_keyed =~= other_keyed.drop_last().push(other_keyed.last()));
    }
}

/// With a judge of one mind, a search tries the moves in one order.
pub proof fn lemma_order_determined<E: StaticEvaluator>(
    judge: &E,
    is_focussed: bool,
    before: InfoTable,
    state: BoardState,
    depth: u8,
    moves: Seq<ChessMove>,
    after: InfoTable,
    other_moves: Seq<ChessMove>,
    other_after: InfoTable,
)
    requires
        of_one_mind(judge),
        order_comes_to(judge, is_focussed, before, state, depth, moves, after),
        order_comes_to(judge, is_focussed, before, state, depth, other_moves, other_after),
    ensures
        moves == other_moves,
        after == other_after,
{
    if depth > finish_of(is_focussed) + 1 {
        let n = state.all_moves().len();
        let keyed = choose|keyed: Seq<KeyedMove>|
            #[trigger] keys_come_to(judge, is_focussed, before, state, n, keyed, after) && moves
                == crate::engine::alphabeta::ordering::moves_of(
                crate::engine::alphabeta::ordering::sorted_by_key(keyed),
            );
        let other_keyed = choose|keyed: Seq<KeyedMove>|
            #[trigger] keys_come_to(judge, is_focussed, before, state, n, keyed, other_after)
                && other_moves == crate::engine::alphabeta::ordering::moves_of(
                crate::engine::alphabeta::ordering::sorted_by_key(keyed),
            );
        lemma_keys_determined(
            judge,
            is_focussed,
            before,
            state,
            n,
            keyed,
            after,
            other_keyed,
            other_after,
        );
    }
}

/// With a judge of one mind, a search has one result and leaves one table.
pub proof fn lemma_search_determined<E: StaticEvaluator>(
    judge: &E,
    is_pessimistic: bool,
    is_focussed: bool,
    before: InfoTable,
    state: BoardState,
    bounds: Bounds,
    depth: u8,
    get_move: bool,
    result: SearchResult,
    after: InfoTable,
    other_result: SearchResult,
    other_after: InfoTable,
)
    requires
        of_one_mind(judge),
        search_comes_of(
            judge,
            is_pessimistic,
            is_focussed,
            before,
            state,
            bounds,
            depth,
            get_move,
            result,
            after,
        ),
        search_comes_of(
            judge,
            is_pessimistic,
            is_focussed,
            before,
            state,
            bounds,
            depth,
            get_move,
            other_result,
            other_after,
        ),
    ensures
        result == other_result,
        after == other_after,
    decreases depth, 2nat, 0nat,
{
    reveal(search_comes_of);
    reveal(moves_come_to);
    reveal(move_comes_of);
    if settled_by_table(before, state, bounds, depth, get_move) is None && !(depth <= finish_of(
        is_focussed,
    ) || state.status != Status::InProgress) {
        let (moves, ordered) = choose|moves: Seq<ChessMove>, ordered: InfoTable|
            #[trigger] order_comes_to(judge, is_focussed, before, state, depth, moves, ordered)
                && moves_come_to(
                judge,
                is_pessimistic,
                is_focussed,
                ordered,
                state,
                bounds,
                depth,
                moves,
                0,
                None,
                result,
                after,
            );
        let (other_moves, other_ordered) = choose|moves: Seq<ChessMove>, ordered: InfoTable|
            #[trigger] order_comes_to(judge, is_focussed, before, state, depth, moves, ordered)
                && moves_come_to(
                judge,
                is_pessimistic,
                is_focussed,
                ordered,
                state,
                bounds,
                depth,
                moves,
                0,
                None,
                other_result,
                other_after,
            );
        lemma_order_determined(
            judge,
            is_focussed,
            before,
            state,
            depth,
            moves,
            ordered,
            other_moves,
            other_ordered,
        );
        lemma_moves_determined(
            judge,
            is_pessimistic,
            is_focussed,
            ordered,
            state,
            bounds,
            depth,
            moves,
            0,
            None,
            result,
            after,
            other_result,
            other_after,
        );
    }
}

/// With a judge of one mind, the moves that are left come to one result
/// and leave one table.
pub proof fn lemma_moves_determined<E: StaticEvaluator>(
    judge: &E,
    is_pessimistic: bool,
    is_focussed: bool,
    before: InfoTable,
    state: BoardState,
    window: Bounds,
    depth: u8,
    moves: Seq<ChessMove>,
    k: nat,
    best: Option<(Score, ChessMove)>,
    result: SearchResult,
    after: InfoTable,
    other_result: SearchResult,
    other_after: InfoTable,
)
    requires
        of_one_mind(judge),
        moves_come_to(
            judge,
            is_pessimistic,
            is_focussed,
            before,
            state,
            window,
            depth,
            moves,
            k,
            best,
            result,
            after,
        ),
        moves_come_to(
            judge,
            is_pessimistic,
            is_focussed,
            before,
            state,
            window,
            depth,
            moves,
            k,
            best,
            other_result,
            other_after,
        ),
    ensures
        result == other_result,
        after == other_after,
    decreases depth, 1nat, moves.len() - k,
{
    reveal(search_comes_of);
    reveal(moves_come_to);
    reveal(move_comes_of);
    let is_maxing = state.side_to_move == Color::White;
    if k < moves.len() {
        let (step, mid) = choose|step: SearchResult, mid: InfoTable|
            #[trigger] step_taken(step, mid) && move_comes_of(
                judge,
                is_pessimistic,
                is_focussed,
                before,
                state,
                moves[k as int],
                window,
                depth,
                step,
                mid,
            ) && goes_on_to(
                judge,
                is_pessimistic,
                is_focussed,
                state,
                window,
                depth,
                moves,
                k,
                best,
                step,
                mid,
                result,
                after,
            );
        let (other_step, other_mid) = choose|step: SearchResult, mid: InfoTable|
            #[trigger] step_taken(step, mid) && move_comes_of(
                judge,
                is_pessimistic,
                is_focussed,
                before,
                state,
                moves[k as int],
                window,
                depth,
                step,
                mid,
            ) && goes_on_to(
                judge,
                is_pessimistic,
                is_focussed,
                state,
                window,
                depth,
                moves,
                k,
                best,
                step,
                mid,
                other_result,
                other_after,
            );
        lemma_move_determined(
            judge,
            is_pessimistic,
            is_focussed,
            before,
            state,
            moves[k as int],
            window,
            depth,
            step,
            mid,
            other_step,
            other_mid,
        );
        match step_after(is_maxing, step) {
            AfterMove::End(_) => {},
            AfterMove::TakeNote(score) => {
                lemma_moves_determined(
                    judge,
                    is_pessimistic,
                    is_focussed,
                    mid,
                    state,
                    narrowed(window, is_maxing, score),
                    depth,
                    moves,
                    k + 1,
                    better_of(is_maxing, best, score, moves[k as int]),
                    result,
                    after,
                    other_result,
                    other_after,
                );
            },
            AfterMove::PassOver => {
                lemma_moves_determined(
                    judge,
                    is_pessimistic,
                    is_focussed,
                    mid,
                    state,
                    window,
                    depth,
                    moves,
                    k + 1,
                    best,
                    result,
                    after,
                    other_result,
                    other_after,
                );
            },
        }
    }
}

/// With a judge of one mind, the search of a move has one result and
/// leaves one table.
pub proof fn lemma_move_determined<E: StaticEvaluator>(
    judge: &E,
    is_pessimistic: bool,
    is_focussed: bool,
    before: InfoTable,
    state: BoardState,
    mv: ChessMove,
    window: Bounds,
    depth: u8,
    result: SearchResult,
    after: InfoTable,
    other_result: SearchResult,
    other_after: InfoTable,
)
    requires
        of_one_mind(judge),
        move_comes_of(
            judge,
            is_pessimistic,
            is_focussed,
            before,
            state,
            mv,
            window,
            depth,
            result,
            after,
        ),
        move_comes_of(
            judge,
            is_pessimistic,
            is_focussed,
            before,
            state,
            mv,
            window,
            depth,
            other_result,
            other_after,
        ),
    ensures
        result == other_result,
        after == other_after,
    decreases depth, 0nat, 0nat,
{
    reveal(search_comes_of);
    reveal(moves_come_to);
    reveal(move_comes_of);
    let finish = finish_of(is_focussed);
    let b_state = after_move_and_flip(state, mv, depth > finish + 1, true);
    let nb_state = after_move_and_flip(state, mv, depth > finish + 1, false);
    let chances = reckoned_chances(
        is_pessimistic,
        state.side_to_move == Color::White,
        count_pieces(b_state.pieces, 64),
    );
    let nb_window = no_bonus_window(window, chances.0, chances.1);
    let (nb_result, first, b_result, second) = choose|
        nb_result: SearchResult,
        first: InfoTable,
        b_result: SearchResult,
        second: InfoTable,
    |
        #[trigger] two_steps(nb_result, first, b_result, second) && search_comes_of(
            judge,
            is_pessimistic,
            is_focussed,
            before,
            nb_state,
            nb_window,
            (depth - 1) as u8,
            false,
            nb_result,
            first,
        ) && with_bonus_to(
            judge,
            is_pessimistic,
            is_focussed,
            b_state,
            window,
            chances,
            depth,
            nb_result,
            first,
            b_result,
            second,
            result,
            after,
        );
    let (other_nb_result, other_first, other_b_result, other_second) = choose|
        nb_result: SearchResult,
        first: InfoTable,
        b_result: SearchResult,
        second: InfoTable,
    |
        #[trigger] two_steps(nb_result, first, b_result, second) && search_comes_of(
            judge,
            is_pessimistic,
            is_focussed,
            before,
            nb_state,
            nb_window,
            (depth - 1) as u8,
            false,
            nb_result,
            first,
        ) && with_bonus_to(
            judge,
            is_pessimistic,
            is_focussed,
            b_state,
            window,
            chances,
            depth,
            nb_result,
            first,
            b_result,
            second,
            other_result,
            other_after,
        );
    lemma_search_determined(
        judge,
        is_pessimistic,
        is_focussed,
        before,
        nb_state,
        nb_window,
        (depth - 1) as u8,
        false,
        nb_result,
        first,
        other_nb_result,
        other_first,
    );
    match nb_result {
        SearchResult::Result(nb_score, _) => {
            lemma_search_determined(
                judge,
                is_pessimistic,
                is_focussed,
                first,
                b_state,
                bonus_window(window, chances.0, nb_score, chances.1),
                bonus_depth(is_focussed, depth),
                false,
                b_result,
                second,
                other_b_result,
                other_second,
            );
        },
        _ => {},
    }
}

/// With a judge of one mind, the searches to deeper and deeper depths name
/// one move and leave one table.
pub proof fn lemma_deepening_determined<E: StaticEvaluator>(
    judge: &E,
    is_pessimistic: bool,
    is_focussed: bool,
    start: InfoTable,
    state: BoardState,
    depth: u8,
    mv: ChessMove,
    after: InfoTable,
    other_mv: ChessMove,
    other_after: InfoTable,
)
    requires
        of_one_mind(judge),
        deepening_comes_to(judge, is_pessimistic, is_focussed, start, state, depth, mv, after),
        deepening_comes_to(
            judge,
            is_pessimistic,
            is_focussed,
            start,
            state,
            depth,
            other_mv,
            other_after,
        ),
    ensures
        mv == other_mv,
        after == other_after,
    decreases depth,
{
    reveal(deepening_comes_to);
    let (before, score, earlier) = choose|before: InfoTable, score: Score, earlier: ChessMove|
        #[trigger] deepened(before, score, earlier) && (if depth == 2 {
            before == start
        } else {
            deepening_comes_to(
                judge,
                is_pessimistic,
                is_focussed,
                start,
                state,
                (depth - 1) as u8,
                earlier,
                before,
            )
        }) && search_comes_of(
            judge,
            is_pessimistic,
            is_focussed,
            before,
            state,
            Bounds::spec_widest(),
            depth,
            true,
            SearchResult::Result(score, Some(mv)),
            after,
        );
    let (other_before, other_score, other_earlier) = choose|
        before: InfoTable,
        score: Score,
        earlier: ChessMove,
    |
        #[trigger] deepened(before, score, earlier) && (if depth == 2 {
            before == start
        } else {
            deepening_comes_to(
                judge,
                is_pessimistic,
                is_focussed,
                start,
                state,
                (depth - 1) as u8,
                earlier,
                before,
            )
        }) && search_comes_of(
            judge,
            is_pessimistic,
            is_focussed,
            before,
            state,
            Bounds::spec_widest(),
            depth,
            true,
            SearchResult::Result(score, Some(other_mv)),
            other_after,
        );
    if depth > 2 {
        lemma_deepening_determined(
            judge,
            is_pessimistic,
            is_focussed,
            start,
            state,
            (depth - 1) as u8,
            earlier,
            before,
            other_earlier,
            other_before,
        );
    }
    lemma_search_determined(
        judge,
        is_pessimistic,
        is_focussed,
        before,
        state,
        Bounds::spec_widest(),
        depth,
        true,
        SearchResult::Result(score, Some(mv)),
        after,
        SearchResult::Result(other_score, Some(other_mv)),
        other_after,
    );
}

/// Where a search ends with the word of a judge of one mind, the window
/// decides the verdict and nothing else: in the widest window the search
/// gives the score, and in any other window the same score if it lies
/// inside, else the side on which it lies; and the table is left the same.
///
/// This is so at the finish depth or the end of the game, for a state of
/// which the table has no record that the search can trust.
pub proof fn lemma_judged_in_window<E: StaticEvaluator>(
    judge: &E,
    is_pessimistic: bool,
    is_focussed: bool,
    before: InfoTable,
    state: BoardState,
    window: Bounds,
    depth: u8,
    get_move: bool,
    widest_result: SearchResult,
    widest_after: InfoTable,
    result: SearchResult,
    after: InfoTable,
)
    requires
        of_one_mind(judge),
        depth <= finish_of(is_focussed) || state.status != Status::InProgress,
        looked_up(before, position_at(state), parameters_at(state, depth)) is None,
        search_comes_of(
            judge,
            is_pessimistic,
            is_focussed,
            before,
            state,
            Bounds::spec_widest(),
            depth,
            get_move,
            widest_result,
            widest_after,
        ),
        search_comes_of(
            judge,
            is_pessimistic,
            is_focussed,
            before,
            state,
            window,
            depth,
            get_move,
            result,
            after,
        ),
    ensures
        widest_result matches SearchResult::Result(score, None) && result == score_verdict(
            window,
            score,
        ),
        after == widest_after,
{
    reveal(search_comes_of);
}

} // verus!
