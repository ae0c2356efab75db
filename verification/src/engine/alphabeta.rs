//! Expectiminimax search with interval pruning at the chance nodes.
//!
//! A position is worth what the best move of the side to move is worth, and
//! a move is worth the mean of what follows with and without a bonus. The
//! search looks for the worth inside a window and gives up on a position as
//! soon as it knows that the worth lies outside. What it finds out goes into
//! a table, from which later searches take scores and the order in which
//! they try the moves. The driver searches deeper and deeper until the time
//! is up, and plays the best move of the last search that finished.

pub mod bounds;
pub mod branch_info;
pub mod chance;
pub mod determined;
pub mod ordering;
pub mod relation;
pub mod score_info;
pub mod search_result;
pub mod unit_scores;

use bounds::Bounds;
use bounds::capped_at;
use bounds::lemma_update_valid;
use bounds::raised_to;
use branch_info::BranchInfo;
use branch_info::counted;
use branch_info::LayerInfo;
use branch_info::statistics_text;
use chance::chances_ok;
use chance::lemma_windows_sound;
use chance::weigh;
use chance::window_with_bonus;
use chance::window_without_bonus;
use crate::board_model::lemma_all_moves_can_move;
use crate::board_model::Status;
use crate::BONUS_BITS;
use crate::bonus_chance;
use crate::chess_types::ChessMove;
use crate::chess_types::Color;
use crate::deadline::Deadline;
use crate::logger::Logger;
use crate::my_board::MyBoard;
use crate::no_bonus_chance;
use crate::score::ONE_BITS;
use crate::score::ratio_bits;
use crate::score::Score;
use crate::text::decimal;
use crate::text::percent;
use crate::text::percent_of;
use crate::text::push_decimal;
use crate::text::push_text;
use ordering::KeyedMove;
use ordering::lemma_sorted_by_key;
use ordering::moves_of;
use ordering::sort_by_key;
use ordering::sorted_by_key;
use relation::deepening_comes_to;
use relation::InfoTable;
use relation::keys_come_to;
use relation::lemma_deepening_more;
use relation::lemma_keys_more;
use relation::lemma_keys_none;
use relation::lemma_move_searched;
use relation::lemma_moves_done;
use relation::lemma_moves_end;
use relation::lemma_moves_on;
use relation::lemma_search_judged;
use relation::lemma_search_moves;
use relation::lemma_search_settled;
use relation::move_comes_of;
use relation::moves_come_to;
use relation::order_comes_to;
use relation::score_for_order;
use relation::search_comes_of;
use relation::settled_by_table;
use relation::told;
use relation::whole;
use score_info::ScoreInfo;
use search_result::SearchResult;
use super::Engine;
use super::evaluator::answer_for;
use super::evaluator::lemma_answer_given;
use super::evaluator::StaticEvaluator;
use super::keep_better;
use super::MoveError;
use super::next_boards;
use super::position_table::counted_insert;
use super::position_table::Evaluation;
use super::position_table::info_text;
use super::position_table::inserted;
use super::position_table::looked_up_leniently;
use super::position_table::Parameters;
use super::position_table::parameters_of;
use super::position_table::Position;
use super::position_table::PositionTable;
use super::position_table::TABLE_SIZE;
use super::position_table::TableCounters;
use vstd::prelude::*;

verus! {

/// By how much a pessimist moves the chances: a two-hundredth for each
/// piece on the board, but so that the chance of a bonus stays positive.
pub open spec fn skew(piece_count: nat) -> Score {
    let wanted = ratio_bits(piece_count, 200);
    if wanted < BONUS_BITS {
        Score { bits: wanted as u32 }
    } else {
        Score { bits: (BONUS_BITS - 1) as u32 }
    }
}

/// The chances of a bonus and of none that a search reckons with. A
/// pessimist takes the bonus to be likelier than it is after a move of the
/// side that wants a high score, and less likely after a move of the other.
pub open spec fn reckoned_chances(is_pessimistic: bool, is_maxing: bool, piece_count: nat) -> (
    Score,
    Score,
) {
    let d = if is_pessimistic {
        skew(piece_count).bits
    } else {
        0
    };
    if is_maxing {
        (Score { bits: (BONUS_BITS + d) as u32 }, Score { bits: (ONE_BITS - BONUS_BITS - d) as u32 })
    } else {
        (Score { bits: (BONUS_BITS - d) as u32 }, Score { bits: (ONE_BITS - BONUS_BITS + d) as u32 })
    }
}

/// Computes `reckoned_chances`. The two chances are positive and add up
/// to 1.
pub fn chances(is_pessimistic: bool, is_maxing: bool, piece_count: u32) -> (r: (Score, Score))
    requires
        piece_count <= 64,
    ensures
        r == reckoned_chances(is_pessimistic, is_maxing, piece_count as nat),
        chances_ok(r.0, r.1),
{
    let b_chance = bonus_chance();
    let nb_chance = no_bonus_chance();
    if !is_pessimistic {
        return (b_chance, nb_chance);
    }
    let mut adjustment = Score::from_ratio(piece_count, 200);
    if adjustment.bits >= b_chance.bits {
        adjustment = b_chance.minus(Score::delta());
    }
    if is_maxing {
        (b_chance.plus(adjustment), nb_chance.minus(adjustment))
    } else {
        (b_chance.minus(adjustment), nb_chance.plus(adjustment))
    }
}

/// What is said of the scores that put the moves in order: how many were
/// asked for, and how many of them the table did not have.
pub open spec fn lookups_text(lookups: u32, failures: u32) -> Seq<char> {
    decimal(lookups as nat) + " lookups, "@ + decimal(failures as nat) + " ("@ + decimal(
        percent(failures as nat, lookups as nat),
    ) + "%) failures"@
}

/// What a record of the table means for a search in a window: nothing
/// (`None`), or the end of the search. A record whose scores all lie at or
/// below the lower bound ends it with `Low`, one whose scores all lie at or
/// above the upper bound with `High`, one that pins the score down with
/// that score, unless the search has to name a move.
pub open spec fn record_verdict(bounds: Bounds, info: ScoreInfo, get_move: bool) -> Option<
    SearchResult,
> {
    if bounds.spec_info_too_low(info) {
        Some(SearchResult::Low)
    } else if bounds.spec_info_too_high(info) {
        Some(SearchResult::High)
    } else if info.spec_actual_score() is Some && !get_move {
        Some(SearchResult::Result(info.spec_actual_score()->Some_0, None))
    } else {
        None
    }
}

/// Computes `record_verdict`.
pub fn verdict_of_record(bounds: Bounds, info: ScoreInfo, get_move: bool) -> (r: Option<
    SearchResult,
>)
    ensures
        r == record_verdict(bounds, info, get_move),
{
    if bounds.info_too_low(info) {
        Some(SearchResult::Low)
    } else if bounds.info_too_high(info) {
        Some(SearchResult::High)
    } else {
        match info.actual_score() {
            Some(score) => if !get_move {
                Some(SearchResult::Result(score, None))
            } else {
                None
            },
            None => None,
        }
    }
}

/// How a search ends that knows the score: with the score if it is inside
/// the window, else with the side on which it lies.
pub open spec fn score_verdict(bounds: Bounds, score: Score) -> SearchResult {
    if bounds.spec_score_too_low(score) {
        SearchResult::Low
    } else if bounds.spec_score_too_high(score) {
        SearchResult::High
    } else {
        SearchResult::Result(score, None)
    }
}

/// Computes `score_verdict`.
pub fn verdict_of_score(bounds: Bounds, score: Score) -> (r: SearchResult)
    ensures
        r == score_verdict(bounds, score),
{
    if bounds.score_too_low(score) {
        SearchResult::Low
    } else if bounds.score_too_high(score) {
        SearchResult::High
    } else {
        SearchResult::Result(score, None)
    }
}

/// What the search of a position does after the search of one of its
/// moves.
#[derive(Clone, Copy, Debug, PartialEq, Eq, Structural)]
pub enum AfterMove {
    /// It passes the move over and goes on to the next.
    PassOver,
    /// It takes note of the score of the move and goes on to the next.
    TakeNote(Score),
    /// It ends with this result.
    End(SearchResult),
}

/// What the search of a position does after the search of one of its
/// moves. A timeout ends it. A score is noted. A move that is too bad for
/// the mover, too low for the side that wants a high score or too high for
/// the other, is passed over. A move that is too good for the mover ends
/// the search: the opponent would not let it come to this position.
pub open spec fn step_after(is_maxing: bool, result: SearchResult) -> AfterMove {
    match result {
        SearchResult::Timeout => AfterMove::End(SearchResult::Timeout),
        SearchResult::Result(score, _) => AfterMove::TakeNote(score),
        SearchResult::Low => if is_maxing {
            AfterMove::PassOver
        } else {
            AfterMove::End(SearchResult::Low)
        },
        SearchResult::High => if is_maxing {
            AfterMove::End(SearchResult::High)
        } else {
            AfterMove::PassOver
        },
    }
}

/// Computes `step_after`.
pub fn after_move(is_maxing: bool, result: SearchResult) -> (r: AfterMove)
    ensures
        r == step_after(is_maxing, result),
{
    match result {
        SearchResult::Timeout => AfterMove::End(SearchResult::Timeout),
        SearchResult::Result(score, _) => AfterMove::TakeNote(score),
        SearchResult::Low => if is_maxing {
            AfterMove::PassOver
        } else {
            AfterMove::End(SearchResult::Low)
        },
        SearchResult::High => if is_maxing {
            AfterMove::End(SearchResult::High)
        } else {
            AfterMove::PassOver
        },
    }
}

/// How the search of a position ends when it has gone through all moves:
/// with the best score and its move, or, if every move was passed over,
/// on the side on which all of them lie.
pub open spec fn verdict_of_moves(is_maxing: bool, best: Option<(Score, ChessMove)>) -> SearchResult {
    match best {
        Some((score, mv)) => SearchResult::Result(score, Some(mv)),
        None => if is_maxing {
            SearchResult::Low
        } else {
            SearchResult::High
        },
    }
}

/// Computes `verdict_of_moves`.
pub fn verdict_of_best(is_maxing: bool, best: Option<(Score, ChessMove)>) -> (r: SearchResult)
    ensures
        r == verdict_of_moves(is_maxing, best),
{
    match best {
        Some((score, mv)) => SearchResult::Result(score, Some(mv)),
        None => if is_maxing {
            SearchResult::Low
        } else {
            SearchResult::High
        },
    }
}

/// What the table is told after a search in a window: the score, if there
/// is one; after `Low` that the position is worth at most the lower bound,
/// after `High` that it is worth at least the upper bound; after a timeout
/// nothing.
pub open spec fn record_of_result(bounds: Bounds, result: SearchResult) -> Option<ScoreInfo> {
    match result {
        SearchResult::Result(score, _) => Some(ScoreInfo { min: score, max: score }),
        SearchResult::Low => Some(
            ScoreInfo { min: Score::spec_zero(), max: bounds.min->Some_0 },
        ),
        SearchResult::High => Some(
            ScoreInfo { min: bounds.max->Some_0, max: Score::spec_one() },
        ),
        SearchResult::Timeout => None,
    }
}

/// Computes `record_of_result`, for a result that the window allows: `Low`
/// only with a lower bound, `High` only with an upper bound.
pub fn record_for(bounds: Bounds, result: SearchResult) -> (r: Option<ScoreInfo>)
    requires
        result is Low ==> bounds.min is Some,
        result is High ==> bounds.max is Some,
    ensures
        r == record_of_result(bounds, result),
{
    match result {
        SearchResult::Result(score, _) => Some(ScoreInfo::from_score(score)),
        SearchResult::Low => match bounds.min {
            Some(min) => Some(ScoreInfo::from_max_score(min)),
            None => vstd::pervasive::unreached(),
        },
        SearchResult::High => match bounds.max {
            Some(max) => Some(ScoreInfo::from_min_score(max)),
            None => vstd::pervasive::unreached(),
        },
        SearchResult::Timeout => None,
    }
}

/// The key by which a move is ordered, from the score of the position it
/// leads to: the better the score for the mover, the smaller the key.
pub open spec fn order_key(is_maxing: bool, score: Score) -> u32 {
    if is_maxing {
        (ONE_BITS - score.bits) as u32
    } else {
        score.bits
    }
}

/// Computes `order_key`.
pub fn key_for(is_maxing: bool, score: Score) -> (r: u32)
    requires
        score.in_unit(),
    ensures
        r == order_key(is_maxing, score),
{
    if is_maxing {
        Score::one().minus(score).to_bits()
    } else {
        score.to_bits()
    }
}

/// What the driver knows after a search with the widest window that had to
/// name a move: the move, its score and the depth, if the search was done;
/// what it knew before, if not.
pub open spec fn best_after(
    best: Option<(ChessMove, Score, u8)>,
    result: SearchResult,
    depth: u8,
) -> Option<(ChessMove, Score, u8)> {
    match result {
        SearchResult::Result(score, Some(mv)) => Some((mv, score, depth)),
        _ => best,
    }
}

/// Whether the driver goes on to the next depth: only after a search that
/// was done.
pub open spec fn goes_on(result: SearchResult) -> bool {
    result matches SearchResult::Result(_, Some(_))
}

/// Computes `best_after` and `goes_on`.
pub fn note_depth(best: Option<(ChessMove, Score, u8)>, result: SearchResult, depth: u8) -> (r: (
    Option<(ChessMove, Score, u8)>,
    bool,
))
    ensures
        r.0 == best_after(best, result, depth),
        r.1 == goes_on(result),
{
    match result {
        SearchResult::Result(score, Some(mv)) => (Some((mv, score, depth)), true),
        _ => (best, false),
    }
}

/// Whether every record of a table lies in `[0, 1]`, its lower end not
/// above its upper end.
pub open spec fn table_sound(slots: Seq<Option<Evaluation<ScoreInfo>>>) -> bool {
    forall|i: int|
        0 <= i < slots.len() ==> ((#[trigger] slots[i]) matches Some(e) ==> e.score.wf())
}

/// A sound table stays sound when it is offered a sound record.
pub proof fn lemma_insert_sound(
    slots: Seq<Option<Evaluation<ScoreInfo>>>,
    position: Position,
    params: Parameters,
    info: ScoreInfo,
)
    requires
        slots.len() == TABLE_SIZE,
        table_sound(slots),
        info.wf(),
    ensures
        table_sound(inserted(slots, position, params, info)),
        inserted(slots, position, params, info).len() == TABLE_SIZE,
{
    let out = inserted(slots, position, params, info);
    assert forall|i: int| 0 <= i < out.len() implies ((#[trigger] out[i]) matches Some(e)
        ==> e.score.wf()) by {
        if i != position.spec_as_index() {
            assert(out[i] == slots[i]);
        }
    }
}

/// Whether the counters of the depths from `depth` on are those of
/// before.
pub open spec fn layers_kept_from(after: Seq<LayerInfo>, before: Seq<LayerInfo>, depth: int) -> bool {
    after.len() == before.len() && forall|i: int|
        depth <= i < before.len() ==> #[trigger] after[i] == before[i]
}

/// Whether a result is one with which a move ends the search of a
/// position early: `High` for the side that wants a high score, `Low` for
/// the other.
pub open spec fn ended_early(is_maxing: bool, result: SearchResult) -> bool {
    (is_maxing && result is High) || (!is_maxing && result is Low)
}

/// The counters of a depth after one more search to that depth. The
/// position counts as looked at; as gone through unless the table settled
/// it; and as ended early if a move ended the search.
pub open spec fn layer_counted(
    layer: LayerInfo,
    settled: bool,
    at_leaf: bool,
    is_maxing: bool,
    result: SearchResult,
) -> LayerInfo {
    LayerInfo {
        not_pruned: counted(layer.not_pruned),
        expanded: if settled {
            layer.expanded
        } else {
            counted(layer.expanded)
        },
        prunes: if !settled && !at_leaf && ended_early(is_maxing, result) {
            counted(layer.prunes)
        } else {
            layer.prunes
        },
    }
}

/// One more, unless the counter is full.
pub open spec fn counted_once(counter: u32) -> u32 {
    if counter < u32::MAX {
        (counter + 1) as u32
    } else {
        counter
    }
}

/// The score of a position that the table pins down, in whatever record
/// of the position it holds.
pub open spec fn known_score(
    slots: Seq<Option<Evaluation<ScoreInfo>>>,
    position: Position,
) -> Option<Score> {
    match looked_up_leniently(slots, position) {
        Some(info) => info.spec_actual_score(),
        None => None,
    }
}

fn one_more(counter: u32) -> (r: u32)
    ensures
        r == counted_once(counter),
{
    if counter < u32::MAX {
        counter + 1
    } else {
        counter
    }
}

/// The engine that searches in windows, deeper and deeper, against the
/// clock.
pub struct AlphaBeta<E: StaticEvaluator> {
    static_evaluator: E,
    max_lookahead: u8,
    max_time: u64,
    is_pessimistic: bool,
    is_focussed: bool,
    position_table: PositionTable<ScoreInfo>,
    logger: Logger,
    branch_info: BranchInfo,
    iter_deep_failures: u32,
    iter_deep_lookups: u32,
}

impl<E: StaticEvaluator> AlphaBeta<E> {
    /// The greatest depth to which the engine searches.
    pub closed spec fn lookahead(&self) -> u8 {
        self.max_lookahead
    }

    /// The time in milliseconds that the engine takes for a move.
    pub closed spec fn time_budget(&self) -> u64 {
        self.max_time
    }

    /// Whether the engine reckons with chances that are worse for the mover
    /// than the true ones.
    pub closed spec fn pessimistic(&self) -> bool {
        self.is_pessimistic
    }

    /// Whether the engine looks less deep after a bonus than after none.
    pub closed spec fn focussed(&self) -> bool {
        self.is_focussed
    }

    /// The depth at which the engine stops to look ahead.
    pub open spec fn finish_depth(&self) -> u8 {
        if self.focussed() {
            1
        } else {
            0
        }
    }

    /// The records of the table.
    pub closed spec fn table(&self) -> Seq<Option<Evaluation<ScoreInfo>>> {
        self.position_table@
    }

    /// The judge that the engine asks.
    pub closed spec fn judge(&self) -> E {
        self.static_evaluator
    }

    /// Whether the engine has the judge, the log and the counters of the
    /// search of another.
    pub open spec fn keeps_judge_log_and_layers(&self, other: &Self) -> bool {
        &&& self.judge() == other.judge()
        &&& self.log_lines() == other.log_lines()
        &&& self.log_level() == other.log_level()
        &&& self.layers() == other.layers()
    }

    /// Whether the table and its counters are those of another engine
    /// after its table was offered a record.
    pub open spec fn table_offered(
        &self,
        other: &Self,
        position: Position,
        params: Parameters,
        info: ScoreInfo,
    ) -> bool {
        &&& self.table() == inserted(other.table(), position, params, info)
        &&& self.table_counters() == counted_insert(
            other.table_counters(),
            other.table()[position.spec_as_index() as int],
            position,
            params,
        )
    }

    /// Whether the table and its counters are those of another engine.
    pub open spec fn table_kept(&self, other: &Self) -> bool {
        &&& self.table() == other.table()
        &&& self.table_counters() == other.table_counters()
    }

    /// Whether the engine is fit to search: the lookahead is positive, and
    /// more than 1 for a focussed engine; the table is whole and sound; and
    /// there are counters for every depth.
    pub closed spec fn wf(&self) -> bool {
        &&& self.max_lookahead > 0
        &&& self.is_focussed ==> self.max_lookahead > 1
        &&& self.position_table.wf()
        &&& table_sound(self.position_table@)
        &&& self.branch_info@.len() == self.max_lookahead + 1
    }

    /// Whether two engines are set up alike.
    pub open spec fn same_setup(&self, other: &Self) -> bool {
        &&& self.lookahead() == other.lookahead()
        &&& self.time_budget() == other.time_budget()
        &&& self.pessimistic() == other.pessimistic()
        &&& self.focussed() == other.focussed()
    }

    /// An engine with an empty table. A greater `log_level` costs time.
    pub fn new(
        static_evaluator: E,
        max_lookahead: u8,
        is_pessimistic: bool,
        is_focussed: bool,
        log_level: u8,
        max_time: u64,
    ) -> (engine: Self)
        requires
            max_lookahead > 0,
            !is_focussed || max_lookahead > 1,
        ensures
            engine.wf(),
            engine.lookahead() == max_lookahead,
            engine.time_budget() == max_time,
            engine.pessimistic() == is_pessimistic,
            engine.focussed() == is_focussed,
            engine.judge() == static_evaluator,
            engine.table().len() == TABLE_SIZE,
            forall|i: int| 0 <= i < TABLE_SIZE ==> engine.table()[i] is None,
            engine.table_counters() == (TableCounters {
                items: 0,
                insert_attempts: 0,
                insert_additions: 0,
                insert_ignores: 0,
                insert_overwrites: 0,
                get_attempts: 0,
                get_blanks: 0,
                get_hits: 0,
                get_incorrects: 0,
            }),
            engine.layers() == Seq::new((max_lookahead + 1) as nat, |i: int| LayerInfo::spec_new()),
            engine.ordering_counters() == (0u32, 0u32),
            engine.log_level() == log_level,
            engine.log_lines().len() == 0,
    {
        let position_table: PositionTable<ScoreInfo> = PositionTable::new();
        proof {
            position_table.lemma_wf();
            assert(table_sound(position_table@));
        }
        AlphaBeta {
            static_evaluator,
            max_lookahead,
            max_time,
            is_pessimistic,
            is_focussed,
            position_table,
            logger: Logger::new(log_level),
            branch_info: BranchInfo::new(max_lookahead),
            iter_deep_failures: 0,
            iter_deep_lookups: 0,
        }
    }

    /// The engine with a lookahead of 4, the true chances, the same depth
    /// with and without a bonus, a full log and ten seconds for a move.
    pub fn default(static_evaluator: E) -> (engine: Self)
        ensures
            engine.wf(),
            engine.lookahead() == 4,
            engine.time_budget() == 10000,
            !engine.pessimistic(),
            !engine.focussed(),
            engine.judge() == static_evaluator,
            forall|i: int| 0 <= i < TABLE_SIZE ==> engine.table()[i] is None,
            engine.log_level() == 10,
    {
        AlphaBeta::new(static_evaluator, 4, false, false, 10, 10000)
    }

    /// The lines that the engine has logged and not handed out yet.
    pub closed spec fn log_lines(&self) -> Seq<String> {
        self.logger.lines()
    }

    /// The level of detail of the log.
    pub closed spec fn log_level(&self) -> u8 {
        self.logger.level()
    }

    /// The counters of the table.
    pub closed spec fn table_counters(&self) -> TableCounters {
        self.position_table.counters()
    }

    /// The counters of the search, by the depth that was left.
    pub closed spec fn layers(&self) -> Seq<LayerInfo> {
        self.branch_info@
    }

    /// How often the search to the last depth asked for a score to put
    /// moves in order, and how often the table had none.
    pub closed spec fn ordering_counters(&self) -> (u32, u32) {
        (self.iter_deep_lookups, self.iter_deep_failures)
    }

    /// Hands out the lines that the engine has logged.
    pub fn take_log(&mut self) -> (lines: Vec<String>)
        ensures
            final(self).wf() == old(self).wf(),
            final(self).same_setup(old(self)),
            final(self).table() == old(self).table(),
            lines@ == old(self).log_lines(),
            final(self).log_lines().len() == 0,
            final(self).log_level() == old(self).log_level(),
    {
        self.logger.take_lines()
    }

    /// What the counters of the table say.
    pub fn table_info(&self) -> (text: String)
        ensures
            text@ == info_text(self.table_counters()),
    {
        self.position_table.info()
    }

    /// What the counters of the search say.
    pub fn search_statistics(&self) -> (text: String)
        ensures
            text@ == statistics_text(self.layers()),
    {
        self.branch_info.statistics()
    }

    /// Offers the table a sound record of a board searched to a depth.
    /// Nothing else changes.
    fn remember(&mut self, board: &MyBoard, depth: u8, info: ScoreInfo)
        requires
            old(self).wf(),
            board.wf(),
            info.wf(),
        ensures
            final(self).wf(),
            final(self).same_setup(old(self)),
            final(self).table_offered(
                old(self),
                Position::of(board),
                parameters_of(board, depth),
                info,
            ),
            final(self).keeps_judge_log_and_layers(old(self)),
            final(self).ordering_counters() == old(self).ordering_counters(),
    {
        proof {
            self.position_table.lemma_wf();
            lemma_insert_sound(
                self.position_table@,
                Position::of(board),
                parameters_of(board, depth),
                info,
            );
        }
        self.position_table.insert(board, depth, info);
    }

    /// Tells the table how a search in a window ended.
    fn update_table_for_result(
        &mut self,
        board: &MyBoard,
        depth: u8,
        bounds: Bounds,
        result: SearchResult,
    )
        requires
            old(self).wf(),
            board.wf(),
            bounds.spec_valid(),
            bounds.in_unit(),
            result is Low ==> bounds.min is Some,
            result is High ==> bounds.max is Some,
            result matches SearchResult::Result(score, _) ==> score.in_unit(),
        ensures
            final(self).wf(),
            final(self).same_setup(old(self)),
            match record_of_result(bounds, result) {
                Some(info) => final(self).table_offered(
                    old(self),
                    Position::of(board),
                    parameters_of(board, depth),
                    info,
                ),
                None => final(self).table_kept(old(self)),
            },
            final(self).keeps_judge_log_and_layers(old(self)),
            final(self).ordering_counters() == old(self).ordering_counters(),
    {
        // The new record is not merged with an old one: the old one may
        // rest on records that are gone by now.
        match record_for(bounds, result) {
            Some(info) => {
                self.remember(board, depth, info);
            },
            None => {},
        }
    }

    /// The score of a board for the order of the moves: from the table if
    /// it has one, else from the judge, whose score then goes into the
    /// table.
    fn ordering_score(&mut self, board: &MyBoard) -> (score: Score)
        requires
            old(self).wf(),
            board.wf(),
        ensures
            final(self).wf(),
            final(self).same_setup(old(self)),
            score.in_unit(),
            match known_score(old(self).table(), Position::of(board)) {
                Some(known) => {
                    &&& score == known
                    &&& final(self).table_kept(old(self))
                    &&& final(self).ordering_counters().1 == old(self).ordering_counters().1
                },
                None => {
                    &&& answer_for(&old(self).judge(), board@, score)
                    &&& final(self).table_offered(
                        old(self),
                        Position::of(board),
                        parameters_of(board, old(self).finish_depth()),
                        ScoreInfo { min: score, max: score },
                    )
                    &&& final(self).ordering_counters().1 == counted_once(
                        old(self).ordering_counters().1,
                    )
                },
            },
            final(self).ordering_counters().0 == counted_once(old(self).ordering_counters().0),
            final(self).keeps_judge_log_and_layers(old(self)),
            score_for_order(
                &old(self).judge(),
                old(self).focussed(),
                old(self).table(),
                board@,
                score,
                final(self).table(),
            ),
    {
        self.iter_deep_lookups = one_more(self.iter_deep_lookups);
        proof {
            self.position_table.lemma_wf();
        }
        let known = match self.position_table.get_lenient(board) {
            Some(info) => info.actual_score(),
            None => None,
        };
        match known {
            Some(score) => score,
            None => {
                self.iter_deep_failures = one_more(self.iter_deep_failures);
                let eval = self.static_evaluator.evaluate(board);
                proof {
                    lemma_answer_given(&self.static_evaluator, board, eval);
                }
                let finish_depth: u8 = if self.is_focussed {
                    1
                } else {
                    0
                };
                self.remember(board, finish_depth, ScoreInfo::from_score(eval));
                eval
            },
        }
    }

    /// The moves of the side to move, the most promising first: in the
    /// order of the scores, from the table or the judge, of the positions
    /// they lead to without a bonus.
    fn ordered_moves(&mut self, board: &MyBoard, is_maxing: bool) -> (moves: Vec<ChessMove>)
        requires
            old(self).wf(),
            board.wf(),
            !board@.awaiting_bonus,
            is_maxing == (board@.side_to_move == Color::White),
        ensures
            final(self).wf(),
            final(self).same_setup(old(self)),
            final(self).judge() == old(self).judge(),
            final(self).layers() == old(self).layers(),
            moves@.len() == board@.all_moves().len(),
            forall|k: int| 0 <= k < moves@.len() ==> board@.all_moves().contains(moves@[k]),
            exists|keyed: Seq<KeyedMove>|
                #[trigger] keys_come_to(
                    &old(self).judge(),
                    old(self).focussed(),
                    old(self).table(),
                    board@,
                    board@.all_moves().len(),
                    keyed,
                    final(self).table(),
                ) && moves@ == moves_of(sorted_by_key(keyed)),
    {
        let all = board.all_moves();
        let mut keyed: Vec<KeyedMove> = Vec::new();
        let mut i: usize = 0;
        let ghost judge = self.judge();
        let ghost start = self.table();
        proof {
            lemma_keys_none(&judge, self.focussed(), start, board@);
        }
        while i < all.len()
            invariant
                i <= all.len(),
                self.wf(),
                self.same_setup(old(self)),
                self.judge() == judge,
                self.layers() == old(self).layers(),
                board.wf(),
                !board@.awaiting_bonus,
                is_maxing == (board@.side_to_move == Color::White),
                all@ == board@.all_moves(),
                keyed@.len() == i,
                forall|k: int| 0 <= k < i ==> keyed@[k].mv == all@[k],
                keys_come_to(
                    &judge,
                    old(self).focussed(),
                    start,
                    board@,
                    i as nat,
                    keyed@,
                    self.table(),
                ),
            decreases all.len() - i,
        {
            let mv = all[i];
            let ghost mid = self.table();
            proof {
                board.lemma_wf();
                assert(all@.contains(mv));
                lemma_all_moves_can_move(board@, mv);
                self.position_table.lemma_wf();
            }
            let (_, nb_board) = next_boards(board, mv, false);
            let score = self.ordering_score(&nb_board);
            proof {
                lemma_keys_more(
                    &judge,
                    old(self).focussed(),
                    start,
                    board@,
                    i as nat,
                    keyed@,
                    mid,
                    score,
                    self.table(),
                );
            }
            keyed.push(KeyedMove { key: key_for(is_maxing, score), mv });
            i += 1;
        }
        let moves = sort_by_key(keyed);
        proof {
            lemma_sorted_by_key(keyed@);
            let sorted = sorted_by_key(keyed@);
            assert forall|k: int| 0 <= k < moves@.len() implies board@.all_moves().contains(
                moves@[k],
            ) by {
                assert(keyed@.contains(sorted[k]));
                let w = choose|w: int| 0 <= w < keyed@.len() && keyed@[w] == sorted[k];
                assert(all@[w] == moves@[k]);
            }
        }
        moves
    }

    /// The worth of a move in a window: the mean of the scores with and
    /// without a bonus, found by two searches in the windows that the
    /// window for the move leaves them.
    fn evaluate_move(
        &mut self,
        board: &MyBoard,
        mv: ChessMove,
        bounds: Bounds,
        depth: u8,
        is_maxing: bool,
        deadline: Deadline,
    ) -> (result: SearchResult)
        requires
            old(self).wf(),
            board.wf(),
            board@.can_move(mv),
            bounds.spec_valid(),
            bounds.in_unit(),
            old(self).finish_depth() < depth <= old(self).lookahead(),
            is_maxing == (board@.side_to_move == Color::White),
        ensures
            final(self).wf(),
            final(self).same_setup(old(self)),
            final(self).judge() == old(self).judge(),
            result matches SearchResult::Result(score, _) ==> score.in_unit()
                && bounds.spec_contains(score),
            result is Low ==> bounds.min is Some,
            result is High ==> bounds.max is Some,
            result is Timeout ==> deadline.can_expire(),
            layers_kept_from(final(self).layers(), old(self).layers(), depth as int),
            !(result is Timeout) ==> move_comes_of(
                &old(self).judge(),
                old(self).pessimistic(),
                old(self).focussed(),
                old(self).table(),
                board@,
                mv,
                bounds,
                depth,
                result,
                final(self).table(),
            ),
        decreases depth, 0int,
    {
        let finish_depth: u8 = if self.is_focussed {
            1
        } else {
            0
        };
        let ghost judge = self.judge();
        let ghost before = self.table();
        let (b_board, nb_board) = next_boards(board, mv, depth > finish_depth + 1);

        // A pessimist shifts the chances against the mover, which makes
        // for a more careful game.
        let (b_chance, nb_chance) = chances(self.is_pessimistic, is_maxing, b_board.piece_count());

        // The window without a bonus allows for the best and the worst
        // that the bonus can bring.
        let nb_bounds = window_without_bonus(bounds, b_chance, nb_chance);
        proof {
            bounds::lemma_min_decreased_valid(bounds, b_chance);
            bounds::lemma_expanded_valid(bounds.spec_min_decreased_by(b_chance), nb_chance);
        }
        let nb_result = self.get_scored_best_move(&nb_board, nb_bounds, depth - 1, false, deadline);
        let ghost first = self.table();
        proof {
            self.position_table.lemma_wf();
        }
        let nb_score = match nb_result {
            SearchResult::Result(score, _) => score,
            _ => {
                proof {
                    if !(nb_result is Timeout) {
                        lemma_move_searched(
                            &judge,
                            self.pessimistic(),
                            self.focussed(),
                            before,
                            board@,
                            mv,
                            bounds,
                            depth,
                            nb_result,
                            first,
                            nb_result,
                            first,
                        );
                    }
                }
                return nb_result;
            },
        };
        let b_bounds = window_with_bonus(bounds, b_chance, nb_score, nb_chance);
        proof {
            chance::lemma_bonus_window_valid(bounds, b_chance, nb_score, nb_chance);
        }
        let b_depth = if self.is_focussed {
            depth - 2
        } else {
            depth - 1
        };
        let b_result = self.get_scored_best_move(&b_board, b_bounds, b_depth, false, deadline);
        proof {
            self.position_table.lemma_wf();
            if !(b_result is Timeout) {
                lemma_move_searched(
                    &judge,
                    self.pessimistic(),
                    self.focussed(),
                    before,
                    board@,
                    mv,
                    bounds,
                    depth,
                    nb_result,
                    first,
                    b_result,
                    self.table(),
                );
            }
        }
        let b_score = match b_result {
            SearchResult::Result(score, _) => score,
            _ => {
                return b_result;
            },
        };
        let score = weigh(b_score, b_chance, nb_score, nb_chance);
        proof {
            lemma_windows_sound(bounds, b_score, b_chance, nb_score, nb_chance);
        }
        // Rounding can put the mean on a bound of the window.
        verdict_of_score(bounds, score)
    }

    /// Searches a board to a depth for a score inside a window.
    ///
    /// The search ends with a score inside the window, with `Low` or `High`
    /// if it finds that the position is worth no more than the lower or no
    /// less than the upper bound, or with `Timeout` when the deadline has
    /// expired. With `get_move`, a score comes with the move that leads to
    /// it; without, it may come from the table and without a move.
    ///
    /// Unless it ends with `Timeout`, the result and the table are what can
    /// come of the search: see `search_comes_of`.
    pub fn get_scored_best_move(
        &mut self,
        board: &MyBoard,
        bounds: Bounds,
        depth: u8,
        get_move: bool,
        deadline: Deadline,
    ) -> (result: SearchResult)
        requires
            old(self).wf(),
            board.wf(),
            !board@.awaiting_bonus,
            bounds.spec_valid(),
            bounds.in_unit(),
            depth <= old(self).lookahead(),
            depth > old(self).finish_depth() ==> board@.settled(),
            get_move ==> depth > old(self).finish_depth() && board@.status == Status::InProgress,
        ensures
            final(self).wf(),
            final(self).same_setup(old(self)),
            final(self).judge() == old(self).judge(),
            result matches SearchResult::Result(score, mv) ==> score.in_unit()
                && bounds.spec_contains(score) && (get_move ==> mv is Some) && (mv matches Some(m)
                ==> board@.all_moves().contains(m)),
            result is Low ==> bounds.min is Some,
            result is High ==> bounds.max is Some,
            result is Timeout ==> deadline.can_expire(),
            deadline.budget() == Some(0u64) ==> result is Timeout && final(self).table_kept(
                old(self),
            ) && final(self).keeps_judge_log_and_layers(old(self)),
            !(result is Timeout) ==> search_comes_of(
                &old(self).judge(),
                old(self).pessimistic(),
                old(self).focussed(),
                old(self).table(),
                board@,
                bounds,
                depth,
                get_move,
                result,
                final(self).table(),
            ),
            layers_kept_from(final(self).layers(), old(self).layers(), depth + 1),
            !(result is Timeout) ==> final(self).layers()[depth as int] == layer_counted(
                old(self).layers()[depth as int],
                settled_by_table(old(self).table(), board@, bounds, depth, get_move) is Some,
                depth <= old(self).finish_depth() || board@.status != Status::InProgress,
                board@.side_to_move == Color::White,
                result,
            ),
        decreases depth, 3int,
    {
        let expired = deadline.expired();
        self.search_told(board, bounds, depth, get_move, deadline, expired)
    }

    /// Searches a board to a depth for a score inside a window, told
    /// whether the deadline has expired.
    ///
    /// If it has, the search ends with `Timeout` at once, and the engine
    /// stays as it is. If it has not, the search goes on as
    /// `get_scored_best_move` says, and asks the deadline again before each
    /// position that it looks at.
    pub fn search_told(
        &mut self,
        board: &MyBoard,
        bounds: Bounds,
        depth: u8,
        get_move: bool,
        deadline: Deadline,
        expired: bool,
    ) -> (result: SearchResult)
        requires
            old(self).wf(),
            board.wf(),
            !board@.awaiting_bonus,
            bounds.spec_valid(),
            bounds.in_unit(),
            depth <= old(self).lookahead(),
            depth > old(self).finish_depth() ==> board@.settled(),
            get_move ==> depth > old(self).finish_depth() && board@.status == Status::InProgress,
            expired ==> deadline.can_expire(),
        ensures
            final(self).wf(),
            final(self).same_setup(old(self)),
            final(self).judge() == old(self).judge(),
            expired ==> result is Timeout && final(self).table_kept(old(self))
                && final(self).keeps_judge_log_and_layers(old(self))
                && final(self).ordering_counters() == old(self).ordering_counters(),
            result matches SearchResult::Result(score, mv) ==> score.in_unit()
                && bounds.spec_contains(score) && (get_move ==> mv is Some) && (mv matches Some(m)
                ==> board@.all_moves().contains(m)),
            result is Low ==> bounds.min is Some,
            result is High ==> bounds.max is Some,
            result is Timeout ==> deadline.can_expire(),
            !(result is Timeout) ==> search_comes_of(
                &old(self).judge(),
                old(self).pessimistic(),
                old(self).focussed(),
                old(self).table(),
                board@,
                bounds,
                depth,
                get_move,
                result,
                final(self).table(),
            ),
            layers_kept_from(final(self).layers(), old(self).layers(), depth + 1),
            !expired ==> final(self).layers()[depth as int] == layer_counted(
                old(self).layers()[depth as int],
                settled_by_table(old(self).table(), board@, bounds, depth, get_move) is Some,
                depth <= old(self).finish_depth() || board@.status != Status::InProgress,
                board@.side_to_move == Color::White,
                result,
            ),
        decreases depth, 2int,
    {
        if expired {
            return SearchResult::Timeout;
        }
        let finish_depth: u8 = if self.is_focussed {
            1
        } else {
            0
        };
        let ghost judge = self.judge();
        let ghost entry = self.table();
        self.branch_info.count_visit(depth as usize);

        // What the table knows may settle the matter. It is not used to
        // narrow the window: a record of a deeper search could narrow it
        // too much.
        proof {
            self.position_table.lemma_wf();
        }
        match self.position_table.get(board, depth) {
            Some(score_info) => {
                match verdict_of_record(bounds, score_info, get_move) {
                    Some(verdict) => {
                        proof {
                            lemma_search_settled(
                                &judge,
                                self.pessimistic(),
                                self.focussed(),
                                entry,
                                board@,
                                bounds,
                                depth,
                                get_move,
                                verdict,
                            );
                        }
                        return verdict;
                    },
                    None => {},
                }
            },
            None => {},
        }
        self.branch_info.count_expansion(depth as usize);

        if depth <= finish_depth || !board.get_status().is_in_progress() {
            let evaluation = self.static_evaluator.evaluate(board);
            proof {
                lemma_answer_given(&self.static_evaluator, board, evaluation);
                lemma_search_judged(
                    &judge,
                    self.pessimistic(),
                    self.focussed(),
                    entry,
                    board@,
                    bounds,
                    depth,
                    get_move,
                    evaluation,
                );
            }
            self.remember(board, depth, ScoreInfo::from_score(evaluation));
            return verdict_of_score(bounds, evaluation);
        }
        let is_maxing = board.get_side_to_move() == Color::White;
        let moves = if depth > finish_depth + 1 {
            self.ordered_moves(board, is_maxing)
        } else {
            board.all_moves()
        };
        self.try_moves(board, bounds, depth, get_move, deadline, moves, Ghost(entry))
    }

    /// Tries the moves of a board one after the other, in a window that
    /// the scores narrow, and tells the table what they come to.
    #[verifier::rlimit(60)]
    fn try_moves(
        &mut self,
        board: &MyBoard,
        bounds: Bounds,
        depth: u8,
        get_move: bool,
        deadline: Deadline,
        moves: Vec<ChessMove>,
        Ghost(entry): Ghost<InfoTable>,
    ) -> (result: SearchResult)
        requires
            old(self).wf(),
            board.wf(),
            !board@.awaiting_bonus,
            bounds.spec_valid(),
            bounds.in_unit(),
            old(self).finish_depth() < depth <= old(self).lookahead(),
            board@.status == Status::InProgress,
            board@.settled(),
            moves@.len() == board@.all_moves().len(),
            forall|j: int| 0 <= j < moves@.len() ==> board@.all_moves().contains(moves@[j]),
            settled_by_table(entry, board@, bounds, depth, get_move) is None,
            order_comes_to(
                &old(self).judge(),
                old(self).focussed(),
                entry,
                board@,
                depth,
                moves@,
                old(self).table(),
            ),
        ensures
            final(self).wf(),
            final(self).same_setup(old(self)),
            final(self).judge() == old(self).judge(),
            result matches SearchResult::Result(score, mv) ==> score.in_unit()
                && bounds.spec_contains(score) && mv is Some && (mv matches Some(m)
                ==> board@.all_moves().contains(m)),
            result is Low ==> bounds.min is Some,
            result is High ==> bounds.max is Some,
            result is Timeout ==> deadline.can_expire(),
            !(result is Timeout) ==> search_comes_of(
                &old(self).judge(),
                old(self).pessimistic(),
                old(self).focussed(),
                entry,
                board@,
                bounds,
                depth,
                get_move,
                result,
                final(self).table(),
            ),
            layers_kept_from(final(self).layers(), old(self).layers(), depth + 1),
            final(self).layers()[depth as int] == (LayerInfo {
                prunes: if ended_early(board@.side_to_move == Color::White, result) {
                    counted(old(self).layers()[depth as int].prunes)
                } else {
                    old(self).layers()[depth as int].prunes
                },
                ..old(self).layers()[depth as int]
            }),
        decreases depth, 1int,
    {
        let is_maxing = board.get_side_to_move() == Color::White;
        let ghost judge = self.judge();
        let ghost start = self.table();
        let mut window = bounds;
        let mut best_result: Option<(Score, ChessMove)> = None;
        let mut k: usize = 0;
        while k < moves.len()
            invariant
                k <= moves.len(),
                self.wf(),
                self.same_setup(old(self)),
                self.judge() == judge,
                judge == old(self).judge(),
                layers_kept_from(self.layers(), old(self).layers(), depth as int),
                board.wf(),
                !board@.awaiting_bonus,
                old(self).finish_depth() < depth <= old(self).lookahead(),
                is_maxing == (board@.side_to_move == Color::White),
                forall|j: int| 0 <= j < moves@.len() ==> board@.all_moves().contains(moves@[j]),
                settled_by_table(entry, board@, bounds, depth, get_move) is None,
                board@.status == Status::InProgress,
                order_comes_to(&judge, old(self).focussed(), entry, board@, depth, moves@, start),
                bounds.spec_valid(),
                bounds.in_unit(),
                window.spec_valid(),
                window.in_unit(),
                best_result is None ==> window == bounds,
                is_maxing ==> window.max == bounds.max,
                !is_maxing ==> window.min == bounds.min,
                forall|s: Score| window.spec_contains(s) ==> bounds.spec_contains(s),
                best_result matches Some((s, m)) ==> s.in_unit() && bounds.spec_contains(s)
                    && board@.all_moves().contains(m),
                k > 0 ==> (is_maxing ==> window.min is Some) && (!is_maxing ==> window.max is Some),
                forall|r: SearchResult, t: InfoTable| #[trigger]
                    moves_come_to(
                        &judge,
                        old(self).pessimistic(),
                        old(self).focussed(),
                        self.table(),
                        board@,
                        window,
                        depth,
                        moves@,
                        k as nat,
                        best_result,
                        r,
                        t,
                    ) ==> moves_come_to(
                        &judge,
                        old(self).pessimistic(),
                        old(self).focussed(),
                        start,
                        board@,
                        bounds,
                        depth,
                        moves@,
                        0,
                        None,
                        r,
                        t,
                    ),
            decreases moves.len() - k,
        {
            let mv = moves[k];
            let ghost before = self.table();
            let ghost window_before = window;
            let ghost best_before = best_result;
            proof {
                board.lemma_wf();
                lemma_all_moves_can_move(board@, mv);
            }
            let result = self.evaluate_move(board, mv, window, depth, is_maxing, deadline);
            let ghost mid = self.table();
            proof {
                self.position_table.lemma_wf();
            }
            match after_move(is_maxing, result) {
                AfterMove::End(verdict) => {
                    match verdict {
                        SearchResult::Timeout => {},
                        _ => {
                            self.update_table_for_result(board, depth, window, verdict);
                            self.branch_info.count_prune(depth as usize);
                            proof {
                                let after = told(mid, board@, depth, window, verdict);
                                assert(self.table() == after);
                                lemma_moves_end(
                                    &judge,
                                    old(self).pessimistic(),
                                    old(self).focussed(),
                                    before,
                                    board@,
                                    window,
                                    depth,
                                    moves@,
                                    k as nat,
                                    best_result,
                                    result,
                                    mid,
                                    verdict,
                                );
                                assert(moves_come_to(
                                    &judge,
                                    old(self).pessimistic(),
                                    old(self).focussed(),
                                    before,
                                    board@,
                                    window,
                                    depth,
                                    moves@,
                                    k as nat,
                                    best_result,
                                    verdict,
                                    after,
                                ));
                                assert(moves_come_to(
                                    &judge,
                                    old(self).pessimistic(),
                                    old(self).focussed(),
                                    start,
                                    board@,
                                    bounds,
                                    depth,
                                    moves@,
                                    0,
                                    None,
                                    verdict,
                                    after,
                                ));
                                lemma_search_moves(
                                    &judge,
                                    old(self).pessimistic(),
                                    old(self).focussed(),
                                    entry,
                                    board@,
                                    bounds,
                                    depth,
                                    get_move,
                                    moves@,
                                    start,
                                    verdict,
                                    self.table(),
                                );
                            }
                        },
                    }
                    return verdict;
                },
                AfterMove::TakeNote(score) => {
                    proof {
                        lemma_update_valid(window, score, score);
                        assert forall|s: Score|
                            (Bounds {
                                min: raised_to(window.min, score),
                                max: window.max,
                            }).spec_contains(s) implies window.spec_contains(s) by {
                            lemma_update_valid(window, score, s);
                        }
                        assert forall|s: Score|
                            (Bounds {
                                min: window.min,
                                max: capped_at(window.max, score),
                            }).spec_contains(s) implies window.spec_contains(s) by {
                            lemma_update_valid(window, score, s);
                        }
                    }
                    // The score narrows the window for the moves to come.
                    if is_maxing {
                        window.update_min(score);
                    } else {
                        window.update_max(score);
                    }
                    best_result = keep_better(is_maxing, best_result, score, mv);
                },
                AfterMove::PassOver => {},
            }
            k += 1;
            proof {
                assert forall|r: SearchResult, t: InfoTable| #[trigger]
                    moves_come_to(
                        &judge,
                        old(self).pessimistic(),
                        old(self).focussed(),
                        self.table(),
                        board@,
                        window,
                        depth,
                        moves@,
                        k as nat,
                        best_result,
                        r,
                        t,
                    ) implies moves_come_to(
                    &judge,
                    old(self).pessimistic(),
                    old(self).focussed(),
                    start,
                    board@,
                    bounds,
                    depth,
                    moves@,
                    0,
                    None,
                    r,
                    t,
                ) by {
                    lemma_moves_on(
                        &judge,
                        old(self).pessimistic(),
                        old(self).focussed(),
                        before,
                        board@,
                        window_before,
                        depth,
                        moves@,
                        (k - 1) as nat,
                        best_before,
                        result,
                        mid,
                        r,
                        t,
                    );
                }
            }
        }
        let res = verdict_of_best(is_maxing, best_result);
        let ghost last = self.table();
        self.update_table_for_result(board, depth, window, res);
        proof {
            assert(self.table() == told(last, board@, depth, window, res));
            lemma_moves_done(
                &judge,
                old(self).pessimistic(),
                old(self).focussed(),
                last,
                board@,
                window,
                depth,
                moves@,
                k as nat,
                best_result,
            );
            lemma_search_moves(
                &judge,
                old(self).pessimistic(),
                old(self).focussed(),
                entry,
                board@,
                bounds,
                depth,
                get_move,
                moves@,
                start,
                res,
                self.table(),
            );
        }
        res
    }
}

impl<E: StaticEvaluator> AlphaBeta<E> {
    /// The table of an engine that is fit to search has all its slots and
    /// pins no score down outside `[0, 1]`.
    pub proof fn lemma_table_tame(&self)
        requires
            self.wf(),
        ensures
            unit_scores::tame(self.table()),
    {
        self.position_table.lemma_wf();
        assert forall|i: int| 0 <= i < self.table().len() implies ((#[trigger] self.table()[i])
            matches Some(e) ==> unit_scores::pins_in_unit(e.score)) by {
            if self.table()[i] is Some {
                assert(self.table()[i]->Some_0.score.wf());
            }
        }
    }

    /// The deadline for a choice of move that begins now: the engine's
    /// budget of time from this moment.
    pub fn deadline_for_move(&self) -> (r: Deadline)
        ensures
            r.budget() == Some(self.time_budget()),
    {
        Deadline::from_now(self.max_time)
    }

    /// The best move that the engine finds by a deadline: it searches to
    /// depth 2, 3 and so on up to its lookahead, each time with the widest
    /// window and the table as the search before left it, and answers with
    /// the move of the last search that was done before the deadline
    /// expired.
    ///
    /// By a deadline that never expires every depth is searched, and the
    /// answer is the move of the search to the full lookahead. By one with
    /// a budget of nothing no search is done.
    pub fn get_move_by(&mut self, board: &MyBoard, deadline: Deadline) -> (r: Result<
        ChessMove,
        MoveError,
    >)
        requires
            old(self).wf(),
            old(self).lookahead() >= 2,
            board.wf(),
            !board@.awaiting_bonus,
            board@.status == Status::InProgress,
        ensures
            final(self).wf(),
            final(self).same_setup(old(self)),
            final(self).judge() == old(self).judge(),
            r == Err::<ChessMove, MoveError>(MoveError::NoLegalMove) <==> board@.all_moves().len()
                == 0,
            board@.all_moves().len() == 0 ==> *final(self) == *old(self),
            r == Err::<ChessMove, MoveError>(MoveError::NoDepthCompleted)
                ==> deadline.can_expire(),
            r matches Ok(m) ==> board@.all_moves().contains(m) && exists|
                depth: u8,
                after: InfoTable,
            |
                #[trigger] deepening_comes_to(
                    &old(self).judge(),
                    old(self).pessimistic(),
                    old(self).focussed(),
                    old(self).table(),
                    board@,
                    depth,
                    m,
                    after,
                ) && depth <= old(self).lookahead(),
            !deadline.can_expire() && board@.all_moves().len() > 0 ==> (r matches Ok(m)
                && deepening_comes_to(
                &old(self).judge(),
                old(self).pessimistic(),
                old(self).focussed(),
                old(self).table(),
                board@,
                old(self).lookahead(),
                m,
                final(self).table(),
            )),
            deadline.budget() == Some(0u64) && board@.all_moves().len() > 0 ==> r == Err::<
                ChessMove,
                MoveError,
            >(MoveError::NoDepthCompleted) && final(self).table() == old(self).table(),
    {
        let moves = board.all_moves();
        if moves.len() == 0 {
            return Err(MoveError::NoLegalMove);
        }
        proof {
            self.position_table.lemma_wf();
        }
        let mut best_move: Option<(ChessMove, Score, u8)> = None;
        let mut depth: u8 = 2;
        let mut go = true;
        let ghost judge = self.judge();
        let ghost start = self.table();
        let ghost mut done = self.table();
        while go && depth <= self.max_lookahead
            invariant
                2 <= depth,
                self.wf(),
                self.same_setup(old(self)),
                self.judge() == judge,
                judge == old(self).judge(),
                start == old(self).table(),
                board.wf(),
                !board@.awaiting_bonus,
                board@.status == Status::InProgress,
                board@.all_moves().len() > 0,
                whole(done),
                go ==> self.table() == done,
                best_move is None ==> done == start && (go ==> depth == 2),
                !deadline.can_expire() && !go ==> (best_move matches Some((_, _, d)) && d == old(
                    self,
                ).lookahead() && self.table() == done),
                deadline.budget() == Some(0u64) ==> best_move is None && self.table() == start,
                best_move matches Some((m, s, d)) ==> board@.all_moves().contains(m) && s.in_unit()
                    && 2 <= d <= old(self).lookahead() && (go ==> d + 1 == depth)
                    && deepening_comes_to(
                    &judge,
                    old(self).pessimistic(),
                    old(self).focussed(),
                    start,
                    board@,
                    d,
                    m,
                    done,
                ),
            decreases
                    (if go {
                        256 - depth
                    } else {
                        0
                    }),
        {
            self.iter_deep_lookups = 0;
            self.iter_deep_failures = 0;
            self.position_table.reset_debug_info();
            self.branch_info.reset_statistics();
            let ghost before = self.table();
            let ghost earlier = best_move;
            let result = self.get_scored_best_move(board, Bounds::widest(), depth, true, deadline);
            let (noted, go_on) = note_depth(best_move, result, depth);
            best_move = noted;
            if !go_on {
                go = false;
            } else {
                proof {
                    self.position_table.lemma_wf();
                    let (mv, score, _) = noted->Some_0;
                    let before_move = match earlier {
                        Some((m, _, _)) => m,
                        None => mv,
                    };
                    lemma_deepening_more(
                        &judge,
                        old(self).pessimistic(),
                        old(self).focussed(),
                        start,
                        board@,
                        depth,
                        before_move,
                        before,
                        score,
                        mv,
                        self.table(),
                    );
                    done = self.table();
                }
                self.log_info();
                if depth == u8::MAX {
                    go = false;
                } else {
                    depth += 1;
                }
            }
        }
        match best_move {
            Some((mv, _, _)) => Ok(mv),
            None => Err(MoveError::NoDepthCompleted),
        }
    }
}

impl<E: StaticEvaluator> Engine for AlphaBeta<E> {
    open spec fn ready(&self) -> bool {
        self.wf()
    }

    /// An engine that cannot search to depth 2 cannot choose a move.
    open spec fn fit_to_choose(&self) -> bool {
        self.lookahead() >= 2
    }

    /// The clock may stop the engine before its first search is done.
    open spec fn may_give_up(&self) -> bool {
        true
    }

    /// The score of a board that a search to the full depth finds, with
    /// the widest window and no limit of time. A game in progress in which
    /// the side to move has no move counts as drawn, and is not searched.
    fn evaluate(&mut self, board: &MyBoard) -> (score: Score)
        ensures
            final(self).same_setup(old(self)),
            final(self).judge() == old(self).judge(),
            if board@.status == Status::InProgress && board@.all_moves().len() == 0 {
                score == Score::spec_half() && final(self).table_kept(old(self))
            } else {
                exists|mv: Option<ChessMove>|
                    #[trigger] search_comes_of(
                        &old(self).judge(),
                        old(self).pessimistic(),
                        old(self).focussed(),
                        old(self).table(),
                        board@,
                        Bounds::spec_widest(),
                        old(self).lookahead(),
                        false,
                        SearchResult::Result(score, mv),
                        final(self).table(),
                    )
            },
    {
        let moves = board.all_moves();
        if board.get_status().is_in_progress() && moves.len() == 0 {
            return Score::half();
        }
        let depth = self.max_lookahead;
        let result = self.get_scored_best_move(
            board,
            Bounds::widest(),
            depth,
            false,
            Deadline::never(),
        );
        match result {
            SearchResult::Result(score, _) => score,
            _ => vstd::pervasive::unreached(),
        }
    }

    /// The best move that the engine finds in its time: what `get_move_by`
    /// finds by the deadline that `deadline_for_move` sets.
    fn get_move(&mut self, board: &MyBoard) -> (r: Result<ChessMove, MoveError>)
        ensures
            final(self).same_setup(old(self)),
            final(self).judge() == old(self).judge(),
            r matches Ok(m) ==> exists|depth: u8, after: InfoTable|
                #[trigger] deepening_comes_to(
                    &old(self).judge(),
                    old(self).pessimistic(),
                    old(self).focussed(),
                    old(self).table(),
                    board@,
                    depth,
                    m,
                    after,
                ) && depth <= old(self).lookahead(),
            old(self).time_budget() == 0 && board@.all_moves().len() > 0 ==> r == Err::<
                ChessMove,
                MoveError,
            >(MoveError::NoDepthCompleted) && final(self).table() == old(self).table(),
    {
        let deadline = self.deadline_for_move();
        self.get_move_by(board, deadline)
    }

    /// Writes into the log, if it keeps lines of level 6, how the last
    /// search made use of the table and how much of the tree it went
    /// through.
    fn log_info(&mut self)
        ensures
            final(self).same_setup(old(self)),
            final(self).judge() == old(self).judge(),
            final(self).table() == old(self).table(),
            final(self).log_level() == old(self).log_level(),
            old(self).log_level() < 6 ==> final(self).log_lines() == old(self).log_lines(),
            old(self).log_level() >= 6 ==> {
                let before = old(self).log_lines();
                let after = final(self).log_lines();
                &&& after.len() == before.len() + 3
                &&& after.subrange(0, before.len() as int) == before
                &&& after[before.len() as int]@ == lookups_text(
                    old(self).ordering_counters().0,
                    old(self).ordering_counters().1,
                )
                &&& after[before.len() as int + 1]@ == info_text(old(self).table_counters())
                &&& after[before.len() as int + 2]@ == statistics_text(old(self).layers())
            },
    {
        if self.logger.keeps(6) {
            let ghost before = self.logger.lines();
            let mut line = String::new();
            push_decimal(&mut line, self.iter_deep_lookups as u128);
            push_text(&mut line, " lookups, ");
            push_decimal(&mut line, self.iter_deep_failures as u128);
            push_text(&mut line, " (");
            push_decimal(
                &mut line,
                percent_of(self.iter_deep_failures as u64, self.iter_deep_lookups as u64),
            );
            push_text(&mut line, "%) failures");
            proof {
                assert(line@ =~= lookups_text(self.iter_deep_lookups, self.iter_deep_failures));
            }
            self.logger.log(6, line.as_str());
            let ghost first = self.logger.lines();
            let info = self.position_table.info();
            self.logger.log(6, info.as_str());
            let ghost second = self.logger.lines();
            let statistics = self.branch_info.statistics();
            self.logger.log(6, statistics.as_str());
            proof {
                let after = self.logger.lines();
                assert(second == after.drop_last());
                assert(first == second.drop_last());
                assert(before == first.drop_last());
                assert(after.subrange(0, before.len() as int) =~= before);
            }
        }
    }

    closed spec fn logger(&self) -> Logger {
        self.logger
    }

    fn get_logger(&self) -> (r: &Logger) {
        &self.logger
    }
}

} // verus!
