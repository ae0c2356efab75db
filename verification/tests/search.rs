use fixed::types::extra::U31;
use fixed::FixedU32;
use random_chess::engine::alphabeta::after_move;
use random_chess::engine::alphabeta::bounds::Bounds;
use random_chess::engine::alphabeta::chances;
use random_chess::engine::alphabeta::key_for;
use random_chess::engine::alphabeta::note_depth;
use random_chess::engine::alphabeta::ordering::sort_by_key;
use random_chess::engine::alphabeta::ordering::KeyedMove;
use random_chess::engine::alphabeta::record_for;
use random_chess::engine::alphabeta::score_info::ScoreInfo;
use random_chess::engine::alphabeta::search_result::SearchResult;
use random_chess::engine::alphabeta::verdict_of_best;
use random_chess::engine::alphabeta::verdict_of_record;
use random_chess::engine::alphabeta::AfterMove;
use random_chess::engine::alphabeta::verdict_of_score;
use random_chess::engine::keep_better;
use random_chess::engine::next_boards;
use random_chess::default_engine;
use random_chess::AlphaBeta;
use random_chess::ChessMove;
use random_chess::Color;
use random_chess::Deadline;
use random_chess::Engine;
use random_chess::Greedy;
use random_chess::Minimax;
use random_chess::MoveError;
use random_chess::MyBoard;
use random_chess::Piece;
use random_chess::ProportionCount;
use random_chess::Score;
use random_chess::Square;
use random_chess::StaticEvaluator;
use random_chess::Status;
use std::time::Instant;

fn score(value: f64) -> Score {
    Score::from_bits(FixedU32::<U31>::from_num(value).to_bits())
}

fn sq(name: &str) -> Square {
    let bytes = name.as_bytes();
    Square::make_square(bytes[1] - b'1', bytes[0] - b'a').unwrap()
}

fn mv(from: &str, to: &str) -> ChessMove {
    ChessMove::new(sq(from), sq(to), None)
}

fn play(board: &mut MyBoard, from: &str, to: &str, bonus: bool) {
    board.apply_move(mv(from, to));
    board.apply_bonus(bonus);
}

fn board_of(pieces: &[(&str, Piece, Color)], side_to_move: Color) -> MyBoard {
    let mut slots = [None; 64];
    for (name, piece, color) in pieces {
        slots[sq(name).to_index() as usize] = Some((*piece, *color));
    }
    MyBoard::with_pieces(slots, side_to_move)
}

fn engine(lookahead: u8, focussed: bool) -> AlphaBeta<ProportionCount> {
    AlphaBeta::new(ProportionCount, lookahead, false, focussed, 0, 100_000)
}

fn pawns_and_kings() -> MyBoard {
    board_of(
        &[
            ("e1", Piece::King, Color::White),
            ("d2", Piece::Pawn, Color::White),
            ("g3", Piece::Knight, Color::White),
            ("e8", Piece::King, Color::Black),
            ("c5", Piece::Pawn, Color::Black),
            ("f6", Piece::Bishop, Color::Black),
        ],
        Color::White,
    )
}

fn close(a: Score, b: Score) -> bool {
    let tolerance = score(0.003).to_bits();
    a.to_bits().abs_diff(b.to_bits()) < tolerance
}

#[test]
fn the_true_chances_are_a_quarter_and_three_quarters() {
    for count in [0, 2, 32, 64] {
        for maxing in [false, true] {
            assert_eq!(chances(false, maxing, count), (score(0.25), score(0.75)));
        }
    }
}

#[test]
fn a_pessimist_shifts_the_chances_against_the_mover() {
    let skew = score(32.0 / 200.0);
    assert_eq!(
        chances(true, true, 32),
        (score(0.25).plus(skew), score(0.75).minus(skew))
    );
    assert_eq!(
        chances(true, false, 32),
        (score(0.25).minus(skew), score(0.75).plus(skew))
    );
    assert_eq!(chances(true, true, 0), (score(0.25), score(0.75)));
    let small = score(3.0 / 200.0);
    assert_eq!(
        chances(true, false, 3),
        (score(0.25).minus(small), score(0.75).plus(small))
    );
    // With fifty pieces or more the shift stops short of a quarter.
    let most = score(0.25).minus(Score::delta());
    assert_eq!(
        chances(true, false, 50),
        (Score::delta(), score(0.75).plus(most))
    );
    assert_eq!(
        chances(true, true, 64),
        (score(0.25).plus(most), score(0.75).minus(most))
    );
    for count in 0..=64 {
        for maxing in [false, true] {
            let (b_chance, nb_chance) = chances(true, maxing, count);
            assert!(b_chance > Score::zero());
            assert!(nb_chance > Score::zero());
            assert_eq!(b_chance.plus(nb_chance), Score::one());
            if count < 50 {
                let skew = score(count as f64 / 200.0);
                assert_eq!(b_chance.to_bits().abs_diff(score(0.25).to_bits()), skew.to_bits());
            }
        }
    }
}

#[test]
fn a_record_of_the_table_can_end_a_search() {
    let bounds = Bounds {
        min: Some(score(0.25)),
        max: Some(score(0.75)),
    };
    assert_eq!(
        verdict_of_record(bounds, ScoreInfo::from_max_score(score(0.25)), false),
        Some(SearchResult::Low)
    );
    assert_eq!(
        verdict_of_record(bounds, ScoreInfo::from_min_score(score(0.75)), true),
        Some(SearchResult::High)
    );
    assert_eq!(
        verdict_of_record(bounds, ScoreInfo::from_score(score(0.5)), false),
        Some(SearchResult::Result(score(0.5), None))
    );
    // A search that has to name a move goes on.
    assert_eq!(
        verdict_of_record(bounds, ScoreInfo::from_score(score(0.5)), true),
        None
    );
    assert_eq!(
        verdict_of_record(bounds, ScoreInfo::from_min_score(score(0.5)), false),
        None
    );
    assert_eq!(
        verdict_of_record(Bounds::widest(), ScoreInfo::from_score(Score::one()), false),
        Some(SearchResult::Result(Score::one(), None))
    );
}

#[test]
fn a_known_score_ends_a_search_by_its_place_in_the_window() {
    let bounds = Bounds {
        min: Some(score(0.25)),
        max: Some(score(0.75)),
    };
    assert_eq!(verdict_of_score(bounds, score(0.25)), SearchResult::Low);
    assert_eq!(verdict_of_score(bounds, score(0.125)), SearchResult::Low);
    assert_eq!(verdict_of_score(bounds, score(0.75)), SearchResult::High);
    assert_eq!(
        verdict_of_score(bounds, score(0.5)),
        SearchResult::Result(score(0.5), None)
    );
    assert_eq!(
        verdict_of_score(Bounds::widest(), Score::zero()),
        SearchResult::Result(Score::zero(), None)
    );
}

#[test]
fn the_table_is_told_what_a_search_found() {
    let bounds = Bounds {
        min: Some(score(0.25)),
        max: Some(score(0.75)),
    };
    assert_eq!(
        record_for(bounds, SearchResult::Result(score(0.5), Some(mv("e2", "e4")))),
        Some(ScoreInfo::from_score(score(0.5)))
    );
    assert_eq!(
        record_for(bounds, SearchResult::Low),
        Some(ScoreInfo {
            min: Score::zero(),
            max: score(0.25)
        })
    );
    assert_eq!(
        record_for(bounds, SearchResult::High),
        Some(ScoreInfo {
            min: score(0.75),
            max: Score::one()
        })
    );
    assert_eq!(record_for(bounds, SearchResult::Timeout), None);
}

#[test]
fn moves_are_ordered_best_for_the_mover_first() {
    assert_eq!(key_for(true, score(0.75)), score(0.25).to_bits());
    assert_eq!(key_for(false, score(0.75)), score(0.75).to_bits());
    assert_eq!(key_for(true, Score::one()), 0);
    let keyed = vec![
        KeyedMove {
            key: 5,
            mv: mv("a2", "a3"),
        },
        KeyedMove {
            key: 1,
            mv: mv("b2", "b3"),
        },
        KeyedMove {
            key: 5,
            mv: mv("c2", "c3"),
        },
        KeyedMove {
            key: 0,
            mv: mv("d2", "d3"),
        },
        KeyedMove {
            key: 1,
            mv: mv("e2", "e3"),
        },
    ];
    // Moves with the same key stay in their order.
    assert_eq!(
        sort_by_key(keyed),
        vec![
            mv("d2", "d3"),
            mv("b2", "b3"),
            mv("e2", "e3"),
            mv("a2", "a3"),
            mv("c2", "c3"),
        ]
    );
    assert_eq!(sort_by_key(vec![]), vec![]);
}

#[test]
fn the_first_of_the_best_moves_is_kept() {
    let a = mv("a2", "a3");
    let b = mv("b2", "b3");
    assert_eq!(keep_better(true, None, score(0.5), a), Some((score(0.5), a)));
    assert_eq!(
        keep_better(true, Some((score(0.5), a)), score(0.75), b),
        Some((score(0.75), b))
    );
    assert_eq!(
        keep_better(true, Some((score(0.5), a)), score(0.5), b),
        Some((score(0.5), a))
    );
    assert_eq!(
        keep_better(true, Some((score(0.5), a)), score(0.25), b),
        Some((score(0.5), a))
    );
    assert_eq!(
        keep_better(false, Some((score(0.5), a)), score(0.25), b),
        Some((score(0.25), b))
    );
    assert_eq!(
        keep_better(false, Some((score(0.5), a)), score(0.75), b),
        Some((score(0.5), a))
    );
}

#[test]
fn a_move_that_is_too_good_for_the_mover_ends_the_search() {
    let found = SearchResult::Result(score(0.5), None);
    for maxing in [false, true] {
        assert_eq!(after_move(maxing, found), AfterMove::TakeNote(score(0.5)));
        assert_eq!(
            after_move(maxing, SearchResult::Timeout),
            AfterMove::End(SearchResult::Timeout)
        );
    }
    assert_eq!(after_move(true, SearchResult::Low), AfterMove::PassOver);
    assert_eq!(
        after_move(true, SearchResult::High),
        AfterMove::End(SearchResult::High)
    );
    assert_eq!(
        after_move(false, SearchResult::Low),
        AfterMove::End(SearchResult::Low)
    );
    assert_eq!(after_move(false, SearchResult::High), AfterMove::PassOver);
    let a = mv("a2", "a3");
    assert_eq!(
        verdict_of_best(true, Some((score(0.5), a))),
        SearchResult::Result(score(0.5), Some(a))
    );
    assert_eq!(
        verdict_of_best(false, Some((score(0.5), a))),
        SearchResult::Result(score(0.5), Some(a))
    );
    assert_eq!(verdict_of_best(true, None), SearchResult::Low);
    assert_eq!(verdict_of_best(false, None), SearchResult::High);
}

#[test]
fn the_driver_goes_on_after_a_search_that_was_done() {
    let a = mv("a2", "a3");
    let b = mv("b2", "b3");
    assert_eq!(
        note_depth(None, SearchResult::Result(score(0.5), Some(a)), 2),
        (Some((a, score(0.5), 2)), true)
    );
    assert_eq!(
        note_depth(
            Some((a, score(0.5), 2)),
            SearchResult::Result(score(0.75), Some(b)),
            3
        ),
        (Some((b, score(0.75), 3)), true)
    );
    assert_eq!(
        note_depth(Some((a, score(0.5), 2)), SearchResult::Timeout, 3),
        (Some((a, score(0.5), 2)), false)
    );
    assert_eq!(note_depth(None, SearchResult::Timeout, 2), (None, false));
}

#[test]
fn next_boards_flips_the_coin_both_ways() {
    let board = MyBoard::initial_board(Color::White);
    let (bonus, no_bonus) = next_boards(&board, mv("e2", "e4"), true);
    assert_eq!(bonus.get_side_to_move(), Color::White);
    assert_eq!(no_bonus.get_side_to_move(), Color::Black);
    assert!(!bonus.is_awaiting_bonus());
    assert!(!no_bonus.is_awaiting_bonus());
    assert_eq!(bonus.piece_on(sq("e4")), Some((Piece::Pawn, Color::White)));
    assert_eq!(no_bonus.piece_on(sq("e4")), Some((Piece::Pawn, Color::White)));
    assert_eq!(board.piece_on(sq("e4")), None);
    // Unchecked, a side without a move does not draw.
    let stuck = board_of(
        &[
            ("a2", Piece::Pawn, Color::White),
            ("a3", Piece::Pawn, Color::Black),
            ("h8", Piece::King, Color::Black),
        ],
        Color::Black,
    );
    let (_, unchecked) = next_boards(&stuck, mv("h8", "h7"), false);
    assert_eq!(unchecked.get_status(), Status::InProgress);
    let (with_bonus, checked) = next_boards(&stuck, mv("h8", "h7"), true);
    assert_eq!(checked.get_status(), Status::Draw);
    assert_eq!(with_bonus.get_status(), Status::InProgress);
}

#[test]
fn a_free_queen_is_taken() {
    let board = board_of(
        &[
            ("a1", Piece::King, Color::White),
            ("d1", Piece::Rook, Color::White),
            ("h8", Piece::King, Color::Black),
            ("d5", Piece::Queen, Color::Black),
        ],
        Color::White,
    );
    let mut engine = AlphaBeta::new(ProportionCount, 2, false, false, 0, 100_000);
    assert_eq!(engine.get_move(&board), Ok(mv("d1", "d5")));
    let mut focussed = AlphaBeta::new(ProportionCount, 2, false, true, 0, 100_000);
    assert_eq!(focussed.get_move(&board), Ok(mv("d1", "d5")));
    let mut pessimist = AlphaBeta::new(ProportionCount, 3, true, false, 0, 100_000);
    assert_eq!(pessimist.get_move(&board), Ok(mv("d1", "d5")));
    // Black in turn takes the rook.
    let black = board_of(
        &[
            ("a1", Piece::King, Color::White),
            ("d1", Piece::Rook, Color::White),
            ("h8", Piece::King, Color::Black),
            ("d5", Piece::Queen, Color::Black),
        ],
        Color::Black,
    );
    let mut engine = AlphaBeta::new(ProportionCount, 2, false, false, 0, 100_000);
    assert_eq!(engine.get_move(&black), Ok(mv("d5", "d1")));
}

#[test]
fn a_king_that_can_be_taken_is_taken() {
    let board = board_of(
        &[
            ("a1", Piece::King, Color::White),
            ("d1", Piece::Rook, Color::White),
            ("d8", Piece::King, Color::Black),
            ("h5", Piece::Queen, Color::Black),
        ],
        Color::White,
    );
    let mut engine = AlphaBeta::new(ProportionCount, 2, false, false, 0, 100_000);
    assert_eq!(engine.get_move(&board), Ok(mv("d1", "d8")));
    let mut greedy = Greedy::default(ProportionCount);
    assert_eq!(greedy.get_move(&board), Ok(mv("d1", "d8")));
    let mut minimax = Minimax::new(ProportionCount, 2);
    assert_eq!(minimax.get_move(&board), Ok(mv("d1", "d8")));
}

#[test]
fn the_engine_answers_in_time_with_an_opening_move() {
    let board = MyBoard::initial_board(Color::White);
    // The clock of a busy machine can steal time from one answer; it does
    // not from three in a row.
    let mut fastest = u128::MAX;
    for _ in 0..3 {
        let mut engine = AlphaBeta::new(ProportionCount, 12, false, false, 0, 100);
        let start = Instant::now();
        let answer = engine.get_move(&board);
        let taken = start.elapsed().as_millis();
        let chosen = answer.unwrap();
        assert!(board.all_moves().contains(&chosen));
        assert!(board.moves_from(chosen.get_source()).contains(&chosen));
        assert!(taken >= 100, "took {} ms", taken);
        fastest = fastest.min(taken);
        if fastest <= 200 {
            break;
        }
    }
    assert!(fastest <= 200, "took {} ms", fastest);
}

#[test]
fn a_narrow_window_gives_the_same_score_or_the_side_on_which_it_lies() {
    let board = pawns_and_kings();
    let deadline = Deadline::never();
    let found = engine(4, false).get_scored_best_move(&board, Bounds::widest(), 4, false, deadline);
    let s = match found {
        SearchResult::Result(s, _) => s,
        other => panic!("no score: {:?}", other),
    };
    assert!(s > score(0.01) && s < score(0.99));
    let step = score(0.001);
    let around = Bounds {
        min: Some(s.minus(step)),
        max: Some(s.plus(step)),
    };
    match engine(4, false).get_scored_best_move(&board, around, 4, false, deadline) {
        SearchResult::Result(again, _) => assert_eq!(again, s),
        other => panic!("no score: {:?}", other),
    }
    let above = Bounds {
        min: Some(s.plus(step)),
        max: Some(Score::one()),
    };
    assert_eq!(
        engine(4, false).get_scored_best_move(&board, above, 4, false, deadline),
        SearchResult::Low
    );
    let below = Bounds {
        min: Some(Score::zero()),
        max: Some(s.minus(step)),
    };
    assert_eq!(
        engine(4, false).get_scored_best_move(&board, below, 4, false, deadline),
        SearchResult::High
    );
}

#[test]
fn a_search_with_a_move_names_a_move_of_the_board() {
    let board = pawns_and_kings();
    let mut searcher = engine(3, false);
    match searcher.get_scored_best_move(&board, Bounds::widest(), 3, true, Deadline::never()) {
        SearchResult::Result(s, Some(chosen)) => {
            assert!(s <= Score::one());
            assert!(board.all_moves().contains(&chosen));
            // The score is what the full search makes of the board.
            assert_eq!(engine(3, false).evaluate(&board), s);
        }
        other => panic!("no move: {:?}", other),
    }
}

#[test]
fn a_deadline_that_has_passed_stops_the_search() {
    let board = pawns_and_kings();
    let passed = Deadline::from_now(0);
    assert_eq!(
        engine(3, false).get_scored_best_move(&board, Bounds::widest(), 3, true, passed),
        SearchResult::Timeout
    );
    let mut hurried = AlphaBeta::new(ProportionCount, 3, false, false, 0, 0);
    assert_eq!(hurried.get_move(&board), Err(MoveError::NoDepthCompleted));
}

#[test]
fn the_score_of_the_turned_board_is_the_complement() {
    let mut board = MyBoard::initial_board(Color::White);
    play(&mut board, "e2", "e4", false);
    play(&mut board, "d7", "d5", false);
    play(&mut board, "e4", "d5", true);
    play(&mut board, "g1", "f3", false);
    for (lookahead, focussed) in [(2, false), (3, false), (3, true)] {
        let plain = engine(lookahead, focussed).evaluate(&board);
        let mut turned = board;
        turned.invert_ranks_and_colors();
        let complement = engine(lookahead, focussed).evaluate(&turned);
        let sum = plain.to_bits() as i64 + complement.to_bits() as i64;
        let error = (sum - Score::one().to_bits() as i64).abs();
        assert!(
            error < score(0.003).to_bits() as i64,
            "{:?} and {:?}",
            plain,
            complement
        );
    }
}

#[test]
fn the_score_of_the_mirrored_board_is_the_same() {
    let mut board = MyBoard::initial_board(Color::White);
    play(&mut board, "e2", "e4", false);
    play(&mut board, "d7", "d5", false);
    play(&mut board, "e4", "d5", true);
    play(&mut board, "g1", "f3", false);
    board.strip_castle_rights();
    let plain = engine(3, false).evaluate(&board);
    let mut mirrored = board;
    mirrored.invert_files();
    let same = engine(3, false).evaluate(&mirrored);
    assert!(close(plain, same), "{:?} and {:?}", plain, same);
    let mut both = mirrored;
    both.invert_ranks_and_colors();
    let complement = engine(3, false).evaluate(&both);
    assert!(
        close(plain, Score::one().minus(complement)),
        "{:?} and {:?}",
        plain,
        complement
    );
}

#[test]
fn two_fresh_engines_choose_the_same_move() {
    let board = pawns_and_kings();
    let first = engine(3, false).get_move(&board);
    let second = engine(3, false).get_move(&board);
    assert!(first.is_ok());
    assert_eq!(first, second);
    let first = AlphaBeta::new(ProportionCount, 3, true, true, 0, 100_000).get_move(&board);
    let second = AlphaBeta::new(ProportionCount, 3, true, true, 0, 100_000).get_move(&board);
    assert!(first.is_ok());
    assert_eq!(first, second);
}

#[test]
fn no_move_is_offered_where_there_is_none() {
    let stuck = board_of(
        &[
            ("a2", Piece::Pawn, Color::White),
            ("a3", Piece::Pawn, Color::Black),
            ("h8", Piece::King, Color::Black),
        ],
        Color::White,
    );
    assert_eq!(engine(2, false).get_move(&stuck), Err(MoveError::NoLegalMove));
    assert_eq!(
        Greedy::default(ProportionCount).get_move(&stuck),
        Err(MoveError::NoLegalMove)
    );
    assert_eq!(
        Minimax::new(ProportionCount, 2).get_move(&stuck),
        Err(MoveError::NoLegalMove)
    );
    // Such a game counts as drawn.
    assert_eq!(engine(2, false).evaluate(&stuck), score(0.5));
    assert_eq!(Minimax::new(ProportionCount, 2).evaluate(&stuck), score(0.5));
    // A game that has ended has no moves either.
    let mut won = MyBoard::initial_board(Color::White);
    play(&mut won, "e2", "e4", true);
    play(&mut won, "d1", "h5", true);
    play(&mut won, "h5", "f7", true);
    play(&mut won, "f7", "e8", false);
    assert_eq!(won.all_moves(), vec![]);
    assert_eq!(engine(2, false).evaluate(&won), Score::one());
}

#[test]
fn the_engines_without_pruning_agree_with_the_full_search() {
    let board = pawns_and_kings();
    for lookahead in [1u8, 2, 3] {
        let pruned = engine(lookahead, false).evaluate(&board);
        let plain = Minimax::new(ProportionCount, lookahead + 1).evaluate(&board);
        assert!(close(pruned, plain), "{:?} and {:?}", pruned, plain);
    }
    // A search to depth 0 is the judge's own word.
    assert_eq!(
        Minimax::new(ProportionCount, 1).evaluate(&board),
        ProportionCount.evaluate(&board)
    );
    assert_eq!(
        Greedy::default(ProportionCount).evaluate(&board),
        ProportionCount.evaluate(&board)
    );
    assert_eq!(
        Minimax::new(ProportionCount, 1).evaluate_with_cutoff(&board, 0),
        score(5.0 / 10.0)
    );
}

#[test]
fn the_greedy_engine_takes_what_is_worth_most_at_once() {
    let board = board_of(
        &[
            ("a1", Piece::King, Color::White),
            ("d1", Piece::Rook, Color::White),
            ("h8", Piece::King, Color::Black),
            ("d5", Piece::Queen, Color::Black),
            ("d6", Piece::Rook, Color::Black),
        ],
        Color::White,
    );
    // The queen is covered, but the greedy engine does not look that far.
    assert_eq!(
        Greedy::default(ProportionCount).get_move(&board),
        Ok(mv("d1", "d5"))
    );
}

#[test]
fn the_default_engine_is_fit_for_a_game() {
    let mut engine = default_engine();
    let board = pawns_and_kings();
    let chosen = engine.get_move(&board).unwrap();
    assert!(board.all_moves().contains(&chosen));
    // It logs how it made use of the table and how far it went.
    let lines = engine.take_log();
    assert_eq!(lines.len(), 9);
    assert!(lines[0].ends_with("%) failures"));
    assert!(lines[1].starts_with("Position table with "));
    // The counters are kept by the depth that is left, so the search to
    // the full depth is the one that starts at the root.
    assert!(lines[2].starts_with("Pruning statistics:\n\tDepth 0 (root) considered 0 nodes:\n"));
    assert!(lines[8].starts_with("Pruning statistics:\n\tDepth 0 (root) considered 1 nodes:\n"));
    assert_eq!(engine.take_log().len(), 0);
    assert!(engine.get_logger().keeps(10));
    assert!(engine.table_info().starts_with("Position table with "));
    assert!(engine.search_statistics().starts_with("Pruning statistics:\n"));
}

#[test]
fn the_greedy_engine_starts_with_a_log_that_keeps_next_to_nothing() {
    let engine = Greedy::default(ProportionCount);
    assert!(engine.get_logger().keeps(0));
    assert!(!engine.get_logger().keeps(1));
    let mut engine = engine;
    let board = pawns_and_kings();
    // The worth of a board is the judge's word, however often it is asked.
    let first = engine.evaluate(&board);
    assert_eq!(first, ProportionCount.evaluate(&board));
    assert_eq!(engine.evaluate(&board), first);
    let mut turned = board;
    turned.invert_ranks_and_colors();
    assert_eq!(engine.evaluate(&turned), ProportionCount.evaluate(&turned));
}

#[test]
fn a_search_without_a_window_takes_from_the_table_what_it_put_there() {
    let board = pawns_and_kings();
    let mut engine = Minimax::new(ProportionCount, 3);
    let first = engine.evaluate_with_cutoff(&board, 2);
    // The table now has the score for this depth and for every lesser one.
    assert_eq!(engine.evaluate_with_cutoff(&board, 2), first);
    assert_eq!(engine.evaluate_with_cutoff(&board, 1), first);
    assert_eq!(engine.evaluate_with_cutoff(&board, 0), first);
    assert_eq!(engine.evaluate(&board), first);
    // A fresh engine asks the judge at depth 0, for either side to move.
    let mut fresh = Minimax::new(ProportionCount, 3);
    assert_eq!(
        fresh.evaluate_with_cutoff(&board, 0),
        ProportionCount.evaluate(&board)
    );
    let other_side = board_of(
        &[
            ("e1", Piece::King, Color::White),
            ("d2", Piece::Pawn, Color::White),
            ("g3", Piece::Knight, Color::White),
            ("e8", Piece::King, Color::Black),
            ("c5", Piece::Pawn, Color::Black),
            ("f6", Piece::Bishop, Color::Black),
        ],
        Color::Black,
    );
    assert_eq!(
        fresh.evaluate_with_cutoff(&other_side, 0),
        ProportionCount.evaluate(&board)
    );
    // One move deep: the best for White of the means over the coin.
    let mut one = Minimax::new(ProportionCount, 2);
    let mut by_hand = Score::zero();
    for mv in board.all_moves() {
        let (bonus, no_bonus) = next_boards(&board, mv, false);
        let value = ProportionCount
            .evaluate(&bonus)
            .times(score(0.25))
            .plus(ProportionCount.evaluate(&no_bonus).times(score(0.75)));
        if value > by_hand {
            by_hand = value;
        }
    }
    assert_eq!(one.evaluate_with_cutoff(&board, 1), by_hand);
}

#[test]
fn a_search_that_is_told_of_an_expired_deadline_leaves_the_engine_alone() {
    let board = pawns_and_kings();
    let mut searcher = engine(3, false);
    let table = searcher.table_info();
    let counters = searcher.search_statistics();
    let far = Deadline::from_now(100_000);
    assert_eq!(
        searcher.search_told(&board, Bounds::widest(), 3, true, far, true),
        SearchResult::Timeout
    );
    assert_eq!(searcher.table_info(), table);
    assert_eq!(searcher.search_statistics(), counters);
    // Told that it has not expired, the search goes on.
    match searcher.search_told(&board, Bounds::widest(), 3, true, far, false) {
        SearchResult::Result(found, Some(chosen)) => {
            assert!(board.all_moves().contains(&chosen));
            assert_eq!(engine(3, false).evaluate(&board), found);
        }
        other => panic!("no move: {:?}", other),
    }
    assert_ne!(searcher.table_info(), table);
}

#[test]
fn a_new_engine_has_an_empty_table_and_counters_at_zero() {
    let fresh = engine(2, false);
    assert_eq!(
        fresh.table_info(),
        "Position table with 0/16777216 entries (0% full):\n\
         \tTotal insert attempts: 0\n\
         \t\tAdditions: 0 (0%)\n\
         \t\tOverwrites: 0 (0%)\n\
         \t\tIgnores: 0 (0%)\n\
         \tTotal get attempts: 0\n\
         \t\tHits: 0 (0%)\n\
         \t\tBlanks: 0 (0%)\n\
         \t\tIncorrects: 0 (0%)\n"
    );
    let statistics = fresh.search_statistics();
    assert_eq!(statistics.matches("considered 0 nodes").count(), 3);
    assert_eq!(statistics.matches("Depth").count(), 3);
    let mut logging = AlphaBeta::new(ProportionCount, 2, false, false, 6, 100_000);
    assert_eq!(logging.take_log().len(), 0);
    logging.log_info();
    let lines = logging.take_log();
    assert_eq!(lines.len(), 3);
    assert_eq!(lines[0], "0 lookups, 0 (0%) failures");
}

#[test]
fn a_record_that_settles_the_window_ends_the_search_at_once() {
    let board = pawns_and_kings();
    let mut searcher = engine(3, false);
    let found = match searcher.get_scored_best_move(
        &board,
        Bounds::widest(),
        3,
        false,
        Deadline::never(),
    ) {
        SearchResult::Result(found, _) => found,
        other => panic!("no score: {:?}", other),
    };
    let table = searcher.table_info();
    // The table now pins the score: a search without a move takes it from
    // there, and a window beside it ends with the side on which it lies.
    assert_eq!(
        searcher.get_scored_best_move(&board, Bounds::widest(), 3, false, Deadline::never()),
        SearchResult::Result(found, None)
    );
    let above = Bounds {
        min: Some(found),
        max: None,
    };
    assert_eq!(
        searcher.get_scored_best_move(&board, above, 2, false, Deadline::never()),
        SearchResult::Low
    );
    let below = Bounds {
        min: None,
        max: Some(found),
    };
    assert_eq!(
        searcher.get_scored_best_move(&board, below, 1, true, Deadline::never()),
        SearchResult::High
    );
    // Only the counters of the lookups have moved.
    assert_eq!(
        searcher.table_info().lines().next(),
        table.lines().next()
    );
}

#[test]
fn a_search_counts_the_position_at_its_depth() {
    let board = pawns_and_kings();
    let mut searcher = engine(3, false);
    let found = searcher.get_scored_best_move(&board, Bounds::widest(), 0, false, Deadline::never());
    assert_eq!(
        found,
        SearchResult::Result(ProportionCount.evaluate(&board), None)
    );
    let statistics = searcher.search_statistics();
    assert!(statistics.ends_with(
        "\tDepth 3 considered 1 nodes:\n\
         \t\t0 (0%) were resolved with a table lookup\n\
         \t\t1 (100%) were expanded\n\
         \t\t\tof these, 0 (0%) caused a prune\n"
    ));
    assert_eq!(statistics.matches("considered 0 nodes").count(), 3);
    // The second time the table settles it.
    let again = searcher.get_scored_best_move(&board, Bounds::widest(), 0, false, Deadline::never());
    assert_eq!(again, found);
    assert!(searcher.search_statistics().ends_with(
        "\tDepth 3 considered 2 nodes:\n\
         \t\t1 (50%) were resolved with a table lookup\n\
         \t\t1 (50%) were expanded\n\
         \t\t\tof these, 0 (0%) caused a prune\n"
    ));
}

#[test]
fn by_a_deadline_that_never_expires_every_depth_is_searched() {
    let board = pawns_and_kings();
    let mut unhurried = engine(3, false);
    let found = unhurried.get_move_by(&board, Deadline::never());
    let chosen = found.expect("a move");
    assert!(board.all_moves().contains(&chosen));
    // The same searches by hand: depth 2, then depth 3 on the same table.
    let mut by_hand = engine(3, false);
    let mut last = None;
    for depth in 2..=3 {
        match by_hand.get_scored_best_move(&board, Bounds::widest(), depth, true, Deadline::never()) {
            SearchResult::Result(_, Some(mv)) => last = Some(mv),
            other => panic!("no move: {:?}", other),
        }
    }
    assert_eq!(last, Some(chosen));
    assert_eq!(by_hand.table_info().lines().next(), unhurried.table_info().lines().next());
}

#[test]
fn by_a_deadline_with_a_budget_of_nothing_no_search_is_done() {
    let board = pawns_and_kings();
    let mut hurried = engine(3, false);
    let table = hurried.table_info();
    assert_eq!(
        hurried.get_move_by(&board, Deadline::from_now(0)),
        Err(MoveError::NoDepthCompleted)
    );
    assert_eq!(hurried.table_info(), table);
    // The same engine finds a move once it is given time.
    assert!(hurried.get_move_by(&board, Deadline::from_now(100_000)).is_ok());
}

#[test]
fn the_deadline_for_a_move_has_the_budget_of_the_engine() {
    let patient = AlphaBeta::new(ProportionCount, 2, false, false, 0, 1234);
    assert_eq!(patient.deadline_for_move().get_budget(), Some(1234));
    let hasty = AlphaBeta::new(ProportionCount, 2, false, false, 0, 0);
    assert_eq!(hasty.deadline_for_move().get_budget(), Some(0));
    assert!(hasty.deadline_for_move().expired());
}

#[test]
fn the_plain_engines_choose_what_the_moves_come_to() {
    let board = pawns_and_kings();
    let quarter = random_chess::bonus_chance();
    let rest = random_chess::no_bonus_chance();
    // One move ahead: the judge's own word on the two outcomes of each move.
    let mut best = None;
    for mv in board.all_moves() {
        let (with_bonus, without_bonus) = next_boards(&board, mv, true);
        let worth = random_chess::engine::alphabeta::chance::weigh(
            ProportionCount.evaluate(&with_bonus),
            quarter,
            ProportionCount.evaluate(&without_bonus),
            rest,
        );
        best = keep_better(true, best, worth, mv);
    }
    let by_hand = best.expect("a move").1;
    assert_eq!(Greedy::default(ProportionCount).get_move(&board), Ok(by_hand));
    assert_eq!(Greedy::default(ProportionCount).get_move(&board), Ok(by_hand));
    // Three moves ahead: each outcome valued with the table as it then is.
    let mut valuer = Minimax::new(ProportionCount, 3);
    let mut best = None;
    for mv in board.all_moves() {
        let (with_bonus, without_bonus) = next_boards(&board, mv, true);
        let first = valuer.evaluate(&with_bonus);
        let second = valuer.evaluate(&without_bonus);
        let worth = random_chess::engine::alphabeta::chance::weigh(first, quarter, second, rest);
        best = keep_better(true, best, worth, mv);
    }
    let by_hand = best.expect("a move").1;
    assert_eq!(Minimax::new(ProportionCount, 3).get_move(&board), Ok(by_hand));
    assert_eq!(Minimax::new(ProportionCount, 3).get_move(&board), Ok(by_hand));
}
