use fixed::types::extra::U31;
use fixed::FixedU32;
use random_chess::engine::evaluator::value_of_status;
use random_chess::engine::feature_eval::popcount;
use random_chess::engine::proportion_count::material_of;
use random_chess::ChessMove;
use random_chess::Color;
use random_chess::Features;
use random_chess::MyBoard;
use random_chess::Piece;
use random_chess::ProportionCount;
use random_chess::Score;
use random_chess::Square;
use random_chess::StaticEvaluator;
use random_chess::Status;

fn score(value: f64) -> Score {
    Score::from_bits(FixedU32::<U31>::from_num(value).to_bits())
}

fn sq(name: &str) -> Square {
    let bytes = name.as_bytes();
    Square::make_square(bytes[1] - b'1', bytes[0] - b'a').unwrap()
}

fn play(board: &mut MyBoard, from: &str, to: &str, bonus: bool) {
    board.apply_move(ChessMove::new(sq(from), sq(to), None));
    board.apply_bonus(bonus);
}

fn board_of(pieces: &[(&str, Piece, Color)], side_to_move: Color) -> MyBoard {
    let mut slots = [None; 64];
    for (name, piece, color) in pieces {
        slots[sq(name).to_index() as usize] = Some((*piece, *color));
    }
    MyBoard::with_pieces(slots, side_to_move)
}

fn white_has_won() -> MyBoard {
    let mut board = MyBoard::initial_board(Color::White);
    play(&mut board, "e2", "e4", true);
    play(&mut board, "d1", "h5", true);
    play(&mut board, "h5", "f7", true);
    play(&mut board, "f7", "e8", false);
    board
}

#[test]
fn a_game_that_has_ended_is_worth_its_outcome() {
    assert_eq!(value_of_status(Status::InProgress), None);
    assert_eq!(value_of_status(Status::Win(Color::White)), Some(Score::one()));
    assert_eq!(value_of_status(Status::Win(Color::Black)), Some(Score::zero()));
    assert_eq!(value_of_status(Status::Draw), Some(score(0.5)));
}

#[test]
fn a_board_on_which_black_has_lost_the_king_is_worth_one() {
    let board = white_has_won();
    assert_eq!(board.get_side_to_move(), Color::Black);
    assert_eq!(board.get_status(), Status::Win(Color::White));
    assert_eq!(ProportionCount.evaluate(&board), Score::one());
    assert_eq!(ProportionCount.evaluate_terminal(&board), Some(Score::one()));
    let mut turned = board;
    turned.invert_ranks_and_colors();
    assert_eq!(turned.get_status(), Status::Win(Color::Black));
    assert_eq!(ProportionCount.evaluate(&turned), Score::zero());
    assert_eq!(
        ProportionCount.evaluate_terminal(&MyBoard::initial_board(Color::White)),
        None
    );
}

#[test]
fn a_drawn_game_is_worth_one_half() {
    let mut board = board_of(
        &[
            ("a2", Piece::Pawn, Color::White),
            ("b2", Piece::Queen, Color::White),
            ("a3", Piece::Pawn, Color::Black),
            ("h8", Piece::King, Color::Black),
        ],
        Color::Black,
    );
    board.apply_move(ChessMove::new(sq("h8"), sq("h7"), None));
    board.apply_bonus(true);
    assert_eq!(board.get_status(), Status::InProgress);
    let steps = [("h7", "h8"), ("b2", "b1"), ("h8", "h7"), ("b1", "b2")];
    for turn in 0..49 {
        let (from, to) = steps[turn % 4];
        play(&mut board, from, to, false);
    }
    assert_eq!(board.get_status(), Status::Draw);
    assert_eq!(ProportionCount.evaluate(&board), score(0.5));
}

#[test]
fn kings_and_a_white_queen_are_worth_ten_elevenths() {
    let board = board_of(
        &[
            ("e1", Piece::King, Color::White),
            ("d1", Piece::Queen, Color::White),
            ("e8", Piece::King, Color::Black),
        ],
        Color::White,
    );
    assert_eq!(material_of(&board, Color::White), 10);
    assert_eq!(material_of(&board, Color::Black), 1);
    assert_eq!(ProportionCount.evaluate(&board), score(10.0 / 11.0));
    assert_eq!(ProportionCount.evaluate(&board).to_bits(), 1_952_257_862);
    let mut turned = board;
    turned.invert_ranks_and_colors();
    assert_eq!(ProportionCount.evaluate(&turned), score(1.0 / 11.0));
}

#[test]
fn the_material_counts_each_piece_by_its_kind() {
    let board = MyBoard::initial_board(Color::White);
    assert_eq!(material_of(&board, Color::White), 8 + 6 + 6 + 10 + 9 + 1);
    assert_eq!(material_of(&board, Color::Black), 40);
    assert_eq!(ProportionCount.evaluate(&board), score(0.5));
    let uneven = board_of(
        &[
            ("a1", Piece::Rook, Color::White),
            ("b1", Piece::Knight, Color::White),
            ("c1", Piece::Bishop, Color::Black),
            ("d7", Piece::Pawn, Color::Black),
            ("d8", Piece::King, Color::Black),
        ],
        Color::Black,
    );
    assert_eq!(material_of(&uneven, Color::White), 8);
    assert_eq!(material_of(&uneven, Color::Black), 5);
    assert_eq!(ProportionCount.evaluate(&uneven), score(8.0 / 13.0));
    let bare = board_of(&[], Color::White);
    assert_eq!(ProportionCount.evaluate(&bare), score(0.5));
    let black_only = board_of(&[("d8", Piece::King, Color::Black)], Color::White);
    assert_eq!(ProportionCount.evaluate(&black_only), Score::zero());
}

#[test]
fn the_judge_stays_between_zero_and_one() {
    let mut board = MyBoard::initial_board(Color::White);
    let mut turn = 0;
    while board.get_status().is_in_progress() && turn < 60 {
        let moves = board.all_moves();
        let choice = moves[(turn * 7 + 3) % moves.len()];
        board.apply_move(choice);
        board.apply_bonus(turn % 4 == 0);
        let value = ProportionCount.evaluate(&board);
        assert!(value <= Score::one());
        turn += 1;
    }
}

#[test]
fn popcount_counts_the_squares_of_a_set() {
    assert_eq!(popcount(0), 0);
    assert_eq!(popcount(1), 1);
    assert_eq!(popcount(0x8000_0000_0000_0001), 2);
    assert_eq!(popcount(u64::MAX), 64);
    assert_eq!(popcount(0x00ff_0000_0000_ff00), 16);
}

#[test]
fn the_features_of_the_initial_position() {
    let features = Features::from_board(&MyBoard::initial_board(Color::White));
    assert_eq!(features.pieces, [[8, 2, 2, 2, 1, 1], [8, 2, 2, 2, 1, 1]]);
    // Hemmed in by its own pieces, the king can only be attacked by a
    // knight, from two squares.
    assert_eq!(features.king_danger, [2, 2]);
    assert_eq!(features.pawn_advancement, [0, 0]);
    assert_eq!(features.side_to_move, 1);
    let black = Features::from_board(&MyBoard::initial_board(Color::Black));
    assert_eq!(black.side_to_move, -1);
}

#[test]
fn the_features_of_a_position_with_a_king_in_the_open() {
    let board = board_of(
        &[
            ("d4", Piece::King, Color::White),
            ("d5", Piece::Pawn, Color::White),
            ("a7", Piece::Pawn, Color::White),
            ("h8", Piece::King, Color::Black),
            ("h4", Piece::Pawn, Color::Black),
            ("g7", Piece::Queen, Color::Black),
        ],
        Color::Black,
    );
    let features = Features::from_board(&board);
    assert_eq!(features.pieces, [[2, 0, 0, 0, 0, 1], [1, 0, 0, 0, 1, 1]]);
    // From d4: 8 knight squares, 12 on the diagonals (the pawn on a7 holds
    // one), and along the rank and file 7 + 3 + 0 (the pawn on d5 shuts the
    // file upwards).
    assert_eq!(features.king_danger[0], 8 + 12 + 7 + 3);
    // From h8: 2 knight squares, the diagonal is shut by the queen, the rank
    // gives 7 and the file 3.
    assert_eq!(features.king_danger[1], 2 + 7 + 3);
    // The white pawns have come 3 and 5 ranks, the black pawn 3.
    assert_eq!(features.pawn_advancement, [8, 3]);
    assert_eq!(features.side_to_move, -1);
    let all = chess::BitBoard(board.get_white_pieces());
    let expected = ((chess::get_knight_moves(chess::Square::D4)
        | chess::get_bishop_moves(chess::Square::D4, all)
        | chess::get_rook_moves(chess::Square::D4, all))
        & !all)
        .popcnt();
    assert_eq!(features.king_danger[0], expected);
}
