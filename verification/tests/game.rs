use random_chess::game::check_move;
use random_chess::game::enter_bonus;
use random_chess::game::enter_move;
use random_chess::game::move_line;
use random_chess::game::next_step;
use random_chess::game::outcome_line;
use random_chess::game::parse_bonus;
use random_chess::game::parse_move;
use random_chess::game::status_words;
use random_chess::game::MoveEntry;
use random_chess::game::Step;
use random_chess::ChessMove;
use random_chess::Color;
use random_chess::MyBoard;
use random_chess::Piece;
use random_chess::Square;
use random_chess::Status;

fn sq(name: &str) -> Square {
    let bytes = name.as_bytes();
    Square::make_square(bytes[1] - b'1', bytes[0] - b'a').unwrap()
}

fn mv(from: &str, to: &str) -> ChessMove {
    ChessMove::new(sq(from), sq(to), None)
}

#[test]
fn a_move_is_five_numbers() {
    assert_eq!(parse_move("4 1 4 3 0"), Some(mv("e2", "e4")));
    assert_eq!(parse_move("0 0 7 7 0"), Some(mv("a1", "h8")));
    assert_eq!(
        parse_move("4 6 4 7 4"),
        Some(ChessMove::new(sq("e7"), sq("e8"), Some(Piece::Queen)))
    );
    assert_eq!(
        parse_move("4 6 3 7 1"),
        Some(ChessMove::new(sq("e7"), sq("d8"), Some(Piece::Knight)))
    );
    assert_eq!(
        parse_move("0 1 0 0 2"),
        Some(ChessMove::new(sq("a2"), sq("a1"), Some(Piece::Bishop)))
    );
    assert_eq!(
        parse_move("0 1 0 0 3"),
        Some(ChessMove::new(sq("a2"), sq("a1"), Some(Piece::Rook)))
    );
}

#[test]
fn white_space_around_a_move_does_not_count() {
    assert_eq!(parse_move("4 1 4 3 0\n"), Some(mv("e2", "e4")));
    assert_eq!(parse_move("  4 1 4 3 0 \r\n"), Some(mv("e2", "e4")));
    assert_eq!(parse_move("\t4 1 4 3 0\u{3000}"), Some(mv("e2", "e4")));
    assert_eq!(parse_move("+4 1 04 3 000"), Some(mv("e2", "e4")));
}

#[test]
fn what_is_not_five_small_numbers_is_no_move() {
    for line in [
        "",
        " ",
        "4 1 4 3",
        "4 1 4 3 0 0",
        "4  1 4 3 0",
        "4\t1 4 3 0",
        "8 1 4 3 0",
        "4 1 4 3 5",
        "4 1 4 3 7",
        "4 1 4 3 x",
        "4 1 4 3 -0",
        "4 1 4 3 +",
        "4 1 4 3 0.",
        "e2 e4",
        "4,1,4,3,0",
        "4 1 4 3 10",
        "4 1 4 3 99999999999999999999999999",
    ] {
        assert_eq!(parse_move(line), None, "{:?}", line);
    }
}

/// What the line means by the rules of `str::trim`, `str::split` and
/// `str::parse`.
fn by_the_standard_library(line: &str) -> Option<Vec<usize>> {
    let numbers: Vec<Option<usize>> = line
        .trim()
        .split(' ')
        .map(|s| s.parse::<usize>().ok().filter(|&n| n < 8))
        .collect();
    if numbers.len() == 5 && numbers.iter().all(|n| n.is_some()) && numbers[4].unwrap() <= 4 {
        Some(numbers.into_iter().map(|n| n.unwrap()).collect())
    } else {
        None
    }
}

#[test]
fn lines_mean_what_the_standard_library_makes_of_them() {
    let alphabet: Vec<char> = "0123456789 +-\tx\n".chars().collect();
    let mut state: u64 = 99;
    let mut moves = 0;
    for round in 0..200000 {
        let mut line = String::new();
        if round % 3 == 0 {
            // Close to a move.
            for field in 0..5 {
                state = state
                    .wrapping_mul(6364136223846793005)
                    .wrapping_add(1442695040888963407);
                let pick = (state >> 33) % 40;
                if pick < 30 {
                    line.push(alphabet[(pick % 9) as usize]);
                } else {
                    line.push(alphabet[(pick % 16) as usize]);
                    line.push(alphabet[((pick / 3) % 16) as usize]);
                }
                if field < 4 {
                    line.push(' ');
                }
            }
        } else {
            let length = round % 12;
            for _ in 0..length {
                state = state
                    .wrapping_mul(6364136223846793005)
                    .wrapping_add(1442695040888963407);
                line.push(alphabet[((state >> 33) % 16) as usize]);
            }
        }
        let expected = by_the_standard_library(&line).map(|n| {
            ChessMove::new(
                Square::make_square(n[1] as u8, n[0] as u8).unwrap(),
                Square::make_square(n[3] as u8, n[2] as u8).unwrap(),
                if n[4] == 0 {
                    None
                } else {
                    Piece::from_index(n[4])
                },
            )
        });
        if expected.is_some() {
            moves += 1;
        }
        assert_eq!(parse_move(&line), expected, "{:?}", line);
    }
    assert!(moves > 1000);
}

#[test]
fn the_coin_is_told_in_one_word() {
    assert_eq!(parse_bonus("bonus"), Some(true));
    assert_eq!(parse_bonus("no_bonus"), Some(false));
    assert_eq!(parse_bonus(" bonus\n"), Some(true));
    assert_eq!(parse_bonus("\tno_bonus \r\n"), Some(false));
    for line in ["", "Bonus", "bonus!", "no bonus", "nobonus", "bon us", "true", "b"] {
        assert_eq!(parse_bonus(line), None, "{:?}", line);
    }
}

#[test]
fn a_game_at_the_terminal_goes_step_by_step() {
    let mut board = MyBoard::initial_board(Color::White);
    assert_eq!(next_step(&board, Color::White), Step::EngineMove);
    assert_eq!(next_step(&board, Color::Black), Step::AskMove);
    // A line that is no move, and a move that the rules do not allow.
    assert_eq!(enter_move(&mut board, "e2 e4"), MoveEntry::Invalid);
    assert_eq!(enter_move(&mut board, "4 1 4 4 0"), MoveEntry::Illegal);
    assert_eq!(enter_move(&mut board, "4 6 4 4 0"), MoveEntry::Illegal);
    assert_eq!(next_step(&board, Color::Black), Step::AskMove);
    assert!(!enter_bonus(&mut board, "bonus"));
    assert_eq!(
        enter_move(&mut board, "4 1 4 3 0\n"),
        MoveEntry::Made(mv("e2", "e4"))
    );
    assert_eq!(next_step(&board, Color::Black), Step::AskBonus);
    assert_eq!(next_step(&board, Color::White), Step::AskBonus);
    // No move while the coin flip is due.
    assert_eq!(enter_move(&mut board, "4 6 4 4 0"), MoveEntry::Illegal);
    assert!(!enter_bonus(&mut board, "maybe"));
    assert_eq!(next_step(&board, Color::Black), Step::AskBonus);
    assert!(enter_bonus(&mut board, "bonus\n"));
    assert_eq!(board.get_side_to_move(), Color::White);
    assert_eq!(next_step(&board, Color::Black), Step::AskMove);
    assert_eq!(
        enter_move(&mut board, "3 0 7 4 0"),
        MoveEntry::Made(mv("d1", "h5"))
    );
    assert!(enter_bonus(&mut board, "no_bonus"));
    assert_eq!(board.get_side_to_move(), Color::Black);
    assert_eq!(next_step(&board, Color::Black), Step::EngineMove);
    assert_eq!(next_step(&board, Color::White), Step::AskMove);
    assert_eq!(
        enter_move(&mut board, "0 6 0 5 0"),
        MoveEntry::Made(mv("a7", "a6"))
    );
    assert!(enter_bonus(&mut board, "no_bonus"));
    assert_eq!(
        enter_move(&mut board, "7 4 5 6 0"),
        MoveEntry::Made(mv("h5", "f7"))
    );
    assert!(enter_bonus(&mut board, "bonus"));
    assert_eq!(
        enter_move(&mut board, "5 6 4 7 0"),
        MoveEntry::Made(mv("f7", "e8"))
    );
    // The king is taken: the game has ended and no coin is flipped.
    assert_eq!(
        next_step(&board, Color::Black),
        Step::Finished(Status::Win(Color::White))
    );
    assert_eq!(
        next_step(&board, Color::White),
        Step::Finished(Status::Win(Color::White))
    );
}

#[test]
fn the_outcome_is_told_in_a_line() {
    assert_eq!(outcome_line(Status::Win(Color::White)), Some("white wins"));
    assert_eq!(outcome_line(Status::Win(Color::Black)), Some("black wins"));
    assert_eq!(outcome_line(Status::Draw), Some("draw"));
    assert_eq!(outcome_line(Status::InProgress), None);
    assert_eq!(status_words(Status::InProgress), "In Progress");
    assert_eq!(status_words(Status::Win(Color::White)), "White Wins");
    assert_eq!(status_words(Status::Win(Color::Black)), "Black Wins");
    assert_eq!(status_words(Status::Draw), "Draw");
}

#[test]
fn a_move_of_the_engine_is_told_as_it_would_be_typed() {
    assert_eq!(move_line(mv("e2", "e4"), true), "4 1 4 3 0");
    assert_eq!(
        move_line(mv("e2", "e4"), false),
        "Engine played: 4 1 4 3 0 [e2 -> e4]"
    );
    let promotion = ChessMove::new(sq("a7"), sq("b8"), Some(Piece::Queen));
    assert_eq!(move_line(promotion, true), "0 6 1 7 4");
    assert_eq!(
        move_line(promotion, false),
        "Engine played: 0 6 1 7 4 [a7 -> b8]"
    );
    let knight = ChessMove::new(sq("h2"), sq("h1"), Some(Piece::Knight));
    assert_eq!(move_line(knight, true), "7 1 7 0 1");
    // What is told can be typed.
    for from in 0..64 {
        for to in 0..64 {
            for code in 0..5 {
                let m = ChessMove::new(
                    Square::new(from).unwrap(),
                    Square::new(to).unwrap(),
                    if code == 0 {
                        None
                    } else {
                        Piece::from_index(code)
                    },
                );
                assert_eq!(parse_move(&move_line(m, true)), Some(m));
            }
        }
    }
    // The squares are named as the chess crate names them.
    for square in chess::ALL_SQUARES {
        let mine = Square::new(square.to_index() as u8).unwrap();
        let line = move_line(ChessMove::new(mine, mine, None), false);
        assert!(line.ends_with(&format!("[{} -> {}]", square, square)));
    }
}

#[test]
fn a_move_is_checked_before_it_is_made() {
    let board = MyBoard::initial_board(Color::White);
    assert_eq!(check_move(&board, sq("e2"), sq("e4")), Some(false));
    assert_eq!(check_move(&board, sq("e2"), sq("e5")), None);
    assert_eq!(check_move(&board, sq("e7"), sq("e5")), None);
    assert_eq!(check_move(&board, sq("e4"), sq("e5")), None);
    let mut pieces = [None; 64];
    pieces[sq("b7").to_index() as usize] = Some((Piece::Pawn, Color::White));
    pieces[sq("h2").to_index() as usize] = Some((Piece::Pawn, Color::White));
    pieces[sq("e8").to_index() as usize] = Some((Piece::King, Color::Black));
    let board = MyBoard::with_pieces(pieces, Color::White);
    assert_eq!(check_move(&board, sq("b7"), sq("b8")), Some(true));
    assert_eq!(check_move(&board, sq("h2"), sq("h4")), Some(false));
    assert_eq!(check_move(&board, sq("b7"), sq("a8")), None);
}
