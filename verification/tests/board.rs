use random_chess::zobrist::Zobrist;
use random_chess::CastleRights;
use random_chess::ChessMove;
use random_chess::Color;
use random_chess::MyBoard;
use random_chess::Piece;
use random_chess::Square;
use random_chess::Status;

fn sq(name: &str) -> Square {
    let bytes = name.as_bytes();
    Square::make_square(bytes[1] - b'1', bytes[0] - b'a').unwrap()
}

fn mv(from: &str, to: &str) -> ChessMove {
    ChessMove::new(sq(from), sq(to), None)
}

fn play(board: &mut MyBoard, from: &str, to: &str, bonus: bool) {
    board.apply_move(mv(from, to));
    board.apply_bonus(bonus);
}

fn empty() -> [Option<(Piece, Color)>; 64] {
    [None; 64]
}

fn put(pieces: &mut [Option<(Piece, Color)>; 64], name: &str, piece: Piece, color: Color) {
    pieces[sq(name).to_index() as usize] = Some((piece, color));
}

fn my_piece(piece: chess::Piece) -> Piece {
    Piece::from_index(piece.to_index()).unwrap()
}

fn my_color(color: chess::Color) -> Color {
    match color {
        chess::Color::White => Color::White,
        chess::Color::Black => Color::Black,
    }
}

fn my_rights(rights: chess::CastleRights) -> CastleRights {
    match rights {
        chess::CastleRights::NoRights => CastleRights::NoRights,
        chess::CastleRights::KingSide => CastleRights::KingSide,
        chess::CastleRights::QueenSide => CastleRights::QueenSide,
        chess::CastleRights::Both => CastleRights::Both,
    }
}

#[test]
fn squares_are_numbered_rank_by_rank() {
    assert_eq!(sq("a1").to_index(), 0);
    assert_eq!(sq("h1").to_index(), 7);
    assert_eq!(sq("a2").to_index(), 8);
    assert_eq!(sq("e4").to_index(), 28);
    assert_eq!(sq("h8").to_index(), 63);
    assert_eq!(sq("e4").get_rank(), 3);
    assert_eq!(sq("e4").get_file(), 4);
    assert_eq!(Square::new(63), Some(sq("h8")));
    assert_eq!(Square::new(64), None);
    assert_eq!(Square::make_square(8, 0), None);
    assert_eq!(Square::make_square(0, 8), None);
    assert_eq!(Square::from_index(28), sq("e4"));
    for square in chess::ALL_SQUARES {
        let mine = Square::new(square.to_index() as u8).unwrap();
        assert_eq!(mine.get_rank() as usize, square.get_rank().to_index());
        assert_eq!(mine.get_file() as usize, square.get_file().to_index());
    }
}

#[test]
fn colours_and_pieces_have_the_indices_of_the_chess_crate() {
    for color in chess::ALL_COLORS {
        assert_eq!(my_color(color).to_index(), color.to_index());
        assert_eq!(my_color(color).other(), my_color(!color));
        assert_eq!(
            my_color(color).to_my_backrank() as usize,
            color.to_my_backrank().to_index()
        );
        assert_eq!(
            my_color(color).to_their_backrank() as usize,
            color.to_their_backrank().to_index()
        );
    }
    for piece in chess::ALL_PIECES {
        assert_eq!(my_piece(piece).to_index(), piece.to_index());
    }
    assert_eq!(Piece::from_index(6), None);
    assert_eq!(Piece::from_index(4), Some(Piece::Queen));
}

#[test]
fn castle_rights_behave_as_in_the_chess_crate() {
    for rights in chess::ALL_CASTLE_RIGHTS {
        let mine = my_rights(rights);
        assert_eq!(mine.to_index(), rights.to_index());
        assert_eq!(mine.has_kingside(), rights.has_kingside());
        assert_eq!(mine.has_queenside(), rights.has_queenside());
        for taken in chess::ALL_CASTLE_RIGHTS {
            assert_eq!(mine.remove(my_rights(taken)), my_rights(rights.remove(taken)));
        }
    }
    for color in chess::ALL_COLORS {
        for square in chess::ALL_SQUARES {
            assert_eq!(
                CastleRights::square_to_castle_rights(
                    my_color(color),
                    Square::new(square.to_index() as u8).unwrap()
                ),
                my_rights(chess::CastleRights::square_to_castle_rights(color, square))
            );
        }
        assert_eq!(
            CastleRights::kingside_squares(my_color(color)),
            chess::CastleRights::Both.kingside_squares(color).0
        );
        assert_eq!(
            CastleRights::queenside_squares(my_color(color)),
            chess::CastleRights::Both.queenside_squares(color).0
        );
    }
    assert_eq!(
        CastleRights::square_to_castle_rights(Color::White, sq("e1")),
        CastleRights::Both
    );
    assert_eq!(
        CastleRights::square_to_castle_rights(Color::Black, sq("a8")),
        CastleRights::QueenSide
    );
    assert_eq!(
        CastleRights::Both.remove(CastleRights::KingSide),
        CastleRights::QueenSide
    );
}

#[test]
fn the_initial_board_is_the_standard_position() {
    let builder = chess::BoardBuilder::default();
    for starting in [Color::White, Color::Black] {
        let board = MyBoard::initial_board(starting);
        let mut white = 0u64;
        let mut black = 0u64;
        for square in chess::ALL_SQUARES {
            let mine = Square::new(square.to_index() as u8).unwrap();
            let expected = builder[square].map(|(p, c)| (my_piece(p), my_color(c)));
            assert_eq!(board.piece_on(mine), expected);
            match expected {
                Some((_, Color::White)) => white |= 1 << square.to_index(),
                Some((_, Color::Black)) => black |= 1 << square.to_index(),
                None => {}
            }
        }
        assert_eq!(board.get_white_pieces(), white);
        assert_eq!(board.get_black_pieces(), black);
        assert_eq!(board.get_white_pieces(), 0x0000_0000_0000_ffff);
        assert_eq!(board.get_black_pieces(), 0xffff_0000_0000_0000);
        assert_eq!(board.get_side_to_move(), starting);
        assert_eq!(board.get_castle_rights(Color::White), CastleRights::Both);
        assert_eq!(board.get_castle_rights(Color::Black), CastleRights::Both);
        assert_eq!(board.get_dead_moves(), 0);
        assert_eq!(board.get_status(), Status::InProgress);
        assert!(board.get_status().is_in_progress());
        assert!(!board.is_awaiting_bonus());
        assert_eq!(board.piece_count(), 32);
    }
    assert_eq!(
        MyBoard::initial_board(Color::White).piece_on(sq("d1")),
        Some((Piece::Queen, Color::White))
    );
    assert_eq!(
        MyBoard::initial_board(Color::White).piece_on(sq("e8")),
        Some((Piece::King, Color::Black))
    );
}

fn splitmix(x: u64) -> u64 {
    let a = x.wrapping_add(0x9e37_79b9_7f4a_7c15);
    let b = (a ^ (a >> 30)).wrapping_mul(0xbf58_476d_1ce4_e5b9);
    let c = (b ^ (b >> 27)).wrapping_mul(0x94d0_49bb_1331_11eb);
    c ^ (c >> 31)
}

#[test]
fn the_keys_are_mixed_from_the_number_of_the_feature() {
    assert_eq!(Zobrist::color(), splitmix(0));
    assert_eq!(Zobrist::color(), 0xe220_a839_7b1d_cdaf);
    assert_eq!(
        Zobrist::piece(Piece::Pawn, sq("a1"), Color::White),
        splitmix(1)
    );
    assert_eq!(
        Zobrist::piece(Piece::King, sq("h8"), Color::Black),
        splitmix(768)
    );
    assert_eq!(
        Zobrist::piece(Piece::Rook, sq("e4"), Color::Black),
        splitmix(((6 + 3) * 64 + 28 + 1) as u64)
    );
    assert_eq!(
        Zobrist::castles(CastleRights::NoRights, Color::White),
        splitmix(769)
    );
    assert_eq!(
        Zobrist::castles(CastleRights::Both, Color::Black),
        splitmix(776)
    );
    // No two keys are the same.
    let mut keys = vec![Zobrist::color()];
    for color in [Color::White, Color::Black] {
        for index in 0..6 {
            for square in 0..64 {
                keys.push(Zobrist::piece(
                    Piece::from_index(index).unwrap(),
                    Square::new(square).unwrap(),
                    color,
                ));
            }
        }
        for rights in [
            CastleRights::NoRights,
            CastleRights::KingSide,
            CastleRights::QueenSide,
            CastleRights::Both,
        ] {
            keys.push(Zobrist::castles(rights, color));
        }
    }
    keys.sort();
    keys.dedup();
    assert_eq!(keys.len(), 1 + 768 + 8);
}

fn hash_from_scratch(board: &MyBoard) -> u64 {
    let mut hash = 0;
    for index in 0..64 {
        let square = Square::new(index).unwrap();
        if let Some((piece, color)) = board.piece_on(square) {
            hash ^= Zobrist::piece(piece, square, color);
        }
    }
    hash ^= Zobrist::castles(board.get_castle_rights(Color::White), Color::White);
    hash ^= Zobrist::castles(board.get_castle_rights(Color::Black), Color::Black);
    if board.get_side_to_move() == Color::Black {
        hash ^= Zobrist::color();
    }
    hash
}

fn sets_from_scratch(board: &MyBoard) -> (u64, u64) {
    let mut white = 0u64;
    let mut black = 0u64;
    for index in 0..64 {
        match board.piece_on(Square::new(index).unwrap()) {
            Some((_, Color::White)) => white |= 1 << index,
            Some((_, Color::Black)) => black |= 1 << index,
            None => {}
        }
    }
    (white, black)
}

fn assert_consistent(board: &MyBoard) {
    assert_eq!(board.get_zobrist_hash(), hash_from_scratch(board));
    assert_eq!(
        (board.get_white_pieces(), board.get_black_pieces()),
        sets_from_scratch(board)
    );
}

#[test]
fn the_hash_follows_the_moves() {
    let mut board = MyBoard::initial_board(Color::White);
    assert_consistent(&board);
    let start = board.get_zobrist_hash();
    play(&mut board, "e2", "e4", false);
    assert_consistent(&board);
    assert_ne!(board.get_zobrist_hash(), start);
    play(&mut board, "e7", "e5", false);
    play(&mut board, "g1", "f3", true);
    assert_consistent(&board);
    play(&mut board, "f1", "c4", false);
    play(&mut board, "b8", "c6", false);
    assert_consistent(&board);
    // Castling on the king's side.
    play(&mut board, "e1", "g1", false);
    assert_consistent(&board);
    assert_eq!(board.piece_on(sq("g1")), Some((Piece::King, Color::White)));
    assert_eq!(board.piece_on(sq("f1")), Some((Piece::Rook, Color::White)));
    assert_eq!(board.piece_on(sq("h1")), None);
    assert_eq!(board.piece_on(sq("e1")), None);
    assert_eq!(board.get_castle_rights(Color::White), CastleRights::NoRights);
    assert_eq!(board.get_castle_rights(Color::Black), CastleRights::Both);
}

#[test]
fn the_same_position_has_the_same_hash_however_it_was_reached() {
    let mut one = MyBoard::initial_board(Color::White);
    play(&mut one, "g1", "f3", false);
    play(&mut one, "g8", "f6", false);
    play(&mut one, "b1", "c3", false);
    play(&mut one, "b8", "c6", false);
    let mut other = MyBoard::initial_board(Color::White);
    play(&mut other, "b1", "c3", false);
    play(&mut other, "b8", "c6", false);
    play(&mut other, "g1", "f3", false);
    play(&mut other, "g8", "f6", false);
    assert_eq!(one.get_zobrist_hash(), other.get_zobrist_hash());
    // The side to move is part of the hash.
    let white = MyBoard::initial_board(Color::White);
    let black = MyBoard::initial_board(Color::Black);
    assert_eq!(
        white.get_zobrist_hash() ^ black.get_zobrist_hash(),
        Zobrist::color()
    );
    // The count of moves without capture or pawn move is not.
    let mut back = MyBoard::initial_board(Color::White);
    play(&mut back, "g1", "f3", false);
    play(&mut back, "g8", "f6", false);
    play(&mut back, "f3", "g1", false);
    play(&mut back, "f6", "g8", false);
    assert_eq!(back.get_dead_moves(), 4);
    assert_eq!(back.get_zobrist_hash(), white.get_zobrist_hash());
}

#[test]
fn the_initial_position_has_twenty_moves() {
    let board = MyBoard::initial_board(Color::White);
    let moves = board.all_moves();
    assert_eq!(moves.len(), 20);
    // In the order of the squares the moves start from, then of the squares
    // they lead to.
    assert_eq!(moves[0], mv("b1", "a3"));
    assert_eq!(moves[1], mv("b1", "c3"));
    assert_eq!(moves[2], mv("g1", "f3"));
    assert_eq!(moves[3], mv("g1", "h3"));
    assert_eq!(moves[4], mv("a2", "a3"));
    assert_eq!(moves[5], mv("a2", "a4"));
    assert_eq!(moves[19], mv("h2", "h4"));
    assert_eq!(board.moves_from(sq("e2")), vec![mv("e2", "e3"), mv("e2", "e4")]);
    assert_eq!(board.moves_from(sq("e1")), vec![]);
    assert_eq!(board.moves_from(sq("e4")), vec![]);
    assert_eq!(board.moves_from(sq("e7")), vec![]);
    let black = MyBoard::initial_board(Color::Black);
    assert_eq!(black.all_moves().len(), 20);
    assert_eq!(black.moves_from(sq("e7")), vec![mv("e7", "e5"), mv("e7", "e6")]);
}

#[test]
fn the_moves_agree_with_the_attack_tables_of_the_chess_crate() {
    let mut pieces = empty();
    put(&mut pieces, "d4", Piece::Queen, Color::White);
    put(&mut pieces, "d6", Piece::Pawn, Color::White);
    put(&mut pieces, "f4", Piece::Knight, Color::Black);
    put(&mut pieces, "a1", Piece::King, Color::White);
    put(&mut pieces, "h8", Piece::King, Color::Black);
    let board = MyBoard::with_pieces(pieces, Color::White);
    let all = chess::BitBoard(board.get_white_pieces() | board.get_black_pieces());
    let from = chess::Square::D4;
    let reach = (chess::get_bishop_moves(from, all) | chess::get_rook_moves(from, all)).0
        & !board.get_white_pieces();
    let moves = board.moves_from(sq("d4"));
    let mut expected = Vec::new();
    for index in 0..64u8 {
        if reach & (1 << index) != 0 {
            expected.push(ChessMove::new(sq("d4"), Square::new(index).unwrap(), None));
        }
    }
    assert_eq!(moves, expected);
    assert!(moves.contains(&mv("d4", "f4")));
    assert!(moves.contains(&mv("d4", "d5")));
    assert!(!moves.contains(&mv("d4", "d6")));
    assert!(!moves.contains(&mv("d4", "g4")));
    assert!(moves.contains(&mv("d4", "h8")));
    assert!(!moves.contains(&mv("d4", "a1")));
    // The knight's moves are those of the table.
    let black = MyBoard::with_pieces(pieces, Color::Black);
    let knight = black.moves_from(sq("f4"));
    assert_eq!(
        knight.len() as u32,
        chess::get_knight_moves(chess::Square::F4).popcnt()
    );
    assert_eq!(knight.len(), 8);
    // The king in the corner has three moves.
    assert_eq!(
        black.moves_from(sq("h8")),
        vec![mv("h8", "g7"), mv("h8", "h7"), mv("h8", "g8")]
    );
}

#[test]
fn a_pawn_on_the_seventh_rank_promotes_to_each_piece() {
    let mut pieces = empty();
    put(&mut pieces, "b7", Piece::Pawn, Color::White);
    put(&mut pieces, "a8", Piece::Rook, Color::Black);
    put(&mut pieces, "e1", Piece::King, Color::White);
    put(&mut pieces, "e8", Piece::King, Color::Black);
    let board = MyBoard::with_pieces(pieces, Color::White);
    let promote = |to: &str, piece: Piece| ChessMove::new(sq("b7"), sq(to), Some(piece));
    assert_eq!(
        board.moves_from(sq("b7")),
        vec![
            promote("a8", Piece::Queen),
            promote("a8", Piece::Knight),
            promote("a8", Piece::Rook),
            promote("a8", Piece::Bishop),
            promote("b8", Piece::Queen),
            promote("b8", Piece::Knight),
            promote("b8", Piece::Rook),
            promote("b8", Piece::Bishop),
        ]
    );
    let mut after = board;
    after.apply_move(promote("a8", Piece::Knight));
    assert!(after.is_awaiting_bonus());
    assert_eq!(after.piece_on(sq("a8")), Some((Piece::Knight, Color::White)));
    assert_eq!(after.piece_on(sq("b7")), None);
    assert_eq!(after.get_dead_moves(), 0);
    assert_eq!(after.get_side_to_move(), Color::Black);
    assert_consistent(&after);
    assert_eq!(after.piece_count(), 3);
}

#[test]
fn castling_needs_the_right_and_empty_squares() {
    let mut board = MyBoard::initial_board(Color::White);
    play(&mut board, "g1", "f3", true);
    play(&mut board, "e2", "e3", true);
    play(&mut board, "f1", "e2", false);
    play(&mut board, "a7", "a6", false);
    let king = board.moves_from(sq("e1"));
    assert_eq!(king, vec![mv("e1", "f1"), mv("e1", "g1")]);
    // Once the rook has moved the right is gone.
    play(&mut board, "h1", "g1", false);
    assert_eq!(board.get_castle_rights(Color::White), CastleRights::QueenSide);
    play(&mut board, "a6", "a5", false);
    play(&mut board, "g1", "h1", false);
    play(&mut board, "a5", "a4", false);
    assert_eq!(board.moves_from(sq("e1")), vec![mv("e1", "f1")]);
    // On the queen's side.
    let mut pieces = empty();
    put(&mut pieces, "e8", Piece::King, Color::Black);
    put(&mut pieces, "a8", Piece::Rook, Color::Black);
    put(&mut pieces, "e1", Piece::King, Color::White);
    let mut long = MyBoard::with_pieces(pieces, Color::Black);
    assert!(!long.moves_from(sq("e8")).contains(&mv("e8", "c8")));
    // A king that goes from the e-file to the c-file takes the rook along,
    // asked or not.
    long.apply_move_unchecked(mv("e8", "c8"));
    assert_eq!(long.piece_on(sq("c8")), Some((Piece::King, Color::Black)));
    assert_eq!(long.piece_on(sq("d8")), Some((Piece::Rook, Color::Black)));
    assert_eq!(long.piece_on(sq("a8")), None);
    assert_consistent(&long);
}

#[test]
fn taking_the_king_wins_the_game() {
    let mut board = MyBoard::initial_board(Color::White);
    play(&mut board, "e2", "e4", true);
    play(&mut board, "d1", "h5", true);
    play(&mut board, "h5", "f7", true);
    assert_eq!(board.get_status(), Status::InProgress);
    board.apply_move(mv("f7", "e8"));
    assert_eq!(board.get_status(), Status::Win(Color::White));
    assert_eq!(board.get_side_to_move(), Color::Black);
    board.apply_bonus(false);
    assert_eq!(board.get_status(), Status::Win(Color::White));
    assert!(!board.get_status().is_in_progress());
    assert_eq!(board.all_moves(), vec![]);
    assert_eq!(board.get_black_pieces() & (1 << 60), 0);
    assert_consistent(&board);
}

#[test]
fn fifty_moves_without_capture_or_pawn_move_draw_the_game() {
    let mut board = MyBoard::initial_board(Color::White);
    let steps = [
        ("g1", "f3"),
        ("g8", "f6"),
        ("f3", "g1"),
        ("f6", "g8"),
    ];
    for turn in 0..49 {
        let (from, to) = steps[turn % 4];
        play(&mut board, from, to, false);
        assert_eq!(board.get_dead_moves() as usize, turn + 1);
        assert_eq!(board.get_status(), Status::InProgress);
    }
    let (from, to) = steps[49 % 4];
    board.apply_move(mv(from, to));
    assert_eq!(board.get_dead_moves(), 50);
    assert_eq!(board.get_status(), Status::Draw);
    // A pawn move sets the count back.
    let mut fresh = MyBoard::initial_board(Color::White);
    play(&mut fresh, "g1", "f3", false);
    play(&mut fresh, "g8", "f6", false);
    assert_eq!(fresh.get_dead_moves(), 2);
    play(&mut fresh, "e2", "e4", false);
    assert_eq!(fresh.get_dead_moves(), 0);
    play(&mut fresh, "f6", "e4", false);
    assert_eq!(fresh.get_dead_moves(), 0);
    assert_eq!(fresh.piece_count(), 31);
}

#[test]
fn a_side_without_a_move_draws_when_the_coin_is_flipped() {
    // White's pawn is blocked and White has nothing else that can move.
    let mut pieces = empty();
    put(&mut pieces, "a2", Piece::Pawn, Color::White);
    put(&mut pieces, "a3", Piece::Pawn, Color::Black);
    put(&mut pieces, "h8", Piece::King, Color::Black);
    let mut board = MyBoard::with_pieces(pieces, Color::Black);
    board.apply_move(mv("h8", "h7"));
    let mut unchecked = board;
    unchecked.apply_bonus_unchecked(false);
    assert_eq!(unchecked.get_status(), Status::InProgress);
    assert_eq!(unchecked.get_side_to_move(), Color::White);
    assert_eq!(unchecked.all_moves(), vec![]);
    let mut checked = board;
    checked.apply_bonus(false);
    assert_eq!(checked.get_status(), Status::Draw);
    // With a bonus Black moves again and the game goes on.
    let mut bonus = board;
    bonus.apply_bonus(true);
    assert_eq!(bonus.get_status(), Status::InProgress);
    assert_eq!(bonus.get_side_to_move(), Color::Black);
    assert!(!bonus.is_awaiting_bonus());
}

#[test]
fn try_apply_move_makes_the_moves_that_the_rules_allow() {
    let mut board = MyBoard::initial_board(Color::White);
    let before = board.get_zobrist_hash();
    assert!(!board.try_apply_move(mv("e2", "e5")));
    assert!(!board.try_apply_move(mv("e7", "e5")));
    assert!(!board.try_apply_move(mv("e4", "e5")));
    assert!(!board.try_apply_move(ChessMove::new(
        sq("e2"),
        sq("e4"),
        Some(Piece::Queen)
    )));
    assert_eq!(board.get_zobrist_hash(), before);
    assert!(!board.is_awaiting_bonus());
    assert!(board.try_apply_move(mv("e2", "e4")));
    assert!(board.is_awaiting_bonus());
    assert_eq!(board.piece_on(sq("e4")), Some((Piece::Pawn, Color::White)));
    assert_eq!(board.piece_on(sq("e2")), None);
    // No move while the coin flip is due.
    assert!(!board.try_apply_move(mv("e7", "e5")));
    board.apply_bonus(false);
    assert!(board.try_apply_move(mv("e7", "e5")));
}

#[test]
fn turning_the_board_round_twice_gives_the_board_back() {
    let mut board = MyBoard::initial_board(Color::White);
    play(&mut board, "e2", "e4", false);
    play(&mut board, "g8", "f6", false);
    play(&mut board, "e1", "e2", false);
    let mut turned = board;
    turned.invert_ranks_and_colors();
    assert_consistent(&turned);
    assert_eq!(turned.get_side_to_move(), Color::White);
    assert_eq!(turned.piece_on(sq("e5")), Some((Piece::Pawn, Color::Black)));
    assert_eq!(turned.piece_on(sq("f3")), Some((Piece::Knight, Color::White)));
    assert_eq!(turned.piece_on(sq("e7")), Some((Piece::King, Color::Black)));
    assert_eq!(turned.get_castle_rights(Color::Black), CastleRights::NoRights);
    assert_eq!(turned.get_castle_rights(Color::White), CastleRights::Both);
    assert_eq!(turned.get_dead_moves(), board.get_dead_moves());
    turned.invert_ranks_and_colors();
    assert_eq!(turned.get_zobrist_hash(), board.get_zobrist_hash());
    for index in 0..64 {
        let square = Square::new(index).unwrap();
        assert_eq!(turned.piece_on(square), board.piece_on(square));
    }

    let mut mirrored = board;
    mirrored.invert_files();
    assert_consistent(&mirrored);
    assert_eq!(mirrored.piece_on(sq("d4")), Some((Piece::Pawn, Color::White)));
    assert_eq!(mirrored.piece_on(sq("c6")), Some((Piece::Knight, Color::Black)));
    assert_eq!(mirrored.get_side_to_move(), board.get_side_to_move());
    mirrored.invert_files();
    assert_eq!(mirrored.get_zobrist_hash(), board.get_zobrist_hash());

    let mut stripped = MyBoard::initial_board(Color::White);
    stripped.strip_castle_rights();
    assert_consistent(&stripped);
    assert_eq!(stripped.get_castle_rights(Color::White), CastleRights::NoRights);
    assert_eq!(stripped.get_castle_rights(Color::Black), CastleRights::NoRights);
    assert_eq!(stripped.moves_from(sq("e1")), vec![]);

    // A win changes sides with the colours.
    let mut won = MyBoard::initial_board(Color::White);
    play(&mut won, "e2", "e4", true);
    play(&mut won, "d1", "h5", true);
    play(&mut won, "h5", "f7", true);
    play(&mut won, "f7", "e8", false);
    won.invert_ranks_and_colors();
    assert_eq!(won.get_status(), Status::Win(Color::Black));
}

#[test]
fn mirrored_rights_change_their_side() {
    let mut board = MyBoard::initial_board(Color::White);
    play(&mut board, "g1", "f3", false);
    play(&mut board, "g8", "f6", false);
    play(&mut board, "h1", "g1", false);
    play(&mut board, "a7", "a6", false);
    assert_eq!(board.get_castle_rights(Color::White), CastleRights::QueenSide);
    board.invert_files();
    assert_eq!(board.get_castle_rights(Color::White), CastleRights::KingSide);
    assert_eq!(board.get_castle_rights(Color::Black), CastleRights::Both);
    assert_consistent(&board);
}

#[test]
fn the_king_is_found_and_checks_are_seen() {
    let board = MyBoard::initial_board(Color::White);
    assert_eq!(board.king_square(Color::White), Some(sq("e1")));
    assert_eq!(board.king_square(Color::Black), Some(sq("e8")));
    assert!(!board.in_check(Color::White));
    assert!(!board.in_check(Color::Black));
    let mut pieces = empty();
    put(&mut pieces, "e1", Piece::King, Color::White);
    put(&mut pieces, "e8", Piece::Rook, Color::Black);
    put(&mut pieces, "a8", Piece::King, Color::Black);
    put(&mut pieces, "b6", Piece::Knight, Color::White);
    put(&mut pieces, "h7", Piece::Pawn, Color::White);
    let board = MyBoard::with_pieces(pieces, Color::White);
    // The rook looks down the open file, the knight at the corner.
    assert!(board.in_check(Color::White));
    assert!(board.in_check(Color::Black));
    put(&mut pieces, "e4", Piece::Pawn, Color::White);
    pieces[sq("b6").to_index() as usize] = None;
    let board = MyBoard::with_pieces(pieces, Color::Black);
    assert!(!board.in_check(Color::White));
    assert!(!board.in_check(Color::Black));
    // A pawn checks on the diagonal, not straight ahead.
    let mut pieces = empty();
    put(&mut pieces, "e5", Piece::King, Color::Black);
    put(&mut pieces, "e4", Piece::Pawn, Color::White);
    assert!(!MyBoard::with_pieces(pieces, Color::White).in_check(Color::Black));
    put(&mut pieces, "d4", Piece::Pawn, Color::White);
    assert!(MyBoard::with_pieces(pieces, Color::White).in_check(Color::Black));
    // No king, no check.
    assert_eq!(
        MyBoard::with_pieces(pieces, Color::White).king_square(Color::White),
        None
    );
    assert!(!MyBoard::with_pieces(pieces, Color::White).in_check(Color::White));
}

#[test]
fn knights_and_kings_move_as_their_steps_say() {
    for from in 0..64u8 {
        let mut knight_steps = Vec::new();
        let mut king_steps = Vec::new();
        for to in 0..64u8 {
            let ranks = (from / 8).abs_diff(to / 8);
            let files = (from % 8).abs_diff(to % 8);
            let start = Square::new(from).unwrap();
            let end = Square::new(to).unwrap();
            if (ranks == 2 && files == 1) || (ranks == 1 && files == 2) {
                knight_steps.push(ChessMove::new(start, end, None));
            }
            if ranks <= 1 && files <= 1 && from != to {
                king_steps.push(ChessMove::new(start, end, None));
            }
        }
        let mut pieces = empty();
        pieces[from as usize] = Some((Piece::Knight, Color::White));
        let board = MyBoard::with_pieces(pieces, Color::White);
        assert_eq!(board.moves_from(Square::new(from).unwrap()), knight_steps);
        pieces[from as usize] = Some((Piece::King, Color::Black));
        let board = MyBoard::with_pieces(pieces, Color::Black);
        assert_eq!(board.moves_from(Square::new(from).unwrap()), king_steps);
    }
}

fn lined_up(straight: bool, from: u8, to: u8) -> bool {
    let ranks = (from / 8).abs_diff(to / 8);
    let files = (from % 8).abs_diff(to % 8);
    from != to && if straight { ranks == 0 || files == 0 } else { ranks == files }
}

fn between(a: u8, m: u8, b: u8) -> bool {
    (a <= m && m <= b) || (b <= m && m <= a)
}

fn slides(straight: bool, from: u8, to: u8, blockers: u64) -> bool {
    lined_up(straight, from, to)
        && (0..64u8).all(|mid| {
            !(lined_up(straight, from, mid)
                && lined_up(straight, mid, to)
                && between(from / 8, mid / 8, to / 8)
                && between(from % 8, mid % 8, to % 8))
                || blockers & (1u64 << mid) == 0
        })
}

fn pawn_goes(from: u8, white: bool, to: u8, blockers: u64) -> bool {
    let way: i32 = if white { 8 } else { -8 };
    let ahead = from as i32 + way;
    let at_home = from / 8 == if white { 1 } else { 6 };
    let free = |square: i32| blockers & (1u64 << square) == 0;
    let push = (0..64).contains(&ahead)
        && free(ahead)
        && (to as i32 == ahead || (at_home && to as i32 == ahead + way && free(to as i32)));
    let capture = (to / 8) as i32 * 8 == (from / 8) as i32 * 8 + way
        && (from % 8).abs_diff(to % 8) == 1
        && !free(to as i32);
    push || capture
}

#[test]
fn sliders_and_pawns_move_as_their_lines_and_steps_say() {
    let kinds = [Piece::Pawn, Piece::Knight, Piece::Bishop, Piece::Rook, Piece::Queen, Piece::King];
    let mut seed: u64 = 0x2545_f491_4f6c_dd1d;
    let mut looked_at = 0;
    for round in 0..400 {
        let mut pieces = empty();
        let mut blockers: u64 = 0;
        let mut own: [u64; 2] = [0, 0];
        // Crowded boards and nearly empty ones in turn.
        let one_in = 2 + round % 7;
        for square in 0..64usize {
            seed = splitmix(seed);
            if seed % one_in == 0 {
                let kind = kinds[(seed >> 8) as usize % 6];
                let white = (seed >> 16) % 2 == 0;
                pieces[square] = Some((kind, if white { Color::White } else { Color::Black }));
                blockers |= 1u64 << square;
                own[if white { 0 } else { 1 }] |= 1u64 << square;
            }
        }
        for (side, white) in [(Color::White, true), (Color::Black, false)] {
            let board = MyBoard::with_pieces(pieces, side);
            for from in 0..64u8 {
                let kind = match pieces[from as usize] {
                    Some((kind, color)) if color == side => kind,
                    _ => continue,
                };
                let mine = own[if white { 0 } else { 1 }];
                let mut expected = Vec::new();
                for to in 0..64u8 {
                    let reached = match kind {
                        Piece::Bishop => slides(false, from, to, blockers),
                        Piece::Rook => slides(true, from, to, blockers),
                        Piece::Queen => slides(false, from, to, blockers) || slides(true, from, to, blockers),
                        Piece::Pawn => pawn_goes(from, white, to, blockers),
                        _ => continue,
                    };
                    if reached && mine & (1u64 << to) == 0 {
                        expected.push(to);
                    }
                }
                if kind == Piece::Knight || kind == Piece::King {
                    continue;
                }
                let mut found: Vec<u8> = board
                    .moves_from(Square::new(from).unwrap())
                    .iter()
                    .map(|m| m.get_dest().to_index())
                    .collect();
                found.dedup();
                assert_eq!(found, expected, "{:?} on {} with {:#x}", kind, from, blockers);
                looked_at += 1;
            }
        }
    }
    assert!(looked_at > 2000);
}

#[test]
fn a_rook_stops_at_the_first_piece_in_its_way() {
    let mut pieces = empty();
    put(&mut pieces, "a1", Piece::Rook, Color::White);
    put(&mut pieces, "a4", Piece::Pawn, Color::Black);
    put(&mut pieces, "a6", Piece::Pawn, Color::Black);
    put(&mut pieces, "d1", Piece::Knight, Color::White);
    put(&mut pieces, "h1", Piece::Pawn, Color::Black);
    let board = MyBoard::with_pieces(pieces, Color::White);
    assert_eq!(
        board.moves_from(sq("a1")),
        vec![mv("a1", "b1"), mv("a1", "c1"), mv("a1", "a2"), mv("a1", "a3"), mv("a1", "a4")]
    );
}

#[test]
fn a_pawn_at_home_may_take_two_steps_over_free_squares() {
    let mut pieces = empty();
    put(&mut pieces, "e2", Piece::Pawn, Color::White);
    put(&mut pieces, "d3", Piece::Knight, Color::Black);
    put(&mut pieces, "f3", Piece::Knight, Color::White);
    put(&mut pieces, "h7", Piece::Pawn, Color::Black);
    put(&mut pieces, "h5", Piece::Knight, Color::White);
    put(&mut pieces, "b7", Piece::Pawn, Color::Black);
    put(&mut pieces, "b6", Piece::Knight, Color::White);
    let board = MyBoard::with_pieces(pieces, Color::White);
    assert_eq!(
        board.moves_from(sq("e2")),
        vec![mv("e2", "d3"), mv("e2", "e3"), mv("e2", "e4")]
    );
    let board = MyBoard::with_pieces(pieces, Color::Black);
    // Two steps land on a piece: one step only. A piece ahead: no step.
    assert_eq!(board.moves_from(sq("h7")), vec![mv("h7", "h6")]);
    assert_eq!(board.moves_from(sq("b7")), Vec::<ChessMove>::new());
}
