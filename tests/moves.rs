use cheseng::tables::{calc_knight_moves, calc_num_times_to_edge};
use cheseng::{Board, Color, Move, MoveFlag, Piece, Side};

fn ends(moves: &[Move]) -> Vec<u8> {
    moves.iter().map(|m| m.end_index).collect()
}

#[test]
fn start_position_has_twenty_moves() {
    let board = Board::from_fen("rnbqkbnr/pppppppp/8/8/8/8/PPPPPPPP/RNBQKBNR w - - 0 1").unwrap();
    let moves = board.get_all_legal_moves();
    assert_eq!(moves.len(), 20);
    let pawn_moves = moves
        .iter()
        .filter(|m| board.grid[m.start_index as usize] == Some(Piece::Pawn(Color::White)))
        .count();
    let knight_moves = moves
        .iter()
        .filter(|m| board.grid[m.start_index as usize] == Some(Piece::Knight(Color::White)))
        .count();
    let double_pushes = moves
        .iter()
        .filter(|m| matches!(m.flag, MoveFlag::PawnDoublePush(_)))
        .count();
    assert_eq!(pawn_moves, 16);
    assert_eq!(knight_moves, 4);
    assert_eq!(double_pushes, 8);
    assert_eq!(ends(&Piece::Knight(Color::White).get_legal_moves(57, &board)), vec![40, 42]);
}

#[test]
fn start_position_offers_castling_by_right_alone() {
    let board = Board::default();
    let moves = board.get_all_legal_moves();
    let castles: Vec<Move> =
        moves.iter().copied().filter(|m| matches!(m.flag, MoveFlag::Castle(_))).collect();
    assert_eq!(moves.len() - castles.len(), 20);
    assert_eq!(
        castles,
        vec![
            Move::new(60, 58).flag(MoveFlag::Castle(Side::Queen)),
            Move::new(60, 62).flag(MoveFlag::Castle(Side::King)),
        ]
    );
}

#[test]
fn generator_purity() {
    let boards = [
        Board::default(),
        Board::from_fen("r3k2r/8/8/3pP3/8/8/8/R3K2R w KQkq d6 0 1").unwrap(),
        Board::from_fen("r7/1P6/8/8/8/8/8/k6K w - - 0 1").unwrap(),
    ];
    for board in boards.iter() {
        let first = board.get_all_legal_moves();
        let second = board.get_all_legal_moves();
        assert_eq!(first, second);
    }
}

#[test]
fn double_push_sets_en_passant() {
    let mut board = Board::default();
    let push = board.as_legal_move(Move::new(52, 36)).unwrap();
    assert_eq!(push.flag, MoveFlag::PawnDoublePush(44));
    board.make_move(push);
    assert_eq!(board.en_passant_square, Some(44));
    assert_eq!(board.grid[36], Some(Piece::Pawn(Color::White)));
    assert_eq!(board.grid[52], None);
    assert_eq!(board.turn, Color::Black);

    let reply = board.as_legal_move(Move::new(12, 20)).unwrap();
    assert_eq!(reply.flag, MoveFlag::Normal);
    board.make_move(reply);
    assert_eq!(board.en_passant_square, None);
    assert_eq!(board.turn, Color::White);
}

#[test]
fn single_push_leaves_no_en_passant() {
    let mut board = Board::default();
    let push = board.as_legal_move(Move::new(52, 44)).unwrap();
    assert_eq!(push.flag, MoveFlag::Normal);
    board.make_move(push);
    assert_eq!(board.en_passant_square, None);
}

#[test]
fn en_passant_capture_removes_pawn() {
    let mut board =
        Board::from_fen("rnbqkbnr/pppppppp/8/4P3/8/8/PPPP1PPP/RNBQKBNR b KQkq - 0 1").unwrap();
    let push = board.as_legal_move(Move::new(11, 27)).unwrap();
    assert_eq!(push.flag, MoveFlag::PawnDoublePush(19));
    board.make_move(push);
    assert_eq!(board.en_passant_square, Some(19));

    let capture = board.as_legal_move(Move::new(28, 19)).unwrap();
    assert_eq!(capture.flag, MoveFlag::EnPassantCapture);
    assert!(board.move_is_capture(capture));
    board.make_move(capture);
    assert_eq!(board.grid[19], Some(Piece::Pawn(Color::White)));
    assert_eq!(board.grid[27], None);
    assert_eq!(board.grid[28], None);
    assert_eq!(board.en_passant_square, None);
}

#[test]
fn promotion_fan_out() {
    let board = Board::from_fen("r7/1P6/8/8/8/8/8/k6K w - - 0 1").unwrap();
    let moves = Piece::Pawn(Color::White).get_legal_moves(9, &board);
    let kinds = [
        Piece::Queen(Color::White),
        Piece::Rook(Color::White),
        Piece::Bishop(Color::White),
        Piece::Knight(Color::White),
    ];
    assert_eq!(moves.len(), 8);
    for (i, kind) in kinds.iter().enumerate() {
        assert_eq!(moves[i], Move::new(9, 1).flag(MoveFlag::Promote(*kind)));
        assert_eq!(moves[4 + i], Move::new(9, 0).flag(MoveFlag::Promote(*kind)));
    }
}

#[test]
fn promotion_places_chosen_piece() {
    let mut board = Board::from_fen("r7/1P6/8/8/8/8/8/k6K w - - 0 1").unwrap();
    let first = board.as_legal_move(Move::new(9, 0)).unwrap();
    assert_eq!(first.flag, MoveFlag::Promote(Piece::Queen(Color::White)));
    board.make_move(Move::new(9, 0).flag(MoveFlag::Promote(Piece::Knight(Color::Black))));
    assert_eq!(board.grid[0], Some(Piece::Knight(Color::White)));
    assert_eq!(board.grid[9], None);
}

#[test]
fn castling_moves_and_rook() {
    let mut board = Board::from_fen("r3k2r/8/8/8/8/8/8/R3K2R w KQkq - 0 1").unwrap();
    let king = board.get_all_legal_moves().into_iter().filter(|m| m.start_index == 60).count();
    assert_eq!(king, 7);
    let castle = board.as_legal_move(Move::new(60, 62)).unwrap();
    assert_eq!(castle.flag, MoveFlag::Castle(Side::King));
    board.make_move(castle);
    assert_eq!(board.grid[62], Some(Piece::King(Color::White)));
    assert_eq!(board.grid[61], Some(Piece::Rook(Color::White)));
    assert_eq!(board.grid[63], None);
    assert_eq!(board.grid[60], None);
    assert_eq!(board.castle_rights, [[false, false], [true, true]]);

    let long = board.as_legal_move(Move::new(4, 2)).unwrap();
    assert_eq!(long.flag, MoveFlag::Castle(Side::Queen));
    board.make_move(long);
    assert_eq!(board.grid[2], Some(Piece::King(Color::Black)));
    assert_eq!(board.grid[3], Some(Piece::Rook(Color::Black)));
    assert_eq!(board.grid[0], None);
    assert_eq!(board.castle_rights, [[false, false], [false, false]]);
}

#[test]
fn castling_rights_monotonicity() {
    let mut board = Board::from_fen("r3k2r/8/8/8/8/8/8/R3K2R w KQkq - 0 1").unwrap();
    let rook = board.as_legal_move(Move::new(56, 48)).unwrap();
    board.make_move(rook);
    assert_eq!(board.castle_rights, [[false, true], [true, true]]);
    let back = board.as_legal_move(Move::new(0, 8)).unwrap();
    board.make_move(back);
    assert_eq!(board.castle_rights, [[false, true], [false, true]]);
    board.make_move(board.as_legal_move(Move::new(48, 56)).unwrap());
    board.make_move(board.as_legal_move(Move::new(8, 0)).unwrap());
    assert_eq!(board.castle_rights, [[false, true], [false, true]]);
    assert!(board.as_legal_move(Move::new(60, 58)).is_none());

    board.make_move(board.as_legal_move(Move::new(60, 52)).unwrap());
    assert_eq!(board.castle_rights, [[false, false], [false, true]]);
    board.make_move(board.as_legal_move(Move::new(4, 12)).unwrap());
    assert_eq!(board.castle_rights, [[false, false], [false, false]]);
    board.make_move(board.as_legal_move(Move::new(52, 60)).unwrap());
    board.make_move(board.as_legal_move(Move::new(12, 4)).unwrap());
    assert_eq!(board.castle_rights, [[false, false], [false, false]]);
}

#[test]
fn rook_capture_in_corner_clears_right() {
    let mut board = Board::from_fen("r3k2r/8/8/8/8/8/8/R3K2R w KQkq - 0 1").unwrap();
    let take = board.as_legal_move(Move::new(63, 7)).unwrap();
    assert!(board.move_is_capture(take));
    board.make_move(take);
    assert_eq!(board.castle_rights, [[true, false], [true, false]]);
    assert_eq!(board.grid[7], Some(Piece::Rook(Color::White)));

    let mut board = Board::from_fen("r3k2r/8/8/8/8/8/5n2/R3K2R b KQkq - 0 1").unwrap();
    board.make_move(board.as_legal_move(Move::new(53, 63)).unwrap());
    assert_eq!(board.castle_rights, [[true, false], [true, true]]);
}

#[test]
fn bounds_of_sliding_pieces() {
    let rook = Board::from_fen("8/8/8/8/3R4/8/8/8 w - - 0 1").unwrap();
    assert_eq!(rook.get_all_legal_moves().len(), 14);
    let queen = Board::from_fen("8/8/8/8/3Q4/8/8/8 w - - 0 1").unwrap();
    assert_eq!(queen.get_all_legal_moves().len(), 27);
    let bishop = Board::from_fen("8/8/8/8/8/8/8/B7 w - - 0 1").unwrap();
    assert_eq!(ends(&bishop.get_all_legal_moves()), vec![49, 42, 35, 28, 21, 14, 7]);
}

#[test]
fn sliding_stops_at_pieces() {
    let board = Board::from_fen("8/8/8/3p4/8/3R1P2/8/8 w - - 0 1").unwrap();
    let moves = Piece::Rook(Color::White).get_legal_moves(43, &board);
    assert_eq!(ends(&moves), vec![35, 27, 51, 59, 42, 41, 40, 44]);
}

#[test]
fn knight_does_not_wrap() {
    let board = Board::from_fen("8/8/8/8/8/8/8/N6k w - - 0 1").unwrap();
    assert_eq!(ends(&board.get_all_legal_moves()), vec![41, 50]);
    let board = Board::from_fen("7N/8/8/8/8/8/8/k7 w - - 0 1").unwrap();
    assert_eq!(ends(&board.get_all_legal_moves()), vec![13, 22]);
}

#[test]
fn king_does_not_wrap() {
    let board = Board::from_fen("8/8/8/8/7K/8/8/8 w - - 0 1").unwrap();
    assert_eq!(ends(&board.get_all_legal_moves()), vec![31, 47, 38, 30, 46]);
}

#[test]
fn pawn_captures_do_not_wrap() {
    let board = Board::from_fen("8/8/8/7p/8/8/8/8 b - a3 0 1").unwrap();
    assert_eq!(ends(&board.get_all_legal_moves()), vec![39]);
}

#[test]
fn pieces_of_other_side_have_no_moves() {
    let board = Board::default();
    assert!(Piece::Pawn(Color::Black).get_legal_moves(8, &board).is_empty());
    let mut moves = vec![Move::new(0, 0)];
    Piece::Knight(Color::Black).add_legal_moves(1, &mut moves, &board);
    assert_eq!(moves, vec![Move::new(0, 0)]);
    Piece::Knight(Color::White).add_legal_moves(57, &mut moves, &board);
    assert_eq!(moves, vec![Move::new(0, 0), Move::new(57, 40), Move::new(57, 42)]);
}

#[test]
fn legal_move_lookup() {
    let board = Board::default();
    assert_eq!(board.as_legal_move(Move::new(20, 28)), None);
    assert_eq!(board.as_legal_move(Move::new(52, 28)), None);
    assert_eq!(board.as_legal_move(Move::new(200, 28)), None);
    assert_eq!(board.as_legal_move(Move::new(11, 19)), None);
    let found = board.as_legal_move(Move::new(52, 36).flag(MoveFlag::EnPassantCapture));
    assert_eq!(found, Some(Move::new(52, 36).flag(MoveFlag::PawnDoublePush(44))));
}

#[test]
fn capture_detection() {
    let mut board = Board::default();
    assert!(!board.move_is_capture(Move::new(52, 36)));
    assert!(board.move_is_capture(Move::new(52, 12)));
    assert!(!board.move_is_capture(Move::new(52, 200)));
    board.make_move(Move::new(52, 36).flag(MoveFlag::PawnDoublePush(44)));
    assert!(board.move_is_capture(Move::new(0, 44)));
}

#[test]
fn edge_distance_table() {
    let table = calc_num_times_to_edge();
    assert_eq!(table[0], [0, 7, 0, 7, 0, 0, 0, 7]);
    assert_eq!(table[63], [7, 0, 7, 0, 7, 0, 0, 0]);
    assert_eq!(table[27], [3, 4, 3, 4, 3, 3, 3, 4]);
}

#[test]
fn knight_table() {
    let table = calc_knight_moves();
    assert_eq!(table.len(), 64);
    assert_eq!(table[0], vec![10, 17]);
    assert_eq!(table[7], vec![6, 15]);
    assert_eq!(table[27], vec![-17, -15, -10, -6, 6, 10, 15, 17]);
}
