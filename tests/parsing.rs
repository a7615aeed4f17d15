use cheseng::{pos, Board, Color, Error, Move, MoveFlag, Piece, Position};

const START: &str = "rnbqkbnr/pppppppp/8/8/8/8/PPPPPPPP/RNBQKBNR w KQkq - 0 1";

#[test]
fn start_fen_round_trip() {
    let board = Board::from_fen(START).unwrap();
    let back = [
        Piece::Rook,
        Piece::Knight,
        Piece::Bishop,
        Piece::Queen,
        Piece::King,
        Piece::Bishop,
        Piece::Knight,
        Piece::Rook,
    ];
    for file in 0..8 {
        assert_eq!(board.grid[file], Some(back[file](Color::Black)));
        assert_eq!(board.grid[8 + file], Some(Piece::Pawn(Color::Black)));
        assert_eq!(board.grid[48 + file], Some(Piece::Pawn(Color::White)));
        assert_eq!(board.grid[56 + file], Some(back[file](Color::White)));
    }
    for sq in 16..48 {
        assert_eq!(board.grid[sq], None);
    }
    let white = board.grid.iter().flatten().filter(|p| *p.get_color() == Color::White).count();
    let black = board.grid.iter().flatten().filter(|p| *p.get_color() == Color::Black).count();
    assert_eq!(white, 16);
    assert_eq!(black, 16);
    assert_eq!(board.turn, Color::White);
    assert_eq!(board.castle_rights, [[true, true], [true, true]]);
    assert_eq!(board.en_passant_square, None);
}

#[test]
fn default_matches_start_fen() {
    let parsed = Board::from_fen(START).unwrap();
    let start = Board::default();
    assert_eq!(parsed.grid, start.grid);
    assert_eq!(parsed.turn, start.turn);
    assert_eq!(parsed.castle_rights, start.castle_rights);
    assert_eq!(parsed.en_passant_square, start.en_passant_square);
}

#[test]
fn bounds_rejection() {
    assert_eq!(Position::from_algebraic("i9"), Err(Error::InvalidPosition(Some('i'))));
    assert_eq!("i9".parse::<Position>(), Err(Error::InvalidPosition(Some('i'))));
    assert_eq!(Position::new(8, 0).as_index(), Err(Error::OutsideBounds(pos(8, 0))));
    assert_eq!(pos(0, 8).check_ouside_bounds(), Err(Error::OutsideBounds(pos(0, 8))));
    assert_eq!(pos(7, 7).as_index(), Ok(63));
    assert_eq!(pos(7, 7).check_ouside_bounds(), Ok(()));
}

#[test]
fn square_parse_errors() {
    assert_eq!(Position::from_algebraic(""), Err(Error::InvalidPosition(None)));
    assert_eq!(Position::from_algebraic("e"), Err(Error::InvalidPosition(None)));
    assert_eq!(Position::from_algebraic("e9"), Err(Error::InvalidPosition(Some('9'))));
    assert_eq!(Position::from_algebraic("e0"), Err(Error::InvalidPosition(Some('0'))));
    assert_eq!(Position::from_algebraic("e4"), Ok(pos(4, 4)));
    assert_eq!(Position::from_algebraic("a8"), Ok(pos(0, 0)));
    assert_eq!(Position::from_algebraic("h1"), Ok(pos(7, 7)));
}

#[test]
fn position_index_conversions() {
    assert_eq!(Position::from_index(27), pos(3, 3));
    assert_eq!(Position::from_index(63), pos(7, 7));
    assert_eq!(pos(4, 6).as_index(), Ok(52));
}

#[test]
fn move_parse() {
    let m: Move = "e2e4".parse().unwrap();
    assert_eq!(m, Move::new(52, 36));
    assert_eq!(m.flag, MoveFlag::Normal);
    assert_eq!(Move::from_algebraic("a8h1"), Ok(Move::new(0, 63)));
    assert_eq!(Move::from_algebraic("e2"), Err(Error::InvalidPosition(None)));
    assert_eq!(Move::from_algebraic("e2x4"), Err(Error::InvalidPosition(Some('x'))));
    assert_eq!(Move::from_algebraic("z2e4"), Err(Error::InvalidPosition(Some('z'))));
    assert_eq!(Move::from_algebraic(""), Err(Error::InvalidPosition(None)));
}

#[test]
fn move_flag_builder() {
    let m = Move::new(1, 2).flag(MoveFlag::EnPassantCapture);
    assert_eq!(m.start_index, 1);
    assert_eq!(m.end_index, 2);
    assert_eq!(m.flag, MoveFlag::EnPassantCapture);
}

#[test]
fn fen_missing_sections() {
    assert_eq!(Board::from_fen("").unwrap_err(), Error::InvalidFEN);
    assert_eq!(Board::from_fen("   ").unwrap_err(), Error::InvalidFEN);
    assert_eq!(Board::from_fen("8/8/8/8/8/8/8/8").unwrap_err(), Error::InvalidFEN);
    assert_eq!(Board::from_fen("8/8/8/8/8/8/8/8 w").unwrap_err(), Error::InvalidFEN);
    assert_eq!(Board::from_fen("8/8/8/8/8/8/8/8 w -").unwrap_err(), Error::InvalidFEN);
}

#[test]
fn fen_unexpected_text() {
    assert_eq!(
        Board::from_fen("x7/8/8/8/8/8/8/8 w - -").unwrap_err(),
        Error::InvalidFENStr("x".to_string())
    );
    assert_eq!(
        Board::from_fen("8/8/8/8/8/8/8/8 white - -").unwrap_err(),
        Error::InvalidFENStr("white".to_string())
    );
    assert_eq!(
        Board::from_fen("8/8/8/8/8/8/8/8 w KX -").unwrap_err(),
        Error::InvalidFENStr("X".to_string())
    );
    assert_eq!(
        Board::from_fen("8/8/8/8/8/8/8/8 w - z3").unwrap_err(),
        Error::InvalidPosition(Some('z'))
    );
    assert_eq!(
        Board::from_fen("8/8/8/8/8/8/8/8 w - e").unwrap_err(),
        Error::InvalidPosition(None)
    );
}

#[test]
fn fen_overflowing_placement() {
    assert_eq!(
        Board::from_fen("9/8/8/8/8/8/8/8 w - -").unwrap_err(),
        Error::OutsideBounds(pos(9, 0))
    );
    assert_eq!(
        Board::from_fen("8p/8/8/8/8/8/8/8 w - -").unwrap_err(),
        Error::OutsideBounds(pos(8, 0))
    );
    assert_eq!(
        Board::from_fen("8/8/8/8/8/8/8/8/p w - -").unwrap_err(),
        Error::OutsideBounds(pos(0, 8))
    );
    assert_eq!(
        Board::from_fen("8/8/8/8/8/8/8/8/8/ w - -").unwrap_err(),
        Error::OutsideBounds(pos(0, 9))
    );
}

#[test]
fn fen_fields() {
    let board = Board::from_fen("4k3/8/8/8/4P3/8/8/4K3 b Kq e3 12 40").unwrap();
    assert_eq!(board.turn, Color::Black);
    assert_eq!(board.castle_rights, [[false, true], [true, false]]);
    assert_eq!(board.en_passant_square, Some(44));
    assert_eq!(board.grid[4], Some(Piece::King(Color::Black)));
    assert_eq!(board.grid[36], Some(Piece::Pawn(Color::White)));
    assert_eq!(board.grid[60], Some(Piece::King(Color::White)));
    assert_eq!(board.grid.iter().flatten().count(), 3);
}

#[test]
fn fen_any_white_space_separates() {
    let board = Board::from_fen("8/8/8/8/8/8/8/8\tb \n -\u{a0}-").unwrap();
    assert_eq!(board.turn, Color::Black);
    assert_eq!(board.castle_rights, [[false, false], [false, false]]);
    assert_eq!(board.en_passant_square, None);
}

#[test]
fn empty_board() {
    let board = Board::empty();
    assert!(board.grid.iter().all(|sq| sq.is_none()));
    assert_eq!(board.turn, Color::White);
    assert_eq!(board.en_passant_square, None);
    assert_eq!(board.castle_rights, [[false, false], [false, false]]);
    assert!(board.get_all_legal_moves().is_empty());
}
