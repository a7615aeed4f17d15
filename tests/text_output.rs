use cheseng::{pos, Board, Color, Error, Piece};

#[test]
fn board_text_of_start_position() {
    let text = Board::default().to_text();
    let lines: Vec<&str> = text.split('\n').collect();
    assert_eq!(lines.len(), 18);
    assert_eq!(lines[0], "   ┌───┬───┬───┬───┬───┬───┬───┬───┐");
    assert_eq!(lines[1], " 8 │ ♖ │ ♘ │ ♗ │ ♕ │ ♔ │ ♗ │ ♘ │ ♖ │");
    assert_eq!(lines[2], "   ├───┼───┼───┼───┼───┼───┼───┼───┤");
    assert_eq!(lines[3], " 7 │ ♙ │ ♙ │ ♙ │ ♙ │ ♙ │ ♙ │ ♙ │ ♙ │");
    assert_eq!(lines[5], " 6 │   │   │   │   │   │   │   │   │");
    assert_eq!(lines[13], " 2 │ ♟ │ ♟ │ ♟ │ ♟ │ ♟ │ ♟ │ ♟ │ ♟ │");
    assert_eq!(lines[15], " 1 │ ♜ │ ♞ │ ♝ │ ♛ │ ♚ │ ♝ │ ♞ │ ♜ │");
    assert_eq!(lines[16], "   └───┴───┴───┴───┴───┴───┴───┴───┘");
    assert_eq!(lines[17], "     a   b   c   d   e   f   g   h ");
}

#[test]
fn piece_glyphs_and_colors() {
    assert_eq!(Piece::King(Color::White).get_char(), '♚');
    assert_eq!(Piece::Pawn(Color::White).get_char(), '♟');
    assert_eq!(Piece::Knight(Color::Black).get_char(), '♘');
    assert_eq!(Piece::Queen(Color::Black).get_char(), '♕');
    assert_eq!(*Piece::Bishop(Color::Black).get_color(), Color::Black);
    assert_eq!(*Piece::Rook(Color::White).get_color(), Color::White);
    assert_eq!(Color::White.as_index(), 0);
    assert_eq!(Color::Black.as_index(), 1);
}

#[test]
fn error_messages() {
    assert_eq!(
        Error::InvalidFEN.message(),
        "InvalidFEN: Invalid number of sections or subsections"
    );
    assert_eq!(
        Error::InvalidFENStr("x".to_string()).message(),
        "InvalidFEN: Unexpected string: x"
    );
    assert_eq!(
        Error::OutsideBounds(pos(8, 0)).message(),
        "OutsideBounds: Position { file: 8, rank: 0 } is outside 8x8 chess board"
    );
    assert_eq!(
        Error::OutsideBounds(pos(200, 45)).message(),
        "OutsideBounds: Position { file: 200, rank: 45 } is outside 8x8 chess board"
    );
    assert_eq!(
        Error::InvalidPosition(Some('i')).message(),
        "InvalidPosition: Unexpected char: i"
    );
    assert_eq!(Error::InvalidPosition(None).message(), "InvalidPosition: Expected 2 chars");
}
