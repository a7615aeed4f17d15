use vstd::prelude::*;

use crate::board::{Board, BoardView};
use crate::error::{Error, ErrorView};
use crate::piece::{Color, Piece};

verus! {

/// The text of what stands on a square: its glyph, or a blank.
pub open spec fn glyph_text(sq: Option<Piece>) -> Seq<char> {
    match sq {
        None => " "@,
        Some(Piece::King(Color::White)) => "♚"@,
        Some(Piece::Queen(Color::White)) => "♛"@,
        Some(Piece::Rook(Color::White)) => "♜"@,
        Some(Piece::Knight(Color::White)) => "♞"@,
        Some(Piece::Bishop(Color::White)) => "♝"@,
        Some(Piece::Pawn(Color::White)) => "♟"@,
        Some(Piece::King(Color::Black)) => "♔"@,
        Some(Piece::Queen(Color::Black)) => "♕"@,
        Some(Piece::Rook(Color::Black)) => "♖"@,
        Some(Piece::Knight(Color::Black)) => "♘"@,
        Some(Piece::Bishop(Color::Black)) => "♗"@,
        Some(Piece::Pawn(Color::Black)) => "♙"@,
    }
}

/// The label of rank index `r` (0 at the top): `8` down to `1`.
pub open spec fn rank_label(r: int) -> Seq<char> {
    if r == 0 {
        "8"@
    } else if r == 1 {
        "7"@
    } else if r == 2 {
        "6"@
    } else if r == 3 {
        "5"@
    } else if r == 4 {
        "4"@
    } else if r == 5 {
        "3"@
    } else if r == 6 {
        "2"@
    } else {
        "1"@
    }
}

/// The text that square `sq` adds to the drawing: a border line and the
/// rank label where a rank begins, then its cell.
pub open spec fn square_text(sq: int, p: Option<Piece>) -> Seq<char> {
    let rank_start = if sq == 0 {
        "   ┌───┬───┬───┬───┬───┬───┬───┬───┐\n"@ + " "@ + rank_label(0) + " │"@
    } else if sq % 8 == 0 {
        "\n   ├───┼───┼───┼───┼───┼───┼───┼───┤\n"@ + " "@ + rank_label(sq / 8) + " │"@
    } else {
        Seq::empty()
    };
    rank_start + " "@ + glyph_text(p) + " │"@
}

/// The drawing of the first `n` squares.
pub open spec fn squares_text(b: BoardView, n: int) -> Seq<char>
    decreases n,
{
    if n <= 0 {
        Seq::empty()
    } else {
        squares_text(b, n - 1) + square_text(n - 1, b.grid[n - 1])
    }
}

/// The board drawn as a grid, rank 8 at the top and the a-file on the left,
/// with the file letters underneath.
pub open spec fn board_text(b: BoardView) -> Seq<char> {
    squares_text(b, 64) + "\n   └───┴───┴───┴───┴───┴───┴───┴───┘\n   "@
        + "  a   b   c   d   e   f   g   h "@
}

fn glyph_str(sq: Option<Piece>) -> (r: &'static str)
    ensures
        r@ == glyph_text(sq),
{
    match sq {
        None => " ",
        Some(Piece::King(Color::White)) => "♚",
        Some(Piece::Queen(Color::White)) => "♛",
        Some(Piece::Rook(Color::White)) => "♜",
        Some(Piece::Knight(Color::White)) => "♞",
        Some(Piece::Bishop(Color::White)) => "♝",
        Some(Piece::Pawn(Color::White)) => "♟",
        Some(Piece::King(Color::Black)) => "♔",
        Some(Piece::Queen(Color::Black)) => "♕",
        Some(Piece::Rook(Color::Black)) => "♖",
        Some(Piece::Knight(Color::Black)) => "♘",
        Some(Piece::Bishop(Color::Black)) => "♗",
        Some(Piece::Pawn(Color::Black)) => "♙",
    }
}

fn rank_label_str(r: usize) -> (r_text: &'static str)
    ensures
        r_text@ == rank_label(r as int),
{
    if r == 0 {
        "8"
    } else if r == 1 {
        "7"
    } else if r == 2 {
        "6"
    } else if r == 3 {
        "5"
    } else if r == 4 {
        "4"
    } else if r == 5 {
        "3"
    } else if r == 6 {
        "2"
    } else {
        "1"
    }
}

impl Board {
    /// The board drawn as text: see [`board_text`].
    pub fn to_text(&self) -> (r: String)
        ensures
            r@ == board_text(self@),
    {
        let mut out = String::new();
        let mut i: usize = 0;
        while i < 64
            invariant
                i <= 64,
                out@ == squares_text(self@, i as int),
            decreases 64 - i,
        {
            let ghost before = out@;
            if i == 0 {
                out.append("   ┌───┬───┬───┬───┬───┬───┬───┬───┐\n");
            } else if i % 8 == 0 {
                out.append("\n   ├───┼───┼───┼───┼───┼───┼───┼───┤\n");
            }
            if i % 8 == 0 {
                out.append(" ");
                out.append(rank_label_str(i / 8));
                out.append(" │");
            }
            out.append(" ");
            out.append(glyph_str(self.grid[i]));
            out.append(" │");
            assert(out@ =~= before + square_text(i as int, self@.grid[i as int]));
            i += 1;
        }
        out.append("\n   └───┴───┴───┴───┴───┴───┴───┴───┘\n   ");
        out.append("  a   b   c   d   e   f   g   h ");
        out
    }
}

/// The text of a decimal digit.
pub open spec fn digit_text(d: int) -> Seq<char> {
    if d == 0 {
        "0"@
    } else if d == 1 {
        "1"@
    } else if d == 2 {
        "2"@
    } else if d == 3 {
        "3"@
    } else if d == 4 {
        "4"@
    } else if d == 5 {
        "5"@
    } else if d == 6 {
        "6"@
    } else if d == 7 {
        "7"@
    } else if d == 8 {
        "8"@
    } else {
        "9"@
    }
}

/// The decimal digits of `n`, without leading zeros.
pub open spec fn decimal(n: nat) -> Seq<char>
    decreases n,
{
    if n < 10 {
        digit_text(n as int)
    } else {
        decimal(n / 10) + digit_text((n % 10) as int)
    }
}

/// A sentence that describes an error.
pub open spec fn error_text(e: ErrorView) -> Seq<char> {
    match e {
        ErrorView::InvalidFEN => "InvalidFEN: Invalid number of sections or subsections"@,
        ErrorView::InvalidFENStr(s) => "InvalidFEN: Unexpected string: "@ + s,
        ErrorView::OutsideBounds(p) => "OutsideBounds: Position { file: "@ + decimal(
            p.file as nat,
        ) + ", rank: "@ + decimal(p.rank as nat) + " } is outside 8x8 chess board"@,
        ErrorView::InvalidPosition(Some(c)) => "InvalidPosition: Unexpected char: "@ + seq![c],
        ErrorView::InvalidPosition(None) => "InvalidPosition: Expected 2 chars"@,
    }
}

fn digit_str(d: u8) -> (r: &'static str)
    requires
        d < 10,
    ensures
        r@ == digit_text(d as int),
{
    if d == 0 {
        "0"
    } else if d == 1 {
        "1"
    } else if d == 2 {
        "2"
    } else if d == 3 {
        "3"
    } else if d == 4 {
        "4"
    } else if d == 5 {
        "5"
    } else if d == 6 {
        "6"
    } else if d == 7 {
        "7"
    } else if d == 8 {
        "8"
    } else {
        "9"
    }
}

fn decimal_text(n: u8) -> (r: String)
    ensures
        r@ == decimal(n as nat),
{
    let mut out = String::new();
    if n >= 100 {
        out.append(digit_str(n / 100));
        assert(out@ =~= decimal((n / 100) as nat));
    }
    if n >= 10 {
        let ghost before = out@;
        out.append(digit_str((n / 10) % 10));
        assert(out@ =~= decimal((n / 10) as nat)) by {
            if n >= 100 {
                assert(decimal((n / 10) as nat) == decimal(((n / 10) / 10) as nat) + digit_text(
                    ((n / 10) % 10) as int,
                ));
                assert((n / 10) / 10 == n / 100);
            } else {
                assert(before =~= Seq::<char>::empty());
            }
        }
    } else {
        assert(out@ =~= Seq::<char>::empty());
    }
    let ghost before = out@;
    out.append(digit_str(n % 10));
    assert(out@ =~= decimal(n as nat)) by {
        if n < 10 {
            assert(before =~= Seq::<char>::empty());
        }
    }
    out
}

/// Relies on std's `ToString` for `char`, which writes the character itself.
#[verifier::external_body]
fn char_text(c: char) -> (r: String)
    ensures
        r@ == seq![c],
{
    c.to_string()
}

impl Error {
    /// A sentence that describes the error: see [`error_text`].
    pub fn message(&self) -> (r: String)
        ensures
            r@ == error_text(self@),
    {
        match self {
            Error::InvalidFEN => "InvalidFEN: Invalid number of sections or subsections".to_owned(),
            Error::InvalidFENStr(s) => {
                let mut out = "InvalidFEN: Unexpected string: ".to_owned();
                out.append(s.as_str());
                out
            },
            Error::OutsideBounds(p) => {
                let mut out = "OutsideBounds: Position { file: ".to_owned();
                out.append(decimal_text(p.file).as_str());
                out.append(", rank: ");
                out.append(decimal_text(p.rank).as_str());
                out.append(" } is outside 8x8 chess board");
                out
            },
            Error::InvalidPosition(Some(c)) => {
                let mut out = "InvalidPosition: Unexpected char: ".to_owned();
                out.append(char_text(*c).as_str());
                out
            },
            Error::InvalidPosition(None) => "InvalidPosition: Expected 2 chars".to_owned(),
        }
    }
}

} // verus!
