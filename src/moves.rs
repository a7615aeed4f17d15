use vstd::prelude::*;

use crate::error::{result_view, Error, ErrorView};
use crate::piece::Piece;
use crate::position::{parse_square, Position};

verus! {

/// The wing on which a castle happens.
#[derive(Clone, Copy, Debug, PartialEq, Eq, Structural)]
pub enum Side {
    Queen,
    King,
}

impl Side {
    pub open spec fn from_index(i: int) -> Side {
        if i == 0 {
            Side::Queen
        } else {
            Side::King
        }
    }

    /// Index of the side in per-side arrays: queenside is 0, kingside is 1.
    pub open spec fn index(self) -> int {
        match self {
            Side::Queen => 0,
            Side::King => 1,
        }
    }

    pub fn as_index(&self) -> (r: usize)
        ensures
            r == self.index(),
    {
        match self {
            Side::Queen => 0,
            Side::King => 1,
        }
    }
}

/// What a move does beyond carrying a piece from its start to its end square.
#[derive(Clone, Copy, Debug, PartialEq, Eq, Structural)]
pub enum MoveFlag {
    Normal,
    /// A pawn's two-square advance; holds the square passed over, which
    /// becomes the en-passant target.
    PawnDoublePush(u8),
    /// A pawn capture onto the en-passant target.
    EnPassantCapture,
    /// The king's castling move on the given side.
    Castle(Side),
    /// A pawn reaching the last rank and becoming the given piece.
    Promote(Piece),
}

/// A move from one square index to another, with its flag.
#[derive(Clone, Copy, Debug, PartialEq, Eq, Structural)]
pub struct Move {
    pub start_index: u8,
    pub end_index: u8,
    pub flag: MoveFlag,
}

/// The plain move between two squares.
pub open spec fn plain_move(start: int, end: int) -> Move {
    Move { start_index: start as u8, end_index: end as u8, flag: MoveFlag::Normal }
}

impl Move {
    pub open spec fn with_flag(self, flag: MoveFlag) -> Move {
        Move { flag, ..self }
    }

    /// Creates a move with no flag. The indices are not checked.
    pub fn new(start_index: u8, end_index: u8) -> (r: Move)
        ensures
            r == plain_move(start_index as int, end_index as int),
    {
        Move { start_index, end_index, flag: MoveFlag::Normal }
    }

    /// The same move with `flag` attached.
    pub fn flag(self, flag: MoveFlag) -> (r: Move)
        ensures
            r == self.with_flag(flag),
    {
        let mut m = self;
        m.flag = flag;
        m
    }

    /// Parses a move written as two algebraic squares, such as `e2e4`.
    pub fn from_algebraic(s: &str) -> (r: Result<Move, Error>)
        ensures
            result_view(r) == parse_move(s@),
    {
        let n = s.unicode_len();
        let split: usize = if n < 2 {
            n
        } else {
            2
        };
        let first = match Position::from_algebraic(s.substring_char(0, split)) {
            Ok(p) => p,
            Err(e) => {
                return Err(e);
            },
        };
        let second = match Position::from_algebraic(s.substring_char(split, n)) {
            Ok(p) => p,
            Err(e) => {
                return Err(e);
            },
        };
        Ok(Move::new(first.rank * 8 + first.file, second.rank * 8 + second.file))
    }
}

/// Reads a move from its two squares: the first two characters name the
/// start, the rest the end. No flag is read.
pub open spec fn parse_move(s: Seq<char>) -> Result<Move, ErrorView> {
    let split = if s.len() < 2 {
        s.len()
    } else {
        2
    };
    match parse_square(s.subrange(0, split as int)) {
        Err(e) => Err(e),
        Ok(a) => match parse_square(s.subrange(split as int, s.len() as int)) {
            Err(e) => Err(e),
            Ok(b) => Ok(plain_move(a.index(), b.index())),
        },
    }
}

impl std::str::FromStr for Move {
    type Err = Error;

    fn from_str(s: &str) -> Result<Move, Error> {
        Move::from_algebraic(s)
    }
}

} // verus!
