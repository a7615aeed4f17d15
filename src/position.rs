use vstd::prelude::*;

use crate::error::{result_view, Error, ErrorView};

verus! {

/// A square given by its file (0 is the a-file) and its rank (0 is the rank
/// printed at the top, FEN's eighth rank).
#[derive(Clone, Copy, Debug, PartialEq, Eq, Structural)]
pub struct Position {
    pub file: u8,
    pub rank: u8,
}

/// Whether a linear square index lies on the board.
pub open spec fn on_board(i: int) -> bool {
    0 <= i < 64
}

impl Position {
    pub open spec fn in_bounds(self) -> bool {
        self.file <= 7 && self.rank <= 7
    }

    /// Linear index of the square: rank-major, files ascending.
    pub open spec fn index(self) -> int {
        self.rank * 8 + self.file
    }

    pub open spec fn of_index(i: int) -> Position {
        Position { file: (i % 8) as u8, rank: (i / 8) as u8 }
    }

    pub fn new(file: u8, rank: u8) -> (r: Position)
        ensures
            r == (Position { file, rank }),
    {
        Position { file, rank }
    }

    pub fn from_index(i: u8) -> (r: Position)
        ensures
            r == Position::of_index(i as int),
            r.file == i % 8,
            r.rank == i / 8,
    {
        Position::new(i % 8, i / 8)
    }

    pub fn as_index(&self) -> (r: Result<u8, Error>)
        ensures
            result_view(r) == (if self.in_bounds() {
                Ok(self.index() as u8)
            } else {
                Err(ErrorView::OutsideBounds(*self))
            }),
            r matches Ok(i) ==> on_board(i as int) && i as int == self.index(),
    {
        match self.check_ouside_bounds() {
            Ok(()) => Ok(self.rank * 8 + self.file),
            Err(e) => Err(e),
        }
    }

    pub fn check_ouside_bounds(&self) -> (r: Result<(), Error>)
        ensures
            result_view(r) == (if self.in_bounds() {
                Ok(())
            } else {
                Err(ErrorView::OutsideBounds(*self))
            }),
    {
        if self.file > 7 || self.rank > 7 {
            Err(Error::OutsideBounds(*self))
        } else {
            Ok(())
        }
    }
}

/// The file named by a letter `a` to `h`.
pub open spec fn file_of_char(c: char) -> Option<u8> {
    match c {
        'a' => Some(0u8),
        'b' => Some(1u8),
        'c' => Some(2u8),
        'd' => Some(3u8),
        'e' => Some(4u8),
        'f' => Some(5u8),
        'g' => Some(6u8),
        'h' => Some(7u8),
        _ => None,
    }
}

/// The rank named by a digit `1` to `8`: rank 0 is the eighth rank.
pub open spec fn rank_of_char(c: char) -> Option<u8> {
    match c {
        '1' => Some(7u8),
        '2' => Some(6u8),
        '3' => Some(5u8),
        '4' => Some(4u8),
        '5' => Some(3u8),
        '6' => Some(2u8),
        '7' => Some(1u8),
        '8' => Some(0u8),
        _ => None,
    }
}

/// Reads an algebraic square such as `e4` from the first two characters of
/// `s`; whatever follows them is not looked at.
pub open spec fn parse_square(s: Seq<char>) -> Result<Position, ErrorView> {
    if s.len() < 1 {
        Err(ErrorView::InvalidPosition(None))
    } else if file_of_char(s[0]) is None {
        Err(ErrorView::InvalidPosition(Some(s[0])))
    } else if s.len() < 2 {
        Err(ErrorView::InvalidPosition(None))
    } else if rank_of_char(s[1]) is None {
        Err(ErrorView::InvalidPosition(Some(s[1])))
    } else {
        Ok(Position { file: file_of_char(s[0])->0, rank: rank_of_char(s[1])->0 })
    }
}

fn file_from_char(c: char) -> (r: Option<u8>)
    ensures
        r == file_of_char(c),
{
    match c {
        'a' => Some(0),
        'b' => Some(1),
        'c' => Some(2),
        'd' => Some(3),
        'e' => Some(4),
        'f' => Some(5),
        'g' => Some(6),
        'h' => Some(7),
        _ => None,
    }
}

fn rank_from_char(c: char) -> (r: Option<u8>)
    ensures
        r == rank_of_char(c),
{
    match c {
        '1' => Some(7),
        '2' => Some(6),
        '3' => Some(5),
        '4' => Some(4),
        '5' => Some(3),
        '6' => Some(2),
        '7' => Some(1),
        '8' => Some(0),
        _ => None,
    }
}

impl Position {
    /// Parses an algebraic square (`a1` to `h8`) from the start of `s`.
    pub fn from_algebraic(s: &str) -> (r: Result<Position, Error>)
        ensures
            result_view(r) == parse_square(s@),
            r matches Ok(p) ==> p.in_bounds(),
    {
        let n = s.unicode_len();
        if n < 1 {
            return Err(Error::InvalidPosition(None));
        }
        let c0 = s.get_char(0);
        let file = match file_from_char(c0) {
            Some(f) => f,
            None => {
                return Err(Error::InvalidPosition(Some(c0)));
            },
        };
        if n < 2 {
            return Err(Error::InvalidPosition(None));
        }
        let c1 = s.get_char(1);
        match rank_from_char(c1) {
            Some(rank) => Ok(Position::new(file, rank)),
            None => Err(Error::InvalidPosition(Some(c1))),
        }
    }
}

impl std::str::FromStr for Position {
    type Err = Error;

    fn from_str(s: &str) -> Result<Position, Error> {
        Position::from_algebraic(s)
    }
}

/// Shorthand for [`Position::new`].
pub fn pos(file: u8, rank: u8) -> (r: Position)
    ensures
        r == (Position { file, rank }),
{
    Position::new(file, rank)
}

} // verus!
