use vstd::prelude::*;

use crate::position::Position;

verus! {

/// Failures reported while reading positions, moves and FEN text.
#[derive(Clone, Debug, PartialEq, Eq)]
pub enum Error {
    /// A required FEN section is missing.
    InvalidFEN,
    /// A FEN section holds a character or word that is not recognised.
    InvalidFENStr(String),
    /// A position whose file or rank is beyond the board.
    OutsideBounds(Position),
    /// A malformed algebraic square: the offending character, or `None` when
    /// the text is too short.
    InvalidPosition(Option<char>),
}

/// The mathematical value of an [`Error`]: the text it carries is a sequence
/// of characters.
pub enum ErrorView {
    InvalidFEN,
    InvalidFENStr(Seq<char>),
    OutsideBounds(Position),
    InvalidPosition(Option<char>),
}

impl View for Error {
    type V = ErrorView;

    open spec fn view(&self) -> ErrorView {
        match self {
            Error::InvalidFEN => ErrorView::InvalidFEN,
            Error::InvalidFENStr(s) => ErrorView::InvalidFENStr(s@),
            Error::OutsideBounds(p) => ErrorView::OutsideBounds(*p),
            Error::InvalidPosition(c) => ErrorView::InvalidPosition(*c),
        }
    }
}

/// The value of a result whose error is an [`Error`], with the error viewed.
pub open spec fn result_view<T>(r: Result<T, Error>) -> Result<T, ErrorView> {
    match r {
        Ok(v) => Ok(v),
        Err(e) => Err(e@),
    }
}

} // verus!
