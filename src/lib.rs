//! A chess rules engine: positions read from FEN, pseudo-legal move
//! generation for every piece, and move application with the bookkeeping of
//! double pushes, en passant, castling and promotion.

pub mod board;
pub mod error;
pub mod fen;
pub mod laws;
pub mod moves;
pub mod piece;
pub mod position;
pub mod rules;
pub mod tables;
pub mod text;

pub use board::{Board, BoardView};
pub use error::{Error, ErrorView};
pub use moves::{Move, MoveFlag, Side};
pub use piece::{Color, Piece};
pub use position::{pos, Position};
