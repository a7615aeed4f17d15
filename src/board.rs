use vstd::prelude::*;

use crate::moves::{Move, MoveFlag, Side};
use crate::piece::{Color, Piece};
use crate::position::on_board;
use crate::rules::{all_moves, first_ending_on, moves_upto, piece_moves};
use crate::tables::MoveTables;

verus! {

/// A position: the 64 squares, the side to move, the en-passant target and
/// the castling rights (indexed by color, then by side).
#[derive(Clone, Copy, Debug)]
pub struct Board {
    pub turn: Color,
    pub grid: [Option<Piece>; 64],
    pub en_passant_square: Option<u8>,
    pub castle_rights: [[bool; 2]; 2],
}

/// The mathematical value of a [`Board`].
pub struct BoardView {
    pub grid: Seq<Option<Piece>>,
    pub turn: Color,
    pub en_passant: Option<u8>,
    pub castle: Seq<Seq<bool>>,
}

impl View for Board {
    type V = BoardView;

    open spec fn view(&self) -> BoardView {
        BoardView {
            grid: self.grid@,
            turn: self.turn,
            en_passant: self.en_passant_square,
            castle: self.castle_rights@.map_values(|r: [bool; 2]| r@),
        }
    }
}

/// The square in the corner of `c`'s home rank on side `s`, where its rook
/// starts.
pub open spec fn corner(c: Color, s: Side) -> int {
    match s {
        Side::Queen => c.home_base(),
        Side::King => c.home_base() + 7,
    }
}

/// The square that the rook castling on side `s` comes to.
pub open spec fn castled_rook_square(c: Color, s: Side) -> int {
    match s {
        Side::Queen => c.home_base() + 3,
        Side::King => c.home_base() + 5,
    }
}

/// The square that the king castling on side `s` comes to.
pub open spec fn castled_king_square(c: Color, s: Side) -> int {
    match s {
        Side::Queen => c.home_base() + 2,
        Side::King => c.home_base() + 6,
    }
}

/// The square behind `sq` as seen by a pawn of color `c`.
pub open spec fn behind(sq: int, c: Color) -> int {
    sq - c.forward()
}

/// Whether moving `piece` from `start` to `end`, where `captured` stood,
/// costs color `c` its right to castle on side `s`: its king moves, its rook
/// leaves that corner, or its rook is taken in that corner.
pub open spec fn loses_right(
    start: int,
    end: int,
    piece: Option<Piece>,
    captured: Option<Piece>,
    c: Color,
    s: Side,
) -> bool {
    ||| piece == Some(Piece::King(c))
    ||| piece == Some(Piece::Rook(c)) && start == corner(c, s)
    ||| captured == Some(Piece::Rook(c)) && end == corner(c, s)
}

impl BoardView {
    /// The piece on square `sq`, or `None` off the board.
    pub open spec fn piece_at(self, sq: int) -> Option<Piece> {
        if on_board(sq) {
            self.grid[sq]
        } else {
            None
        }
    }

    pub open spec fn can_castle(self, c: Color, s: Side) -> bool {
        self.castle[c.index()][s.index()]
    }

    /// What a move's flag does to the squares once the moving piece, of
    /// color `c`, stands on the end square `end`.
    pub open spec fn flag_effect(grid: Seq<Option<Piece>>, flag: MoveFlag, end: int, c: Color) -> Seq<
        Option<Piece>,
    > {
        match flag {
            MoveFlag::EnPassantCapture => if on_board(behind(end, c)) {
                grid.update(behind(end, c), None)
            } else {
                grid
            },
            MoveFlag::Castle(s) => grid.update(castled_rook_square(c, s), grid[corner(c, s)]).update(
                corner(c, s),
                None,
            ),
            MoveFlag::Promote(p) => grid.update(end, Some(p.with_color(c))),
            _ => grid,
        }
    }

    /// The position after playing `m`: the piece on the start square goes to
    /// the end square, replacing what stood there, then the flag takes effect,
    /// the castling rights are updated and the side to move changes.
    pub open spec fn after(self, m: Move) -> BoardView {
        let start = m.start_index as int;
        let end = m.end_index as int;
        let piece = self.grid[start];
        let captured = self.grid[end];
        let moved = self.grid.update(start, None).update(end, piece);
        BoardView {
            grid: match piece {
                Some(p) => BoardView::flag_effect(moved, m.flag, end, p.color()),
                None => moved,
            },
            turn: self.turn.opposite(),
            en_passant: match (piece, m.flag) {
                (Some(_), MoveFlag::PawnDoublePush(sq)) => Some(sq),
                _ => None,
            },
            castle: Seq::new(
                2,
                |ci: int|
                    Seq::new(
                        2,
                        |si: int|
                            self.castle[ci][si] && !loses_right(
                                start,
                                end,
                                piece,
                                captured,
                                Color::from_index(ci),
                                Side::from_index(si),
                            ),
                    ),
            ),
        }
    }
}

impl Board {
    /// A board with no pieces, White to move, no castling rights and no
    /// en-passant target.
    pub fn empty() -> (r: Board)
        ensures
            forall|i: int| 0 <= i < 64 ==> #[trigger] r@.grid[i] is None,
            r@.turn == Color::White,
            r@.en_passant is None,
            forall|c: Color, s: Side| !#[trigger] r@.can_castle(c, s),
    {
        let r = Board {
            grid: [None; 64],
            turn: Color::White,
            en_passant_square: None,
            castle_rights: [[false; 2]; 2],
        };
        assert forall|c: Color, s: Side| !#[trigger] r@.can_castle(c, s) by {
            assert(r.castle_rights@[c.index()]@[s.index()] == false);
        }
        r
    }
}

fn corner_square(c: Color, s: Side) -> (r: usize)
    ensures
        r == corner(c, s),
        on_board(r as int),
{
    let base: usize = match c {
        Color::White => 56,
        Color::Black => 0,
    };
    match s {
        Side::Queen => base,
        Side::King => base + 7,
    }
}

fn castled_rook_index(c: Color, s: Side) -> (r: usize)
    ensures
        r == castled_rook_square(c, s),
        on_board(r as int),
{
    let base: usize = match c {
        Color::White => 56,
        Color::Black => 0,
    };
    match s {
        Side::Queen => base + 3,
        Side::King => base + 5,
    }
}

fn right_is_lost(
    start: usize,
    end: usize,
    piece: Option<Piece>,
    captured: Option<Piece>,
    c: Color,
    s: Side,
) -> (r: bool)
    ensures
        r == loses_right(start as int, end as int, piece, captured, c, s),
{
    let corner_index = corner_square(c, s);
    let king_moved = match piece {
        Some(Piece::King(pc)) => pc == c,
        _ => false,
    };
    let rook_left = match piece {
        Some(Piece::Rook(pc)) => pc == c && start == corner_index,
        _ => false,
    };
    let rook_taken = match captured {
        Some(Piece::Rook(pc)) => pc == c && end == corner_index,
        _ => false,
    };
    king_moved || rook_left || rook_taken
}

/// The castling rights that remain once `piece` has gone from `start` to
/// `end`, where `captured` stood.
fn rights_after(
    rights: [[bool; 2]; 2],
    start: usize,
    end: usize,
    piece: Option<Piece>,
    captured: Option<Piece>,
) -> (r: [[bool; 2]; 2])
    ensures
        r@.map_values(|row: [bool; 2]| row@) == Seq::new(
            2,
            |ci: int|
                Seq::new(
                    2,
                    |si: int|
                        rights@[ci]@[si] && !loses_right(
                            start as int,
                            end as int,
                            piece,
                            captured,
                            Color::from_index(ci),
                            Side::from_index(si),
                        ),
                ),
        ),
{
    let white_queen = rights[0][0] && !right_is_lost(
        start,
        end,
        piece,
        captured,
        Color::White,
        Side::Queen,
    );
    let white_king = rights[0][1] && !right_is_lost(
        start,
        end,
        piece,
        captured,
        Color::White,
        Side::King,
    );
    let black_queen = rights[1][0] && !right_is_lost(
        start,
        end,
        piece,
        captured,
        Color::Black,
        Side::Queen,
    );
    let black_king = rights[1][1] && !right_is_lost(
        start,
        end,
        piece,
        captured,
        Color::Black,
        Side::King,
    );
    let r = [[white_queen, white_king], [black_queen, black_king]];
    assert(r@.map_values(|row: [bool; 2]| row@) =~~= Seq::new(
        2,
        |ci: int|
            Seq::new(
                2,
                |si: int|
                    rights@[ci]@[si] && !loses_right(
                        start as int,
                        end as int,
                        piece,
                        captured,
                        Color::from_index(ci),
                        Side::from_index(si),
                    ),
            ),
    ));
    r
}

/// Carries out what the flag of a move asks for, once the moving piece, of
/// color `c`, stands on `end`.
fn apply_flag(grid: &mut [Option<Piece>; 64], flag: MoveFlag, end: usize, c: Color)
    requires
        on_board(end as int),
    ensures
        final(grid)@ == BoardView::flag_effect(old(grid)@, flag, end as int, c),
{
    match flag {
        MoveFlag::EnPassantCapture => {
            let back: i32 = match c {
                Color::White => end as i32 + 8,
                Color::Black => end as i32 - 8,
            };
            if 0 <= back && back < 64 {
                grid[back as usize] = None;
            }
        },
        MoveFlag::Castle(s) => {
            let from = corner_square(c, s);
            let to = castled_rook_index(c, s);
            let rook = grid[from];
            grid[to] = rook;
            grid[from] = None;
        },
        MoveFlag::Promote(kind) => {
            grid[end] = Some(kind.recolored(c));
        },
        _ => {},
    }
}

impl Board {
    /// Plays `m` without checking that it is legal: see [`BoardView::after`].
    pub fn make_move(&mut self, m: Move)
        requires
            on_board(m.start_index as int),
            on_board(m.end_index as int),
        ensures
            final(self)@ == old(self)@.after(m),
    {
        let ghost before = self@;
        let start = m.start_index as usize;
        let end = m.end_index as usize;
        let piece = self.grid[start];
        let captured = self.grid[end];
        self.grid[start] = None;
        self.grid[end] = piece;
        self.en_passant_square = None;
        if let Some(p) = piece {
            let c = *p.get_color();
            if let MoveFlag::PawnDoublePush(sq) = m.flag {
                self.en_passant_square = Some(sq);
            }
            apply_flag(&mut self.grid, m.flag, end, c);
        }
        self.castle_rights = rights_after(self.castle_rights, start, end, piece, captured);
        self.turn = match self.turn {
            Color::White => Color::Black,
            Color::Black => Color::White,
        };
        let ghost expected = before.after(m);
        assert(self@.grid =~= expected.grid);
        assert(self@.castle =~~= expected.castle);
        assert(self@.en_passant == expected.en_passant);
    }

    /// Whether `m` takes something: its end square is occupied or is the
    /// en-passant target.
    pub fn move_is_capture(&self, m: Move) -> (r: bool)
        ensures
            r == ((on_board(m.end_index as int) && self@.grid[m.end_index as int] is Some)
                || self@.en_passant == Some(m.end_index)),
    {
        let end = m.end_index as usize;
        let occupied = end < 64 && self.grid[end].is_some();
        let on_target = match self.en_passant_square {
            Some(sq) => sq == m.end_index,
            None => false,
        };
        occupied || on_target
    }
}

impl Board {
    /// All pseudo-legal moves of the side to move, square by square.
    pub fn get_all_legal_moves(&self) -> (r: Vec<Move>)
        ensures
            r@ == all_moves(self@),
    {
        let tables = MoveTables::new();
        let mut moves: Vec<Move> = Vec::new();
        let mut i: usize = 0;
        while i < 64
            invariant
                i <= 64,
                tables.wf(),
                moves@ == moves_upto(self@, i as int),
            decreases 64 - i,
        {
            let ghost before = moves@;
            if let Some(piece) = self.grid[i] {
                piece.add_moves_with(&tables, i as u8, &mut moves, self);
            }
            assert(moves@ =~= moves_upto(self@, i + 1)) by {
                assert(moves_upto(self@, i + 1) == before + match self@.grid[i as int] {
                    Some(p) => piece_moves(self@, i as int, p),
                    None => Seq::<Move>::empty(),
                });
            }
            i += 1;
        }
        moves
    }

    /// Resolves `test_move` against the moves of the piece on its start
    /// square: the first of them that ends on the same square, carrying the
    /// generated flag, or `None`.
    pub fn as_legal_move(&self, test_move: Move) -> (r: Option<Move>)
        ensures
            r == (match self@.piece_at(test_move.start_index as int) {
                Some(p) => first_ending_on(
                    piece_moves(self@, test_move.start_index as int, p),
                    test_move.end_index,
                ),
                None => None,
            }),
    {
        if test_move.start_index >= 64 {
            return None;
        }
        match self.grid[test_move.start_index as usize] {
            Some(piece) => {
                let legal_moves = piece.get_legal_moves(test_move.start_index, self);
                let ghost ms = legal_moves@;
                let mut j: usize = 0;
                assert(ms.skip(0) =~= ms);
                while j < legal_moves.len()
                    invariant
                        ms == legal_moves@,
                        ms == piece_moves(self@, test_move.start_index as int, piece),
                        self@.piece_at(test_move.start_index as int) == Some(piece),
                        j <= ms.len(),
                        first_ending_on(ms, test_move.end_index) == first_ending_on(
                            ms.skip(j as int),
                            test_move.end_index,
                        ),
                    decreases ms.len() - j,
                {
                    assert(ms.skip(j as int)[0] == ms[j as int]);
                    if legal_moves[j].end_index == test_move.end_index {
                        assert(first_ending_on(ms.skip(j as int), test_move.end_index) == Some(
                            ms[j as int],
                        ));
                        return Some(legal_moves[j]);
                    }
                    assert(ms.skip(j as int).drop_first() =~= ms.skip(j + 1));
                    j += 1;
                }
                assert(ms.skip(j as int) =~= Seq::<Move>::empty());
                None
            },
            None => None,
        }
    }
}

/// The piece that starts on `file` of `c`'s back rank.
pub open spec fn back_rank_piece(file: int, c: Color) -> Piece {
    if file == 0 || file == 7 {
        Piece::Rook(c)
    } else if file == 1 || file == 6 {
        Piece::Knight(c)
    } else if file == 2 || file == 5 {
        Piece::Bishop(c)
    } else if file == 3 {
        Piece::Queen(c)
    } else {
        Piece::King(c)
    }
}

/// What stands on square `sq` at the start of a game.
pub open spec fn start_square(sq: int) -> Option<Piece> {
    let rank = sq / 8;
    if rank == 0 {
        Some(back_rank_piece(sq % 8, Color::Black))
    } else if rank == 1 {
        Some(Piece::Pawn(Color::Black))
    } else if rank == 6 {
        Some(Piece::Pawn(Color::White))
    } else if rank == 7 {
        Some(back_rank_piece(sq % 8, Color::White))
    } else {
        None
    }
}

/// The standard starting position: White to move, all castling rights, no
/// en-passant target.
pub open spec fn start_view() -> BoardView {
    BoardView {
        grid: Seq::new(64, |sq: int| start_square(sq)),
        turn: Color::White,
        en_passant: None,
        castle: seq![seq![true, true], seq![true, true]],
    }
}

fn back_rank_at(file: usize, c: Color) -> (r: Piece)
    ensures
        r == back_rank_piece(file as int, c),
{
    if file == 0 || file == 7 {
        Piece::Rook(c)
    } else if file == 1 || file == 6 {
        Piece::Knight(c)
    } else if file == 2 || file == 5 {
        Piece::Bishop(c)
    } else if file == 3 {
        Piece::Queen(c)
    } else {
        Piece::King(c)
    }
}

impl Default for Board {
    /// The standard starting position.
    fn default() -> (r: Board)
        ensures
            r@ == start_view(),
    {
        let mut grid: [Option<Piece>; 64] = [None; 64];
        let mut sq: usize = 0;
        while sq < 64
            invariant
                sq <= 64,
                forall|i: int| 0 <= i < sq ==> #[trigger] grid@[i] == start_square(i),
            decreases 64 - sq,
        {
            let rank = sq / 8;
            let file = sq % 8;
            let piece = if rank == 0 {
                Some(back_rank_at(file, Color::Black))
            } else if rank == 1 {
                Some(Piece::Pawn(Color::Black))
            } else if rank == 6 {
                Some(Piece::Pawn(Color::White))
            } else if rank == 7 {
                Some(back_rank_at(file, Color::White))
            } else {
                None
            };
            grid[sq] = piece;
            sq += 1;
        }
        let r = Board {
            turn: Color::White,
            grid,
            en_passant_square: None,
            castle_rights: [[true; 2]; 2],
        };
        assert(r@.grid =~= start_view().grid);
        assert(r@.castle =~~= start_view().castle);
        r
    }
}

} // verus!
