use vstd::prelude::*;

use crate::board::Board;
use crate::moves::{plain_move, Move, MoveFlag, Side};
use crate::position::on_board;
use crate::rules::{
    castle_move, friendly, king_steps, knight_steps, pawn_arrivals, pawn_captures, pawn_moves,
    pawn_pushes, piece_moves, promotions, ray_moves, slide_moves,
};
use crate::tables::{
    dir_offset, direction_offset, edge_dist, knight_offsets, lemma_knight_offsets_on_board,
    lemma_ray_on_board, MoveTables,
};

verus! {

/// The two sides of a game.
#[derive(Clone, Copy, Debug, PartialEq, Eq, Structural)]
pub enum Color {
    White,
    Black,
}

impl Color {
    pub open spec fn from_index(i: int) -> Color {
        if i == 0 {
            Color::White
        } else {
            Color::Black
        }
    }

    /// Linear index of the first square of the color's home rank.
    pub open spec fn home_base(self) -> int {
        match self {
            Color::White => 56,
            Color::Black => 0,
        }
    }

    /// Linear index step of one pawn move forward.
    pub open spec fn forward(self) -> int {
        match self {
            Color::White => -8,
            Color::Black => 8,
        }
    }

    /// Index of the color in per-color arrays: White is 0, Black is 1.
    pub open spec fn index(self) -> int {
        match self {
            Color::White => 0,
            Color::Black => 1,
        }
    }

    pub open spec fn opposite(self) -> Color {
        match self {
            Color::White => Color::Black,
            Color::Black => Color::White,
        }
    }

    pub fn as_index(&self) -> (r: usize)
        ensures
            r == self.index(),
    {
        match self {
            Color::White => 0,
            Color::Black => 1,
        }
    }
}

/// A chess piece: its kind together with its color.
#[derive(Clone, Copy, Debug, PartialEq, Eq, Structural)]
pub enum Piece {
    Pawn(Color),
    Knight(Color),
    Bishop(Color),
    Rook(Color),
    Queen(Color),
    King(Color),
}

impl Piece {
    pub open spec fn color(self) -> Color {
        match self {
            Piece::Pawn(c) => c,
            Piece::Knight(c) => c,
            Piece::Bishop(c) => c,
            Piece::Rook(c) => c,
            Piece::Queen(c) => c,
            Piece::King(c) => c,
        }
    }

    /// A piece of the same kind in color `c`.
    pub open spec fn with_color(self, c: Color) -> Piece {
        match self {
            Piece::Pawn(_) => Piece::Pawn(c),
            Piece::Knight(_) => Piece::Knight(c),
            Piece::Bishop(_) => Piece::Bishop(c),
            Piece::Rook(_) => Piece::Rook(c),
            Piece::Queen(_) => Piece::Queen(c),
            Piece::King(_) => Piece::King(c),
        }
    }

    pub fn recolored(&self, c: Color) -> (r: Piece)
        ensures
            r == self.with_color(c),
    {
        match self {
            Piece::Pawn(_) => Piece::Pawn(c),
            Piece::Knight(_) => Piece::Knight(c),
            Piece::Bishop(_) => Piece::Bishop(c),
            Piece::Rook(_) => Piece::Rook(c),
            Piece::Queen(_) => Piece::Queen(c),
            Piece::King(_) => Piece::King(c),
        }
    }

    /// The chess glyph of the piece.
    pub open spec fn glyph(self) -> char {
        match self {
            Piece::King(Color::White) => '♚',
            Piece::Queen(Color::White) => '♛',
            Piece::Rook(Color::White) => '♜',
            Piece::Knight(Color::White) => '♞',
            Piece::Bishop(Color::White) => '♝',
            Piece::Pawn(Color::White) => '♟',
            Piece::King(Color::Black) => '♔',
            Piece::Queen(Color::Black) => '♕',
            Piece::Rook(Color::Black) => '♖',
            Piece::Knight(Color::Black) => '♘',
            Piece::Bishop(Color::Black) => '♗',
            Piece::Pawn(Color::Black) => '♙',
        }
    }

    pub fn get_char(&self) -> (r: char)
        ensures
            r == self.glyph(),
    {
        match self {
            Piece::King(Color::White) => '♚',
            Piece::Queen(Color::White) => '♛',
            Piece::Rook(Color::White) => '♜',
            Piece::Knight(Color::White) => '♞',
            Piece::Bishop(Color::White) => '♝',
            Piece::Pawn(Color::White) => '♟',
            Piece::King(Color::Black) => '♔',
            Piece::Queen(Color::Black) => '♕',
            Piece::Rook(Color::Black) => '♖',
            Piece::Knight(Color::Black) => '♘',
            Piece::Bishop(Color::Black) => '♗',
            Piece::Pawn(Color::Black) => '♙',
        }
    }

    pub fn get_color(&self) -> (r: &Color)
        ensures
            *r == self.color(),
    {
        match self {
            Piece::Pawn(c) | Piece::Knight(c) | Piece::Bishop(c) | Piece::Rook(c) | Piece::Queen(c)
            | Piece::King(c) => c,
        }
    }
}


/// Appends the moves along one ray of a sliding piece.
fn add_ray_moves(
    moves: &mut Vec<Move>,
    piece_index: u8,
    piece_color: Color,
    board: &Board,
    tables: &MoveTables,
    dir_index: usize,
)
    requires
        on_board(piece_index as int),
        tables.wf(),
        dir_index < 8,
    ensures
        final(moves)@ == old(moves)@ + ray_moves(
            board@,
            piece_index as int,
            piece_color,
            dir_index as int,
            0,
        ),
{
    let ghost b = board@;
    let ghost from = piece_index as int;
    let ghost d = dir_index as int;
    let offset = direction_offset(dir_index);
    let steps = tables.edges[piece_index as usize][dir_index];
    let mut end_index: i32 = piece_index as i32;
    let mut k: i8 = 0;
    let mut blocked = false;
    assert(moves@ =~= moves@ + Seq::<Move>::empty());
    while k < steps && !blocked
        invariant
            from == piece_index as int,
            d == dir_index as int,
            on_board(from),
            0 <= d < 8,
            steps == edge_dist(from, d),
            0 <= k <= steps,
            !blocked ==> end_index == from + k * dir_offset(d),
            b == board@,
            offset == dir_offset(d),
            old(moves)@ + ray_moves(b, from, piece_color, d, 0) == moves@ + (if blocked {
                Seq::empty()
            } else {
                ray_moves(b, from, piece_color, d, k as int)
            }),
        decreases steps - k + (if blocked {
            0int
        } else {
            1int
        }),
    {
        proof {
            lemma_ray_on_board(from, d, k + 1);
        }
        end_index = end_index + offset as i32;
        assert(end_index == from + (k + 1) * dir_offset(d)) by (nonlinear_arith)
            requires
                end_index == from + k * dir_offset(d) + dir_offset(d),
        ;
        let ghost rest = ray_moves(b, from, piece_color, d, k + 1);
        assert(ray_moves(b, from, piece_color, d, k as int) == match b.grid[end_index as int] {
            None => seq![plain_move(from, end_index as int)] + rest,
            Some(p) => if p.color() != piece_color {
                seq![plain_move(from, end_index as int)]
            } else {
                Seq::empty()
            },
        });
        let mv = Move::new(piece_index, end_index as u8);
        match board.grid[end_index as usize] {
            Some(end_piece) => {
                if *end_piece.get_color() != piece_color {
                    moves.push(mv);
                }
                blocked = true;
                assert(old(moves)@ + ray_moves(b, from, piece_color, d, 0) =~= moves@ + Seq::<
                    Move,
                >::empty());
            },
            None => {
                moves.push(mv);
                k = k + 1;
                assert(old(moves)@ + ray_moves(b, from, piece_color, d, 0) =~= moves@ + rest);
            },
        }
    }
}

/// Appends the moves of a sliding piece along the directions from
/// `dir_index_start` up to, not including, `dir_index_end`.
fn handle_sliding_piece(
    moves: &mut Vec<Move>,
    piece_index: u8,
    piece_color: Color,
    board: &Board,
    tables: &MoveTables,
    dir_index_start: usize,
    dir_index_end: usize,
)
    requires
        on_board(piece_index as int),
        tables.wf(),
        dir_index_start <= dir_index_end <= 8,
    ensures
        final(moves)@ == old(moves)@ + slide_moves(
            board@,
            piece_index as int,
            piece_color,
            dir_index_start as int,
            dir_index_end as int,
        ),
{
    let ghost b = board@;
    let ghost from = piece_index as int;
    let ghost hi = dir_index_end as int;
    let mut dir_index = dir_index_start;
    assert(moves@ =~= moves@ + Seq::<Move>::empty());
    while dir_index < dir_index_end
        invariant
            from == piece_index as int,
            hi == dir_index_end as int,
            on_board(from),
            tables.wf(),
            dir_index_start <= dir_index <= dir_index_end <= 8,
            b == board@,
            old(moves)@ + slide_moves(b, from, piece_color, dir_index_start as int, hi) == moves@
                + slide_moves(b, from, piece_color, dir_index as int, hi),
        decreases dir_index_end - dir_index,
    {
        let ghost before = moves@;
        add_ray_moves(moves, piece_index, piece_color, board, tables, dir_index);
        assert(before + slide_moves(b, from, piece_color, dir_index as int, hi) =~= moves@
            + slide_moves(b, from, piece_color, dir_index + 1, hi));
        dir_index += 1;
    }
}

/// Whether the square `sq` holds a piece of color `c`.
fn holds_friend(board: &Board, sq: usize, c: Color) -> (r: bool)
    requires
        on_board(sq as int),
    ensures
        r == friendly(board@, sq as int, c),
{
    match board.grid[sq] {
        Some(p) => *p.get_color() == c,
        None => false,
    }
}

/// Appends the one-step king moves and the castling moves.
fn add_king_moves(
    moves: &mut Vec<Move>,
    piece_index: u8,
    piece_color: Color,
    board: &Board,
    tables: &MoveTables,
)
    requires
        on_board(piece_index as int),
        tables.wf(),
    ensures
        final(moves)@ == old(moves)@ + king_steps(board@, piece_index as int, piece_color, 8)
            + castle_move(board@, piece_index as int, piece_color, Side::Queen) + castle_move(
            board@,
            piece_index as int,
            piece_color,
            Side::King,
        ),
{
    let ghost b = board@;
    let ghost from = piece_index as int;
    let mut dir_index: usize = 0;
    assert(moves@ =~= old(moves)@ + king_steps(b, from, piece_color, 0));
    while dir_index < 8
        invariant
            from == piece_index as int,
            on_board(from),
            tables.wf(),
            dir_index <= 8,
            b == board@,
            moves@ =~= old(moves)@ + king_steps(b, from, piece_color, dir_index as int),
        decreases 8 - dir_index,
    {
        if tables.edges[piece_index as usize][dir_index] >= 1 {
            proof {
                lemma_ray_on_board(from, dir_index as int, 1);
            }
            let end_index = (piece_index as i32 + direction_offset(dir_index) as i32) as usize;
            if !holds_friend(board, end_index, piece_color) {
                moves.push(Move::new(piece_index, end_index as u8));
            }
        }
        dir_index += 1;
    }
    let first_rank_index: u8 = match piece_color {
        Color::White => 56,
        Color::Black => 0,
    };
    if board.castle_rights[piece_color.as_index()][Side::Queen.as_index()] {
        moves.push(Move::new(piece_index, first_rank_index + 2).flag(MoveFlag::Castle(Side::Queen)));
    }
    assert(moves@ =~= old(moves)@ + king_steps(b, from, piece_color, 8) + castle_move(
        b,
        from,
        piece_color,
        Side::Queen,
    ));
    if board.castle_rights[piece_color.as_index()][Side::King.as_index()] {
        moves.push(Move::new(piece_index, first_rank_index + 6).flag(MoveFlag::Castle(Side::King)));
    }
    assert(moves@ =~= old(moves)@ + king_steps(b, from, piece_color, 8) + castle_move(
        b,
        from,
        piece_color,
        Side::Queen,
    ) + castle_move(b, from, piece_color, Side::King));
}

/// Appends the knight moves: each allowed jump that does not land on a
/// friendly piece.
fn add_knight_moves(
    moves: &mut Vec<Move>,
    piece_index: u8,
    piece_color: Color,
    board: &Board,
    tables: &MoveTables,
)
    requires
        on_board(piece_index as int),
        tables.wf(),
    ensures
        final(moves)@ == old(moves)@ + knight_steps(
            board@,
            piece_index as int,
            piece_color,
            knight_offsets(piece_index as int),
            knight_offsets(piece_index as int).len() as int,
        ),
{
    let ghost b = board@;
    let ghost from = piece_index as int;
    let jumps = &tables.knights[piece_index as usize];
    let ghost offs = jumps@;
    assert(offs == knight_offsets(from));
    let mut j: usize = 0;
    assert(moves@ =~= old(moves)@ + knight_steps(b, from, piece_color, offs, 0));
    while j < jumps.len()
        invariant
            from == piece_index as int,
            on_board(from),
            offs == jumps@,
            offs == knight_offsets(from),
            j <= offs.len(),
            b == board@,
            moves@ =~= old(moves)@ + knight_steps(b, from, piece_color, offs, j as int),
        decreases offs.len() - j,
    {
        proof {
            lemma_knight_offsets_on_board(from, 8, j as int);
        }
        let end_index = (piece_index as i32 + jumps[j] as i32) as usize;
        if !holds_friend(board, end_index, piece_color) {
            moves.push(Move::new(piece_index, end_index as u8));
        }
        j += 1;
    }
}

/// Appends the four promotions of a pawn going from `piece_index` to
/// `end_index`: to a queen, a rook, a bishop and a knight.
fn add_promote_moves(moves: &mut Vec<Move>, piece_index: u8, piece_color: Color, end_index: u8)
    ensures
        final(moves)@ == old(moves)@ + promotions(
            piece_index as int,
            end_index as int,
            piece_color,
        ),
{
    let base_move = Move::new(piece_index, end_index);
    moves.push(base_move.flag(MoveFlag::Promote(Piece::Queen(piece_color))));
    moves.push(base_move.flag(MoveFlag::Promote(Piece::Rook(piece_color))));
    moves.push(base_move.flag(MoveFlag::Promote(Piece::Bishop(piece_color))));
    moves.push(base_move.flag(MoveFlag::Promote(Piece::Knight(piece_color))));
    assert(moves@ =~= old(moves)@ + promotions(piece_index as int, end_index as int, piece_color));
}

/// Appends a pawn's move from `piece_index` to `end_index`, fanned out into
/// promotions on the last rank.
fn add_pawn_arrival(moves: &mut Vec<Move>, piece_index: u8, piece_color: Color, end_index: u8)
    ensures
        final(moves)@ == old(moves)@ + pawn_arrivals(
            piece_index as int,
            end_index as int,
            piece_color,
        ),
{
    let last_rank: u8 = match piece_color {
        Color::White => 0,
        Color::Black => 7,
    };
    if end_index / 8 == last_rank {
        add_promote_moves(moves, piece_index, piece_color, end_index);
    } else {
        moves.push(Move::new(piece_index, end_index));
        assert(moves@ =~= old(moves)@ + pawn_arrivals(
            piece_index as int,
            end_index as int,
            piece_color,
        ));
    }
}

/// Appends a pawn's diagonal moves in direction `dir_index`.
fn add_pawn_captures(
    moves: &mut Vec<Move>,
    piece_index: u8,
    piece_color: Color,
    board: &Board,
    tables: &MoveTables,
    dir_index: usize,
)
    requires
        on_board(piece_index as int),
        tables.wf(),
        dir_index < 8,
    ensures
        final(moves)@ == old(moves)@ + pawn_captures(
            board@,
            piece_index as int,
            piece_color,
            dir_index as int,
        ),
{
    let ghost from = piece_index as int;
    if tables.edges[piece_index as usize][dir_index] >= 1 {
        proof {
            lemma_ray_on_board(from, dir_index as int, 1);
        }
        let end_index = (piece_index as i32 + direction_offset(dir_index) as i32) as u8;
        let enemy = match board.grid[end_index as usize] {
            Some(end_piece) => *end_piece.get_color() != piece_color,
            None => false,
        };
        if enemy {
            add_pawn_arrival(moves, piece_index, piece_color, end_index);
        }
        let on_target = match board.en_passant_square {
            Some(sq) => sq == end_index,
            None => false,
        };
        if on_target {
            moves.push(Move::new(piece_index, end_index).flag(MoveFlag::EnPassantCapture));
        }
        assert(moves@ =~= old(moves)@ + pawn_captures(
            board@,
            piece_index as int,
            piece_color,
            dir_index as int,
        ));
    } else {
        assert(moves@ =~= old(moves)@ + pawn_captures(
            board@,
            piece_index as int,
            piece_color,
            dir_index as int,
        ));
    }
}

/// Appends a pawn's forward moves.
fn add_pawn_pushes(moves: &mut Vec<Move>, piece_index: u8, piece_color: Color, board: &Board)
    requires
        on_board(piece_index as int),
    ensures
        final(moves)@ == old(moves)@ + pawn_pushes(board@, piece_index as int, piece_color),
{
    let forward_offset: i32 = match piece_color {
        Color::White => -8,
        Color::Black => 8,
    };
    let home_rank: u8 = match piece_color {
        Color::White => 6,
        Color::Black => 1,
    };
    let one = piece_index as i32 + forward_offset;
    if 0 <= one && one < 64 && board.grid[one as usize].is_none() {
        add_pawn_arrival(moves, piece_index, piece_color, one as u8);
        let ghost single = moves@;
        if piece_index / 8 == home_rank {
            let two = one + forward_offset;
            if board.grid[two as usize].is_none() {
                moves.push(
                    Move::new(piece_index, two as u8).flag(MoveFlag::PawnDoublePush(one as u8)),
                );
                assert(moves@ =~= single.push(
                    plain_move(piece_index as int, two as int).with_flag(
                        MoveFlag::PawnDoublePush(one as u8),
                    ),
                ));
            }
        }
        assert(moves@ =~= old(moves)@ + pawn_pushes(board@, piece_index as int, piece_color));
    } else {
        assert(moves@ =~= old(moves)@ + pawn_pushes(board@, piece_index as int, piece_color));
    }
}

/// Appends the pawn moves: pushes first, then the two diagonals.
fn add_pawn_moves(
    moves: &mut Vec<Move>,
    piece_index: u8,
    piece_color: Color,
    board: &Board,
    tables: &MoveTables,
)
    requires
        on_board(piece_index as int),
        tables.wf(),
    ensures
        final(moves)@ == old(moves)@ + pawn_moves(board@, piece_index as int, piece_color),
{
    let capture_dir: usize = match piece_color {
        Color::White => 4,
        Color::Black => 6,
    };
    let ghost from = piece_index as int;
    let ghost pushes = pawn_pushes(board@, from, piece_color);
    let ghost left = pawn_captures(board@, from, piece_color, capture_dir as int);
    let ghost right = pawn_captures(board@, from, piece_color, capture_dir + 1);
    assert(pawn_moves(board@, from, piece_color) == pushes + left + right);
    add_pawn_pushes(moves, piece_index, piece_color, board);
    add_pawn_captures(moves, piece_index, piece_color, board, tables, capture_dir);
    add_pawn_captures(moves, piece_index, piece_color, board, tables, capture_dir + 1);
    assert(moves@ =~= old(moves)@ + (pushes + left + right));
}

impl Piece {
    /// Appends the pseudo-legal moves of this piece standing on `piece_index`,
    /// reading the tables given.
    pub(crate) fn add_moves_with(
        &self,
        tables: &MoveTables,
        piece_index: u8,
        moves: &mut Vec<Move>,
        board: &Board,
    )
        requires
            on_board(piece_index as int),
            tables.wf(),
        ensures
            final(moves)@ == old(moves)@ + piece_moves(board@, piece_index as int, *self),
    {
        let piece_color = *self.get_color();
        if piece_color != board.turn {
            assert(moves@ =~= old(moves)@ + piece_moves(board@, piece_index as int, *self));
            return;
        }
        match self {
            Piece::Queen(_) => handle_sliding_piece(
                moves,
                piece_index,
                piece_color,
                board,
                tables,
                0,
                8,
            ),
            Piece::Rook(_) => handle_sliding_piece(
                moves,
                piece_index,
                piece_color,
                board,
                tables,
                0,
                4,
            ),
            Piece::Bishop(_) => handle_sliding_piece(
                moves,
                piece_index,
                piece_color,
                board,
                tables,
                4,
                8,
            ),
            Piece::King(_) => add_king_moves(moves, piece_index, piece_color, board, tables),
            Piece::Knight(_) => add_knight_moves(moves, piece_index, piece_color, board, tables),
            Piece::Pawn(_) => add_pawn_moves(moves, piece_index, piece_color, board, tables),
        }
    }

    /// Appends the pseudo-legal moves of this piece standing on `piece_index`.
    /// A piece of the side not to move adds nothing.
    pub fn add_legal_moves(&self, piece_index: u8, moves: &mut Vec<Move>, board: &Board)
        requires
            on_board(piece_index as int),
        ensures
            final(moves)@ == old(moves)@ + piece_moves(board@, piece_index as int, *self),
    {
        let tables = MoveTables::new();
        self.add_moves_with(&tables, piece_index, moves, board);
    }

    /// The pseudo-legal moves of this piece standing on `piece_index`.
    pub fn get_legal_moves(&self, piece_index: u8, board: &Board) -> (r: Vec<Move>)
        requires
            on_board(piece_index as int),
        ensures
            r@ == piece_moves(board@, piece_index as int, *self),
    {
        let mut moves = Vec::new();
        self.add_legal_moves(piece_index, &mut moves, board);
        assert(moves@ =~= piece_moves(board@, piece_index as int, *self));
        moves
    }
}

} // verus!
