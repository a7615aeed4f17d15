use vstd::prelude::*;

use crate::board::{castled_king_square, BoardView};
use crate::moves::{plain_move, Move, MoveFlag, Side};
use crate::piece::{Color, Piece};
use crate::position::on_board;
use crate::tables::{dir_offset, edge_dist, knight_offsets};

verus! {

/// Square `sq` holds a piece of color `c`.
pub open spec fn friendly(b: BoardView, sq: int, c: Color) -> bool {
    match b.grid[sq] {
        Some(p) => p.color() == c,
        None => false,
    }
}

/// Square `sq` holds a piece of the other color than `c`.
pub open spec fn hostile(b: BoardView, sq: int, c: Color) -> bool {
    match b.grid[sq] {
        Some(p) => p.color() != c,
        None => false,
    }
}

/// The moves of a sliding piece along direction `d` from `from`, starting
/// after `k` steps: each empty square, then the first occupied one if it
/// holds an enemy piece.
pub open spec fn ray_moves(b: BoardView, from: int, c: Color, d: int, k: int) -> Seq<Move>
    decreases edge_dist(from, d) - k,
{
    if k < 0 || k >= edge_dist(from, d) {
        Seq::empty()
    } else {
        let to = from + (k + 1) * dir_offset(d);
        match b.grid[to] {
            None => seq![plain_move(from, to)] + ray_moves(b, from, c, d, k + 1),
            Some(p) => if p.color() != c {
                seq![plain_move(from, to)]
            } else {
                Seq::empty()
            },
        }
    }
}

/// The moves of a sliding piece along the directions `d` to `hi - 1`.
pub open spec fn slide_moves(b: BoardView, from: int, c: Color, d: int, hi: int) -> Seq<Move>
    decreases hi - d,
{
    if d >= hi {
        Seq::empty()
    } else {
        ray_moves(b, from, c, d, 0) + slide_moves(b, from, c, d + 1, hi)
    }
}

/// The one-step king moves in the first `d` directions: each step that stays
/// on the board and does not land on a friendly piece.
pub open spec fn king_steps(b: BoardView, from: int, c: Color, d: int) -> Seq<Move>
    decreases d,
{
    if d <= 0 {
        Seq::empty()
    } else {
        let to = from + dir_offset(d - 1);
        if edge_dist(from, d - 1) >= 1 && !friendly(b, to, c) {
            king_steps(b, from, c, d - 1).push(plain_move(from, to))
        } else {
            king_steps(b, from, c, d - 1)
        }
    }
}

/// A castling move, offered whenever the right is still held. Generation is
/// pseudo-legal: neither the squares between king and rook nor whether the
/// king is attacked are looked at; that is left to the caller.
pub open spec fn castle_move(b: BoardView, from: int, c: Color, s: Side) -> Seq<Move> {
    if b.can_castle(c, s) {
        seq![plain_move(from, castled_king_square(c, s)).with_flag(MoveFlag::Castle(s))]
    } else {
        Seq::empty()
    }
}

/// The knight moves for the first `j` of the jumps `offs`: each jump that
/// does not land on a friendly piece.
pub open spec fn knight_steps(b: BoardView, from: int, c: Color, offs: Seq<i8>, j: int) -> Seq<
    Move,
>
    decreases j,
{
    if j <= 0 {
        Seq::empty()
    } else {
        let to = from + offs[j - 1];
        if friendly(b, to, c) {
            knight_steps(b, from, c, offs, j - 1)
        } else {
            knight_steps(b, from, c, offs, j - 1).push(plain_move(from, to))
        }
    }
}

/// The rank index (0 at the top) on which a pawn of color `c` starts.
pub open spec fn pawn_home_rank(c: Color) -> int {
    match c {
        Color::White => 6,
        Color::Black => 1,
    }
}

/// A pawn of color `c` arriving on `sq` promotes.
pub open spec fn promotes(sq: int, c: Color) -> bool {
    match c {
        Color::White => sq / 8 == 0,
        Color::Black => sq / 8 == 7,
    }
}

/// The four promotions of a pawn going from `from` to `to`.
pub open spec fn promotions(from: int, to: int, c: Color) -> Seq<Move> {
    let m = plain_move(from, to);
    seq![
        m.with_flag(MoveFlag::Promote(Piece::Queen(c))),
        m.with_flag(MoveFlag::Promote(Piece::Rook(c))),
        m.with_flag(MoveFlag::Promote(Piece::Bishop(c))),
        m.with_flag(MoveFlag::Promote(Piece::Knight(c))),
    ]
}

/// A pawn move from `from` to `to`: four promotions on the last rank, else
/// the plain move.
pub open spec fn pawn_arrivals(from: int, to: int, c: Color) -> Seq<Move> {
    if promotes(to, c) {
        promotions(from, to, c)
    } else {
        seq![plain_move(from, to)]
    }
}

/// The forward moves of a pawn: one step onto an empty square, and from its
/// home rank two steps when both squares are empty.
pub open spec fn pawn_pushes(b: BoardView, from: int, c: Color) -> Seq<Move> {
    let one = from + c.forward();
    let two = one + c.forward();
    if !on_board(one) || b.grid[one] is Some {
        Seq::empty()
    } else if from / 8 == pawn_home_rank(c) && b.grid[two] is None {
        pawn_arrivals(from, one, c).push(
            plain_move(from, two).with_flag(MoveFlag::PawnDoublePush(one as u8)),
        )
    } else {
        pawn_arrivals(from, one, c)
    }
}

/// The first of the two diagonal directions in which a pawn of color `c`
/// captures.
pub open spec fn pawn_capture_dir(c: Color) -> int {
    match c {
        Color::White => 4,
        Color::Black => 6,
    }
}

/// The diagonal moves of a pawn in direction `d`: a capture of an enemy
/// piece, and an en-passant capture onto the target square.
pub open spec fn pawn_captures(b: BoardView, from: int, c: Color, d: int) -> Seq<Move> {
    let to = from + dir_offset(d);
    if edge_dist(from, d) < 1 {
        Seq::empty()
    } else {
        (if hostile(b, to, c) {
            pawn_arrivals(from, to, c)
        } else {
            Seq::empty()
        }) + (if b.en_passant == Some(to as u8) {
            seq![plain_move(from, to).with_flag(MoveFlag::EnPassantCapture)]
        } else {
            Seq::empty()
        })
    }
}

pub open spec fn pawn_moves(b: BoardView, from: int, c: Color) -> Seq<Move> {
    pawn_pushes(b, from, c) + pawn_captures(b, from, c, pawn_capture_dir(c)) + pawn_captures(
        b,
        from,
        c,
        pawn_capture_dir(c) + 1,
    )
}

/// The pseudo-legal moves of piece `p` standing on `from`, in the order they
/// are generated. A piece of the side not to move has none.
pub open spec fn piece_moves(b: BoardView, from: int, p: Piece) -> Seq<Move> {
    let c = p.color();
    if c != b.turn {
        Seq::empty()
    } else {
        match p {
            Piece::Queen(_) => slide_moves(b, from, c, 0, 8),
            Piece::Rook(_) => slide_moves(b, from, c, 0, 4),
            Piece::Bishop(_) => slide_moves(b, from, c, 4, 8),
            Piece::King(_) => king_steps(b, from, c, 8) + castle_move(b, from, c, Side::Queen)
                + castle_move(b, from, c, Side::King),
            Piece::Knight(_) => knight_steps(
                b,
                from,
                c,
                knight_offsets(from),
                knight_offsets(from).len() as int,
            ),
            Piece::Pawn(_) => pawn_moves(b, from, c),
        }
    }
}

/// The moves of the pieces on the first `n` squares, square by square.
pub open spec fn moves_upto(b: BoardView, n: int) -> Seq<Move>
    decreases n,
{
    if n <= 0 {
        Seq::empty()
    } else {
        moves_upto(b, n - 1) + match b.grid[n - 1] {
            Some(p) => piece_moves(b, n - 1, p),
            None => Seq::empty(),
        }
    }
}

/// All pseudo-legal moves of the side to move.
pub open spec fn all_moves(b: BoardView) -> Seq<Move> {
    moves_upto(b, 64)
}

/// The first of `ms` that ends on `end`.
pub open spec fn first_ending_on(ms: Seq<Move>, end: u8) -> Option<Move>
    decreases ms.len(),
{
    if ms.len() == 0 {
        None
    } else if ms[0].end_index == end {
        Some(ms[0])
    } else {
        first_ending_on(ms.drop_first(), end)
    }
}

} // verus!
