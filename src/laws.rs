use vstd::prelude::*;

use crate::board::{behind, castled_king_square, corner, Board, BoardView};
use crate::moves::{plain_move, Move, MoveFlag, Side};
use crate::piece::{Color, Piece};
use crate::position::on_board;
use crate::rules::{
    all_moves, castle_move, hostile, king_steps, knight_steps, moves_upto, pawn_arrivals,
    pawn_capture_dir, pawn_captures, pawn_home_rank, pawn_moves, pawn_pushes, piece_moves,
    promotes, promotions, ray_moves, slide_moves,
};
use crate::tables::{dir_offset, edge_dist, knight_offsets, lemma_ray_on_board};

verus! {

impl BoardView {
    /// Sixty-four squares and a two-by-two table of castling rights.
    pub open spec fn wf(self) -> bool {
        &&& self.grid.len() == 64
        &&& self.castle.len() == 2
        &&& self.castle[0].len() == 2
        &&& self.castle[1].len() == 2
    }
}

/// The view of every board is well formed.
pub proof fn lemma_board_view_wf(b: Board)
    ensures
        b@.wf(),
{
}

/// What a move generated for piece `p` on `from` shows by its flag.
pub open spec fn flag_fits(b: BoardView, from: int, p: Piece, m: Move) -> bool {
    let c = b.turn;
    &&& m.start_index == from
    &&& p.color() == c
    &&& match m.flag {
        MoveFlag::Normal => true,
        MoveFlag::PawnDoublePush(sq) => {
            &&& p == Piece::Pawn(c)
            &&& from / 8 == pawn_home_rank(c)
            &&& sq == from + c.forward()
            &&& m.end_index == from + 2 * c.forward()
        },
        MoveFlag::EnPassantCapture => {
            &&& p == Piece::Pawn(c)
            &&& b.en_passant == Some(m.end_index)
        },
        MoveFlag::Castle(s) => p == Piece::King(c) && m.end_index == castled_king_square(c, s),
        MoveFlag::Promote(_) => p == Piece::Pawn(c) && promotes(m.end_index as int, c),
    }
}

/// All of `ms` start on `from` and carry no flag.
pub open spec fn plain_from(ms: Seq<Move>, from: int) -> bool {
    forall|i: int|
        0 <= i < ms.len() ==> (#[trigger] ms[i]).start_index == from && ms[i].flag
            == MoveFlag::Normal
}

proof fn lemma_plain_concat(a: Seq<Move>, b: Seq<Move>, from: int)
    requires
        plain_from(a, from),
        plain_from(b, from),
    ensures
        plain_from(a + b, from),
{
    assert forall|i: int| 0 <= i < (a + b).len() implies (#[trigger] (a + b)[i]).start_index
        == from && (a + b)[i].flag == MoveFlag::Normal by {
        lemma_concat_index(a, b, i);
    }
}

proof fn lemma_ray_plain(b: BoardView, from: int, c: Color, d: int, k: int)
    requires
        on_board(from),
    ensures
        plain_from(ray_moves(b, from, c, d, k), from),
    decreases edge_dist(from, d) - k,
{
    if !(k < 0 || k >= edge_dist(from, d)) {
        lemma_ray_plain(b, from, c, d, k + 1);
        let to = from + (k + 1) * dir_offset(d);
        assert(0 <= from < 256);
        lemma_plain_concat(
            seq![plain_move(from, to)],
            ray_moves(b, from, c, d, k + 1),
            from,
        );
    }
}

proof fn lemma_slide_plain(b: BoardView, from: int, c: Color, d: int, hi: int)
    requires
        on_board(from),
    ensures
        plain_from(slide_moves(b, from, c, d, hi), from),
    decreases hi - d,
{
    if d < hi {
        lemma_ray_plain(b, from, c, d, 0);
        lemma_slide_plain(b, from, c, d + 1, hi);
        lemma_plain_concat(ray_moves(b, from, c, d, 0), slide_moves(b, from, c, d + 1, hi), from);
    }
}

proof fn lemma_king_steps_plain(b: BoardView, from: int, c: Color, d: int)
    requires
        on_board(from),
    ensures
        plain_from(king_steps(b, from, c, d), from),
    decreases d,
{
    if d > 0 {
        lemma_king_steps_plain(b, from, c, d - 1);
    }
}

proof fn lemma_knight_steps_plain(b: BoardView, from: int, c: Color, offs: Seq<i8>, j: int)
    requires
        on_board(from),
    ensures
        plain_from(knight_steps(b, from, c, offs, j), from),
    decreases j,
{
    if j > 0 {
        lemma_knight_steps_plain(b, from, c, offs, j - 1);
    }
}

proof fn lemma_concat_index<A>(a: Seq<A>, b: Seq<A>, i: int)
    requires
        0 <= i < a.len() + b.len(),
    ensures
        i < a.len() ==> (a + b)[i] == a[i],
        i >= a.len() ==> (a + b)[i] == b[i - a.len()],
{
}

proof fn lemma_pawn_arrivals_fit(b: BoardView, from: int, to: int, i: int)
    requires
        on_board(from),
        on_board(to),
        0 <= i < pawn_arrivals(from, to, b.turn).len(),
    ensures
        flag_fits(b, from, Piece::Pawn(b.turn), pawn_arrivals(from, to, b.turn)[i]),
{
}

proof fn lemma_pawn_pushes_fit(b: BoardView, from: int, i: int)
    requires
        b.wf(),
        on_board(from),
        0 <= i < pawn_pushes(b, from, b.turn).len(),
    ensures
        flag_fits(b, from, Piece::Pawn(b.turn), pawn_pushes(b, from, b.turn)[i]),
{
    let c = b.turn;
    let one = from + c.forward();
    if on_board(one) && b.grid[one] is None {
        let a = pawn_arrivals(from, one, c);
        if i < a.len() {
            lemma_pawn_arrivals_fit(b, from, one, i);
        }
    }
}

proof fn lemma_pawn_captures_fit(b: BoardView, from: int, d: int, i: int)
    requires
        b.wf(),
        on_board(from),
        0 <= d < 8,
        0 <= i < pawn_captures(b, from, b.turn, d).len(),
    ensures
        flag_fits(b, from, Piece::Pawn(b.turn), pawn_captures(b, from, b.turn, d)[i]),
{
    let c = b.turn;
    let to = from + dir_offset(d);
    lemma_ray_on_board(from, d, 1);
    let a = if hostile(b, to, c) {
        pawn_arrivals(from, to, c)
    } else {
        Seq::empty()
    };
    let e = if b.en_passant == Some(to as u8) {
        seq![plain_move(from, to).with_flag(MoveFlag::EnPassantCapture)]
    } else {
        Seq::empty()
    };
    lemma_concat_index(a, e, i);
    if i < a.len() {
        lemma_pawn_arrivals_fit(b, from, to, i);
    }
}

proof fn lemma_pawn_moves_fit(b: BoardView, from: int, i: int)
    requires
        b.wf(),
        on_board(from),
        0 <= i < pawn_moves(b, from, b.turn).len(),
    ensures
        flag_fits(b, from, Piece::Pawn(b.turn), pawn_moves(b, from, b.turn)[i]),
{
    let c = b.turn;
    let pu = pawn_pushes(b, from, c);
    let l = pawn_captures(b, from, c, pawn_capture_dir(c));
    let r = pawn_captures(b, from, c, pawn_capture_dir(c) + 1);
    lemma_concat_index(pu + l, r, i);
    if i < (pu + l).len() {
        lemma_concat_index(pu, l, i);
        if i < pu.len() {
            lemma_pawn_pushes_fit(b, from, i);
        } else {
            lemma_pawn_captures_fit(b, from, pawn_capture_dir(c), i - pu.len());
        }
    } else {
        lemma_pawn_captures_fit(b, from, pawn_capture_dir(c) + 1, i - (pu + l).len());
    }
}

proof fn lemma_king_moves_fit(b: BoardView, from: int, i: int)
    requires
        b.wf(),
        on_board(from),
        0 <= i < piece_moves(b, from, Piece::King(b.turn)).len(),
    ensures
        flag_fits(b, from, Piece::King(b.turn), piece_moves(b, from, Piece::King(b.turn))[i]),
{
    let c = b.turn;
    let k = king_steps(b, from, c, 8);
    let q = castle_move(b, from, c, Side::Queen);
    let kk = castle_move(b, from, c, Side::King);
    assert(piece_moves(b, from, Piece::King(c)) == k + q + kk);
    lemma_king_steps_plain(b, from, c, 8);
    lemma_concat_index(k + q, kk, i);
    if i < (k + q).len() {
        lemma_concat_index(k, q, i);
    }
}

/// Every move generated for a piece starts on its square, belongs to the
/// side to move, and carries a flag that fits the piece.
pub proof fn lemma_piece_moves_fit(b: BoardView, from: int, p: Piece, i: int)
    requires
        b.wf(),
        on_board(from),
        0 <= i < piece_moves(b, from, p).len(),
    ensures
        flag_fits(b, from, p, piece_moves(b, from, p)[i]),
{
    let c = p.color();
    match p {
        Piece::Queen(_) => lemma_slide_plain(b, from, c, 0, 8),
        Piece::Rook(_) => lemma_slide_plain(b, from, c, 0, 4),
        Piece::Bishop(_) => lemma_slide_plain(b, from, c, 4, 8),
        Piece::Knight(_) => lemma_knight_steps_plain(
            b,
            from,
            c,
            knight_offsets(from),
            knight_offsets(from).len() as int,
        ),
        Piece::King(_) => lemma_king_moves_fit(b, from, i),
        Piece::Pawn(_) => lemma_pawn_moves_fit(b, from, i),
    }
}

/// Each move of the side to move comes from the piece on its start square.
pub proof fn lemma_all_moves_source(b: BoardView, n: int, i: int)
    requires
        b.wf(),
        0 <= n <= 64,
        0 <= i < moves_upto(b, n).len(),
    ensures
        ({
            let m = moves_upto(b, n)[i];
            &&& on_board(m.start_index as int)
            &&& b.grid[m.start_index as int] is Some
            &&& flag_fits(b, m.start_index as int, b.grid[m.start_index as int]->0, m)
        }),
    decreases n,
{
    let prev = moves_upto(b, n - 1);
    let here = match b.grid[n - 1] {
        Some(p) => piece_moves(b, n - 1, p),
        None => Seq::empty(),
    };
    lemma_concat_index(prev, here, i);
    if i < prev.len() {
        lemma_all_moves_source(b, n - 1, i);
    } else {
        lemma_piece_moves_fit(b, n - 1, b.grid[n - 1]->0, i - prev.len());
    }
}

/// A double push is a pawn of the side to move going two squares forward
/// from its home rank, and playing it makes the square it passed over the
/// en-passant target.
pub proof fn lemma_double_push_sets_en_passant(b: BoardView, m: Move)
    requires
        b.wf(),
        all_moves(b).contains(m),
        m.flag is PawnDoublePush,
    ensures
        b.grid[m.start_index as int] == Some(Piece::Pawn(b.turn)),
        m.start_index / 8 == pawn_home_rank(b.turn),
        m.end_index == m.start_index + 2 * b.turn.forward(),
        b.after(m).en_passant == Some((m.start_index + b.turn.forward()) as u8),
{
    let i = choose|i: int| 0 <= i < all_moves(b).len() && all_moves(b)[i] == m;
    lemma_all_moves_source(b, 64, i);
}

/// Any move without the double-push flag leaves no en-passant target.
pub proof fn lemma_other_moves_clear_en_passant(b: BoardView, m: Move)
    requires
        !(m.flag is PawnDoublePush),
    ensures
        b.after(m).en_passant is None,
{
}

/// After a double push, an en-passant capture of the answering side lands on
/// the square passed over and removes the pushed pawn from the square behind
/// it.
pub proof fn lemma_en_passant_takes_pushed_pawn(b: BoardView, push: Move, capture: Move)
    requires
        b.wf(),
        all_moves(b).contains(push),
        push.flag is PawnDoublePush,
        all_moves(b.after(push)).contains(capture),
        capture.flag is EnPassantCapture,
    ensures
        ({
            let next = b.after(push);
            let last = next.after(capture);
            &&& capture.end_index as int == push.start_index + b.turn.forward()
            &&& next.grid[push.end_index as int] == Some(Piece::Pawn(b.turn))
            &&& behind(capture.end_index as int, next.turn) == push.end_index
            &&& last.grid[push.end_index as int] is None
            &&& last.grid[capture.end_index as int] == Some(Piece::Pawn(next.turn))
        }),
{
    let next = b.after(push);
    lemma_double_push_sets_en_passant(b, push);
    let i = choose|i: int| 0 <= i < all_moves(next).len() && all_moves(next)[i] == capture;
    assert(next.wf());
    lemma_all_moves_source(next, 64, i);
}

/// A castling right that is gone stays gone after any move.
pub proof fn lemma_lost_right_stays_lost(b: BoardView, m: Move, c: Color, s: Side)
    requires
        !b.can_castle(c, s),
    ensures
        !b.after(m).can_castle(c, s),
{
}

/// The position after playing `ms` in order.
pub open spec fn after_all(b: BoardView, ms: Seq<Move>) -> BoardView
    decreases ms.len(),
{
    if ms.len() == 0 {
        b
    } else {
        after_all(b, ms.drop_last()).after(ms.last())
    }
}

/// A castling right that is gone stays gone for the rest of the game.
pub proof fn lemma_lost_right_never_returns(b: BoardView, ms: Seq<Move>, c: Color, s: Side)
    requires
        !b.can_castle(c, s),
    ensures
        !after_all(b, ms).can_castle(c, s),
    decreases ms.len(),
{
    if ms.len() > 0 {
        lemma_lost_right_never_returns(b, ms.drop_last(), c, s);
    }
}

/// Moving the king gives up both of its color's castling rights.
pub proof fn lemma_king_move_clears_rights(b: BoardView, m: Move, c: Color)
    requires
        b.grid[m.start_index as int] == Some(Piece::King(c)),
    ensures
        !b.after(m).can_castle(c, Side::Queen),
        !b.after(m).can_castle(c, Side::King),
{
}

/// Moving a rook out of its home corner gives up that corner's right; every
/// other right stays as it was, unless the move takes a rook standing in
/// that rook's own home corner.
pub proof fn lemma_rook_move_clears_its_right(b: BoardView, m: Move, c: Color, s: Side)
    requires
        b.grid[m.start_index as int] == Some(Piece::Rook(c)),
        m.start_index == corner(c, s),
    ensures
        !b.after(m).can_castle(c, s),
        forall|c2: Color, s2: Side|
            (c2, s2) != (c, s) && !(b.grid[m.end_index as int] == Some(Piece::Rook(c2))
                && m.end_index == corner(c2, s2)) ==> #[trigger] b.after(m).can_castle(c2, s2)
                == b.can_castle(c2, s2),
{
    assert forall|c2: Color, s2: Side|
        (c2, s2) != (c, s) && !(b.grid[m.end_index as int] == Some(Piece::Rook(c2))
            && m.end_index == corner(c2, s2)) implies #[trigger] b.after(m).can_castle(c2, s2)
        == b.can_castle(c2, s2) by {
        assert(Color::from_index(c2.index()) == c2);
        assert(Side::from_index(s2.index()) == s2);
    }
}

/// Taking a rook in its home corner gives up that corner's right; when the
/// moving piece is neither a king nor a rook, every other right stays as it
/// was.
pub proof fn lemma_rook_capture_clears_its_right(b: BoardView, m: Move, c: Color, s: Side)
    requires
        b.grid[m.end_index as int] == Some(Piece::Rook(c)),
        m.end_index == corner(c, s),
    ensures
        !b.after(m).can_castle(c, s),
        forall|c2: Color, s2: Side|
            (c2, s2) != (c, s) && !(b.grid[m.start_index as int] matches Some(
                Piece::King(_),
            )) && !(b.grid[m.start_index as int] matches Some(Piece::Rook(_)))
                ==> #[trigger] b.after(m).can_castle(c2, s2) == b.can_castle(c2, s2),
{
    assert forall|c2: Color, s2: Side|
        (c2, s2) != (c, s) && !(b.grid[m.start_index as int] matches Some(Piece::King(_)))
            && !(b.grid[m.start_index as int] matches Some(
            Piece::Rook(_),
        )) implies #[trigger] b.after(m).can_castle(c2, s2) == b.can_castle(c2, s2) by {
        assert(Color::from_index(c2.index()) == c2);
        assert(Side::from_index(s2.index()) == s2);
    }
}

/// Move generation reads nothing but the position: equal positions give
/// equal move lists, so asking twice gives the same answer.
pub proof fn lemma_generation_is_pure(b1: BoardView, b2: BoardView)
    requires
        b1 == b2,
    ensures
        all_moves(b1) == all_moves(b2),
{
}

/// The moves among `ms` that end on square `e`.
pub open spec fn ending_on(ms: Seq<Move>, e: int) -> Seq<Move> {
    ms.filter(|m: Move| m.end_index as int == e)
}

proof fn lemma_filter_all<A>(s: Seq<A>, pred: spec_fn(A) -> bool)
    requires
        forall|i: int| 0 <= i < s.len() ==> pred(#[trigger] s[i]),
    ensures
        s.filter(pred) == s,
    decreases s.len(),
{
    reveal(Seq::filter);
    if s.len() > 0 {
        lemma_filter_all(s.drop_last(), pred);
        assert(s.drop_last().push(s.last()) =~= s);
    }
}

proof fn lemma_filter_none<A>(s: Seq<A>, pred: spec_fn(A) -> bool)
    requires
        forall|i: int| 0 <= i < s.len() ==> !pred(#[trigger] s[i]),
    ensures
        s.filter(pred) == Seq::<A>::empty(),
    decreases s.len(),
{
    reveal(Seq::filter);
    if s.len() > 0 {
        lemma_filter_none(s.drop_last(), pred);
    }
}

/// The moves of a pawn arriving on `to` that end on `e`: all four promotions
/// when `to` is `e` on the last rank, none when `to` is another square.
proof fn lemma_arrivals_ending_on(from: int, to: int, e: int, c: Color)
    requires
        on_board(from),
        on_board(to),
        on_board(e),
        promotes(e, c),
    ensures
        ending_on(pawn_arrivals(from, to, c), e) == (if to == e {
            promotions(from, e, c)
        } else {
            Seq::<Move>::empty()
        }),
{
    let a = pawn_arrivals(from, to, c);
    let pred = |m: Move| m.end_index as int == e;
    if to == e {
        lemma_filter_all(a, pred);
    } else {
        lemma_filter_none(a, pred);
    }
}

proof fn lemma_pushes_ending_on(b: BoardView, from: int, e: int)
    requires
        b.wf(),
        on_board(from),
        on_board(e),
        promotes(e, b.turn),
    ensures
        ending_on(pawn_pushes(b, from, b.turn), e) == (if from + b.turn.forward() == e
            && b.grid[e] is None {
            promotions(from, e, b.turn)
        } else {
            Seq::<Move>::empty()
        }),
{
    let c = b.turn;
    let one = from + c.forward();
    let two = one + c.forward();
    let pred = |m: Move| m.end_index as int == e;
    if !on_board(one) || b.grid[one] is Some {
        lemma_filter_none(pawn_pushes(b, from, c), pred);
    } else {
        let a = pawn_arrivals(from, one, c);
        lemma_arrivals_ending_on(from, one, e, c);
        if from / 8 == pawn_home_rank(c) && b.grid[two] is None {
            let dp = plain_move(from, two).with_flag(
                MoveFlag::PawnDoublePush(one as u8),
            );
            Seq::filter_distributes_over_add(a, seq![dp], pred);
            lemma_filter_none(seq![dp], pred);
            assert(a.push(dp) == a + seq![dp]);
            assert(ending_on(a, e) + Seq::<Move>::empty() =~= ending_on(a, e));
        }
    }
}

proof fn lemma_captures_ending_on(b: BoardView, from: int, d: int, e: int)
    requires
        b.wf(),
        on_board(from),
        on_board(e),
        0 <= d < 8,
        promotes(e, b.turn),
        b.en_passant != Some(e as u8),
    ensures
        ending_on(pawn_captures(b, from, b.turn, d), e) == (if edge_dist(from, d) >= 1 && from
            + dir_offset(d) == e && hostile(b, e, b.turn) {
            promotions(from, e, b.turn)
        } else {
            Seq::<Move>::empty()
        }),
{
    let c = b.turn;
    let to = from + dir_offset(d);
    let pred = |m: Move| m.end_index as int == e;
    if edge_dist(from, d) < 1 {
        reveal(Seq::filter);
    } else {
        lemma_ray_on_board(from, d, 1);
        let a = if hostile(b, to, c) {
            pawn_arrivals(from, to, c)
        } else {
            Seq::empty()
        };
        let ep = if b.en_passant == Some(to as u8) {
            seq![plain_move(from, to).with_flag(MoveFlag::EnPassantCapture)]
        } else {
            Seq::empty()
        };
        Seq::filter_distributes_over_add(a, ep, pred);
        lemma_filter_none(ep, pred);
        if hostile(b, to, c) {
            lemma_arrivals_ending_on(from, to, e, c);
        } else {
            reveal(Seq::filter);
        }
        assert(ending_on(a, e) + Seq::<Move>::empty() =~= ending_on(a, e));
    }
}

/// A pawn move onto a square of the last rank comes as exactly the four
/// promotions, to a queen, a rook, a bishop and a knight, with the same start
/// and end; no other move of the pawn ends there.
pub proof fn lemma_promotion_fan_out(b: BoardView, from: int, e: int)
    requires
        b.wf(),
        on_board(from),
        on_board(e),
        promotes(e, b.turn),
        b.en_passant != Some(e as u8),
    ensures
        ending_on(piece_moves(b, from, Piece::Pawn(b.turn)), e).len() == 0 || ending_on(
            piece_moves(b, from, Piece::Pawn(b.turn)),
            e,
        ) == promotions(from, e, b.turn),
{
    let c = b.turn;
    let pred = |m: Move| m.end_index as int == e;
    let pu = pawn_pushes(b, from, c);
    let l = pawn_captures(b, from, c, pawn_capture_dir(c));
    let r = pawn_captures(b, from, c, pawn_capture_dir(c) + 1);
    assert(piece_moves(b, from, Piece::Pawn(c)) == pu + l + r);
    Seq::filter_distributes_over_add(pu + l, r, pred);
    Seq::filter_distributes_over_add(pu, l, pred);
    lemma_pushes_ending_on(b, from, e);
    lemma_captures_ending_on(b, from, pawn_capture_dir(c), e);
    lemma_captures_ending_on(b, from, pawn_capture_dir(c) + 1, e);
    let empty = Seq::<Move>::empty();
    let fp = ending_on(pu, e);
    let fl = ending_on(l, e);
    let fr = ending_on(r, e);
    assert(fp == empty || fl == empty);
    assert(fp == empty || fr == empty);
    assert(fl == empty || fr == empty);
    assert(empty + empty =~= empty);
    assert(fp + empty =~= fp);
    assert(empty + fp =~= fp);
    assert(empty + fl =~= fl);
    assert(fl + empty =~= fl);
    assert(empty + fr =~= fr);
}

} // verus!
