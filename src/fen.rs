use vstd::prelude::*;

use crate::board::{Board, BoardView};
use crate::error::{Error, ErrorView};
use crate::moves::Side;
use crate::piece::{Color, Piece};
use crate::position::{parse_square, Position};

verus! {

/// The characters that Unicode classes as white space.
pub open spec fn is_space(c: char) -> bool {
    ||| '\u{9}' <= c <= '\u{d}'
    ||| c == ' '
    ||| c == '\u{85}'
    ||| c == '\u{a0}'
    ||| c == '\u{1680}'
    ||| '\u{2000}' <= c <= '\u{200a}'
    ||| c == '\u{2028}'
    ||| c == '\u{2029}'
    ||| c == '\u{202f}'
    ||| c == '\u{205f}'
    ||| c == '\u{3000}'
}

/// The words of `s` given that `cur` is the word read so far: maximal runs of
/// characters that are not white space, in order.
pub open spec fn words_from(s: Seq<char>, cur: Seq<char>) -> Seq<Seq<char>>
    decreases s.len(),
{
    let done = if cur.len() > 0 {
        seq![cur]
    } else {
        Seq::empty()
    };
    if s.len() == 0 {
        done
    } else if is_space(s[0]) {
        done + words_from(s.drop_first(), Seq::empty())
    } else {
        words_from(s.drop_first(), cur.push(s[0]))
    }
}

/// The words of `s`, separated by white space.
pub open spec fn words(s: Seq<char>) -> Seq<Seq<char>> {
    words_from(s, Seq::empty())
}

fn is_space_char(c: char) -> (r: bool)
    ensures
        r == is_space(c),
{
    ('\u{9}' <= c && c <= '\u{d}') || c == ' ' || c == '\u{85}' || c == '\u{a0}' || c == '\u{1680}'
        || ('\u{2000}' <= c && c <= '\u{200a}') || c == '\u{2028}' || c == '\u{2029}' || c
        == '\u{202f}' || c == '\u{205f}' || c == '\u{3000}'
}

/// Splits `s` into its words.
pub fn split_words(s: &str) -> (r: Vec<&str>)
    ensures
        r@.map_values(|w: &str| w@) == words(s@),
{
    let n = s.unicode_len();
    let mut out: Vec<&str> = Vec::new();
    let mut start: usize = 0;
    let mut i: usize = 0;
    assert(s@.skip(0) =~= s@);
    assert(s@.subrange(0, 0) =~= Seq::<char>::empty());
    while i < n
        invariant
            n == s@.len(),
            start <= i <= n,
            words(s@) == out@.map_values(|w: &str| w@) + words_from(
                s@.skip(i as int),
                s@.subrange(start as int, i as int),
            ),
        decreases n - i,
    {
        let ghost rest = s@.skip(i as int);
        let ghost cur = s@.subrange(start as int, i as int);
        let ghost before = out@.map_values(|w: &str| w@);
        assert(rest[0] == s@[i as int]);
        assert(rest.drop_first() =~= s@.skip(i + 1));
        let c = s.get_char(i);
        if is_space_char(c) {
            if start < i {
                out.push(s.substring_char(start, i));
                assert(out@.map_values(|w: &str| w@) =~= before + seq![cur]);
            } else {
                assert(out@.map_values(|w: &str| w@) =~= before);
            }
            start = i + 1;
            assert(s@.subrange(start as int, i + 1) =~= Seq::<char>::empty());
        } else {
            assert(cur.push(c) =~= s@.subrange(start as int, i + 1));
        }
        i += 1;
    }
    let ghost before = out@.map_values(|w: &str| w@);
    let ghost cur = s@.subrange(start as int, n as int);
    if start < n {
        out.push(s.substring_char(start, n));
        assert(out@.map_values(|w: &str| w@) =~= before + seq![cur]);
    } else {
        assert(out@.map_values(|w: &str| w@) =~= before + Seq::<Seq<char>>::empty());
    }
    out
}

/// The piece named by a FEN letter: upper case for White.
pub open spec fn piece_of_char(c: char) -> Option<Piece> {
    match c {
        'p' => Some(Piece::Pawn(Color::Black)),
        'n' => Some(Piece::Knight(Color::Black)),
        'b' => Some(Piece::Bishop(Color::Black)),
        'r' => Some(Piece::Rook(Color::Black)),
        'q' => Some(Piece::Queen(Color::Black)),
        'k' => Some(Piece::King(Color::Black)),
        'P' => Some(Piece::Pawn(Color::White)),
        'N' => Some(Piece::Knight(Color::White)),
        'B' => Some(Piece::Bishop(Color::White)),
        'R' => Some(Piece::Rook(Color::White)),
        'Q' => Some(Piece::Queen(Color::White)),
        'K' => Some(Piece::King(Color::White)),
        _ => None,
    }
}

/// The run length named by a digit `1` to `9`.
pub open spec fn skip_of_char(c: char) -> Option<u8> {
    match c {
        '1' => Some(1u8),
        '2' => Some(2u8),
        '3' => Some(3u8),
        '4' => Some(4u8),
        '5' => Some(5u8),
        '6' => Some(6u8),
        '7' => Some(7u8),
        '8' => Some(8u8),
        '9' => Some(9u8),
        _ => None,
    }
}

/// Where the placement scan stands: the squares filled so far and the file
/// and rank of the next square. Both counters stay at most 8.
pub struct Placement {
    pub grid: Seq<Option<Piece>>,
    pub file: int,
    pub rank: int,
}

pub open spec fn position_of(file: int, rank: int) -> Position {
    Position { file: file as u8, rank: rank as u8 }
}

/// Reads one character of the placement section. A piece letter fills the
/// next square, `/` starts the next rank, a digit skips that many files. A
/// piece placed past the board, or a counter taken beyond 8, is out of bounds.
pub open spec fn place_step(st: Placement, c: char) -> Result<Placement, ErrorView> {
    if let Some(p) = piece_of_char(c) {
        if st.file <= 7 && st.rank <= 7 {
            Ok(
                Placement {
                    grid: st.grid.update(st.rank * 8 + st.file, Some(p)),
                    file: st.file + 1,
                    rank: st.rank,
                },
            )
        } else {
            Err(ErrorView::OutsideBounds(position_of(st.file, st.rank)))
        }
    } else if c == '/' {
        if st.rank + 1 <= 8 {
            Ok(Placement { grid: st.grid, file: 0, rank: st.rank + 1 })
        } else {
            Err(ErrorView::OutsideBounds(position_of(0, st.rank + 1)))
        }
    } else if let Some(d) = skip_of_char(c) {
        if st.file + d <= 8 {
            Ok(Placement { grid: st.grid, file: st.file + d, rank: st.rank })
        } else {
            Err(ErrorView::OutsideBounds(position_of(st.file + d, st.rank)))
        }
    } else {
        Err(ErrorView::InvalidFENStr(seq![c]))
    }
}

/// The placement scan after the first `k` characters of `s`.
pub open spec fn placement_upto(s: Seq<char>, k: int) -> Result<Placement, ErrorView>
    decreases k,
{
    if k <= 0 {
        Ok(Placement { grid: Seq::new(64, |i: int| None), file: 0, rank: 0 })
    } else {
        match placement_upto(s, k - 1) {
            Err(e) => Err(e),
            Ok(st) => place_step(st, s[k - 1]),
        }
    }
}

/// Once the scan has failed, it stays failed with the same error.
pub proof fn lemma_placement_error_stays(s: Seq<char>, k: int, j: int)
    requires
        0 <= k <= j,
        placement_upto(s, k) is Err,
    ensures
        placement_upto(s, j) == placement_upto(s, k),
    decreases j - k,
{
    if j > k {
        lemma_placement_error_stays(s, k, j - 1);
    }
}

/// The squares described by a placement section.
pub open spec fn parse_placement(s: Seq<char>) -> Result<Seq<Option<Piece>>, ErrorView> {
    match placement_upto(s, s.len() as int) {
        Err(e) => Err(e),
        Ok(st) => Ok(st.grid),
    }
}

fn piece_from_char(c: char) -> (r: Option<Piece>)
    ensures
        r == piece_of_char(c),
{
    match c {
        'p' => Some(Piece::Pawn(Color::Black)),
        'n' => Some(Piece::Knight(Color::Black)),
        'b' => Some(Piece::Bishop(Color::Black)),
        'r' => Some(Piece::Rook(Color::Black)),
        'q' => Some(Piece::Queen(Color::Black)),
        'k' => Some(Piece::King(Color::Black)),
        'P' => Some(Piece::Pawn(Color::White)),
        'N' => Some(Piece::Knight(Color::White)),
        'B' => Some(Piece::Bishop(Color::White)),
        'R' => Some(Piece::Rook(Color::White)),
        'Q' => Some(Piece::Queen(Color::White)),
        'K' => Some(Piece::King(Color::White)),
        _ => None,
    }
}

fn skip_from_char(c: char) -> (r: Option<u8>)
    ensures
        r == skip_of_char(c),
{
    match c {
        '1' => Some(1),
        '2' => Some(2),
        '3' => Some(3),
        '4' => Some(4),
        '5' => Some(5),
        '6' => Some(6),
        '7' => Some(7),
        '8' => Some(8),
        '9' => Some(9),
        _ => None,
    }
}

/// Reads the placement section into the squares of a board.
fn read_placement(section: &str) -> (r: Result<[Option<Piece>; 64], Error>)
    ensures
        match r {
            Ok(g) => parse_placement(section@) == Ok::<Seq<Option<Piece>>, ErrorView>(g@),
            Err(e) => parse_placement(section@) == Err::<Seq<Option<Piece>>, ErrorView>(e@),
        },
{
    let n = section.unicode_len();
    let mut grid: [Option<Piece>; 64] = [None; 64];
    let mut file: u8 = 0;
    let mut rank: u8 = 0;
    let mut i: usize = 0;
    assert(grid@ =~= Seq::new(64, |i: int| None::<Piece>));
    while i < n
        invariant
            n == section@.len(),
            i <= n,
            file <= 8,
            rank <= 8,
            placement_upto(section@, i as int) == Ok::<Placement, ErrorView>(
                Placement { grid: grid@, file: file as int, rank: rank as int },
            ),
        decreases n - i,
    {
        let c = section.get_char(i);
        proof {
            if place_step(Placement { grid: grid@, file: file as int, rank: rank as int }, c) is Err {
                lemma_placement_error_stays(section@, i + 1, n as int);
            }
        }
        if let Some(piece) = piece_from_char(c) {
            if file <= 7 && rank <= 7 {
                grid[(rank * 8 + file) as usize] = Some(piece);
                file += 1;
            } else {
                return Err(Error::OutsideBounds(Position::new(file, rank)));
            }
        } else if c == '/' {
            if rank + 1 <= 8 {
                rank += 1;
                file = 0;
            } else {
                return Err(Error::OutsideBounds(Position::new(0, rank + 1)));
            }
        } else if let Some(d) = skip_from_char(c) {
            if file + d <= 8 {
                file += d;
            } else {
                return Err(Error::OutsideBounds(Position::new(file + d, rank)));
            }
        } else {
            assert(section@.subrange(i as int, i + 1) =~= seq![c]);
            return Err(Error::InvalidFENStr(section.substring_char(i, i + 1).to_owned()));
        }
        i += 1;
    }
    Ok(grid)
}

/// The side to move named by a FEN word.
pub open spec fn parse_turn(w: Seq<char>) -> Result<Color, ErrorView> {
    if w == seq!['w'] {
        Ok(Color::White)
    } else if w == seq!['b'] {
        Ok(Color::Black)
    } else {
        Err(ErrorView::InvalidFENStr(w))
    }
}

/// The castling right named by a FEN letter.
pub open spec fn right_of_char(c: char) -> Option<(Color, Side)> {
    match c {
        'K' => Some((Color::White, Side::King)),
        'Q' => Some((Color::White, Side::Queen)),
        'k' => Some((Color::Black, Side::King)),
        'q' => Some((Color::Black, Side::Queen)),
        _ => None,
    }
}

pub open spec fn no_rights() -> Seq<Seq<bool>> {
    seq![seq![false, false], seq![false, false]]
}

/// The rights granted by the first `k` letters of `w`.
pub open spec fn rights_upto(w: Seq<char>, k: int) -> Result<Seq<Seq<bool>>, ErrorView>
    decreases k,
{
    if k <= 0 {
        Ok(no_rights())
    } else {
        match rights_upto(w, k - 1) {
            Err(e) => Err(e),
            Ok(r) => match right_of_char(w[k - 1]) {
                None => Err(ErrorView::InvalidFENStr(seq![w[k - 1]])),
                Some((c, s)) => Ok(r.update(c.index(), r[c.index()].update(s.index(), true))),
            },
        }
    }
}

/// The castling rights named by a FEN word: `-` for none, else letters.
pub open spec fn parse_castling(w: Seq<char>) -> Result<Seq<Seq<bool>>, ErrorView> {
    if w == seq!['-'] {
        Ok(no_rights())
    } else {
        rights_upto(w, w.len() as int)
    }
}

/// The en-passant target named by a FEN word: `-` for none, else a square.
pub open spec fn parse_en_passant(w: Seq<char>) -> Result<Option<u8>, ErrorView> {
    if w == seq!['-'] {
        Ok(None)
    } else {
        match parse_square(w) {
            Err(e) => Err(e),
            Ok(p) => Ok(Some(p.index() as u8)),
        }
    }
}

/// The position described by FEN text: placement, side to move, castling
/// rights and en-passant target, in its first four words. Later words are
/// not read.
pub open spec fn parse_fen(s: Seq<char>) -> Result<BoardView, ErrorView> {
    let w = words(s);
    if w.len() < 1 {
        Err(ErrorView::InvalidFEN)
    } else {
        match parse_placement(w[0]) {
            Err(e) => Err(e),
            Ok(grid) => if w.len() < 2 {
                Err(ErrorView::InvalidFEN)
            } else {
                match parse_turn(w[1]) {
                    Err(e) => Err(e),
                    Ok(turn) => if w.len() < 3 {
                        Err(ErrorView::InvalidFEN)
                    } else {
                        match parse_castling(w[2]) {
                            Err(e) => Err(e),
                            Ok(castle) => if w.len() < 4 {
                                Err(ErrorView::InvalidFEN)
                            } else {
                                match parse_en_passant(w[3]) {
                                    Err(e) => Err(e),
                                    Ok(en_passant) => Ok(
                                        BoardView { grid, turn, en_passant, castle },
                                    ),
                                }
                            },
                        }
                    },
                }
            },
        }
    }
}

/// Whether `w` is the one character `c`.
fn is_single(w: &str, c: char) -> (r: bool)
    ensures
        r == (w@ == seq![c]),
{
    if w.unicode_len() == 1 {
        let first = w.get_char(0);
        assert(first == c ==> w@ =~= seq![c]);
        first == c
    } else {
        false
    }
}

fn read_turn(w: &str) -> (r: Result<Color, Error>)
    ensures
        match r {
            Ok(c) => parse_turn(w@) == Ok::<Color, ErrorView>(c),
            Err(e) => parse_turn(w@) == Err::<Color, ErrorView>(e@),
        },
{
    if is_single(w, 'w') {
        Ok(Color::White)
    } else if is_single(w, 'b') {
        Ok(Color::Black)
    } else {
        Err(Error::InvalidFENStr(w.to_owned()))
    }
}

fn right_from_char(c: char) -> (r: Option<(Color, Side)>)
    ensures
        r == right_of_char(c),
{
    match c {
        'K' => Some((Color::White, Side::King)),
        'Q' => Some((Color::White, Side::Queen)),
        'k' => Some((Color::Black, Side::King)),
        'q' => Some((Color::Black, Side::Queen)),
        _ => None,
    }
}

/// Once the letters have failed, they stay failed with the same error.
pub proof fn lemma_rights_error_stays(w: Seq<char>, k: int, j: int)
    requires
        0 <= k <= j,
        rights_upto(w, k) is Err,
    ensures
        rights_upto(w, j) == rights_upto(w, k),
    decreases j - k,
{
    if j > k {
        lemma_rights_error_stays(w, k, j - 1);
    }
}

pub open spec fn rights_view(r: [[bool; 2]; 2]) -> Seq<Seq<bool>> {
    r@.map_values(|row: [bool; 2]| row@)
}

fn read_castling(w: &str) -> (r: Result<[[bool; 2]; 2], Error>)
    ensures
        match r {
            Ok(rights) => parse_castling(w@) == Ok::<Seq<Seq<bool>>, ErrorView>(
                rights_view(rights),
            ),
            Err(e) => parse_castling(w@) == Err::<Seq<Seq<bool>>, ErrorView>(e@),
        },
{
    let mut rights: [[bool; 2]; 2] = [[false; 2]; 2];
    assert(rights_view(rights) =~~= no_rights());
    if is_single(w, '-') {
        return Ok(rights);
    }
    let n = w.unicode_len();
    let mut i: usize = 0;
    while i < n
        invariant
            n == w@.len(),
            w@ != seq!['-'],
            i <= n,
            rights_upto(w@, i as int) == Ok::<Seq<Seq<bool>>, ErrorView>(rights_view(rights)),
        decreases n - i,
    {
        let c = w.get_char(i);
        match right_from_char(c) {
            Some((color, side)) => {
                let ghost before = rights_view(rights);
                rights[color.as_index()][side.as_index()] = true;
                assert(rights_view(rights) =~~= before.update(
                    color.index(),
                    before[color.index()].update(side.index(), true),
                ));
            },
            None => {
                proof {
                    lemma_rights_error_stays(w@, i + 1, n as int);
                }
                assert(w@.subrange(i as int, i + 1) =~= seq![c]);
                return Err(Error::InvalidFENStr(w.substring_char(i, i + 1).to_owned()));
            },
        }
        i += 1;
    }
    Ok(rights)
}

fn read_en_passant(w: &str) -> (r: Result<Option<u8>, Error>)
    ensures
        match r {
            Ok(sq) => parse_en_passant(w@) == Ok::<Option<u8>, ErrorView>(sq),
            Err(e) => parse_en_passant(w@) == Err::<Option<u8>, ErrorView>(e@),
        },
{
    if is_single(w, '-') {
        Ok(None)
    } else {
        match Position::from_algebraic(w) {
            Ok(p) => Ok(Some(p.rank * 8 + p.file)),
            Err(e) => Err(e),
        }
    }
}

impl Board {
    /// Reads a position from Forsyth-Edwards Notation: see [`parse_fen`].
    pub fn from_fen(fen: &str) -> (r: Result<Board, Error>)
        ensures
            match r {
                Ok(b) => parse_fen(fen@) == Ok::<BoardView, ErrorView>(b@),
                Err(e) => parse_fen(fen@) == Err::<BoardView, ErrorView>(e@),
            },
    {
        let sections = split_words(fen);
        let ghost w = words(fen@);
        assert(sections@.len() == w.len());
        if sections.len() < 1 {
            return Err(Error::InvalidFEN);
        }
        assert(sections@[0]@ == w[0]);
        let grid = match read_placement(sections[0]) {
            Ok(g) => g,
            Err(e) => {
                return Err(e);
            },
        };
        if sections.len() < 2 {
            return Err(Error::InvalidFEN);
        }
        assert(sections@[1]@ == w[1]);
        let turn = match read_turn(sections[1]) {
            Ok(c) => c,
            Err(e) => {
                return Err(e);
            },
        };
        if sections.len() < 3 {
            return Err(Error::InvalidFEN);
        }
        assert(sections@[2]@ == w[2]);
        let castle_rights = match read_castling(sections[2]) {
            Ok(rights) => rights,
            Err(e) => {
                return Err(e);
            },
        };
        if sections.len() < 4 {
            return Err(Error::InvalidFEN);
        }
        assert(sections@[3]@ == w[3]);
        let en_passant_square = match read_en_passant(sections[3]) {
            Ok(sq) => sq,
            Err(e) => {
                return Err(e);
            },
        };
        Ok(Board { turn, grid, en_passant_square, castle_rights })
    }
}

} // verus!
