use vstd::prelude::*;

use crate::position::on_board;

verus! {

/// Linear index step for one move in direction `d`, in the order
/// N, S, W, E, NW, NE, SW, SE (north is towards rank 0).
pub open spec fn dir_offset(d: int) -> int {
    if d == 0 {
        -8
    } else if d == 1 {
        8
    } else if d == 2 {
        -1
    } else if d == 3 {
        1
    } else if d == 4 {
        -9
    } else if d == 5 {
        -7
    } else if d == 6 {
        7
    } else {
        9
    }
}

pub open spec fn min(a: int, b: int) -> int {
    if a < b {
        a
    } else {
        b
    }
}

pub open spec fn abs(a: int) -> int {
    if a < 0 {
        -a
    } else {
        a
    }
}

pub open spec fn max(a: int, b: int) -> int {
    if a < b {
        b
    } else {
        a
    }
}

/// How many steps in direction `d` stay on the board from square `sq`.
pub open spec fn edge_dist(sq: int, d: int) -> int {
    let rank = sq / 8;
    let file = sq % 8;
    if d == 0 {
        rank
    } else if d == 1 {
        7 - rank
    } else if d == 2 {
        file
    } else if d == 3 {
        7 - file
    } else if d == 4 {
        min(rank, file)
    } else if d == 5 {
        min(rank, 7 - file)
    } else if d == 6 {
        min(7 - rank, file)
    } else {
        min(7 - rank, 7 - file)
    }
}

/// The eight knight jumps as linear index steps.
pub open spec fn knight_offset(k: int) -> int {
    if k == 0 {
        -17
    } else if k == 1 {
        -15
    } else if k == 2 {
        -10
    } else if k == 3 {
        -6
    } else if k == 4 {
        6
    } else if k == 5 {
        10
    } else if k == 6 {
        15
    } else {
        17
    }
}

/// A jump lands on the board and moves at most two files and two ranks,
/// so it does not wrap round an edge.
pub open spec fn knight_jump_ok(sq: int, off: int) -> bool {
    let end = sq + off;
    on_board(end) && max(abs(sq % 8 - end % 8), abs(sq / 8 - end / 8)) == 2
}

/// The first `k` knight jumps that are allowed from `sq`, in order.
pub open spec fn knight_offsets_upto(sq: int, k: int) -> Seq<i8>
    decreases k,
{
    if k <= 0 {
        Seq::empty()
    } else if knight_jump_ok(sq, knight_offset(k - 1)) {
        knight_offsets_upto(sq, k - 1).push(knight_offset(k - 1) as i8)
    } else {
        knight_offsets_upto(sq, k - 1)
    }
}

/// The knight jumps allowed from `sq`.
pub open spec fn knight_offsets(sq: int) -> Seq<i8> {
    knight_offsets_upto(sq, 8)
}

/// Every step along a ray within its edge distance stays on the board.
pub proof fn lemma_ray_on_board(sq: int, d: int, k: int)
    requires
        on_board(sq),
        0 <= d < 8,
        0 <= k <= edge_dist(sq, d),
    ensures
        on_board(sq + k * dir_offset(d)),
{
    assert(sq == (sq / 8) * 8 + sq % 8);
}

/// Each allowed knight jump lands on the board.
pub proof fn lemma_knight_offsets_on_board(sq: int, k: int, j: int)
    requires
        0 <= j < knight_offsets_upto(sq, k).len(),
    ensures
        on_board(sq + knight_offsets_upto(sq, k)[j]),
    decreases k,
{
    if k > 0 {
        if j < knight_offsets_upto(sq, k - 1).len() {
            lemma_knight_offsets_on_board(sq, k - 1, j);
        }
    }
}

pub fn direction_offset(d: usize) -> (r: i8)
    requires
        d < 8,
    ensures
        r == dir_offset(d as int),
{
    match d {
        0 => -8,
        1 => 8,
        2 => -1,
        3 => 1,
        4 => -9,
        5 => -7,
        6 => 7,
        _ => 9,
    }
}

fn knight_jump(k: usize) -> (r: i8)
    requires
        k < 8,
    ensures
        r == knight_offset(k as int),
{
    match k {
        0 => -17,
        1 => -15,
        2 => -10,
        3 => -6,
        4 => 6,
        5 => 10,
        6 => 15,
        _ => 17,
    }
}

fn min_i8(a: i8, b: i8) -> (r: i8)
    ensures
        r == min(a as int, b as int),
{
    if a < b {
        a
    } else {
        b
    }
}

/// For each square, the number of steps to the edge in each direction.
pub fn calc_num_times_to_edge() -> (r: [[i8; 8]; 64])
    ensures
        forall|i: int, d: int| 0 <= i < 64 && 0 <= d < 8 ==> #[trigger] r@[i]@[d] == edge_dist(i, d),
{
    let mut table: [[i8; 8]; 64] = [[0; 8]; 64];
    let mut index: usize = 0;
    while index < 64
        invariant
            index <= 64,
            forall|i: int, d: int|
                0 <= i < index && 0 <= d < 8 ==> #[trigger] table@[i]@[d] == edge_dist(i, d),
        decreases 64 - index,
    {
        let file = (index % 8) as i8;
        let rank = (index / 8) as i8;
        let north = rank;
        let south = 7 - rank;
        let west = file;
        let east = 7 - file;
        let row: [i8; 8] = [
            north,
            south,
            west,
            east,
            min_i8(north, west),
            min_i8(north, east),
            min_i8(south, west),
            min_i8(south, east),
        ];
        table[index] = row;
        assert forall|d: int| 0 <= d < 8 implies #[trigger] table@[index as int]@[d] == edge_dist(
            index as int,
            d,
        ) by {
            assert(table@[index as int]@[d] == row@[d]);
        }
        index += 1;
    }
    table
}

/// For each square, the knight jumps from it that stay on the board.
pub fn calc_knight_moves() -> (r: Vec<Vec<i8>>)
    ensures
        r@.len() == 64,
        forall|i: int| 0 <= i < 64 ==> #[trigger] r@[i]@ == knight_offsets(i),
{
    let mut table: Vec<Vec<i8>> = Vec::new();
    let mut index: i8 = 0;
    while index < 64
        invariant
            0 <= index <= 64,
            table@.len() == index,
            forall|i: int| 0 <= i < index ==> #[trigger] table@[i]@ == knight_offsets(i),
        decreases 64 - index,
    {
        let mut jumps: Vec<i8> = Vec::new();
        let mut k: usize = 0;
        while k < 8
            invariant
                0 <= index < 64,
                k <= 8,
                jumps@ == knight_offsets_upto(index as int, k as int),
            decreases 8 - k,
        {
            let offset = knight_jump(k);
            let end = index + offset;
            if end >= 0 && end < 64 {
                let file_dist = if index % 8 > end % 8 {
                    index % 8 - end % 8
                } else {
                    end % 8 - index % 8
                };
                let rank_dist = if index / 8 > end / 8 {
                    index / 8 - end / 8
                } else {
                    end / 8 - index / 8
                };
                let dist = if file_dist > rank_dist {
                    file_dist
                } else {
                    rank_dist
                };
                if dist == 2 {
                    jumps.push(offset);
                }
            }
            k += 1;
        }
        table.push(jumps);
        index += 1;
    }
    table
}

/// The edge distances and knight jumps of every square, built once and then
/// only read.
pub struct MoveTables {
    pub edges: [[i8; 8]; 64],
    pub knights: Vec<Vec<i8>>,
}

impl MoveTables {
    pub open spec fn wf(&self) -> bool {
        &&& forall|i: int, d: int|
            0 <= i < 64 && 0 <= d < 8 ==> #[trigger] self.edges@[i]@[d] == edge_dist(i, d)
        &&& self.knights@.len() == 64
        &&& forall|i: int| 0 <= i < 64 ==> #[trigger] self.knights@[i]@ == knight_offsets(i)
    }

    pub fn new() -> (r: MoveTables)
        ensures
            r.wf(),
    {
        MoveTables { edges: calc_num_times_to_edge(), knights: calc_knight_moves() }
    }
}

} // verus!
