use vstd::prelude::*;

use crate::coord::{in_octagon, Coord, SIZE};

verus! {

/// What a cell holds.
#[derive(Clone, Copy, Debug, PartialEq, Eq, Structural)]
pub enum Piece {
    Empty,
    Dwarf,
    Troll,
    Thudstone,
}

/// The piece at column `x`, row `y` of a board laid out column by column.
pub open spec fn at(b: Seq<Piece>, x: int, y: int) -> Piece {
    b[x * 15 + y]
}

/// Whether `(x, y)` lies on the rim of the octagon.
pub open spec fn on_rim(x: int, y: int) -> bool {
    ||| x == 0
    ||| x == 14
    ||| y == 0
    ||| y == 14
    ||| x + y == 5
    ||| (14 - x) + y == 5
    ||| x + (14 - y) == 5
    ||| (14 - x) + (14 - y) == 5
}

/// The standard starting layout: the Thudstone in the centre, the eight Trolls
/// around it, and Dwarfs on the rim but for the middle cell of each straight
/// edge.
pub open spec fn start_piece(x: int, y: int) -> Piece {
    if !in_octagon(x, y) {
        Piece::Empty
    } else if x == 7 && y == 7 {
        Piece::Thudstone
    } else if 6 <= x <= 8 && 6 <= y <= 8 {
        Piece::Troll
    } else if on_rim(x, y) && !((x == 7 && (y == 0 || y == 14)) || (y == 7 && (x == 0 || x
        == 14))) {
        Piece::Dwarf
    } else {
        Piece::Empty
    }
}

/// How many cells of `s` hold `p`.
pub open spec fn count_of(s: Seq<Piece>, p: Piece) -> nat
    decreases s.len(),
{
    if s.len() == 0 {
        0
    } else {
        count_of(s.drop_last(), p) + if s.last() == p {
            1nat
        } else {
            0nat
        }
    }
}

/// A count never exceeds the number of cells.
pub proof fn lemma_count_le_len(s: Seq<Piece>, p: Piece)
    ensures
        count_of(s, p) <= s.len(),
    decreases s.len(),
{
    if s.len() > 0 {
        lemma_count_le_len(s.drop_last(), p);
    }
}

/// Writing one cell changes each count by what left and what came.
pub proof fn lemma_count_update(s: Seq<Piece>, i: int, q: Piece, p: Piece)
    requires
        0 <= i < s.len(),
    ensures
        count_of(s.update(i, q), p) + (if s[i] == p {
            1int
        } else {
            0int
        }) == count_of(s, p) + (if q == p {
            1int
        } else {
            0int
        }),
    decreases s.len(),
{
    let t = s.update(i, q);
    if i == s.len() - 1 {
        assert(t.drop_last() =~= s.drop_last());
    } else {
        assert(t.drop_last() =~= s.drop_last().update(i, q));
        lemma_count_update(s.drop_last(), i, q, p);
    }
}

/// The octagonal board: one piece for each cell of the bounding grid, column by
/// column. Cells outside the octagon stay empty, and the Thudstone stays in the
/// centre.
pub struct Board {
    cells: Vec<Piece>,
}

impl Board {
    /// The pieces of all 225 cells of the grid, column by column.
    pub closed spec fn view(&self) -> Seq<Piece> {
        self.cells@
    }

    /// The shape of every board: 225 cells, those outside the octagon empty, and
    /// the Thudstone in the centre and nowhere else.
    pub open spec fn wf(&self) -> bool {
        &&& self@.len() == 225
        &&& forall|x: int, y: int|
            0 <= x < 15 && 0 <= y < 15 ==> {
                &&& (!in_octagon(x, y) ==> #[trigger] at(self@, x, y) == Piece::Empty)
                &&& (at(self@, x, y) == Piece::Thudstone <==> (x == 7 && y == 7))
            }
    }

    /// A board in the standard starting layout.
    pub fn new() -> (r: Board)
        ensures
            r.wf(),
            forall|x: int, y: int|
                0 <= x < 15 && 0 <= y < 15 ==> #[trigger] at(r@, x, y) == start_piece(x, y),
    {
        let mut cells: Vec<Piece> = Vec::new();
        let mut x: usize = 0;
        while x < SIZE
            invariant
                x <= 15,
                cells@.len() == x * 15,
                forall|i: int, j: int|
                    0 <= i < x && 0 <= j < 15 ==> #[trigger] at(cells@, i, j) == start_piece(
                        i,
                        j,
                    ),
            decreases 15 - x,
        {
            let mut y: usize = 0;
            while y < SIZE
                invariant
                    x < 15,
                    y <= 15,
                    cells@.len() == x * 15 + y,
                    forall|i: int, j: int|
                        0 <= i < x && 0 <= j < 15 ==> #[trigger] at(cells@, i, j)
                            == start_piece(i, j),
                    forall|j: int| 0 <= j < y ==> #[trigger] at(cells@, x as int, j) == start_piece(
                        x as int,
                        j,
                    ),
                decreases 15 - y,
            {
                let p = start_piece_at(x, y);
                let ghost prev = cells@;
                cells.push(p);
                proof {
                    assert forall|i: int, j: int| 0 <= i < x && 0 <= j < 15 implies #[trigger] at(
                        cells@,
                        i,
                        j,
                    ) == start_piece(i, j) by {
                        assert(at(cells@, i, j) == at(prev, i, j));
                    }
                    assert forall|j: int| 0 <= j <= y implies #[trigger] at(
                        cells@,
                        x as int,
                        j,
                    ) == start_piece(x as int, j) by {
                        if j < y {
                            assert(at(cells@, x as int, j) == at(prev, x as int, j));
                        }
                    }
                }
                y = y + 1;
            }
            x = x + 1;
        }
        Board { cells }
    }

    /// The piece on cell `c`.
    pub fn piece_at(&self, c: Coord) -> (r: Piece)
        requires
            self.wf(),
        ensures
            r == at(self@, c@.0, c@.1),
    {
        let x = c.x();
        let y = c.y();
        self.cells[x * SIZE + y]
    }

    /// The piece at column `x`, row `y` of the grid.
    pub fn get(&self, x: usize, y: usize) -> (r: Piece)
        requires
            self.wf(),
            x < 15,
            y < 15,
        ensures
            r == at(self@, x as int, y as int),
    {
        self.cells[x * SIZE + y]
    }

    /// Puts `p` on the playable cell at column `x`, row `y`; neither the old piece
    /// nor the new one is the Thudstone.
    pub(crate) fn set(&mut self, x: usize, y: usize, p: Piece)
        requires
            old(self).wf(),
            in_octagon(x as int, y as int),
            p != Piece::Thudstone,
            at(old(self)@, x as int, y as int) != Piece::Thudstone,
        ensures
            final(self).wf(),
            final(self)@ == old(self)@.update(x * 15 + y, p),
    {
        self.cells.set(x * SIZE + y, p);
        proof {
            assert forall|i: int, j: int| 0 <= i < 15 && 0 <= j < 15 implies {
                &&& (!in_octagon(i, j) ==> #[trigger] at(self@, i, j) == Piece::Empty)
                &&& (at(self@, i, j) == Piece::Thudstone <==> (i == 7 && j == 7))
            } by {
                if i != x || j != y {
                    assert(i * 15 + j != x * 15 + y);
                    assert(at(self@, i, j) == at(old(self)@, i, j));
                }
            }
        }
    }

    /// How many cells hold `p`.
    pub fn count(&self, p: Piece) -> (r: usize)
        requires
            self.wf(),
        ensures
            r == count_of(self@, p),
    {
        let mut n: usize = 0;
        let mut i: usize = 0;
        while i < self.cells.len()
            invariant
                self.wf(),
                i <= self@.len(),
                n == count_of(self@.take(i as int), p),
                n <= i,
            decreases self@.len() - i,
        {
            proof {
                assert(self@.take(i + 1).drop_last() =~= self@.take(i as int));
            }
            if self.cells[i] == p {
                n = n + 1;
            }
            i = i + 1;
        }
        proof {
            assert(self@.take(i as int) =~= self@);
        }
        n
    }

    /// A copy of the whole grid, indexed by column and then by row; cells outside
    /// the octagon read as empty.
    pub fn full_raw(&self) -> (r: Vec<Vec<Piece>>)
        requires
            self.wf(),
        ensures
            r@.len() == 15,
            forall|x: int| 0 <= x < 15 ==> (#[trigger] r@[x])@.len() == 15,
            forall|x: int, y: int|
                0 <= x < 15 && 0 <= y < 15 ==> r@[x]@[y] == #[trigger] at(self@, x, y),
    {
        let mut r: Vec<Vec<Piece>> = Vec::new();
        let mut x: usize = 0;
        while x < SIZE
            invariant
                self.wf(),
                x <= 15,
                r@.len() == x,
                forall|i: int| 0 <= i < x ==> (#[trigger] r@[i])@.len() == 15,
                forall|i: int, j: int|
                    0 <= i < x && 0 <= j < 15 ==> r@[i]@[j] == #[trigger] at(self@, i, j),
            decreases 15 - x,
        {
            let mut col: Vec<Piece> = Vec::new();
            let mut y: usize = 0;
            while y < SIZE
                invariant
                    self.wf(),
                    x < 15,
                    y <= 15,
                    col@.len() == y,
                    forall|j: int| 0 <= j < y ==> col@[j] == #[trigger] at(self@, x as int, j),
                decreases 15 - y,
            {
                col.push(self.get(x, y));
                y = y + 1;
            }
            r.push(col);
            x = x + 1;
        }
        r
    }
}

/// The starting piece of column `x`, row `y`.
fn start_piece_at(x: usize, y: usize) -> (r: Piece)
    requires
        x < 15,
        y < 15,
    ensures
        r == start_piece(x as int, y as int),
{
    let inside = x + y >= 5 && (14 - x) + y >= 5 && x + (14 - y) >= 5 && (14 - x) + (14 - y) >= 5;
    let rim = x == 0 || x == 14 || y == 0 || y == 14 || x + y == 5 || (14 - x) + y == 5 || x + (14
        - y) == 5 || (14 - x) + (14 - y) == 5;
    let edge_middle = (x == 7 && (y == 0 || y == 14)) || (y == 7 && (x == 0 || x == 14));
    if !inside {
        Piece::Empty
    } else if x == 7 && y == 7 {
        Piece::Thudstone
    } else if 6 <= x && x <= 8 && 6 <= y && y <= 8 {
        Piece::Troll
    } else if rim && !edge_middle {
        Piece::Dwarf
    } else {
        Piece::Empty
    }
}

} // verus!
