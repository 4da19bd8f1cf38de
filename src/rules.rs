use vstd::prelude::*;

use crate::board::{at, count_of, lemma_count_update, Board, Piece};
use crate::coord::{dir_of_num, in_octagon, neighbor, next, Direction, SIZE};

verus! {

/// The two sides.
#[derive(Clone, Copy, Debug, PartialEq, Eq, Structural)]
pub enum Player {
    Dwarf,
    Troll,
}

/// How a finished game ended.
#[derive(Clone, Copy, Debug, PartialEq, Eq, Structural)]
pub enum EndState {
    Won(Player),
    Draw,
}

/// The side that is not `p`.
pub open spec fn other(p: Player) -> Player {
    match p {
        Player::Dwarf => Player::Troll,
        Player::Troll => Player::Dwarf,
    }
}

/// The piece that side `p` commands.
pub open spec fn piece_of(p: Player) -> Piece {
    match p {
        Player::Dwarf => Piece::Dwarf,
        Player::Troll => Piece::Troll,
    }
}

/// The piece on cell `c`.
pub open spec fn piece(b: Seq<Piece>, c: (int, int)) -> Piece {
    at(b, c.0, c.1)
}

/// Where cell `c` is stored.
pub open spec fn idx(c: (int, int)) -> int {
    c.0 * 15 + c.1
}

pub open spec fn abs(v: int) -> int {
    if v < 0 {
        -v
    } else {
        v
    }
}

pub open spec fn sgn(v: int) -> int {
    if v > 0 {
        1
    } else if v < 0 {
        -1
    } else {
        0
    }
}

/// `j` steps along an axis whose step is `s` (one of -1, 0, 1).
pub open spec fn scale(j: int, s: int) -> int {
    if s > 0 {
        j
    } else if s < 0 {
        -j
    } else {
        0
    }
}

/// Whether `t` lies on a straight line from `s` along one of the eight directions.
pub open spec fn is_line(s: (int, int), t: (int, int)) -> bool {
    &&& s != t
    &&& (s.0 == t.0 || s.1 == t.1 || abs(t.0 - s.0) == abs(t.1 - s.1))
}

/// The number of king steps from `s` to `t`.
pub open spec fn dist(s: (int, int), t: (int, int)) -> int {
    if abs(t.0 - s.0) >= abs(t.1 - s.1) {
        abs(t.0 - s.0)
    } else {
        abs(t.1 - s.1)
    }
}

/// The cell `j` steps from `s` towards `t`.
pub open spec fn path_cell(s: (int, int), t: (int, int), j: int) -> (int, int) {
    (s.0 + scale(j, sgn(t.0 - s.0)), s.1 + scale(j, sgn(t.1 - s.1)))
}

/// Every cell strictly between `s` and `t` is empty.
pub open spec fn path_clear(b: Seq<Piece>, s: (int, int), t: (int, int)) -> bool {
    forall|j: int| 0 < j < dist(s, t) ==> piece(b, #[trigger] path_cell(s, t, j)) == Piece::Empty
}

/// A Dwarf slide from `s` to `t`: a Dwarf on `s`, `t` empty, the two on one
/// line, and nothing in between.
pub open spec fn legal_slide(b: Seq<Piece>, s: (int, int), t: (int, int)) -> bool {
    &&& piece(b, s) == Piece::Dwarf
    &&& piece(b, t) == Piece::Empty
    &&& is_line(s, t)
    &&& path_clear(b, s, t)
}

/// A Troll step from `s` to the empty neighbouring cell `t`.
pub open spec fn legal_step(b: Seq<Piece>, s: (int, int), t: (int, int)) -> bool {
    &&& piece(b, s) == Piece::Troll
    &&& piece(b, t) == Piece::Empty
    &&& dist(s, t) == 1
}

/// The neighbour of `s` in direction `d` is a playable cell holding a Troll.
pub open spec fn troll_adjacent(b: Seq<Piece>, s: (int, int), d: Direction) -> bool {
    &&& in_octagon(next(s, d).0, next(s, d).1)
    &&& piece(b, next(s, d)) == Piece::Troll
}

/// A stationary capture by the Dwarf on `s` of the Trolls next to it in each of
/// `dirs`: at least one direction, and a Troll in every one.
pub open spec fn legal_cap(b: Seq<Piece>, s: (int, int), dirs: Seq<Direction>) -> bool {
    &&& piece(b, s) == Piece::Dwarf
    &&& dirs.len() > 0
    &&& forall|i: int| 0 <= i < dirs.len() ==> troll_adjacent(b, s, #[trigger] dirs[i])
}

/// Cell `c` emptied if it is playable and holds `p`; the board as it was otherwise.
pub open spec fn clear_if(b: Seq<Piece>, c: (int, int), p: Piece) -> Seq<Piece> {
    if in_octagon(c.0, c.1) && piece(b, c) == p {
        b.update(idx(c), Piece::Empty)
    } else {
        b
    }
}

/// The Dwarfs next to `t` in the first `n` directions removed.
pub open spec fn smash(b: Seq<Piece>, t: (int, int), n: nat) -> Seq<Piece>
    decreases n,
{
    if n == 0 {
        b
    } else {
        clear_if(smash(b, t, (n - 1) as nat), next(t, dir_of_num(n - 1).unwrap()), Piece::Dwarf)
    }
}

/// The Trolls next to `s` in each of `dirs` removed.
pub open spec fn capture(b: Seq<Piece>, s: (int, int), dirs: Seq<Direction>) -> Seq<Piece>
    decreases dirs.len(),
{
    if dirs.len() == 0 {
        b
    } else {
        clear_if(capture(b, s, dirs.drop_last()), next(s, dirs.last()), Piece::Troll)
    }
}

/// The piece on cell `c` can act: a Dwarf next to an empty cell (a slide of at
/// least one step) or to a Troll (a capture); a Troll next to an empty cell.
pub open spec fn cell_acts(b: Seq<Piece>, c: (int, int), p: Player) -> bool {
    &&& in_octagon(c.0, c.1)
    &&& piece(b, c) == piece_of(p)
    &&& exists|d: Direction|
        {
            &&& in_octagon(#[trigger] next(c, d).0, next(c, d).1)
            &&& (piece(b, next(c, d)) == Piece::Empty || (p == Player::Dwarf && piece(
                b,
                next(c, d),
            ) == Piece::Troll))
        }
}

/// Side `p` has at least one legal action.
pub open spec fn can_act(b: Seq<Piece>, p: Player) -> bool {
    exists|x: int, y: int| #[trigger] cell_acts(b, (x, y), p)
}

/// The end of the game as the position decides it, with `to_move` to move: a
/// side without pieces loses; a side to move that cannot act loses, or draws
/// when neither side can act.
pub open spec fn outcome(b: Seq<Piece>, to_move: Player) -> Option<EndState> {
    if count_of(b, Piece::Dwarf) == 0 {
        Some(EndState::Won(Player::Troll))
    } else if count_of(b, Piece::Troll) == 0 {
        Some(EndState::Won(Player::Dwarf))
    } else if !can_act(b, to_move) {
        if !can_act(b, other(to_move)) {
            Some(EndState::Draw)
        } else {
            Some(EndState::Won(other(to_move)))
        }
    } else {
        None
    }
}

/// Emptying a cell keeps every count but those of the piece taken and of empty
/// cells, and never raises the count of the piece taken.
pub proof fn lemma_clear_if_counts(b: Seq<Piece>, c: (int, int), p: Piece, q: Piece)
    requires
        b.len() == 225,
    ensures
        q != p && q != Piece::Empty ==> count_of(clear_if(b, c, p), q) == count_of(b, q),
        count_of(clear_if(b, c, p), p) <= count_of(b, p),
        p != Piece::Empty && in_octagon(c.0, c.1) && piece(b, c) == p ==> count_of(
            clear_if(b, c, p),
            p,
        ) + 1 == count_of(b, p),
{
    if in_octagon(c.0, c.1) && piece(b, c) == p {
        lemma_count_update(b, idx(c), Piece::Empty, q);
        lemma_count_update(b, idx(c), Piece::Empty, p);
    }
}

/// Smashing keeps the length and every count but those of Dwarfs and empty
/// cells, and never raises the Dwarf count.
pub proof fn lemma_smash_counts(b: Seq<Piece>, t: (int, int), n: nat, q: Piece)
    requires
        b.len() == 225,
        n <= 8,
    ensures
        smash(b, t, n).len() == 225,
        q != Piece::Dwarf && q != Piece::Empty ==> count_of(smash(b, t, n), q) == count_of(b, q),
        count_of(smash(b, t, n), Piece::Dwarf) <= count_of(b, Piece::Dwarf),
    decreases n,
{
    if n > 0 {
        lemma_smash_counts(b, t, (n - 1) as nat, q);
        let prev = smash(b, t, (n - 1) as nat);
        lemma_clear_if_counts(prev, next(t, dir_of_num(n - 1).unwrap()), Piece::Dwarf, q);
    }
}

/// Capturing keeps the length and every count but those of Trolls and empty
/// cells, and never raises the Troll count.
pub proof fn lemma_capture_counts(b: Seq<Piece>, s: (int, int), dirs: Seq<Direction>, q: Piece)
    requires
        b.len() == 225,
    ensures
        capture(b, s, dirs).len() == 225,
        q != Piece::Troll && q != Piece::Empty ==> count_of(capture(b, s, dirs), q) == count_of(
            b,
            q,
        ),
        count_of(capture(b, s, dirs), Piece::Troll) <= count_of(b, Piece::Troll),
    decreases dirs.len(),
{
    if dirs.len() > 0 {
        lemma_capture_counts(b, s, dirs.drop_last(), q);
        let prev = capture(b, s, dirs.drop_last());
        lemma_clear_if_counts(prev, next(s, dirs.last()), Piece::Troll, q);
    }
}

/// Whether the slide from `(x0, y0)` to `(x1, y1)` is legal.
pub fn slide_ok(b: &Board, x0: usize, y0: usize, x1: usize, y1: usize) -> (r: bool)
    requires
        b.wf(),
        in_octagon(x0 as int, y0 as int),
        in_octagon(x1 as int, y1 as int),
    ensures
        r == legal_slide(b@, (x0 as int, y0 as int), (x1 as int, y1 as int)),
{
    let ghost s = (x0 as int, y0 as int);
    let ghost t = (x1 as int, y1 as int);
    if b.get(x0, y0) != Piece::Dwarf || b.get(x1, y1) != Piece::Empty {
        return false;
    }
    let dx: i64 = x1 as i64 - x0 as i64;
    let dy: i64 = y1 as i64 - y0 as i64;
    let adx: i64 = if dx < 0 { -dx } else { dx };
    let ady: i64 = if dy < 0 { -dy } else { dy };
    if (dx == 0 && dy == 0) || !(dx == 0 || dy == 0 || adx == ady) {
        return false;
    }
    let sx: i64 = if dx > 0 { 1 } else if dx < 0 { -1 } else { 0 };
    let sy: i64 = if dy > 0 { 1 } else if dy < 0 { -1 } else { 0 };
    let k: i64 = if adx >= ady { adx } else { ady };
    assert(k == dist(s, t));
    let mut j: i64 = 1;
    while j < k
        invariant
            b.wf(),
            1 <= j <= k,
            k == dist(s, t),
            is_line(s, t),
            sx == sgn(t.0 - s.0),
            sy == sgn(t.1 - s.1),
            s == (x0 as int, y0 as int),
            t == (x1 as int, y1 as int),
            0 <= x0 < 15,
            0 <= y0 < 15,
            0 <= x1 < 15,
            0 <= y1 < 15,
            forall|i: int| 0 < i < j ==> piece(b@, #[trigger] path_cell(s, t, i)) == Piece::Empty,
        decreases k - j,
    {
        let px: i64 = if sx > 0 { x0 as i64 + j } else if sx < 0 { x0 as i64 - j } else { x0 as i64 };
        let py: i64 = if sy > 0 { y0 as i64 + j } else if sy < 0 { y0 as i64 - j } else { y0 as i64 };
        assert((px as int, py as int) == path_cell(s, t, j as int));
        if b.get(px as usize, py as usize) != Piece::Empty {
            return false;
        }
        j = j + 1;
    }
    true
}

/// Whether the piece on column `x`, row `y` belongs to `p` and can act.
fn cell_can_act(b: &Board, x: usize, y: usize, p: Player) -> (r: bool)
    requires
        b.wf(),
        x < 15,
        y < 15,
    ensures
        r == cell_acts(b@, (x as int, y as int), p),
{
    let ghost c = (x as int, y as int);
    let own = match p {
        Player::Dwarf => Piece::Dwarf,
        Player::Troll => Piece::Troll,
    };
    if b.get(x, y) != own {
        return false;
    }
    let mut n: usize = 0;
    while n < 8
        invariant
            b.wf(),
            x < 15,
            y < 15,
            c == (x as int, y as int),
            n <= 8,
            at(b@, x as int, y as int) == piece_of(p),
            forall|m: int|
                0 <= m < n ==> !{
                    let d = #[trigger] dir_of_num(m).unwrap();
                    &&& in_octagon(next(c, d).0, next(c, d).1)
                    &&& (piece(b@, next(c, d)) == Piece::Empty || (p == Player::Dwarf && piece(
                        b@,
                        next(c, d),
                    ) == Piece::Troll))
                },
        decreases 8 - n,
    {
        let d = match Direction::from_num(n) {
            Ok(d) => d,
            Err(_) => {
                return false;
            },
        };
        match neighbor(x, y, d) {
            Some((nx, ny)) => {
                let q = b.get(nx, ny);
                if q == Piece::Empty || (p == Player::Dwarf && q == Piece::Troll) {
                    proof {
                        assert(in_octagon(x as int, y as int));
                        assert(cell_acts(b@, c, p));
                    }
                    return true;
                }
            },
            None => {},
        }
        n = n + 1;
    }
    proof {
        assert forall|d: Direction|
            !{
                &&& in_octagon(#[trigger] next(c, d).0, next(c, d).1)
                &&& (piece(b@, next(c, d)) == Piece::Empty || (p == Player::Dwarf && piece(
                    b@,
                    next(c, d),
                ) == Piece::Troll))
            } by {
            let m = crate::coord::dir_num(d);
            assert(dir_of_num(m).unwrap() == d);
        }
    }
    false
}

/// Whether side `p` has a legal action.
pub fn side_can_act(b: &Board, p: Player) -> (r: bool)
    requires
        b.wf(),
    ensures
        r == can_act(b@, p),
{
    let mut x: usize = 0;
    while x < SIZE
        invariant
            b.wf(),
            x <= 15,
            forall|i: int, j: int| 0 <= i < x && 0 <= j < 15 ==> !#[trigger] cell_acts(b@, (i, j), p),
        decreases 15 - x,
    {
        let mut y: usize = 0;
        while y < SIZE
            invariant
                b.wf(),
                x < 15,
                y <= 15,
                forall|i: int, j: int|
                    0 <= i < x && 0 <= j < 15 ==> !#[trigger] cell_acts(b@, (i, j), p),
                forall|j: int| 0 <= j < y ==> !#[trigger] cell_acts(b@, (x as int, j), p),
            decreases 15 - y,
        {
            if cell_can_act(b, x, y, p) {
                return true;
            }
            y = y + 1;
        }
        x = x + 1;
    }
    proof {
        assert forall|i: int, j: int| !#[trigger] cell_acts(b@, (i, j), p) by {
            if 0 <= i < 15 && 0 <= j < 15 {
            }
        }
    }
    false
}

/// The end of the game for the board `b` with `to_move` to move.
pub fn evaluate(b: &Board, to_move: Player) -> (r: Option<EndState>)
    requires
        b.wf(),
    ensures
        r == outcome(b@, to_move),
{
    let opponent = match to_move {
        Player::Dwarf => Player::Troll,
        Player::Troll => Player::Dwarf,
    };
    if b.count(Piece::Dwarf) == 0 {
        Some(EndState::Won(Player::Troll))
    } else if b.count(Piece::Troll) == 0 {
        Some(EndState::Won(Player::Dwarf))
    } else if !side_can_act(b, to_move) {
        if !side_can_act(b, opponent) {
            Some(EndState::Draw)
        } else {
            Some(EndState::Won(opponent))
        }
    } else {
        None
    }
}

} // verus!
