use vstd::prelude::*;

verus! {

/// Side length of the square grid that bounds the octagonal board.
pub const SIZE: usize = 15;

/// Whether `(x, y)` is a playable cell: inside the 15 by 15 grid, and not in one
/// of the four triangular corners (five cells wide along each edge) cut off to
/// form the octagon.
pub open spec fn in_octagon(x: int, y: int) -> bool {
    &&& 0 <= x < 15
    &&& 0 <= y < 15
    &&& x + y >= 5
    &&& (14 - x) + y >= 5
    &&& x + (14 - y) >= 5
    &&& (14 - x) + (14 - y) >= 5
}

/// Errors reported by the engine.
#[derive(Clone, Copy, Debug, PartialEq, Eq, Structural)]
pub enum ThudError {
    /// A coordinate outside the playable octagon.
    OutOfBounds,
    /// A direction ordinal outside `0..8`.
    InvalidDirection,
    /// The action belongs to the side that is not to move.
    WrongTurn,
    /// The action breaks the rules of movement or capture.
    IllegalMove,
    /// The game has already ended.
    GameOver,
}

/// The eight compass directions, numbered clockwise from `Right`.
#[derive(Clone, Copy, Debug, PartialEq, Eq, Structural)]
pub enum Direction {
    Right,
    DownRight,
    Down,
    DownLeft,
    Left,
    UpLeft,
    Up,
    UpRight,
}

/// The ordinal of a direction: `Right` is 0, increasing clockwise.
pub open spec fn dir_num(d: Direction) -> int {
    match d {
        Direction::Right => 0,
        Direction::DownRight => 1,
        Direction::Down => 2,
        Direction::DownLeft => 3,
        Direction::Left => 4,
        Direction::UpLeft => 5,
        Direction::Up => 6,
        Direction::UpRight => 7,
    }
}

/// The step that a direction makes on the grid; `y` grows downwards.
pub open spec fn delta(d: Direction) -> (int, int) {
    match d {
        Direction::Right => (1, 0),
        Direction::DownRight => (1, 1),
        Direction::Down => (0, 1),
        Direction::DownLeft => (-1, 1),
        Direction::Left => (-1, 0),
        Direction::UpLeft => (-1, -1),
        Direction::Up => (0, -1),
        Direction::UpRight => (1, -1),
    }
}

/// The direction with the given ordinal, if the ordinal is one.
pub open spec fn dir_of_num(n: int) -> Option<Direction> {
    if n == 0 {
        Some(Direction::Right)
    } else if n == 1 {
        Some(Direction::DownRight)
    } else if n == 2 {
        Some(Direction::Down)
    } else if n == 3 {
        Some(Direction::DownLeft)
    } else if n == 4 {
        Some(Direction::Left)
    } else if n == 5 {
        Some(Direction::UpLeft)
    } else if n == 6 {
        Some(Direction::Up)
    } else if n == 7 {
        Some(Direction::UpRight)
    } else {
        None
    }
}

/// The cell one step from `c` in direction `d`.
pub open spec fn next(c: (int, int), d: Direction) -> (int, int) {
    (c.0 + delta(d).0, c.1 + delta(d).1)
}

/// The playable cell one step from column `x`, row `y` in direction `d`, if any.
pub fn neighbor(x: usize, y: usize, d: Direction) -> (r: Option<(usize, usize)>)
    requires
        x < 15,
        y < 15,
    ensures
        r is Some <==> in_octagon(next((x as int, y as int), d).0, next((x as int, y as int), d).1),
        r matches Some(n) ==> (n.0 as int, n.1 as int) == next((x as int, y as int), d),
{
    let (dx, dy): (i64, i64) = match d {
        Direction::Right => (1, 0),
        Direction::DownRight => (1, 1),
        Direction::Down => (0, 1),
        Direction::DownLeft => (-1, 1),
        Direction::Left => (-1, 0),
        Direction::UpLeft => (-1, -1),
        Direction::Up => (0, -1),
        Direction::UpRight => (1, -1),
    };
    let nx: i64 = x as i64 + dx;
    let ny: i64 = y as i64 + dy;
    if nx < 0 || ny < 0 {
        return None;
    }
    match Coord::zero_based(nx as usize, ny as usize) {
        Ok(_) => Some((nx as usize, ny as usize)),
        Err(_) => None,
    }
}

impl Direction {
    /// The direction with ordinal `n`; `InvalidDirection` unless `n < 8`.
    pub fn from_num(n: usize) -> (r: Result<Direction, ThudError>)
        ensures
            n < 8 ==> r == Ok::<Direction, ThudError>(dir_of_num(n as int).unwrap()),
            n >= 8 ==> r == Err::<Direction, ThudError>(ThudError::InvalidDirection),
            r matches Ok(d) ==> dir_num(d) == n,
    {
        match n {
            0 => Ok(Direction::Right),
            1 => Ok(Direction::DownRight),
            2 => Ok(Direction::Down),
            3 => Ok(Direction::DownLeft),
            4 => Ok(Direction::Left),
            5 => Ok(Direction::UpLeft),
            6 => Ok(Direction::Up),
            7 => Ok(Direction::UpRight),
            _ => Err(ThudError::InvalidDirection),
        }
    }

    /// The ordinal of this direction.
    pub fn num(&self) -> (r: usize)
        ensures
            r == dir_num(*self),
    {
        match self {
            Direction::Right => 0,
            Direction::DownRight => 1,
            Direction::Down => 2,
            Direction::DownLeft => 3,
            Direction::Left => 4,
            Direction::UpLeft => 5,
            Direction::Up => 6,
            Direction::UpRight => 7,
        }
    }
}

/// A playable cell of the board, given by zero-based column `x` and row `y`.
#[derive(Clone, Copy, Debug, PartialEq, Eq, Structural)]
pub struct Coord {
    x: usize,
    y: usize,
}

impl Coord {
    #[verifier::type_invariant]
    spec fn inv(self) -> bool {
        in_octagon(self.x as int, self.y as int)
    }

    /// The column and row of this cell.
    pub closed spec fn view(self) -> (int, int) {
        (self.x as int, self.y as int)
    }

    /// The cell at column `x` and row `y`; `OutOfBounds` unless it is playable.
    pub fn zero_based(x: usize, y: usize) -> (r: Result<Coord, ThudError>)
        ensures
            in_octagon(x as int, y as int) <==> r is Ok,
            r matches Ok(c) ==> c@ == (x as int, y as int),
            r matches Err(e) ==> e == ThudError::OutOfBounds,
    {
        if x < SIZE && y < SIZE && x + y >= 5 && (14 - x) + y >= 5 && x + (14 - y) >= 5 && (14
            - x) + (14 - y) >= 5 {
            Ok(Coord { x, y })
        } else {
            Err(ThudError::OutOfBounds)
        }
    }

    /// The column of this cell.
    pub fn x(&self) -> (r: usize)
        ensures
            r as int == self@.0,
            in_octagon(self@.0, self@.1),
    {
        proof {
            use_type_invariant(self);
        }
        self.x
    }

    /// The row of this cell.
    pub fn y(&self) -> (r: usize)
        ensures
            r as int == self@.1,
            in_octagon(self@.0, self@.1),
    {
        proof {
            use_type_invariant(self);
        }
        self.y
    }
}

} // verus!
