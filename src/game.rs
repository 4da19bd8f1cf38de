use vstd::prelude::*;

use crate::board::{at, count_of, lemma_count_update, start_piece, Board, Piece};
use crate::coord::{dir_of_num, in_octagon, neighbor, next, Coord, Direction, ThudError};
use crate::rules::{
    capture, clear_if, evaluate, idx, legal_cap, legal_slide, legal_step, lemma_clear_if_counts,
    lemma_capture_counts, lemma_smash_counts, other, outcome, slide_ok, smash, troll_adjacent,
    EndState, Player, cell_acts, dist, abs,
};

verus! {

/// A game as a value: the board, the side to move, how the game ended if it
/// has, and the captures each side has made.
pub struct GameView {
    pub board: Seq<Piece>,
    pub turn: Player,
    pub end: Option<EndState>,
    pub dwarf_score: int,
    pub troll_score: int,
}

/// The game once an action has turned `g`'s board into `b`: the other side is
/// to move and the end is decided afresh.
pub open spec fn after(g: GameView, b: Seq<Piece>, dwarf_score: int, troll_score: int) -> GameView {
    GameView {
        board: b,
        turn: other(g.turn),
        end: outcome(b, other(g.turn)),
        dwarf_score,
        troll_score,
    }
}

/// A Dwarf slide from `s` to `t` in game `g`.
pub open spec fn slide_spec(g: GameView, s: (int, int), t: (int, int)) -> Result<GameView, ThudError> {
    if g.end is Some {
        Err(ThudError::GameOver)
    } else if g.turn != Player::Dwarf {
        Err(ThudError::WrongTurn)
    } else if !legal_slide(g.board, s, t) {
        Err(ThudError::IllegalMove)
    } else {
        let b = g.board.update(idx(s), Piece::Empty).update(idx(t), Piece::Dwarf);
        Ok(after(g, b, g.dwarf_score, g.troll_score))
    }
}

/// The board once a Troll has stepped from `s` to `t`, before any smash.
pub open spec fn stepped(b: Seq<Piece>, s: (int, int), t: (int, int)) -> Seq<Piece> {
    b.update(idx(s), Piece::Empty).update(idx(t), Piece::Troll)
}

/// A Troll step from `s` to `t` in game `g`, smashing every Dwarf next to `t`.
pub open spec fn attack_spec(g: GameView, s: (int, int), t: (int, int)) -> Result<GameView, ThudError> {
    if g.end is Some {
        Err(ThudError::GameOver)
    } else if g.turn != Player::Troll {
        Err(ThudError::WrongTurn)
    } else if !legal_step(g.board, s, t) {
        Err(ThudError::IllegalMove)
    } else {
        let b1 = stepped(g.board, s, t);
        let b2 = smash(b1, t, 8);
        Ok(
            after(
                g,
                b2,
                g.dwarf_score,
                g.troll_score + count_of(b1, Piece::Dwarf) - count_of(b2, Piece::Dwarf),
            ),
        )
    }
}

/// The Dwarf on `s` capturing the Trolls next to it in each of `dirs`, in game `g`.
pub open spec fn cap_spec(g: GameView, s: (int, int), dirs: Seq<Direction>) -> Result<GameView, ThudError> {
    if g.end is Some {
        Err(ThudError::GameOver)
    } else if g.turn != Player::Dwarf {
        Err(ThudError::WrongTurn)
    } else if !legal_cap(g.board, s, dirs) {
        Err(ThudError::IllegalMove)
    } else {
        let b = capture(g.board, s, dirs);
        Ok(
            after(
                g,
                b,
                g.dwarf_score + count_of(g.board, Piece::Troll) - count_of(b, Piece::Troll),
                g.troll_score,
            ),
        )
    }
}

/// What a call that may fail did to `g`: on success the new game is `res`'s,
/// on failure the error is `res`'s and the game is unchanged.
pub open spec fn applied(res: Result<GameView, ThudError>, r: Result<(), ThudError>, g: GameView, g2: GameView) -> bool {
    match res {
        Ok(n) => r is Ok && g2 == n,
        Err(e) => r == Err::<(), ThudError>(e) && g2 == g,
    }
}

/// A game of Thud.
pub struct Thud {
    board: Board,
    turn: Player,
    end: Option<EndState>,
    dwarf_score: u32,
    troll_score: u32,
}

impl Thud {
    pub closed spec fn view(&self) -> GameView {
        GameView {
            board: self.board@,
            turn: self.turn,
            end: self.end,
            dwarf_score: self.dwarf_score as int,
            troll_score: self.troll_score as int,
        }
    }

    /// The board keeps its shape, the end is what the position decides, and a
    /// side's captures and the pieces left of the other side never exceed the
    /// board.
    pub closed spec fn wf(&self) -> bool {
        &&& self.board.wf()
        &&& self.end == outcome(self.board@, self.turn)
        &&& self.dwarf_score + count_of(self.board@, Piece::Troll) <= 225
        &&& self.troll_score + count_of(self.board@, Piece::Dwarf) <= 225
    }

    /// A game in the standard starting layout, Dwarfs to move, nobody having
    /// captured anything.
    pub fn new() -> (r: Thud)
        ensures
            r.wf(),
            r@.board.len() == 225,
            forall|x: int, y: int|
                0 <= x < 15 && 0 <= y < 15 ==> #[trigger] at(r@.board, x, y) == start_piece(x, y),
            r@.turn == Player::Dwarf,
            r@.end is None,
            r@.dwarf_score == 0,
            r@.troll_score == 0,
    {
        let board = Board::new();
        proof {
            crate::board::lemma_count_le_len(board@, Piece::Troll);
            crate::board::lemma_count_le_len(board@, Piece::Dwarf);
            assert(at(board@, 5, 0) == Piece::Dwarf);
            assert(at(board@, 7, 6) == Piece::Troll);
            lemma_count_pos(board@, 75int, Piece::Dwarf);
            lemma_count_pos(board@, 111int, Piece::Troll);
            assert(next((5, 0), Direction::Down) == (5int, 1int));
            assert(at(board@, 5, 1) == Piece::Empty);
            let c = (5int, 0int);
            let d = Direction::Down;
            assert(in_octagon(next(c, d).0, next(c, d).1));
            assert(crate::rules::piece(board@, next(c, d)) == Piece::Empty);
            assert(crate::rules::piece(board@, c) == Piece::Dwarf);
            assert(cell_acts(board@, (5, 0), Player::Dwarf));
        }
        let end = evaluate(&board, Player::Dwarf);
        Thud { board, turn: Player::Dwarf, end, dwarf_score: 0, troll_score: 0 }
    }

    /// Slides the Dwarf on `src` to `dest`.
    pub fn move_piece(&mut self, src: Coord, dest: Coord) -> (r: Result<(), ThudError>)
        requires
            old(self).wf(),
        ensures
            final(self).wf(),
            applied(slide_spec(old(self)@, src@, dest@), r, old(self)@, final(self)@),
    {
        match self.end {
            Some(_) => {
                return Err(ThudError::GameOver);
            },
            None => {},
        }
        match self.turn {
            Player::Troll => {
                return Err(ThudError::WrongTurn);
            },
            Player::Dwarf => {},
        }
        let x0 = src.x();
        let y0 = src.y();
        let x1 = dest.x();
        let y1 = dest.y();
        if !slide_ok(&self.board, x0, y0, x1, y1) {
            return Err(ThudError::IllegalMove);
        }
        let ghost b0 = self.board@;
        proof {
            assert(idx(src@) != idx(dest@));
        }
        self.board.set(x0, y0, Piece::Empty);
        self.board.set(x1, y1, Piece::Dwarf);
        proof {
            let b1 = b0.update(idx(src@), Piece::Empty);
            lemma_count_update(b0, idx(src@), Piece::Empty, Piece::Dwarf);
            lemma_count_update(b0, idx(src@), Piece::Empty, Piece::Troll);
            lemma_count_update(b1, idx(dest@), Piece::Dwarf, Piece::Dwarf);
            lemma_count_update(b1, idx(dest@), Piece::Dwarf, Piece::Troll);
        }
        self.turn = Player::Troll;
        self.end = evaluate(&self.board, Player::Troll);
        Ok(())
    }

    /// Steps the Troll on `src` to `dest` and smashes every Dwarf next to `dest`.
    pub fn attack(&mut self, src: Coord, dest: Coord) -> (r: Result<(), ThudError>)
        requires
            old(self).wf(),
        ensures
            final(self).wf(),
            applied(attack_spec(old(self)@, src@, dest@), r, old(self)@, final(self)@),
    {
        match self.end {
            Some(_) => {
                return Err(ThudError::GameOver);
            },
            None => {},
        }
        match self.turn {
            Player::Dwarf => {
                return Err(ThudError::WrongTurn);
            },
            Player::Troll => {},
        }
        let x0 = src.x();
        let y0 = src.y();
        let x1 = dest.x();
        let y1 = dest.y();
        let dx: i64 = x1 as i64 - x0 as i64;
        let dy: i64 = y1 as i64 - y0 as i64;
        let near = -1 <= dx && dx <= 1 && -1 <= dy && dy <= 1 && !(dx == 0 && dy == 0);
        if self.board.get(x0, y0) != Piece::Troll || self.board.get(x1, y1) != Piece::Empty
            || !near {
            return Err(ThudError::IllegalMove);
        }
        let ghost b0 = self.board@;
        self.board.set(x0, y0, Piece::Empty);
        self.board.set(x1, y1, Piece::Troll);
        let ghost b1 = self.board@;
        proof {
            let bm = b0.update(idx(src@), Piece::Empty);
            lemma_count_update(b0, idx(src@), Piece::Empty, Piece::Dwarf);
            lemma_count_update(b0, idx(src@), Piece::Empty, Piece::Troll);
            lemma_count_update(bm, idx(dest@), Piece::Troll, Piece::Dwarf);
            lemma_count_update(bm, idx(dest@), Piece::Troll, Piece::Troll);
            lemma_smash_counts(b1, dest@, 8, Piece::Troll);
        }
        let captured = smash_around(&mut self.board, x1, y1);
        self.troll_score = self.troll_score + captured;
        self.turn = Player::Dwarf;
        self.end = evaluate(&self.board, Player::Dwarf);
        Ok(())
    }

    /// The Dwarf on `src` captures, all at once, the Troll next to it in each of
    /// `dirs`; it fails unless each of them points at a Troll.
    pub fn troll_cap(&mut self, src: Coord, dirs: &Vec<Direction>) -> (r: Result<(), ThudError>)
        requires
            old(self).wf(),
        ensures
            final(self).wf(),
            applied(cap_spec(old(self)@, src@, dirs@), r, old(self)@, final(self)@),
    {
        match self.end {
            Some(_) => {
                return Err(ThudError::GameOver);
            },
            None => {},
        }
        match self.turn {
            Player::Troll => {
                return Err(ThudError::WrongTurn);
            },
            Player::Dwarf => {},
        }
        let x = src.x();
        let y = src.y();
        if !cap_ok(&self.board, x, y, dirs) {
            return Err(ThudError::IllegalMove);
        }
        let ghost b0 = self.board@;
        proof {
            lemma_capture_counts(b0, src@, dirs@, Piece::Dwarf);
        }
        let captured = capture_around(&mut self.board, x, y, dirs);
        self.dwarf_score = self.dwarf_score + captured;
        self.turn = Player::Troll;
        self.end = evaluate(&self.board, Player::Troll);
        Ok(())
    }

    /// The side to move; `None` once the game has ended.
    pub fn turn(&self) -> (r: Option<Player>)
        ensures
            r == (if self@.end is Some {
                None::<Player>
            } else {
                Some(self@.turn)
            }),
    {
        match self.end {
            Some(_) => None,
            None => Some(self.turn),
        }
    }

    /// How the game ended; `None` while it goes on.
    pub fn winner(&self) -> (r: Option<EndState>)
        ensures
            r == self@.end,
    {
        self.end
    }

    /// The Trolls captured by the Dwarfs and the Dwarfs captured by the Trolls.
    pub fn score(&self) -> (r: (u32, u32))
        ensures
            r.0 == self@.dwarf_score,
            r.1 == self@.troll_score,
    {
        (self.dwarf_score, self.troll_score)
    }

    /// The board, to read.
    pub fn board(&self) -> (r: &Board)
        requires
            self.wf(),
        ensures
            r.wf(),
            r@ == self@.board,
    {
        &self.board
    }
}

/// A cell that holds `p` counts for `p`.
proof fn lemma_count_pos(s: Seq<Piece>, i: int, p: Piece)
    requires
        0 <= i < s.len(),
        s[i] == p,
    ensures
        count_of(s, p) > 0,
    decreases s.len(),
{
    if i < s.len() - 1 {
        lemma_count_pos(s.drop_last(), i, p);
    }
}

/// Removes every Dwarf next to column `x`, row `y`, and says how many went.
fn smash_around(b: &mut Board, x: usize, y: usize) -> (captured: u32)
    requires
        old(b).wf(),
        x < 15,
        y < 15,
    ensures
        final(b).wf(),
        final(b)@ == smash(old(b)@, (x as int, y as int), 8),
        captured + count_of(final(b)@, Piece::Dwarf) == count_of(old(b)@, Piece::Dwarf),
{
    let ghost b0 = b@;
    let ghost t = (x as int, y as int);
    let mut captured: u32 = 0;
    let mut n: usize = 0;
    while n < 8
        invariant
            b.wf(),
            x < 15,
            y < 15,
            t == (x as int, y as int),
            n <= 8,
            captured <= n,
            b@ == smash(b0, t, n as nat),
            captured + count_of(b@, Piece::Dwarf) == count_of(b0, Piece::Dwarf),
        decreases 8 - n,
    {
        let d = match Direction::from_num(n) {
            Ok(d) => d,
            Err(_) => Direction::Right,
        };
        let ghost before = b@;
        proof {
            assert(smash(b0, t, (n + 1) as nat) == clear_if(before, next(t, d), Piece::Dwarf));
            lemma_clear_if_counts(before, next(t, d), Piece::Dwarf, Piece::Dwarf);
        }
        match neighbor(x, y, d) {
            Some((nx, ny)) => {
                if b.get(nx, ny) == Piece::Dwarf {
                    b.set(nx, ny, Piece::Empty);
                    captured = captured + 1;
                }
            },
            None => {},
        }
        n = n + 1;
    }
    captured
}

/// Whether the Dwarf on column `x`, row `y` may capture in each of `dirs`.
fn cap_ok(b: &Board, x: usize, y: usize, dirs: &Vec<Direction>) -> (r: bool)
    requires
        b.wf(),
        in_octagon(x as int, y as int),
    ensures
        r == legal_cap(b@, (x as int, y as int), dirs@),
{
    let ghost s = (x as int, y as int);
    if b.get(x, y) != Piece::Dwarf || dirs.len() == 0 {
        return false;
    }
    let mut i: usize = 0;
    while i < dirs.len()
        invariant
            b.wf(),
            x < 15,
            y < 15,
            s == (x as int, y as int),
            i <= dirs@.len(),
            forall|j: int| 0 <= j < i ==> troll_adjacent(b@, s, #[trigger] dirs@[j]),
        decreases dirs@.len() - i,
    {
        match neighbor(x, y, dirs[i]) {
            Some((nx, ny)) => {
                if b.get(nx, ny) != Piece::Troll {
                    return false;
                }
            },
            None => {
                return false;
            },
        }
        i = i + 1;
    }
    true
}

/// Removes the Troll next to column `x`, row `y` in each of `dirs`, and says how
/// many went.
fn capture_around(b: &mut Board, x: usize, y: usize, dirs: &Vec<Direction>) -> (captured: u32)
    requires
        old(b).wf(),
        x < 15,
        y < 15,
        count_of(old(b)@, Piece::Troll) <= 225,
    ensures
        final(b).wf(),
        final(b)@ == capture(old(b)@, (x as int, y as int), dirs@),
        captured + count_of(final(b)@, Piece::Troll) == count_of(old(b)@, Piece::Troll),
{
    let ghost b0 = b@;
    let ghost s = (x as int, y as int);
    let mut captured: u32 = 0;
    let mut i: usize = 0;
    while i < dirs.len()
        invariant
            b.wf(),
            x < 15,
            y < 15,
            s == (x as int, y as int),
            i <= dirs@.len(),
            count_of(b0, Piece::Troll) <= 225,
            b@ == capture(b0, s, dirs@.take(i as int)),
            captured + count_of(b@, Piece::Troll) == count_of(b0, Piece::Troll),
        decreases dirs@.len() - i,
    {
        let d = dirs[i];
        let ghost before = b@;
        proof {
            assert(dirs@.take(i + 1).drop_last() =~= dirs@.take(i as int));
            assert(capture(b0, s, dirs@.take(i + 1)) == clear_if(before, next(s, d), Piece::Troll));
            lemma_clear_if_counts(before, next(s, d), Piece::Troll, Piece::Troll);
        }
        match neighbor(x, y, d) {
            Some((nx, ny)) => {
                if b.get(nx, ny) == Piece::Troll {
                    b.set(nx, ny, Piece::Empty);
                    captured = captured + 1;
                }
            },
            None => {},
        }
        i = i + 1;
    }
    proof {
        assert(dirs@.take(i as int) =~= dirs@);
    }
    captured
}

} // verus!
