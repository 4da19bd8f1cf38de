//! A rule engine for the board game Thud: Dwarfs and Trolls on an octagonal
//! board with the Thudstone fixed at its centre.
//!
//! The engine lives in [`game::Thud`]; the free functions below offer it as a
//! small surface of plain values and integer result codes.
use vstd::prelude::*;

pub mod board;
pub mod coord;
pub mod game;
pub mod laws;
pub mod rules;

use crate::board::{at, Board, Piece};
use crate::coord::{dir_of_num, in_octagon, Coord, Direction};
use crate::game::{attack_spec, cap_spec, slide_spec, GameView, Thud};
use crate::rules::{EndState, Player};

verus! {

/// The integer code of a piece: 0 empty, 1 Dwarf, 2 Troll, 3 Thudstone.
pub open spec fn piece_code(p: Piece) -> u32 {
    match p {
        Piece::Empty => 0,
        Piece::Dwarf => 1,
        Piece::Troll => 2,
        Piece::Thudstone => 3,
    }
}

/// What a failable call returns as a code: 0 on success, -2 when the rules
/// refuse it. The game changes as `res` says, or not at all.
pub open spec fn coded(res: Result<GameView, crate::coord::ThudError>, r: i32, g: GameView, g2: GameView) -> bool {
    match res {
        Ok(n) => r == 0 && g2 == n,
        Err(_) => r == -2 && g2 == g,
    }
}

/// The directions with the given ordinals.
pub open spec fn dirs_of(t: Seq<u32>) -> Seq<Direction> {
    t.map_values(|n: u32| dir_of_num(n as int).unwrap())
}

/// The integer code of `piece`.
pub fn piece_to_int(piece: Piece) -> (r: u32)
    ensures
        r == piece_code(piece),
{
    match piece {
        Piece::Empty => 0,
        Piece::Dwarf => 1,
        Piece::Troll => 2,
        Piece::Thudstone => 3,
    }
}

/// A new game; see [`Thud::new`].
pub fn thud_new() -> (r: Thud)
    ensures
        r.wf(),
        r@.turn == Player::Dwarf,
        r@.end is None,
        r@.dwarf_score == 0,
        r@.troll_score == 0,
        forall|x: int, y: int|
            0 <= x < 15 && 0 <= y < 15 ==> #[trigger] at(r@.board, x, y)
                == crate::board::start_piece(x, y),
{
    Thud::new()
}

/// The cell at column `x`, row `y`; `None` unless it is playable.
pub fn coord_new(x: u32, y: u32) -> (r: Option<Coord>)
    ensures
        r is Some <==> in_octagon(x as int, y as int),
        r matches Some(c) ==> c@ == (x as int, y as int),
{
    match Coord::zero_based(x as usize, y as usize) {
        Ok(c) => Some(c),
        Err(_) => None,
    }
}

/// Ends the life of a game.
pub fn thud_destroy(thud: Thud) {
    let _ = thud;
}

/// Ends the life of a coordinate.
pub fn coord_destroy(coord: Coord) {
    let _ = coord;
}

/// Slides a Dwarf; 0 on success, -2 when the slide is refused.
pub fn thud_move(thud: &mut Thud, src: Coord, dest: Coord) -> (r: i32)
    requires
        old(thud).wf(),
    ensures
        final(thud).wf(),
        coded(slide_spec(old(thud)@, src@, dest@), r, old(thud)@, final(thud)@),
{
    match thud.move_piece(src, dest) {
        Ok(_) => 0,
        Err(_) => -2,
    }
}

/// Steps a Troll and smashes the Dwarfs next to it; 0 on success, -2 when the
/// step is refused.
pub fn thud_attack(thud: &mut Thud, src: Coord, dest: Coord) -> (r: i32)
    requires
        old(thud).wf(),
    ensures
        final(thud).wf(),
        coded(attack_spec(old(thud)@, src@, dest@), r, old(thud)@, final(thud)@),
{
    match thud.attack(src, dest) {
        Ok(_) => 0,
        Err(_) => -2,
    }
}

/// The side to move: 0 Dwarfs, 1 Trolls, 2 once the game has ended.
pub fn thud_get_turn(thud: &Thud) -> (r: i32)
    ensures
        r == (if thud@.end is Some {
            2i32
        } else if thud@.turn == Player::Dwarf {
            0i32
        } else {
            1i32
        }),
{
    match thud.turn() {
        Some(Player::Dwarf) => 0,
        Some(Player::Troll) => 1,
        None => 2,
    }
}

/// How the game ended: 0 Dwarfs won, 1 Trolls won, 2 a draw, 3 not yet.
pub fn thud_get_winner(thud: &Thud) -> (r: i32)
    ensures
        r == match thud@.end {
            Some(EndState::Won(Player::Dwarf)) => 0i32,
            Some(EndState::Won(Player::Troll)) => 1i32,
            Some(EndState::Draw) => 2i32,
            None => 3i32,
        },
{
    match thud.winner() {
        Some(EndState::Won(Player::Dwarf)) => 0,
        Some(EndState::Won(Player::Troll)) => 1,
        Some(EndState::Draw) => 2,
        None => 3,
    }
}

/// The Dwarf score and the Troll score.
pub fn thud_get_score(thud: &Thud) -> (r: (u32, u32))
    ensures
        r.0 == thud@.dwarf_score,
        r.1 == thud@.troll_score,
{
    thud.score()
}

/// The Dwarf on `src` captures the Troll next to it in each direction of
/// `targets`, given by ordinal (`Right` is 0, increasing clockwise). Returns -3
/// if an ordinal is not below 8, leaving the game as it was; otherwise 0 on
/// success and -2 when the capture is refused.
pub fn thud_troll_cap(thud: &mut Thud, src: Coord, targets: &Vec<u32>) -> (r: i32)
    requires
        old(thud).wf(),
    ensures
        final(thud).wf(),
        (exists|i: int| 0 <= i < targets@.len() && targets@[i] >= 8) ==> r == -3 && final(thud)@
            == old(thud)@,
        (forall|i: int| 0 <= i < targets@.len() ==> targets@[i] < 8) ==> coded(
            cap_spec(old(thud)@, src@, dirs_of(targets@)),
            r,
            old(thud)@,
            final(thud)@,
        ),
{
    let mut dirs: Vec<Direction> = Vec::new();
    let mut i: usize = 0;
    while i < targets.len()
        invariant
            thud.wf(),
            thud@ == old(thud)@,
            i <= targets@.len(),
            dirs@ == dirs_of(targets@.take(i as int)),
            forall|j: int| 0 <= j < i ==> targets@[j] < 8,
        decreases targets@.len() - i,
    {
        match Direction::from_num(targets[i] as usize) {
            Ok(d) => {
                dirs.push(d);
            },
            Err(_) => {
                return -3;
            },
        }
        proof {
            assert(dirs@ =~= dirs_of(targets@.take(i + 1)));
        }
        i = i + 1;
    }
    proof {
        assert(targets@.take(i as int) =~= targets@);
    }
    match thud.troll_cap(src, &dirs) {
        Ok(_) => 0,
        Err(_) => -2,
    }
}

/// The whole 15 by 15 grid as piece codes, indexed by column and then by row;
/// cells outside the octagon read as 0.
pub fn thud_get_board(thud: &Thud) -> (r: Vec<Vec<u32>>)
    requires
        thud.wf(),
    ensures
        r@.len() == 15,
        forall|x: int| 0 <= x < 15 ==> (#[trigger] r@[x])@.len() == 15,
        forall|x: int, y: int|
            0 <= x < 15 && 0 <= y < 15 ==> r@[x]@[y] == piece_code(
                #[trigger] at(thud@.board, x, y),
            ),
{
    let board: &Board = thud.board();
    let raw = board.full_raw();
    let mut result: Vec<Vec<u32>> = Vec::new();
    let mut x: usize = 0;
    while x < 15
        invariant
            x <= 15,
            raw@.len() == 15,
            forall|i: int| 0 <= i < 15 ==> (#[trigger] raw@[i])@.len() == 15,
            forall|i: int, j: int|
                0 <= i < 15 && 0 <= j < 15 ==> raw@[i]@[j] == #[trigger] at(thud@.board, i, j),
            result@.len() == x,
            forall|i: int| 0 <= i < x ==> (#[trigger] result@[i])@.len() == 15,
            forall|i: int, j: int|
                0 <= i < x && 0 <= j < 15 ==> result@[i]@[j] == piece_code(
                    #[trigger] at(thud@.board, i, j),
                ),
        decreases 15 - x,
    {
        let mut col: Vec<u32> = Vec::new();
        let mut y: usize = 0;
        while y < 15
            invariant
                x < 15,
                y <= 15,
                raw@.len() == 15,
                raw@[x as int]@.len() == 15,
                forall|j: int| 0 <= j < 15 ==> raw@[x as int]@[j] == #[trigger] at(thud@.board, x as int, j),
                col@.len() == y,
                forall|j: int| 0 <= j < y ==> col@[j] == piece_code(
                    #[trigger] at(thud@.board, x as int, j),
                ),
            decreases 15 - y,
        {
            col.push(piece_to_int(raw[x][y]));
            y = y + 1;
        }
        result.push(col);
        x = x + 1;
    }
    result
}

} // verus!
