use vstd::prelude::*;

use crate::board::{count_of, lemma_count_update, Piece};
use crate::coord::{in_octagon, Direction, ThudError};
use crate::game::{applied, attack_spec, cap_spec, slide_spec, stepped, GameView};
use crate::rules::{
    dist, idx, is_line, legal_slide, lemma_capture_counts, lemma_smash_counts, other, path_cell,
    piece, troll_adjacent,
};

verus! {

/// An action of either side, on cells given as column and row.
pub enum Action {
    Slide((int, int), (int, int)),
    Attack((int, int), (int, int)),
    Capture((int, int), Seq<Direction>),
}

/// What an action does to game `g`.
pub open spec fn apply(g: GameView, a: Action) -> Result<GameView, ThudError> {
    match a {
        Action::Slide(s, t) => slide_spec(g, s, t),
        Action::Attack(s, t) => attack_spec(g, s, t),
        Action::Capture(s, dirs) => cap_spec(g, s, dirs),
    }
}

/// The cells an action names are playable, as every coordinate is.
pub open spec fn cells_ok(a: Action) -> bool {
    match a {
        Action::Slide(s, t) => in_octagon(s.0, s.1) && in_octagon(t.0, t.1),
        Action::Attack(s, t) => in_octagon(s.0, s.1) && in_octagon(t.0, t.1),
        Action::Capture(s, _) => in_octagon(s.0, s.1),
    }
}

/// The game after the actions in order; one that fails leaves the game as it was.
pub open spec fn play(g: GameView, acts: Seq<Action>) -> GameView
    decreases acts.len(),
{
    if acts.len() == 0 {
        g
    } else {
        let g1 = play(g, acts.drop_last());
        match apply(g1, acts.last()) {
            Ok(n) => n,
            Err(_) => g1,
        }
    }
}

/// The counts and scores of `n` are those of `g` as capture allows: no count of a
/// piece grows, the Thudstone stays, and every piece lost is a point for the other
/// side.
pub open spec fn conserved(g: GameView, n: GameView) -> bool {
    &&& n.board.len() == 225
    &&& count_of(n.board, Piece::Dwarf) <= count_of(g.board, Piece::Dwarf)
    &&& count_of(n.board, Piece::Troll) <= count_of(g.board, Piece::Troll)
    &&& count_of(n.board, Piece::Thudstone) == count_of(g.board, Piece::Thudstone)
    &&& count_of(n.board, Piece::Troll) + n.dwarf_score == count_of(g.board, Piece::Troll)
        + g.dwarf_score
    &&& count_of(n.board, Piece::Dwarf) + n.troll_score == count_of(g.board, Piece::Dwarf)
        + g.troll_score
}

/// A failed action changes nothing, so trying it again fails the same way and
/// again changes nothing.
pub proof fn lemma_failure_repeats(g: GameView, a: Action, r: Result<(), ThudError>, g2: GameView)
    requires
        applied(apply(g, a), r, g, g2),
        r is Err,
    ensures
        g2 == g,
        applied(apply(g2, a), r, g2, g2),
{
}

/// A stationary capture with one direction that does not point at a Troll is
/// refused as a whole: the board and the scores stay as they were.
pub proof fn lemma_capture_atomic(
    g: GameView,
    s: (int, int),
    dirs: Seq<Direction>,
    i: int,
    r: Result<(), ThudError>,
    g2: GameView,
)
    requires
        g.end is None,
        g.turn == crate::rules::Player::Dwarf,
        0 <= i < dirs.len(),
        !troll_adjacent(g.board, s, dirs[i]),
        applied(cap_spec(g, s, dirs), r, g, g2),
    ensures
        r == Err::<(), ThudError>(ThudError::IllegalMove),
        g2 == g,
{
}

/// A Dwarf slide whose path crosses an occupied cell is refused, whatever is on
/// the destination.
pub proof fn lemma_blocked_slide_refused(g: GameView, s: (int, int), t: (int, int), j: int)
    requires
        is_line(s, t),
        0 < j < dist(s, t),
        piece(g.board, path_cell(s, t, j)) != Piece::Empty,
    ensures
        !legal_slide(g.board, s, t),
        slide_spec(g, s, t) is Err,
{
}

/// Moving the piece on `s` to the empty cell `t` keeps every count.
proof fn lemma_move_counts(b: Seq<Piece>, s: (int, int), t: (int, int), p: Piece, q: Piece)
    requires
        b.len() == 225,
        in_octagon(s.0, s.1),
        in_octagon(t.0, t.1),
        s != t,
        piece(b, s) == p,
        piece(b, t) == Piece::Empty,
    ensures
        count_of(b.update(idx(s), Piece::Empty).update(idx(t), p), q) == count_of(b, q),
{
    let b1 = b.update(idx(s), Piece::Empty);
    lemma_count_update(b, idx(s), Piece::Empty, q);
    lemma_count_update(b1, idx(t), p, q);
}

/// An action that succeeds conserves pieces against scores.
pub proof fn lemma_action_conserves(g: GameView, a: Action)
    requires
        g.board.len() == 225,
        cells_ok(a),
        apply(g, a) is Ok,
    ensures
        conserved(g, apply(g, a)->Ok_0),
{
    let b = g.board;
    match a {
        Action::Slide(s, t) => {
            lemma_move_counts(b, s, t, Piece::Dwarf, Piece::Dwarf);
            lemma_move_counts(b, s, t, Piece::Dwarf, Piece::Troll);
            lemma_move_counts(b, s, t, Piece::Dwarf, Piece::Thudstone);
        },
        Action::Attack(s, t) => {
            assert(s != t);
            lemma_move_counts(b, s, t, Piece::Troll, Piece::Dwarf);
            lemma_move_counts(b, s, t, Piece::Troll, Piece::Troll);
            lemma_move_counts(b, s, t, Piece::Troll, Piece::Thudstone);
            let b1 = stepped(b, s, t);
            lemma_smash_counts(b1, t, 8, Piece::Troll);
            lemma_smash_counts(b1, t, 8, Piece::Thudstone);
        },
        Action::Capture(s, dirs) => {
            lemma_capture_counts(b, s, dirs, Piece::Dwarf);
            lemma_capture_counts(b, s, dirs, Piece::Thudstone);
        },
    }
}

/// Over any sequence of actions, pieces are conserved against scores: counts
/// never grow, and each side's losses equal the other side's score gains.
pub proof fn lemma_play_conserves(g: GameView, acts: Seq<Action>)
    requires
        g.board.len() == 225,
        forall|i: int| 0 <= i < acts.len() ==> cells_ok(#[trigger] acts[i]),
    ensures
        conserved(g, play(g, acts)),
    decreases acts.len(),
{
    if acts.len() > 0 {
        let g1 = play(g, acts.drop_last());
        lemma_play_conserves(g, acts.drop_last());
        assert(cells_ok(acts[acts.len() - 1]));
        if apply(g1, acts.last()) is Ok {
            lemma_action_conserves(g1, acts.last());
        }
    }
}

/// After an action that succeeds, the other side is to move unless the game has
/// ended.
pub proof fn lemma_turn_alternates(g: GameView, a: Action)
    requires
        apply(g, a) is Ok,
    ensures
        (apply(g, a)->Ok_0).end is None ==> (apply(g, a)->Ok_0).turn == other(g.turn),
        (apply(g, a)->Ok_0).end == crate::rules::outcome(
            (apply(g, a)->Ok_0).board,
            other(g.turn),
        ),
{
}

} // verus!
