use thud::board::Piece;
use thud::coord::{Coord, Direction, ThudError};
use thud::game::Thud;
use thud::rules::{EndState, Player};
use thud::{
    coord_new, piece_to_int, thud_attack, thud_get_board, thud_get_score, thud_get_turn,
    thud_get_winner, thud_move, thud_new, thud_troll_cap,
};

fn at(x: usize, y: usize) -> Coord {
    Coord::zero_based(x, y).unwrap()
}

fn count(game: &Thud, p: Piece) -> usize {
    game.board().full_raw().iter().flatten().filter(|q| **q == p).count()
}

/// Dwarfs slide next to the Troll at (6, 6); a far Troll steps aside.
fn dwarf_beside_troll() -> Thud {
    let mut game = Thud::new();
    assert_eq!(game.move_piece(at(5, 0), at(5, 5)), Ok(()));
    assert_eq!(game.attack(at(8, 8), at(9, 9)), Ok(()));
    game
}

/// Trolls smash every Dwarf: each pair is a Dwarf slide or a Troll step, in turn.
const ELIMINATION: [(usize, usize, usize, usize); 52] = [
        (4, 1, 7, 4),
        (7, 6, 8, 5),
        (13, 10, 9, 10),
        (7, 8, 8, 9),
        (8, 14, 8, 11),
        (8, 9, 9, 10),
        (14, 8, 11, 11),
        (9, 10, 10, 11),
        (6, 0, 9, 3),
        (10, 11, 11, 12),
        (13, 4, 6, 4),
        (8, 5, 7, 5),
        (0, 9, 6, 3),
        (11, 12, 10, 13),
        (0, 5, 8, 13),
        (10, 13, 9, 14),
        (6, 3, 8, 3),
        (7, 5, 8, 4),
        (11, 2, 7, 2),
        (8, 4, 8, 3),
        (4, 13, 7, 13),
        (9, 14, 8, 13),
        (2, 11, 10, 11),
        (8, 3, 9, 2),
        (5, 0, 5, 10),
        (9, 2, 8, 1),
        (0, 6, 6, 12),
        (8, 13, 7, 13),
        (14, 6, 10, 2),
        (8, 1, 9, 1),
        (0, 8, 5, 13),
        (7, 13, 6, 13),
        (5, 10, 6, 10),
        (8, 8, 7, 9),
        (12, 3, 10, 3),
        (9, 1, 10, 2),
        (10, 11, 4, 11),
        (6, 13, 5, 12),
        (3, 12, 5, 10),
        (6, 8, 6, 9),
        (14, 9, 10, 9),
        (8, 7, 9, 8),
        (2, 3, 4, 5),
        (6, 6, 5, 6),
        (1, 10, 10, 10),
        (9, 8, 9, 9),
        (1, 4, 12, 4),
        (10, 2, 11, 3),
        (14, 5, 7, 12),
        (5, 12, 6, 11),
        (3, 2, 5, 4),
        (5, 6, 4, 5),
];

#[test]
fn new_game_dwarf_to_move() {
    let game = thud_new();
    assert_eq!(thud_get_turn(&game), 0);
    assert_eq!(game.turn(), Some(Player::Dwarf));
    assert_eq!(game.board().piece_at(at(7, 7)), Piece::Thudstone);
    assert_eq!(thud_get_board(&game)[7][7], 3);
    assert_eq!(thud_get_winner(&game), 3);
    assert_eq!(thud_get_score(&game), (0, 0));
}

#[test]
fn new_game_standard_layout() {
    let game = Thud::new();
    assert_eq!(count(&game, Piece::Dwarf), 32);
    assert_eq!(count(&game, Piece::Troll), 8);
    assert_eq!(count(&game, Piece::Thudstone), 1);
    assert_eq!(game.board().piece_at(at(6, 6)), Piece::Troll);
    assert_eq!(game.board().piece_at(at(5, 0)), Piece::Dwarf);
    assert_eq!(game.board().piece_at(at(7, 0)), Piece::Empty);
    let raw = game.board().full_raw();
    assert_eq!(raw.len(), 15);
    assert_eq!(raw[0][0], Piece::Empty);
    assert_eq!(raw[14][14], Piece::Empty);
}

#[test]
fn coordinates_outside_octagon_refused() {
    assert!(coord_new(0, 0).is_none());
    assert!(coord_new(4, 0).is_none());
    assert!(coord_new(10, 0).is_none());
    assert!(coord_new(15, 7).is_none());
    assert!(coord_new(5, 0).is_some());
    assert!(coord_new(0, 5).is_some());
    assert_eq!(Coord::zero_based(14, 14), Err(ThudError::OutOfBounds));
    let c = at(9, 1);
    assert_eq!((c.x(), c.y()), (9, 1));
}

#[test]
fn direction_ordinals() {
    assert_eq!(Direction::from_num(0), Ok(Direction::Right));
    assert_eq!(Direction::from_num(2), Ok(Direction::Down));
    assert_eq!(Direction::from_num(7), Ok(Direction::UpRight));
    assert_eq!(Direction::from_num(8), Err(ThudError::InvalidDirection));
    assert_eq!(Direction::UpLeft.num(), 5);
}

#[test]
fn piece_codes() {
    assert_eq!(piece_to_int(Piece::Empty), 0);
    assert_eq!(piece_to_int(Piece::Dwarf), 1);
    assert_eq!(piece_to_int(Piece::Troll), 2);
    assert_eq!(piece_to_int(Piece::Thudstone), 3);
}

#[test]
fn blocked_slide_refused() {
    let mut game = thud_new();
    let before = game.board().full_raw();
    assert_eq!(game.move_piece(at(0, 6), at(10, 6)), Err(ThudError::IllegalMove));
    assert_eq!(game.board().full_raw(), before);
    assert_eq!(game.turn(), Some(Player::Dwarf));
    assert_eq!(thud_move(&mut game, at(0, 6), at(10, 6)), -2);
}

#[test]
fn failed_attempt_repeats_its_verdict() {
    let mut game = Thud::new();
    let before = game.board().full_raw();
    let first = game.move_piece(at(0, 6), at(10, 6));
    let second = game.move_piece(at(0, 6), at(10, 6));
    assert_eq!(first, second);
    assert_eq!(game.board().full_raw(), before);
    assert_eq!(game.attack(at(6, 6), at(5, 5)), Err(ThudError::WrongTurn));
    assert_eq!(game.attack(at(6, 6), at(5, 5)), Err(ThudError::WrongTurn));
    assert_eq!(game.board().full_raw(), before);
}

#[test]
fn slide_moves_dwarf_and_passes_turn() {
    let mut game = Thud::new();
    assert_eq!(game.move_piece(at(0, 6), at(5, 6)), Ok(()));
    assert_eq!(game.board().piece_at(at(0, 6)), Piece::Empty);
    assert_eq!(game.board().piece_at(at(5, 6)), Piece::Dwarf);
    assert_eq!(game.turn(), Some(Player::Troll));
    assert_eq!(game.score(), (0, 0));
    assert_eq!(game.move_piece(at(5, 6), at(4, 6)), Err(ThudError::WrongTurn));
}

#[test]
fn slide_shapes_refused() {
    let mut game = Thud::new();
    assert_eq!(game.move_piece(at(5, 0), at(6, 2)), Err(ThudError::IllegalMove));
    assert_eq!(game.move_piece(at(5, 0), at(6, 0)), Err(ThudError::IllegalMove));
    assert_eq!(game.move_piece(at(5, 1), at(5, 2)), Err(ThudError::IllegalMove));
    assert_eq!(game.move_piece(at(6, 6), at(5, 5)), Err(ThudError::IllegalMove));
    assert_eq!(game.move_piece(at(4, 1), at(8, 5)), Ok(()));
}

#[test]
fn troll_step_smashes_two_dwarfs() {
    let mut game = Thud::new();
    assert_eq!(game.move_piece(at(4, 1), at(4, 4)), Ok(()));
    assert_eq!(game.attack(at(8, 8), at(9, 9)), Ok(()));
    assert_eq!(game.score(), (0, 0));
    assert_eq!(game.move_piece(at(0, 5), at(4, 5)), Ok(()));
    assert_eq!(thud_attack(&mut game, at(6, 6), at(5, 5)), 0);
    assert_eq!(game.board().piece_at(at(4, 4)), Piece::Empty);
    assert_eq!(game.board().piece_at(at(4, 5)), Piece::Empty);
    assert_eq!(game.board().piece_at(at(5, 5)), Piece::Troll);
    assert_eq!(game.score(), (0, 2));
    assert_eq!(count(&game, Piece::Dwarf), 30);
    assert_eq!(game.turn(), Some(Player::Dwarf));
}

#[test]
fn troll_step_shapes_refused() {
    let mut game = dwarf_beside_troll();
    assert_eq!(game.move_piece(at(0, 6), at(1, 6)), Ok(()));
    assert_eq!(game.attack(at(6, 6), at(6, 4)), Err(ThudError::IllegalMove));
    assert_eq!(game.attack(at(6, 6), at(6, 7)), Err(ThudError::IllegalMove));
    assert_eq!(game.attack(at(5, 5), at(4, 4)), Err(ThudError::IllegalMove));
    assert_eq!(game.attack(at(9, 9), at(10, 10)), Ok(()));
    assert_eq!(game.score(), (0, 0));
}

#[test]
fn capture_with_empty_direction_refused() {
    let mut game = dwarf_beside_troll();
    let before = game.board().full_raw();
    let dirs = vec![Direction::DownRight, Direction::Right];
    assert_eq!(game.troll_cap(at(5, 5), &dirs), Err(ThudError::IllegalMove));
    assert_eq!(game.board().full_raw(), before);
    assert_eq!(game.score(), (0, 0));
    assert_eq!(game.board().piece_at(at(6, 6)), Piece::Troll);
    assert_eq!(thud_troll_cap(&mut game, at(5, 5), &vec![1, 0]), -2);
    assert_eq!(game.troll_cap(at(5, 5), &vec![]), Err(ThudError::IllegalMove));
    assert_eq!(game.turn(), Some(Player::Dwarf));
}

#[test]
fn capture_removes_named_troll() {
    let mut game = dwarf_beside_troll();
    assert_eq!(thud_troll_cap(&mut game, at(5, 5), &vec![1, 1]), 0);
    assert_eq!(game.board().piece_at(at(6, 6)), Piece::Empty);
    assert_eq!(game.board().piece_at(at(5, 5)), Piece::Dwarf);
    assert_eq!(game.score(), (1, 0));
    assert_eq!(count(&game, Piece::Troll), 7);
    assert_eq!(game.turn(), Some(Player::Troll));
}

#[test]
fn capture_ordinal_out_of_range() {
    let mut game = dwarf_beside_troll();
    let before = game.board().full_raw();
    assert_eq!(thud_troll_cap(&mut game, at(5, 5), &vec![1, 9]), -3);
    assert_eq!(game.board().full_raw(), before);
    assert_eq!(game.turn(), Some(Player::Dwarf));
}

#[test]
fn capture_needs_dwarf_turn() {
    let mut game = Thud::new();
    assert_eq!(game.move_piece(at(5, 0), at(5, 5)), Ok(()));
    assert_eq!(game.troll_cap(at(5, 5), &vec![Direction::DownRight]), Err(ThudError::WrongTurn));
}

#[test]
fn trolls_smash_every_dwarf() {
    let mut game = Thud::new();
    for (i, (x0, y0, x1, y1)) in ELIMINATION.iter().enumerate() {
        assert_eq!(game.winner(), None);
        let r = if i % 2 == 0 {
            assert_eq!(thud_get_turn(&game), 0);
            game.move_piece(at(*x0, *y0), at(*x1, *y1))
        } else {
            assert_eq!(thud_get_turn(&game), 1);
            game.attack(at(*x0, *y0), at(*x1, *y1))
        };
        assert_eq!(r, Ok(()));
        let (dwarf_score, troll_score) = game.score();
        assert_eq!(count(&game, Piece::Dwarf) + troll_score as usize, 32);
        assert_eq!(count(&game, Piece::Troll) + dwarf_score as usize, 8);
    }
    assert_eq!(count(&game, Piece::Dwarf), 0);
    assert_eq!(game.winner(), Some(EndState::Won(Player::Troll)));
    assert_eq!(thud_get_winner(&game), 1);
    assert_eq!(thud_get_turn(&game), 2);
    assert_eq!(game.turn(), None);
    assert_eq!(game.score(), (0, 32));
    assert_eq!(game.move_piece(at(5, 0), at(5, 1)), Err(ThudError::GameOver));
    assert_eq!(game.attack(at(6, 6), at(5, 5)), Err(ThudError::GameOver));
    assert_eq!(game.troll_cap(at(5, 0), &vec![Direction::Down]), Err(ThudError::GameOver));
}

#[test]
fn turns_alternate_while_game_goes_on() {
    let mut game = Thud::new();
    let mut expected = Player::Dwarf;
    for (i, (x0, y0, x1, y1)) in ELIMINATION.iter().take(20).enumerate() {
        assert_eq!(game.turn(), Some(expected));
        if i % 2 == 0 {
            assert_eq!(game.move_piece(at(*x0, *y0), at(*x1, *y1)), Ok(()));
            expected = Player::Troll;
        } else {
            assert_eq!(game.attack(at(*x0, *y0), at(*x1, *y1)), Ok(()));
            expected = Player::Dwarf;
        }
    }
    assert_eq!(game.turn(), Some(expected));
}
