use super_tic_tac_toe::game::{Coordinates, GameState, Piece};
use super_tic_tac_toe::session::{assign_role, handle_move};

fn c(x: usize, y: usize) -> Coordinates {
    Coordinates { x, y }
}

fn idx(x: usize, y: usize) -> usize {
    3 * x + y
}

#[test]
fn roles_go_to_the_first_two_connections() {
    assert_eq!(assign_role(0), Some(Piece::Nought));
    assert_eq!(assign_role(1), Some(Piece::Cross));
    assert_eq!(assign_role(2), None);
    assert_eq!(assign_role(17), None);
}

#[test]
fn scenario_e_spectator_is_ignored() {
    let mut s = GameState::new();
    let spectator = assign_role(2);
    let broadcast = handle_move(spectator, &mut s, c(0, 0));
    assert!(!broadcast);
    assert_eq!(s.pieces[idx(0, 0)].cells[idx(0, 0)], None);
    assert_eq!(s.turn, Piece::Nought);
    assert_eq!(s.meta_coords_restriction, None);
}

#[test]
fn wrong_turn_is_ignored() {
    let mut s = GameState::new();
    // Cross may not move first.
    let broadcast = handle_move(Some(Piece::Cross), &mut s, c(0, 0));
    assert!(!broadcast);
    assert_eq!(s.turn, Piece::Nought);
    assert_eq!(s.pieces[idx(0, 0)].cells[idx(0, 0)], None);
}

#[test]
fn player_to_move_is_applied_and_broadcast() {
    let mut s = GameState::new();
    let broadcast = handle_move(Some(Piece::Nought), &mut s, c(0, 0));
    assert!(broadcast);
    assert_eq!(s.pieces[idx(0, 0)].cells[idx(0, 0)], Some(Piece::Nought));
    assert_eq!(s.turn, Piece::Cross);
}

#[test]
fn rejected_move_is_not_broadcast() {
    let mut s = GameState::new();
    assert!(handle_move(Some(Piece::Nought), &mut s, c(0, 0)));
    // Cross targets sub-board (1,1) against the (0,0) restriction: the
    // engine rejects it, so nothing is broadcast and nothing changes.
    let broadcast = handle_move(Some(Piece::Cross), &mut s, c(3, 3));
    assert!(!broadcast);
    assert_eq!(s.turn, Piece::Cross);
    assert_eq!(s.pieces[idx(1, 1)].cells[idx(0, 0)], None);
}
