use super_tic_tac_toe::game::{Board, Coordinates, GameState, MoveOutcome, Piece};

fn c(x: usize, y: usize) -> Coordinates {
    Coordinates { x, y }
}

fn empty_board() -> Board {
    Board { cells: vec![None; 9] }
}

fn idx(x: usize, y: usize) -> usize {
    3 * x + y
}

fn assert_states_equal(a: &GameState, b: &GameState) {
    assert_eq!(a.meta_coords_restriction, b.meta_coords_restriction);
    assert_eq!(a.meta_pieces.cells, b.meta_pieces.cells);
    assert_eq!(a.pieces.len(), b.pieces.len());
    for i in 0..a.pieces.len() {
        assert_eq!(a.pieces[i].cells, b.pieces[i].cells);
    }
    assert_eq!(a.turn, b.turn);
    assert_eq!(a.game_over, b.game_over);
}

#[test]
fn fresh_state_is_empty() {
    let s = GameState::new();
    assert_eq!(s.meta_coords_restriction, None);
    assert_eq!(s.turn, Piece::Nought);
    assert!(!s.game_over);
    assert_eq!(s.meta_pieces.cells, vec![None; 9]);
    assert_eq!(s.pieces.len(), 9);
    for b in &s.pieces {
        assert_eq!(b.cells, vec![None; 9]);
    }
}

#[test]
fn coordinate_mapper_values() {
    assert_eq!(c(4, 7).to_meta(), c(1, 2));
    assert_eq!(c(4, 7).to_local(), c(1, 1));
    assert_eq!(c(0, 0).to_meta(), c(0, 0));
    assert_eq!(c(8, 8).to_meta(), c(2, 2));
    assert_eq!(c(8, 8).to_local(), c(2, 2));
    assert_eq!(c(3, 3).to_meta(), c(1, 1));
    assert!(c(1, 1).on_diagonal_00());
    assert!(!c(1, 2).on_diagonal_00());
    assert!(c(0, 2).on_diagonal_02());
    assert!(c(1, 1).on_diagonal_02());
    assert!(c(2, 0).on_diagonal_02());
    assert!(!c(2, 2).on_diagonal_02());
    assert!(c(8, 8).in_range());
    assert!(!c(9, 0).in_range());
    assert!(!c(0, 9).in_range());
}

#[test]
fn scenario_a_first_move() {
    let mut s = GameState::new();
    let r = s.request_action(c(0, 0));
    assert_eq!(r, MoveOutcome::Accepted);
    assert_eq!(s.pieces[idx(0, 0)].cells[idx(0, 0)], Some(Piece::Nought));
    assert_eq!(s.turn, Piece::Cross);
    assert_eq!(s.meta_coords_restriction, Some(c(0, 0)));
    assert!(!s.game_over);
}

#[test]
fn scenario_b_restriction_rejects_wrong_board() {
    let mut s = GameState::new();
    assert_eq!(s.request_action(c(0, 0)), MoveOutcome::Accepted);
    let before = s.clone();
    // (3, 3) lies in sub-board (1, 1), but the restriction is (0, 0).
    let r = s.request_action(c(3, 3));
    assert_eq!(r, MoveOutcome::WrongBoard);
    assert_states_equal(&s, &before);
    assert_eq!(s.turn, Piece::Cross);
}

#[test]
fn scenario_c_line_claims_sub_board() {
    let mut s = GameState::new();
    // Nought marks local (1,0), (2,0), (0,0) of sub-board (0,0); Cross is
    // sent elsewhere in between and always answers with local (0,0), which
    // sends Nought back into sub-board (0,0).
    assert_eq!(s.request_action(c(1, 0)), MoveOutcome::Accepted); // Nought
    assert_eq!(s.request_action(c(3, 0)), MoveOutcome::Accepted); // Cross, sub (1,0)
    assert_eq!(s.request_action(c(2, 0)), MoveOutcome::Accepted); // Nought
    assert_eq!(s.request_action(c(6, 0)), MoveOutcome::Accepted); // Cross, sub (2,0)
    assert_eq!(s.request_action(c(0, 0)), MoveOutcome::Accepted); // Nought completes the line
    assert_eq!(s.meta_pieces.cells[idx(0, 0)], Some(Piece::Nought));
    assert!(!s.game_over);
    // The just-played local cell (0,0) names a sub-board that is now
    // claimed, so the next player is unrestricted.
    assert_eq!(s.meta_coords_restriction, None);
    assert_eq!(s.turn, Piece::Cross);
}

#[test]
fn scenario_d_meta_diagonal_ends_game() {
    let mut s = GameState::new();
    s.meta_pieces.cells[idx(0, 0)] = Some(Piece::Nought);
    s.meta_pieces.cells[idx(1, 1)] = Some(Piece::Nought);
    let sub = &mut s.pieces[idx(2, 2)];
    sub.cells[idx(0, 0)] = Some(Piece::Nought);
    sub.cells[idx(1, 1)] = Some(Piece::Nought);
    s.meta_coords_restriction = Some(c(2, 2));
    s.turn = Piece::Nought;
    // Global (8, 8) is local (2, 2) of sub-board (2, 2): it completes the
    // sub-board's primary diagonal, and claiming the sub-board completes the
    // meta-board's primary diagonal.
    let r = s.request_action(c(8, 8));
    assert_eq!(r, MoveOutcome::Accepted);
    assert_eq!(s.meta_pieces.cells[idx(2, 2)], Some(Piece::Nought));
    assert!(s.game_over);
    // The ending move freezes the turn and the restriction.
    assert_eq!(s.turn, Piece::Nought);
    assert_eq!(s.meta_coords_restriction, Some(c(2, 2)));
}

#[test]
fn rejection_is_idempotent() {
    let mut s = GameState::new();
    assert_eq!(s.request_action(c(0, 0)), MoveOutcome::Accepted);
    let before = s.clone();
    // Same cell again: the restriction matches, the sub-board is not won,
    // but the cell is taken.
    assert_eq!(s.request_action(c(0, 0)), MoveOutcome::TileAlreadyTaken);
    assert_states_equal(&s, &before);
    assert_eq!(s.request_action(c(0, 0)), MoveOutcome::TileAlreadyTaken);
    assert_states_equal(&s, &before);
}

#[test]
fn game_over_rejects_everything() {
    let mut s = GameState::new();
    s.game_over = true;
    let before = s.clone();
    assert_eq!(s.request_action(c(4, 4)), MoveOutcome::GameAlreadyOver);
    assert_states_equal(&s, &before);
}

#[test]
fn won_sub_board_rejects_moves() {
    let mut s = GameState::new();
    s.meta_pieces.cells[idx(1, 1)] = Some(Piece::Cross);
    let before = s.clone();
    let r = s.request_action(c(4, 4));
    assert_eq!(r, MoveOutcome::BoardAlreadyWon);
    assert_states_equal(&s, &before);
}

#[test]
fn drawn_sub_board_rejects_moves() {
    let mut s = GameState::new();
    // Fill sub-board (0,0) completely without a winning line for anyone.
    let pattern = [
        Some(Piece::Nought),
        Some(Piece::Cross),
        Some(Piece::Nought),
        Some(Piece::Nought),
        Some(Piece::Cross),
        Some(Piece::Cross),
        Some(Piece::Cross),
        Some(Piece::Nought),
        Some(Piece::Nought),
    ];
    s.pieces[idx(0, 0)].cells = pattern.to_vec();
    let before = s.clone();
    // Every cell of the drawn board is occupied, so any move into it is
    // rejected and the state is untouched.
    let r = s.request_action(c(1, 1));
    assert_eq!(r, MoveOutcome::TileAlreadyTaken);
    assert_states_equal(&s, &before);
}

#[test]
fn restriction_into_full_board_is_cleared() {
    let mut s = GameState::new();
    // Sub-board (0,0) is drawn: full, never won.
    let pattern = [
        Some(Piece::Nought),
        Some(Piece::Cross),
        Some(Piece::Nought),
        Some(Piece::Nought),
        Some(Piece::Cross),
        Some(Piece::Cross),
        Some(Piece::Cross),
        Some(Piece::Nought),
        Some(Piece::Nought),
    ];
    s.pieces[idx(0, 0)].cells = pattern.to_vec();
    // Nought plays local (0,0) of sub-board (1,0): that local address names
    // the drawn sub-board, so the next player is left unrestricted.
    let r = s.request_action(c(3, 0));
    assert_eq!(r, MoveOutcome::Accepted);
    assert_eq!(s.meta_coords_restriction, None);
    assert_eq!(s.turn, Piece::Cross);
}

#[test]
fn move_wins_board_lines() {
    let s = GameState::new(); // turn is Nought
    let n = Some(Piece::Nought);

    // Row: cells (1,0), (1,1), (1,2).
    let mut b = empty_board();
    b.cells[idx(1, 0)] = n;
    b.cells[idx(1, 1)] = n;
    b.cells[idx(1, 2)] = n;
    assert!(s.move_wins_board(&b, c(1, 1)));
    // The played cell must lie on the winning line.
    assert!(!s.move_wins_board(&b, c(0, 0)));

    // Column: cells (0,2), (1,2), (2,2).
    let mut b = empty_board();
    b.cells[idx(0, 2)] = n;
    b.cells[idx(1, 2)] = n;
    b.cells[idx(2, 2)] = n;
    assert!(s.move_wins_board(&b, c(0, 2)));

    // Primary diagonal.
    let mut b = empty_board();
    b.cells[idx(0, 0)] = n;
    b.cells[idx(1, 1)] = n;
    b.cells[idx(2, 2)] = n;
    assert!(s.move_wins_board(&b, c(2, 2)));

    // Anti-diagonal.
    let mut b = empty_board();
    b.cells[idx(0, 2)] = n;
    b.cells[idx(1, 1)] = n;
    b.cells[idx(2, 0)] = n;
    assert!(s.move_wins_board(&b, c(2, 0)));

    // A line of the other player's marks does not win for the mover.
    let mut b = empty_board();
    b.cells[idx(0, 0)] = Some(Piece::Cross);
    b.cells[idx(0, 1)] = Some(Piece::Cross);
    b.cells[idx(0, 2)] = Some(Piece::Cross);
    assert!(!s.move_wins_board(&b, c(0, 1)));

    // Two marks are not a line.
    let mut b = empty_board();
    b.cells[idx(0, 0)] = n;
    b.cells[idx(0, 1)] = n;
    assert!(!s.move_wins_board(&b, c(0, 1)));
}

#[test]
fn board_is_open_cases() {
    let mut s = GameState::new();
    assert!(s.board_is_open(c(1, 1)));
    // A claimed sub-board is not open.
    s.meta_pieces.cells[idx(1, 1)] = Some(Piece::Cross);
    assert!(!s.board_is_open(c(1, 1)));
    // A full sub-board is not open even when unclaimed.
    s.pieces[idx(2, 0)].cells = vec![Some(Piece::Nought); 9];
    assert!(!s.board_is_open(c(2, 0)));
    // One empty cell keeps it open.
    s.pieces[idx(2, 1)].cells = vec![Some(Piece::Nought); 9];
    s.pieces[idx(2, 1)].cells[idx(2, 2)] = None;
    assert!(s.board_is_open(c(2, 1)));
}

#[test]
fn turn_alternates_over_legal_moves() {
    let mut s = GameState::new();
    let moves = [c(1, 0), c(3, 0), c(2, 0), c(6, 0)];
    let mut expected = Piece::Nought;
    for m in moves {
        assert_eq!(s.turn, expected);
        assert_eq!(s.request_action(m), MoveOutcome::Accepted);
        expected = match expected {
            Piece::Nought => Piece::Cross,
            Piece::Cross => Piece::Nought,
        };
        assert_eq!(s.turn, expected);
    }
}
