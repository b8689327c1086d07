//! The session coordinator's rules: which role a newly accepted connection
//! gets, and whether a received move payload may touch the shared game
//! state and trigger a broadcast. The transport around these rules performs
//! the I/O; every decision is made here.

use vstd::prelude::*;

use crate::game::{Coordinates, GameState, MoveOutcome, Piece, outcome_of, step};

verus! {

/// The role handed to the n-th accepted connection (counting from zero):
/// the first plays Nought, the second plays Cross, everyone later is a
/// spectator without a role.
pub fn assign_role(connection_index: usize) -> (r: Option<Piece>)
    ensures
        connection_index == 0 ==> r == Some(Piece::Nought),
        connection_index == 1 ==> r == Some(Piece::Cross),
        connection_index >= 2 ==> r is None,
{
    match connection_index {
        0 => Some(Piece::Nought),
        1 => Some(Piece::Cross),
        _ => None,
    }
}

/// The turn-enforcement gate: a connection without a role, or whose role is
/// not the piece to move, is ignored without touching the state. A player
/// whose turn it is has the move applied, and the new state is broadcast
/// exactly when the engine accepted the move.
pub fn handle_move(role: Option<Piece>, state: &mut GameState, coords: Coordinates) -> (broadcast:
    bool)
    requires
        old(state).wf(),
        coords.in_game(),
    ensures
        final(state).wf(),
        match role {
            None => !broadcast && *final(state) == *old(state),
            Some(p) => {
                if p != old(state)@.turn {
                    !broadcast && *final(state) == *old(state)
                } else {
                    &&& broadcast == (outcome_of(old(state)@, coords) == MoveOutcome::Accepted)
                    &&& (broadcast ==> final(state)@ == step(old(state)@, coords))
                    &&& (!broadcast ==> *final(state) == *old(state))
                }
            },
        },
{
    match role {
        None => false,
        Some(p) => {
            if p == state.turn {
                let outcome = state.request_action(coords);
                outcome == MoveOutcome::Accepted
            } else {
                false
            }
        },
    }
}

} // verus!
