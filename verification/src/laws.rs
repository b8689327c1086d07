//! The engine's laws: what holds of every move and of every sequence of
//! moves, proved once and for all against the model that the engine's
//! contracts speak of.

use vstd::prelude::*;

use crate::game::{
    BOARD_CELLS, Coordinates, GameModel, MoveOutcome, board_has_empty, cell_index, line_win,
    outcome_of, step, step_board,
};

verus! {

/// The full apply-move operation on the model: the state after an accepted
/// move, the unchanged state after a rejected one. This is exactly what
/// GameState::request_action does to the state's view.
pub open spec fn apply_move(m: GameModel, c: Coordinates) -> GameModel {
    if outcome_of(m, c) == MoveOutcome::Accepted {
        step(m, c)
    } else {
        m
    }
}

/// The state after a whole sequence of requested moves, each applied (or
/// rejected) in order.
pub open spec fn run(m: GameModel, moves: Seq<Coordinates>) -> GameModel
    decreases moves.len(),
{
    if moves.len() == 0 {
        m
    } else {
        run(apply_move(m, moves[0]), moves.drop_first())
    }
}

/// Every requested move, accepted or rejected, leaves a well-formed state
/// well-formed.
pub proof fn lemma_apply_move_wf(m: GameModel, c: Coordinates)
    requires
        m.wf(),
        c.in_game(),
    ensures
        apply_move(m, c).wf(),
{
    if outcome_of(m, c) == MoveOutcome::Accepted {
        let s = step(m, c);
        assert forall|i: int| 0 <= i < BOARD_CELLS implies (#[trigger] s.boards[i]).len()
            == BOARD_CELLS by {
            assert(m.boards[i].len() == BOARD_CELLS);
        }
    }
}

/// A well-formed state stays well-formed through any sequence of requested
/// moves.
pub proof fn lemma_run_wf(m: GameModel, moves: Seq<Coordinates>)
    requires
        m.wf(),
        forall|k: int| 0 <= k < moves.len() ==> (#[trigger] moves[k]).in_game(),
    ensures
        run(m, moves).wf(),
    decreases moves.len(),
{
    if moves.len() > 0 {
        lemma_apply_move_wf(m, moves[0]);
        assert(forall|k: int|
            0 <= k < moves.drop_first().len() ==> (#[trigger] moves.drop_first()[k]).in_game());
        lemma_run_wf(apply_move(m, moves[0]), moves.drop_first());
    }
}

/// Running the first k + 1 moves is running the first k and then applying
/// the next one: the states a sequence passes through can be read off one
/// step at a time.
pub proof fn lemma_run_step(m: GameModel, moves: Seq<Coordinates>, k: int)
    requires
        0 <= k < moves.len(),
    ensures
        run(m, moves.take(k + 1)) == apply_move(run(m, moves.take(k)), moves[k]),
    decreases k,
{
    if k == 0 {
        assert(moves.take(1)[0] == moves[0]);
        assert(moves.take(0) =~= Seq::<Coordinates>::empty());
        assert(moves.take(1).drop_first() =~= Seq::<Coordinates>::empty());
        assert(run(m, moves.take(0)) == m);
        assert(run(apply_move(m, moves[0]), moves.take(1).drop_first()) == apply_move(
            m,
            moves[0],
        ));
        assert(run(m, moves.take(1)) == apply_move(m, moves[0]));
    } else {
        let m1 = apply_move(m, moves[0]);
        let rest = moves.drop_first();
        assert(moves.take(k + 1)[0] == moves[0]);
        assert(moves.take(k)[0] == moves[0]);
        assert(moves.take(k + 1).drop_first() =~= rest.take(k));
        assert(moves.take(k).drop_first() =~= rest.take(k - 1));
        assert(rest[k - 1] == moves[k]);
        lemma_run_step(m1, rest, k - 1);
        assert(run(m, moves.take(k + 1)) == run(m1, rest.take(k)));
        assert(run(m, moves.take(k)) == run(m1, rest.take(k - 1)));
    }
}

/// The turn strictly alternates throughout any sequence of requested
/// moves: at every position, a rejected move leaves the state as it was,
/// an accepted move that does not end the match hands the turn to the
/// other player, and an accepted move that ends it freezes the turn.
pub proof fn lemma_turn_alternates_throughout(m: GameModel, moves: Seq<Coordinates>, k: int)
    requires
        m.wf(),
        forall|j: int| 0 <= j < moves.len() ==> (#[trigger] moves[j]).in_game(),
        0 <= k < moves.len(),
    ensures
        run(m, moves.take(k + 1)) == apply_move(run(m, moves.take(k)), moves[k]),
        ({
            let before = run(m, moves.take(k));
            let after = run(m, moves.take(k + 1));
            &&& (outcome_of(before, moves[k]) != MoveOutcome::Accepted ==> after == before)
            &&& (outcome_of(before, moves[k]) == MoveOutcome::Accepted && !after.game_over
                ==> after.turn == before.turn.spec_other() && after.turn != before.turn)
            &&& (outcome_of(before, moves[k]) == MoveOutcome::Accepted && after.game_over
                ==> after.turn == before.turn)
        }),
{
    lemma_run_step(m, moves, k);
    assert(forall|j: int|
        0 <= j < moves.take(k).len() ==> (#[trigger] moves.take(k)[j]).in_game());
    lemma_run_wf(m, moves.take(k));
    let before = run(m, moves.take(k));
    if outcome_of(before, moves[k]) == MoveOutcome::Accepted {
        lemma_turn_alternates(before, moves[k]);
    }
}

/// The turn strictly alternates on every accepted move: unless that very
/// move ends the match, the new turn is the other player's; when it ends
/// the match, the turn is frozen at the mover's.
pub proof fn lemma_turn_alternates(m: GameModel, c: Coordinates)
    requires
        m.wf(),
        c.in_game(),
        outcome_of(m, c) == MoveOutcome::Accepted,
    ensures
        !step(m, c).game_over ==> step(m, c).turn == m.turn.spec_other(),
        !step(m, c).game_over ==> step(m, c).turn != m.turn,
        step(m, c).game_over ==> step(m, c).turn == m.turn,
{
}

/// Once the match is decided no sequence of requested moves mutates the
/// state: each one is rejected and leaves it as it was.
pub proof fn lemma_game_over_frozen(m: GameModel, moves: Seq<Coordinates>)
    requires
        m.game_over,
    ensures
        run(m, moves) == m,
    decreases moves.len(),
{
    if moves.len() > 0 {
        assert(outcome_of(m, moves[0]) == MoveOutcome::GameAlreadyOver);
        lemma_game_over_frozen(m, moves.drop_first());
    }
}

/// One requested move, accepted or rejected, never clears or overwrites an
/// occupied cell.
pub proof fn lemma_move_preserves_cells(m: GameModel, c: Coordinates)
    requires
        m.wf(),
        c.in_game(),
    ensures
        forall|b: int, i: int|
            0 <= b < BOARD_CELLS && 0 <= i < BOARD_CELLS && m.boards[b][i] is Some
                ==> #[trigger] apply_move(m, c).boards[b][i] == m.boards[b][i],
{
    if outcome_of(m, c) == MoveOutcome::Accepted {
        let mi = cell_index(c.spec_meta().x as int, c.spec_meta().y as int);
        let li = cell_index(c.spec_local().x as int, c.spec_local().y as int);
        assert(m.boards[mi][li] is None);
    }
}

/// A cell once occupied is never overwritten, for any sequence of requested
/// moves, legal or attempted-illegal: it still holds the same mark at the
/// end of the sequence.
pub proof fn lemma_cell_never_overwritten(
    m: GameModel,
    moves: Seq<Coordinates>,
    b: int,
    i: int,
)
    requires
        m.wf(),
        forall|k: int| 0 <= k < moves.len() ==> (#[trigger] moves[k]).in_game(),
        0 <= b < BOARD_CELLS,
        0 <= i < BOARD_CELLS,
        m.boards[b][i] is Some,
    ensures
        run(m, moves).boards[b][i] == m.boards[b][i],
    decreases moves.len(),
{
    if moves.len() > 0 {
        let m1 = apply_move(m, moves[0]);
        lemma_apply_move_wf(m, moves[0]);
        lemma_move_preserves_cells(m, moves[0]);
        assert(forall|k: int|
            0 <= k < moves.drop_first().len() ==> (#[trigger] moves.drop_first()[k]).in_game());
        lemma_cell_never_overwritten(m1, moves.drop_first(), b, i);
    }
}

/// The meta-board records a sub-board exactly when the accepted move
/// completed a line of that sub-board: the just-played sub-board is claimed
/// for the mover iff line-win holds of it after the mark is written, every
/// other entry is untouched, and an entry once set is never changed (the
/// move into an already claimed sub-board is rejected, so each entry is set
/// at most once).
pub proof fn lemma_meta_claimed_iff(m: GameModel, c: Coordinates)
    requires
        m.wf(),
        c.in_game(),
        outcome_of(m, c) == MoveOutcome::Accepted,
    ensures
        forall|i: int|
            0 <= i < BOARD_CELLS ==> #[trigger] step(m, c).meta[i] == (if i == cell_index(
                c.spec_meta().x as int,
                c.spec_meta().y as int,
            ) && line_win(
                step_board(m, c),
                c.spec_local().x as int,
                c.spec_local().y as int,
                m.turn,
            ) {
                Some(m.turn)
            } else {
                m.meta[i]
            }),
        forall|i: int|
            0 <= i < BOARD_CELLS && m.meta[i] is Some ==> #[trigger] step(m, c).meta[i]
                == m.meta[i],
{
}

/// One requested move, accepted or rejected, never clears or changes a
/// meta-board entry that is already set: a move into a claimed sub-board is
/// rejected, so the accepted path only ever fills a None entry.
pub proof fn lemma_move_preserves_meta(m: GameModel, c: Coordinates)
    requires
        m.wf(),
        c.in_game(),
    ensures
        forall|i: int|
            0 <= i < BOARD_CELLS && m.meta[i] is Some ==> #[trigger] apply_move(m, c).meta[i]
                == m.meta[i],
{
    if outcome_of(m, c) == MoveOutcome::Accepted {
        let mi = cell_index(c.spec_meta().x as int, c.spec_meta().y as int);
        assert(m.meta[mi] is None);
    }
}

/// A meta-board entry once set keeps its mark through any sequence of
/// requested moves: each sub-board is claimed at most once.
pub proof fn lemma_meta_set_at_most_once(m: GameModel, moves: Seq<Coordinates>, i: int)
    requires
        m.wf(),
        forall|k: int| 0 <= k < moves.len() ==> (#[trigger] moves[k]).in_game(),
        0 <= i < BOARD_CELLS,
        m.meta[i] is Some,
    ensures
        run(m, moves).meta[i] == m.meta[i],
    decreases moves.len(),
{
    if moves.len() > 0 {
        let m1 = apply_move(m, moves[0]);
        lemma_apply_move_wf(m, moves[0]);
        lemma_move_preserves_meta(m, moves[0]);
        assert(forall|k: int|
            0 <= k < moves.drop_first().len() ==> (#[trigger] moves.drop_first()[k]).in_game());
        lemma_meta_set_at_most_once(m1, moves.drop_first(), i);
    }
}

/// The restriction left behind by an accepted, non-ending move: when the
/// just-played cell, read as a meta address, names a sub-board that is
/// already claimed or has no empty cell, the next player is free (no
/// restriction); otherwise the next player must play in that sub-board.
pub proof fn lemma_restriction_rule(m: GameModel, c: Coordinates)
    requires
        m.wf(),
        c.in_game(),
        outcome_of(m, c) == MoveOutcome::Accepted,
        !step(m, c).game_over,
    ensures
        step(m, c).restriction == (if step(m, c).meta[cell_index(
            c.spec_local().x as int,
            c.spec_local().y as int,
        )] is Some || !board_has_empty(
            step(m, c).boards[cell_index(c.spec_local().x as int, c.spec_local().y as int)],
        ) {
            None
        } else {
            Some(c.spec_local())
        }),
{
}

/// Rejection is idempotent and mutation-free: an illegal request leaves the
/// state unchanged, and requesting it again is rejected for the same reason
/// and leaves the state unchanged again.
pub proof fn lemma_rejection_idempotent(m: GameModel, c: Coordinates)
    requires
        outcome_of(m, c) != MoveOutcome::Accepted,
    ensures
        apply_move(m, c) == m,
        outcome_of(apply_move(m, c), c) == outcome_of(m, c),
        apply_move(apply_move(m, c), c) == m,
{
}

} // verus!
