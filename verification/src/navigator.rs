//! Energy-budgeted navigation: a two-phase Manhattan walk that first closes
//! the row gap, then the column gap, one step per decision, and never plans a
//! step without the movement-cost energy check passing first.

use vstd::prelude::*;

use crate::coords::{
    apply_step, manhattan_spec, step_coord_spec, step_in_bounds_spec, Coord, Direction,
};
use crate::energy::{can_act, cost_of_spec, CostClass};

verus! {

/// What the navigator decides for one step of the walk.
#[derive(Clone, Copy, Debug, PartialEq, Eq, Structural)]
pub enum NavAction {
    /// The agent already stands on the target.
    Arrived,
    /// Energy is below the movement threshold: no move is attempted.
    OutOfEnergy,
    /// One step in this direction brings the agent closer to the target.
    Step(Direction),
}

/// The direction of the two-phase walk: vertical while the rows differ,
/// horizontal afterwards. Only meaningful while `cur != target`.
pub open spec fn step_toward_spec(cur: Coord, target: Coord) -> Direction {
    if cur.row < target.row {
        Direction::Down
    } else if cur.row > target.row {
        Direction::Up
    } else if cur.col < target.col {
        Direction::Right
    } else {
        Direction::Left
    }
}

/// One navigation decision: where the walk toward `target` goes next, with
/// the movement-cost energy gate checked before any step is proposed. Below
/// the per-step threshold no move is performed, and the walk has arrived
/// exactly when the agent already stands on the target.
pub fn nav_decision(cur: Coord, target: Coord, energy: u64) -> (a: NavAction)
    ensures
        (a == NavAction::Arrived) <==> cur == target,
        cur != target && energy < cost_of_spec(CostClass::Movement) ==> a
            == NavAction::OutOfEnergy,
        cur != target && energy >= cost_of_spec(CostClass::Movement) ==> a == NavAction::Step(
            step_toward_spec(cur, target),
        ),
{
    if cur.row == target.row && cur.col == target.col {
        NavAction::Arrived
    } else if !can_act(energy, CostClass::Movement) {
        NavAction::OutOfEnergy
    } else if cur.row < target.row {
        NavAction::Step(Direction::Down)
    } else if cur.row > target.row {
        NavAction::Step(Direction::Up)
    } else if cur.col < target.col {
        NavAction::Step(Direction::Right)
    } else {
        NavAction::Step(Direction::Left)
    }
}

/// The planned step always stays on the grid: it runs toward the target,
/// whose coordinates are themselves grid positions.
pub proof fn lemma_step_toward_in_bounds(cur: Coord, target: Coord)
    requires
        cur != target,
    ensures
        step_in_bounds_spec(cur, step_toward_spec(cur, target)),
{
}

/// Each successfully performed step of the walk brings the agent exactly one
/// Manhattan unit closer to the target, so a walk with enough energy and no
/// blocked step reaches it.
pub proof fn lemma_step_progress(cur: Coord, target: Coord)
    requires
        cur != target,
    ensures
        manhattan_spec(step_coord_spec(cur, step_toward_spec(cur, target)), target)
            == manhattan_spec(cur, target) - 1,
{
}

/// Performs one planned step on the agent's own position bookkeeping: the
/// coordinate after the engine reports the step succeeded.
pub fn step_toward(cur: Coord, target: Coord) -> (r: Coord)
    requires
        cur != target,
    ensures
        r == step_coord_spec(cur, step_toward_spec(cur, target)),
        manhattan_spec(r, target) == manhattan_spec(cur, target) - 1,
{
    proof {
        lemma_step_toward_in_bounds(cur, target);
        lemma_step_progress(cur, target);
    }
    let d = if cur.row < target.row {
        Direction::Down
    } else if cur.row > target.row {
        Direction::Up
    } else if cur.col < target.col {
        Direction::Right
    } else {
        Direction::Left
    };
    apply_step(cur, d)
}

} // verus!
