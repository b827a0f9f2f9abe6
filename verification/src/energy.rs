//! The energy governor: a stateless gate that decides whether an action of a
//! given cost class may be attempted at the current energy level.

use vstd::prelude::*;

verus! {

/// Energy needed before a tick's state handler may run at all.
pub const TICK_ADMISSION_COST: u64 = 150;

/// Energy needed before a single movement step may be attempted.
pub const MOVEMENT_COST: u64 = 50;

/// Energy needed to keep a search-and-harvest loop going.
pub const SEARCH_LOOP_COST: u64 = 400;

/// Energy needed for the long-range finishing maneuver.
pub const CONSTRUCTION_COST: u64 = 500;

/// A named energy-threshold tier gating whether an action may be attempted.
#[derive(Clone, Copy, Debug, PartialEq, Eq, Structural)]
pub enum CostClass {
    TickAdmission,
    Movement,
    SearchLoop,
    Construction,
}

/// The threshold of a cost class.
pub open spec fn cost_of_spec(class: CostClass) -> int {
    match class {
        CostClass::TickAdmission => TICK_ADMISSION_COST as int,
        CostClass::Movement => MOVEMENT_COST as int,
        CostClass::SearchLoop => SEARCH_LOOP_COST as int,
        CostClass::Construction => CONSTRUCTION_COST as int,
    }
}

/// Whether an action of class `class` may proceed at energy `energy`.
/// A `false` result is a normal signal, not a failure.
pub fn can_act(energy: u64, class: CostClass) -> (r: bool)
    ensures
        r <==> energy >= cost_of_spec(class),
{
    match class {
        CostClass::TickAdmission => energy >= TICK_ADMISSION_COST,
        CostClass::Movement => energy >= MOVEMENT_COST,
        CostClass::SearchLoop => energy >= SEARCH_LOOP_COST,
        CostClass::Construction => energy >= CONSTRUCTION_COST,
    }
}

} // verus!
