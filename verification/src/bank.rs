//! Resolving a deposit: finding a cardinal-adjacent bank tile in the local
//! window, the fallback direction order tried when the agent stands on the
//! bank's own tile, and the capacity-limited acceptance rule of a deposit
//! sink.

use vstd::prelude::*;

use crate::content::ContentKind;
use crate::coords::{cardinal_adjacent_spec, manhattan, Coord, Direction};
use crate::forager::{dir_toward, dir_toward_spec};
use crate::memory::SeenTile;

verus! {

/// `i` indexes a window tile holding a bank one cardinal step away from the
/// agent.
pub open spec fn bank_adjacent_at(w: Seq<SeenTile>, agent: Coord, i: int) -> bool {
    &&& 0 <= i < w.len()
    &&& w[i].kind == ContentKind::Bank
    &&& cardinal_adjacent_spec(agent, w[i].coord)
}

/// `i` indexes the first such tile in window order.
pub open spec fn deposit_choice_at(w: Seq<SeenTile>, agent: Coord, i: int) -> bool {
    &&& bank_adjacent_at(w, agent, i)
    &&& forall|j: int| 0 <= j < i ==> !bank_adjacent_at(w, agent, j)
}

/// The direction to deposit in: toward the first bank tile of the window
/// that stands one cardinal step from the agent, or none when no such tile
/// is in the window.
pub fn deposit_direction(window: &Vec<SeenTile>, agent: Coord) -> (r: Option<Direction>)
    ensures
        match r {
            None => forall|i: int|
                0 <= i < window@.len() ==> !bank_adjacent_at(window@, agent, i),
            Some(d) => exists|i: int|
                #[trigger] deposit_choice_at(window@, agent, i) && dir_toward_spec(
                    agent,
                    window@[i].coord,
                ) == Some(d),
        },
{
    let n = window.len();
    let mut i: usize = 0;
    while i < n
        invariant
            i <= n,
            n == window@.len(),
            forall|j: int| 0 <= j < i ==> !bank_adjacent_at(window@, agent, j),
        decreases n - i,
    {
        let t = window[i];
        if t.kind == ContentKind::Bank {
            let dist = manhattan(agent, t.coord);
            if dist == 1 {
                proof {
                    assert(bank_adjacent_at(window@, agent, i as int));
                    assert(deposit_choice_at(window@, agent, i as int));
                }
                let d_opt = dir_toward(agent, t.coord);
                proof {
                    assert(t.coord != agent);
                    assert(d_opt is Some);
                }
                if let Some(d) = d_opt {
                    return Some(d);
                }
            }
        }
        i = i + 1;
    }
    None
}

/// The fallback directions tried, in order, when the resolved bank turns out
/// to coincide with the agent's own tile and it must step aside first.
pub fn evasion_order() -> (r: Vec<Direction>)
    ensures
        r@ == seq![Direction::Left, Direction::Right, Direction::Up, Direction::Down],
{
    let mut v: Vec<Direction> = Vec::new();
    v.push(Direction::Left);
    v.push(Direction::Right);
    v.push(Direction::Up);
    v.push(Direction::Down);
    proof {
        assert(v@ =~= seq![Direction::Left, Direction::Right, Direction::Up, Direction::Down]);
    }
    v
}

/// The capacity-limited acceptance rule of a deposit sink: of `offered`
/// units, a bank with `capacity` units of room left accepts exactly the
/// smaller of the two (zero once exhausted).
pub fn accepted_amount(offered: u64, capacity: u64) -> (a: u64)
    ensures
        a == if offered <= capacity {
            offered as int
        } else {
            capacity as int
        },
{
    if offered <= capacity {
        offered
    } else {
        capacity
    }
}

} // verus!
