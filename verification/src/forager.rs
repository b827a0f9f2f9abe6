//! Opportunistic harvesting around the agent. Harvesting indiscriminately is
//! allowed only when no known landmark stands in the agent's eight-neighbor
//! ring; otherwise each local tile is inspected and only wanted, non-landmark
//! content is targeted, in the cardinal direction pointing at it.

use vstd::prelude::*;

use crate::content::ContentKind;
use crate::coords::{adjacent8, adjacent8_spec, Coord, Direction};
use crate::memory::{SeenTile, SpatialMemory};

verus! {

/// No known landmark, free or filled, stands within the agent's
/// eight-neighbor ring (all eight neighbors protected, the center excluded).
pub open spec fn harvest_safe_spec(s: Seq<crate::memory::LandmarkRecord>, agent: Coord) -> bool {
    forall|i: int| 0 <= i < s.len() ==> !adjacent8_spec(s[i].coord, agent)
}

/// Whether it is safe to harvest indiscriminately: true exactly when no
/// known landmark lies in the agent's immediate eight-neighborhood.
pub fn harvest_is_safe(mem: &SpatialMemory, agent: Coord) -> (r: bool)
    ensures
        r == harvest_safe_spec(mem.landmarks@, agent),
{
    let n = mem.landmarks.len();
    let mut i: usize = 0;
    while i < n
        invariant
            i <= n,
            n == mem.landmarks@.len(),
            forall|j: int| 0 <= j < i ==> !adjacent8_spec(mem.landmarks@[j].coord, agent),
        decreases n - i,
    {
        let rec = mem.landmarks[i];
        if adjacent8(rec.coord, agent) {
            proof {
                assert(adjacent8_spec(mem.landmarks@[i as int].coord, agent));
            }
            return false;
        }
        i = i + 1;
    }
    true
}

/// The cardinal direction pointing from the agent toward a tile: the row gap
/// decides first, then the column gap; the agent's own tile gets none.
pub open spec fn dir_toward_spec(agent: Coord, tile: Coord) -> Option<Direction> {
    if tile.row > agent.row {
        Some(Direction::Down)
    } else if tile.row < agent.row {
        Some(Direction::Up)
    } else if tile.col > agent.col {
        Some(Direction::Right)
    } else if tile.col < agent.col {
        Some(Direction::Left)
    } else {
        None
    }
}

/// Whether one local tile is a harvest target: its content is wanted and is
/// not itself a landmark.
pub open spec fn harvest_target_spec(t: SeenTile, wanted: Seq<ContentKind>) -> bool {
    &&& wanted.contains(t.kind)
    &&& t.kind != ContentKind::Bank
}

/// The conservative per-tile plan over a local window: for each tile, in
/// window order, whose content is wanted and not a landmark, the cardinal
/// direction from the agent toward it (the agent's own tile yields none).
pub open spec fn selective_plan_spec(
    w: Seq<SeenTile>,
    agent: Coord,
    wanted: Seq<ContentKind>,
) -> Seq<Direction>
    decreases w.len(),
{
    if w.len() == 0 {
        Seq::empty()
    } else {
        let rest = selective_plan_spec(w.subrange(1, w.len() as int), agent, wanted);
        if harvest_target_spec(w[0], wanted) && dir_toward_spec(agent, w[0].coord) is Some {
            seq![dir_toward_spec(agent, w[0].coord)->Some_0] + rest
        } else {
            rest
        }
    }
}

/// The cardinal direction pointing from the agent toward `tile`.
pub fn dir_toward(agent: Coord, tile: Coord) -> (r: Option<Direction>)
    ensures
        r == dir_toward_spec(agent, tile),
{
    if tile.row > agent.row {
        Some(Direction::Down)
    } else if tile.row < agent.row {
        Some(Direction::Up)
    } else if tile.col > agent.col {
        Some(Direction::Right)
    } else if tile.col < agent.col {
        Some(Direction::Left)
    } else {
        None
    }
}

/// Computes the conservative harvest plan for a local window: one destroy
/// direction per wanted, non-landmark tile, never one pointing at a landmark.
pub fn selective_harvest_plan(
    window: &Vec<SeenTile>,
    agent: Coord,
    wanted: &Vec<ContentKind>,
) -> (r: Vec<Direction>)
    ensures
        r@ == selective_plan_spec(window@, agent, wanted@),
{
    let n = window.len();
    let mut out: Vec<Direction> = Vec::new();
    proof {
        assert(window@.subrange(0, n as int) =~= window@);
    }
    let mut i: usize = 0;
    while i < n
        invariant
            i <= n,
            n == window@.len(),
            selective_plan_spec(window@, agent, wanted@) == out@ + selective_plan_spec(
                window@.subrange(i as int, n as int),
                agent,
                wanted@,
            ),
        decreases n - i,
    {
        let t = window[i];
        let ghost prev = out@;
        proof {
            let w = window@.subrange(i as int, n as int);
            assert(w.len() > 0);
            assert(w[0] == window@[i as int]);
            assert(w.subrange(1, w.len() as int) =~= window@.subrange(i as int + 1, n as int));
        }
        let is_target = contains_kind(wanted, t.kind) && t.kind != ContentKind::Bank;
        if is_target {
            match dir_toward(agent, t.coord) {
                Some(d) => {
                    out.push(d);
                },
                None => {},
            }
        }
        proof {
            let w = window@.subrange(i as int, n as int);
            let rest = selective_plan_spec(
                window@.subrange(i as int + 1, n as int),
                agent,
                wanted@,
            );
            if harvest_target_spec(t, wanted@) && dir_toward_spec(agent, t.coord) is Some {
                let d = dir_toward_spec(agent, t.coord)->Some_0;
                assert(selective_plan_spec(w, agent, wanted@) == seq![d] + rest);
                assert(prev + (seq![d] + rest) =~= prev.push(d) + rest);
                assert(out@ == prev.push(d));
            } else {
                assert(selective_plan_spec(w, agent, wanted@) == rest);
                assert(out@ == prev);
            }
        }
        i = i + 1;
    }
    proof {
        assert(window@.subrange(n as int, n as int) =~= Seq::<SeenTile>::empty());
        assert(out@ + Seq::<Direction>::empty() =~= out@);
    }
    out
}

/// Whether `kind` occurs in the wanted list.
pub fn contains_kind(wanted: &Vec<ContentKind>, kind: ContentKind) -> (r: bool)
    ensures
        r == wanted@.contains(kind),
{
    let n = wanted.len();
    let mut i: usize = 0;
    while i < n
        invariant
            i <= n,
            n == wanted@.len(),
            forall|j: int| 0 <= j < i ==> wanted@[j] != kind,
        decreases n - i,
    {
        if wanted[i] == kind {
            proof {
                assert(wanted@[i as int] == kind);
            }
            return true;
        }
        i = i + 1;
    }
    proof {
        if wanted@.contains(kind) {
            let j = choose|j: int| 0 <= j < wanted@.len() && wanted@[j] == kind;
            assert(wanted@[j] != kind);
        }
    }
    false
}

} // verus!
