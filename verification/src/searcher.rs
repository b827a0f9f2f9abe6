//! Long-range probing: picks one of four diagonal quadrants around the agent,
//! preferring quadrants whose representative probe point was never seen, and
//! orders found coordinates into a nearest-first visiting queue.

use vstd::prelude::*;

use crate::coords::{manhattan, manhattan_spec, Coord, Direction};
use crate::memory::{seen_coord, SeenTile, SpatialMemory};
use crate::rng::rand_below;

verus! {

/// One of the four diagonal probe quadrants around the agent.
#[derive(Clone, Copy, Debug, PartialEq, Eq, Structural)]
pub enum Quadrant {
    BottomLeft,
    BottomRight,
    TopLeft,
    TopRight,
}

/// The fixed order in which quadrants are considered.
pub open spec fn quadrant_order_spec() -> Seq<Quadrant> {
    seq![Quadrant::BottomLeft, Quadrant::BottomRight, Quadrant::TopLeft, Quadrant::TopRight]
}

pub open spec fn sat_add2_spec(x: u32) -> u32 {
    if x <= u32::MAX - 2 {
        (x + 2) as u32
    } else {
        u32::MAX
    }
}

pub open spec fn sat_sub2_spec(x: u32) -> u32 {
    if x >= 2 {
        (x - 2) as u32
    } else {
        0
    }
}

/// The representative probe point of a quadrant: offset two in both axes
/// from the agent, clamped to the grid.
pub open spec fn probe_point_spec(agent: Coord, q: Quadrant) -> Coord {
    match q {
        Quadrant::BottomLeft => Coord {
            row: sat_add2_spec(agent.row),
            col: sat_sub2_spec(agent.col),
        },
        Quadrant::BottomRight => Coord {
            row: sat_add2_spec(agent.row),
            col: sat_add2_spec(agent.col),
        },
        Quadrant::TopLeft => Coord { row: sat_sub2_spec(agent.row), col: sat_sub2_spec(agent.col) },
        Quadrant::TopRight => Coord {
            row: sat_sub2_spec(agent.row),
            col: sat_add2_spec(agent.col),
        },
    }
}

/// A quadrant is eligible on its own merits while its probe point was never
/// observed.
pub open spec fn quadrant_unseen(seen: Seq<SeenTile>, agent: Coord, q: Quadrant) -> bool {
    !seen_coord(seen, probe_point_spec(agent, q))
}

/// The quadrants whose probe points were never observed, in fixed order.
pub open spec fn unseen_quadrants_spec(seen: Seq<SeenTile>, agent: Coord) -> Seq<Quadrant> {
    (if quadrant_unseen(seen, agent, Quadrant::BottomLeft) {
        seq![Quadrant::BottomLeft]
    } else {
        Seq::empty()
    }) + (if quadrant_unseen(seen, agent, Quadrant::BottomRight) {
        seq![Quadrant::BottomRight]
    } else {
        Seq::empty()
    }) + (if quadrant_unseen(seen, agent, Quadrant::TopLeft) {
        seq![Quadrant::TopLeft]
    } else {
        Seq::empty()
    }) + (if quadrant_unseen(seen, agent, Quadrant::TopRight) {
        seq![Quadrant::TopRight]
    } else {
        Seq::empty()
    })
}

/// The quadrants the searcher may probe: those never seen, and all four
/// again once every probe point has been seen.
pub open spec fn eligible_spec(seen: Seq<SeenTile>, agent: Coord) -> Seq<Quadrant> {
    if unseen_quadrants_spec(seen, agent).len() == 0 {
        quadrant_order_spec()
    } else {
        unseen_quadrants_spec(seen, agent)
    }
}

/// The representative probe point of a quadrant.
pub fn probe_point(agent: Coord, q: Quadrant) -> (c: Coord)
    ensures
        c == probe_point_spec(agent, q),
{
    let row_down = if agent.row <= u32::MAX - 2 {
        agent.row + 2
    } else {
        u32::MAX
    };
    let row_up = if agent.row >= 2 {
        agent.row - 2
    } else {
        0
    };
    let col_right = if agent.col <= u32::MAX - 2 {
        agent.col + 2
    } else {
        u32::MAX
    };
    let col_left = if agent.col >= 2 {
        agent.col - 2
    } else {
        0
    };
    match q {
        Quadrant::BottomLeft => Coord { row: row_down, col: col_left },
        Quadrant::BottomRight => Coord { row: row_down, col: col_right },
        Quadrant::TopLeft => Coord { row: row_up, col: col_left },
        Quadrant::TopRight => Coord { row: row_up, col: col_right },
    }
}

/// The quadrants eligible for the next probe: each quadrant whose probe
/// point was never seen and, when all four have been seen, all four again.
pub fn eligible_quadrants(mem: &SpatialMemory, agent: Coord) -> (r: Vec<Quadrant>)
    ensures
        r@ == eligible_spec(mem.seen@, agent),
        r@.len() >= 1,
{
    let mut v: Vec<Quadrant> = Vec::new();
    if !mem.has_been_seen(probe_point(agent, Quadrant::BottomLeft)) {
        v.push(Quadrant::BottomLeft);
    }
    if !mem.has_been_seen(probe_point(agent, Quadrant::BottomRight)) {
        v.push(Quadrant::BottomRight);
    }
    if !mem.has_been_seen(probe_point(agent, Quadrant::TopLeft)) {
        v.push(Quadrant::TopLeft);
    }
    if !mem.has_been_seen(probe_point(agent, Quadrant::TopRight)) {
        v.push(Quadrant::TopRight);
    }
    proof {
        assert(v@ =~= unseen_quadrants_spec(mem.seen@, agent));
    }
    if v.len() == 0 {
        v.push(Quadrant::BottomLeft);
        v.push(Quadrant::BottomRight);
        v.push(Quadrant::TopLeft);
        v.push(Quadrant::TopRight);
        proof {
            assert(v@ =~= quadrant_order_spec());
        }
    }
    v
}

/// Once every quadrant's probe point has been seen, eligibility resets to
/// all four quadrants, in order, before the searcher chooses.
pub proof fn lemma_all_seen_resets(seen: Seq<SeenTile>, agent: Coord)
    requires
        forall|q: Quadrant| !(#[trigger] quadrant_unseen(seen, agent, q)),
    ensures
        eligible_spec(seen, agent) == quadrant_order_spec(),
{
    assert(!quadrant_unseen(seen, agent, Quadrant::BottomLeft));
    assert(!quadrant_unseen(seen, agent, Quadrant::BottomRight));
    assert(!quadrant_unseen(seen, agent, Quadrant::TopLeft));
    assert(!quadrant_unseen(seen, agent, Quadrant::TopRight));
    assert(unseen_quadrants_spec(seen, agent).len() == 0);
}

/// Picks the quadrant for this probe: a random choice among the eligible
/// quadrants, so always an eligible one.
pub fn choose_quadrant(mem: &SpatialMemory, agent: Coord) -> (q: Quadrant)
    ensures
        eligible_spec(mem.seen@, agent).contains(q),
{
    let el = eligible_quadrants(mem, agent);
    let i = rand_below(el.len());
    let q = el[i];
    proof {
        assert(el@[i as int] == q);
    }
    q
}

/// The fixed order of single-step directions used for diversification moves.
pub open spec fn direction_order_spec() -> Seq<Direction> {
    seq![Direction::Up, Direction::Down, Direction::Left, Direction::Right]
}

/// The direction at a position of the fixed order.
pub fn direction_from_index(i: usize) -> (d: Direction)
    requires
        i < 4,
    ensures
        d == direction_order_spec()[i as int],
{
    if i == 0 {
        Direction::Up
    } else if i == 1 {
        Direction::Down
    } else if i == 2 {
        Direction::Left
    } else {
        Direction::Right
    }
}

/// One random single-step direction, for the diversification moves taken
/// after a probe.
pub fn random_direction() -> (d: Direction)
    ensures
        direction_order_spec().contains(d),
{
    let i = rand_below(4);
    let d = direction_from_index(i);
    proof {
        assert(direction_order_spec()[i as int] == d);
    }
    d
}

/// `i` indexes a queue entry nearest to `from`, the first such entry.
pub open spec fn queue_min_at(q: Seq<Coord>, from: Coord, i: int) -> bool {
    &&& 0 <= i < q.len()
    &&& forall|j: int|
        0 <= j < q.len() ==> manhattan_spec(q[i], from) <= manhattan_spec(q[j], from)
    &&& forall|j: int| 0 <= j < i ==> manhattan_spec(q[j], from) > manhattan_spec(q[i], from)
}

/// Takes the nearest-to-`from` coordinate out of the visiting queue (the
/// first nearest on ties), or none when the queue is empty.
pub fn pop_nearest(queue: &mut Vec<Coord>, from: Coord) -> (r: Option<Coord>)
    ensures
        old(queue)@.len() == 0 ==> r is None && final(queue)@ == old(queue)@,
        old(queue)@.len() > 0 ==> exists|i: int|
            #[trigger] queue_min_at(old(queue)@, from, i) && r == Some(old(queue)@[i])
                && final(queue)@ == old(queue)@.remove(i),
{
    let n = queue.len();
    if n == 0 {
        return None;
    }
    let mut best_idx: usize = 0;
    let mut best_dist: u64 = manhattan(queue[0], from);
    let mut i: usize = 1;
    while i < n
        invariant
            1 <= i <= n,
            n == queue@.len(),
            0 <= best_idx < i,
            best_dist == manhattan_spec(queue@[best_idx as int], from),
            forall|j: int| 0 <= j < i ==> best_dist <= manhattan_spec(queue@[j], from),
            forall|j: int|
                0 <= j < best_idx ==> manhattan_spec(queue@[j], from) > best_dist,
        decreases n - i,
    {
        let d = manhattan(queue[i], from);
        if d < best_dist {
            best_idx = i;
            best_dist = d;
        }
        i = i + 1;
    }
    proof {
        assert(queue_min_at(queue@, from, best_idx as int));
    }
    let c = queue.remove(best_idx);
    Some(c)
}

} // verus!
