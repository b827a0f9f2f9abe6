//! Grid coordinates, step directions, and the distance measures the
//! controller plans with.

use vstd::prelude::*;

verus! {

/// A grid position: row grows downward, column grows rightward.
#[derive(Clone, Copy, Debug, PartialEq, Eq, Hash, Structural)]
pub struct Coord {
    pub row: u32,
    pub col: u32,
}

/// A single-step movement direction.
#[derive(Clone, Copy, Debug, PartialEq, Eq, Structural)]
pub enum Direction {
    Up,
    Down,
    Left,
    Right,
}

pub open spec fn abs_diff_spec(a: int, b: int) -> int {
    if a >= b {
        a - b
    } else {
        b - a
    }
}

/// Manhattan distance: the number of single steps between two positions.
pub open spec fn manhattan_spec(a: Coord, b: Coord) -> int {
    abs_diff_spec(a.row as int, b.row as int) + abs_diff_spec(a.col as int, b.col as int)
}

/// Chebyshev adjacency: `b` is one of the eight neighbors of `a`
/// (the center itself is not its own neighbor).
pub open spec fn adjacent8_spec(a: Coord, b: Coord) -> bool {
    &&& a != b
    &&& abs_diff_spec(a.row as int, b.row as int) <= 1
    &&& abs_diff_spec(a.col as int, b.col as int) <= 1
}

/// `b` lies one step from `a` along exactly one axis.
pub open spec fn cardinal_adjacent_spec(a: Coord, b: Coord) -> bool {
    manhattan_spec(a, b) == 1
}

fn abs_diff_u32(a: u32, b: u32) -> (d: u32)
    ensures
        d == abs_diff_spec(a as int, b as int),
{
    if a >= b {
        a - b
    } else {
        b - a
    }
}

/// Manhattan distance between two positions.
pub fn manhattan(a: Coord, b: Coord) -> (d: u64)
    ensures
        d == manhattan_spec(a, b),
{
    abs_diff_u32(a.row, b.row) as u64 + abs_diff_u32(a.col, b.col) as u64
}

/// Whether `b` is one of the eight neighbors of `a`.
pub fn adjacent8(a: Coord, b: Coord) -> (r: bool)
    ensures
        r == adjacent8_spec(a, b),
{
    let dr = abs_diff_u32(a.row, b.row);
    let dc = abs_diff_u32(a.col, b.col);
    (dr != 0 || dc != 0) && dr <= 1 && dc <= 1
}

/// The position one step from `c` in direction `d`, staying on the grid.
pub open spec fn step_coord_spec(c: Coord, d: Direction) -> Coord {
    match d {
        Direction::Up => Coord { row: (c.row - 1) as u32, col: c.col },
        Direction::Down => Coord { row: (c.row + 1) as u32, col: c.col },
        Direction::Left => Coord { row: c.row, col: (c.col - 1) as u32 },
        Direction::Right => Coord { row: c.row, col: (c.col + 1) as u32 },
    }
}

/// Whether a step in direction `d` from `c` stays on the grid.
pub open spec fn step_in_bounds_spec(c: Coord, d: Direction) -> bool {
    match d {
        Direction::Up => c.row > 0,
        Direction::Down => c.row < u32::MAX,
        Direction::Left => c.col > 0,
        Direction::Right => c.col < u32::MAX,
    }
}

/// The position reached by one step in direction `d`.
pub fn apply_step(c: Coord, d: Direction) -> (r: Coord)
    requires
        step_in_bounds_spec(c, d),
    ensures
        r == step_coord_spec(c, d),
{
    match d {
        Direction::Up => Coord { row: c.row - 1, col: c.col },
        Direction::Down => Coord { row: c.row + 1, col: c.col },
        Direction::Left => Coord { row: c.row, col: c.col - 1 },
        Direction::Right => Coord { row: c.row, col: c.col + 1 },
    }
}

} // verus!
