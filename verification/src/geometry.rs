//! Grid coordinates, headings and the rectangular playing field.

use vstd::prelude::*;

verus! {

/// A cell of the grid, addressed from the upper-left corner.
#[derive(Clone, Copy, Debug, PartialEq, Eq, Structural)]
pub struct Point {
    pub x: usize,
    pub y: usize,
}

/// The heading a snake moves in on its next tick.
#[derive(Clone, Copy, Debug, PartialEq, Eq, Structural)]
pub enum Direction {
    Up,
    Down,
    Left,
    Right,
}

/// The fixed extent of the playing field, established once at startup.
/// The outermost ring of cells on all four sides acts as a wall.
#[derive(Clone, Copy, Debug, PartialEq, Eq, Structural)]
pub struct Bounds {
    pub width: usize,
    pub height: usize,
}

/// Absolute difference of two coordinates.
pub open spec fn coord_dist(a: usize, b: usize) -> int {
    if a >= b {
        a - b
    } else {
        b - a
    }
}

/// Manhattan distance between two cells.
pub open spec fn manhattan(p: Point, q: Point) -> int {
    coord_dist(p.x, q.x) + coord_dist(p.y, q.y)
}

/// The cell lies strictly inside the walls.
pub open spec fn in_interior(p: Point, b: Bounds) -> bool {
    &&& 1 <= p.x < b.width - 1
    &&& 1 <= p.y < b.height - 1
}

/// The cell lies on the boundary ring: the lethal outermost row or column.
pub open spec fn on_boundary(p: Point, b: Bounds) -> bool {
    ||| p.x == 0
    ||| p.y == 0
    ||| p.x == b.width - 1
    ||| p.y == b.height - 1
}

/// The cell one unit away from `p` in direction `d`.
pub open spec fn step_spec(p: Point, d: Direction) -> Point
    recommends
        p.x >= 1,
        p.y >= 1,
        p.x + 1 <= usize::MAX,
        p.y + 1 <= usize::MAX,
{
    match d {
        Direction::Up => Point { x: p.x, y: (p.y - 1) as usize },
        Direction::Down => Point { x: p.x, y: (p.y + 1) as usize },
        Direction::Left => Point { x: (p.x - 1) as usize, y: p.y },
        Direction::Right => Point { x: (p.x + 1) as usize, y: p.y },
    }
}

/// Moves a cell one unit in direction `d`.
///
/// The caller must keep the coordinates away from the representation's
/// edges; inside the walls this always holds.
pub fn step(p: Point, d: Direction) -> (r: Point)
    requires
        p.x >= 1,
        p.y >= 1,
        p.x + 1 <= usize::MAX,
        p.y + 1 <= usize::MAX,
    ensures
        r == step_spec(p, d),
        manhattan(p, r) == 1,
{
    match d {
        Direction::Up => Point { x: p.x, y: p.y - 1 },
        Direction::Down => Point { x: p.x, y: p.y + 1 },
        Direction::Left => Point { x: p.x - 1, y: p.y },
        Direction::Right => Point { x: p.x + 1, y: p.y },
    }
}

/// A single step changes the position by exactly one unit of Manhattan
/// distance.
pub proof fn lemma_step_adjacent(p: Point, d: Direction)
    requires
        p.x >= 1,
        p.y >= 1,
        p.x + 1 <= usize::MAX,
        p.y + 1 <= usize::MAX,
    ensures
        manhattan(p, step_spec(p, d)) == 1,
{
}

} // verus!
