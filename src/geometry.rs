use vstd::prelude::*;

verus! {

/// A grid cell.
#[derive(Clone, Copy, Debug, PartialEq, Eq, Structural, Hash)]
pub struct Point {
    pub x: i32,
    pub y: i32,
}

/// A heading of the snake.
#[derive(Clone, Copy, Debug, PartialEq, Eq, Structural, Hash)]
pub enum Direction {
    Up,
    Down,
    Left,
    Right,
}

impl Direction {
    /// Horizontal component of the unit displacement.
    pub open spec fn dx(self) -> int {
        match self {
            Direction::Left => -1,
            Direction::Right => 1,
            _ => 0,
        }
    }

    /// Vertical component of the unit displacement (rows grow downwards).
    pub open spec fn dy(self) -> int {
        match self {
            Direction::Up => -1,
            Direction::Down => 1,
            _ => 0,
        }
    }

    /// The heading that points the other way.
    pub open spec fn reverse(self) -> Direction {
        match self {
            Direction::Up => Direction::Down,
            Direction::Down => Direction::Up,
            Direction::Left => Direction::Right,
            Direction::Right => Direction::Left,
        }
    }

    /// Returns `(dx, dy)` for each direction.
    pub fn vector(self) -> (r: (i32, i32))
        ensures
            r.0 == self.dx(),
            r.1 == self.dy(),
    {
        match self {
            Direction::Up => (0, -1),
            Direction::Down => (0, 1),
            Direction::Left => (-1, 0),
            Direction::Right => (1, 0),
        }
    }

    /// The heading that points the other way.
    pub fn opposite(self) -> (r: Direction)
        ensures
            r == self.reverse(),
    {
        match self {
            Direction::Up => Direction::Down,
            Direction::Down => Direction::Up,
            Direction::Left => Direction::Right,
            Direction::Right => Direction::Left,
        }
    }
}

/// Manhattan distance between two cells.
pub open spec fn manhattan(p: Point, q: Point) -> int {
    let ddx = if p.x >= q.x { p.x - q.x } else { q.x - p.x };
    let ddy = if p.y >= q.y { p.y - q.y } else { q.y - p.y };
    ddx + ddy
}

/// Two cells that share an edge.
pub open spec fn adjacent(p: Point, q: Point) -> bool {
    manhattan(p, q) == 1
}

/// The cell one step from `p` in direction `d`.
pub open spec fn step_from(p: Point, d: Direction) -> Point {
    Point { x: (p.x + d.dx()) as i32, y: (p.y + d.dy()) as i32 }
}

/// Every heading moves by exactly one cell along exactly one axis: no
/// diagonal and no standing still.
pub proof fn lemma_unit_vector(d: Direction)
    ensures
        (d.dx() == 0) != (d.dy() == 0),
        -1 <= d.dx() <= 1,
        -1 <= d.dy() <= 1,
        d.reverse().dx() == -d.dx(),
        d.reverse().dy() == -d.dy(),
        d.reverse() != d,
        d.reverse().reverse() == d,
{
}

/// A step from a cell well inside the `i32` range lands on a neighbour of it,
/// displaced by the heading's unit vector.
pub proof fn lemma_step_adjacent(p: Point, d: Direction)
    requires
        i32::MIN < p.x < i32::MAX,
        i32::MIN < p.y < i32::MAX,
    ensures
        step_from(p, d).x == p.x + d.dx(),
        step_from(p, d).y == p.y + d.dy(),
        adjacent(p, step_from(p, d)),
{
}

} // verus!
