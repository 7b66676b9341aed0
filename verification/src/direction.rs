//! Headings and the unit step each one stands for.

use vstd::prelude::*;
use crate::grid::Cell;

verus! {

/// One of the four headings. `y` grows upwards.
#[derive(Clone, Copy, Debug, PartialEq, Eq, Hash, Structural)]
pub enum Direction {
    Up,
    Down,
    Left,
    Right,
}

impl Direction {
    /// The heading that points the other way.
    pub open spec fn reversed(self) -> Direction {
        match self {
            Direction::Up => Direction::Down,
            Direction::Down => Direction::Up,
            Direction::Left => Direction::Right,
            Direction::Right => Direction::Left,
        }
    }

    /// Change of `x` made by one step.
    pub open spec fn dx(self) -> int {
        match self {
            Direction::Left => -1,
            Direction::Right => 1,
            _ => 0,
        }
    }

    /// Change of `y` made by one step.
    pub open spec fn dy(self) -> int {
        match self {
            Direction::Up => 1,
            Direction::Down => -1,
            _ => 0,
        }
    }

    /// The heading that points the other way.
    pub fn opposite(&self) -> (other: Direction)
        ensures
            other == self.reversed(),
    {
        match self {
            Direction::Up => Direction::Down,
            Direction::Down => Direction::Up,
            Direction::Left => Direction::Right,
            Direction::Right => Direction::Left,
        }
    }

    /// The heading asked for by the arrow keys that are held down. Where
    /// several are held, up wins over down, down over left and left over
    /// right; with none held, nothing is asked for.
    pub fn from_keys(up: bool, down: bool, left: bool, right: bool) -> (requested: Option<Direction>)
        ensures
            requested == Self::keys_request(up, down, left, right),
    {
        if up {
            Some(Direction::Up)
        } else if down {
            Some(Direction::Down)
        } else if left {
            Some(Direction::Left)
        } else if right {
            Some(Direction::Right)
        } else {
            None
        }
    }

    /// What `from_keys` answers.
    pub open spec fn keys_request(up: bool, down: bool, left: bool, right: bool) -> Option<Direction> {
        if up {
            Some(Direction::Up)
        } else if down {
            Some(Direction::Down)
        } else if left {
            Some(Direction::Left)
        } else if right {
            Some(Direction::Right)
        } else {
            None
        }
    }
}

/// Reversing is an involution without fixed point, and a heading and its
/// reverse move along the same axis in opposite senses.
pub proof fn lemma_reversed(d: Direction)
    ensures
        d.reversed().reversed() == d,
        d.reversed() != d,
        d.reversed().dx() == -d.dx(),
        d.reversed().dy() == -d.dy(),
{
}

impl Cell {
    /// One step from this cell in direction `d` stays within `i32`.
    pub open spec fn can_step(self, d: Direction) -> bool {
        &&& i32::MIN <= self.x + d.dx() <= i32::MAX
        &&& i32::MIN <= self.y + d.dy() <= i32::MAX
    }

    /// The cell one step away in direction `d`.
    pub open spec fn neighbor(self, d: Direction) -> Cell {
        Cell { x: (self.x + d.dx()) as i32, y: (self.y + d.dy()) as i32 }
    }

    /// The cell one step away in direction `d`.
    pub fn step(self, d: Direction) -> (next: Cell)
        requires
            self.can_step(d),
        ensures
            next == self.neighbor(d),
            next.x == self.x + d.dx(),
            next.y == self.y + d.dy(),
    {
        match d {
            Direction::Up => Cell { x: self.x, y: self.y + 1 },
            Direction::Down => Cell { x: self.x, y: self.y - 1 },
            Direction::Left => Cell { x: self.x - 1, y: self.y },
            Direction::Right => Cell { x: self.x + 1, y: self.y },
        }
    }
}

} // verus!
