//! What a proposed head position runs into.

use vstd::prelude::*;
use crate::grid::{Cell, is_within_bounds};

verus! {

/// The verdict on a head position.
#[derive(Clone, Copy, Debug, PartialEq, Eq, Hash, Structural)]
pub enum Collision {
    /// The head is inside the arena and on no body segment.
    Clear,
    /// The head has left the arena.
    OutOfBounds,
    /// The head is on a body segment.
    SelfCollision,
}

/// The verdict on `head` against the segments `body` behind it. Leaving
/// the arena is looked for first, and so wins where both hold.
pub open spec fn verdict(head: Cell, body: Seq<Cell>) -> Collision {
    if !head.in_bounds() {
        Collision::OutOfBounds
    } else if body.contains(head) {
        Collision::SelfCollision
    } else {
        Collision::Clear
    }
}

/// Whether `cell` occurs in `cells`.
pub fn contains_cell(cells: &Vec<Cell>, cell: Cell) -> (found: bool)
    ensures
        found == cells@.contains(cell),
{
    let mut i: usize = 0;
    while i < cells.len()
        invariant
            i <= cells@.len(),
            forall|k: int| 0 <= k < i ==> cells@[k] != cell,
        decreases cells@.len() - i,
    {
        if cells[i] == cell {
            return true;
        }
        i = i + 1;
    }
    false
}

/// Classifies `head` against the segments behind it.
pub fn classify(head: Cell, body: &Vec<Cell>) -> (result: Collision)
    ensures
        result == verdict(head, body@),
        !head.in_bounds() ==> result == Collision::OutOfBounds,
        head.in_bounds() && body@.contains(head) ==> result == Collision::SelfCollision,
        head.in_bounds() && !body@.contains(head) ==> result == Collision::Clear,
{
    if !is_within_bounds(head) {
        Collision::OutOfBounds
    } else if contains_cell(body, head) {
        Collision::SelfCollision
    } else {
        Collision::Clear
    }
}

} // verus!
