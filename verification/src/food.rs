//! Where food may appear: on a cell of the arena that nothing occupies,
//! picked at random.

use rand::seq::IteratorRandom;
use vstd::prelude::*;
use crate::collision::contains_cell;
use crate::grid::{
    ARENA_HEIGHT, ARENA_WIDTH, Cell, all_cells, grid_cells, lemma_grid_cells_contains,
    lemma_grid_cells_distinct,
};

verus! {

/// `cell` is in the arena and not among `occupied`.
pub open spec fn is_free(occupied: Seq<Cell>, cell: Cell) -> bool {
    cell.in_bounds() && !occupied.contains(cell)
}

/// Every cell of the arena is among `occupied`.
pub open spec fn board_full(occupied: Seq<Cell>) -> bool {
    forall|cell: Cell| cell.in_bounds() ==> #[trigger] occupied.contains(cell)
}

/// The cells of the arena that are not among `occupied`, in enumeration
/// order.
pub open spec fn free_cells_of(occupied: Seq<Cell>) -> Seq<Cell> {
    grid_cells().filter(|cell: Cell| !occupied.contains(cell))
}

/// A placement is right for `occupied` when it names a free cell, or names
/// none because there is none.
pub open spec fn valid_placement(occupied: Seq<Cell>, food: Option<Cell>) -> bool {
    match food {
        Some(cell) => is_free(occupied, cell),
        None => board_full(occupied),
    }
}

/// The free cells are exactly the cells that are free.
pub proof fn lemma_free_cells_contains(occupied: Seq<Cell>, cell: Cell)
    ensures
        free_cells_of(occupied).contains(cell) <==> is_free(occupied, cell),
{
    let pred = |c: Cell| !occupied.contains(c);
    let free = free_cells_of(occupied);
    lemma_grid_cells_contains(cell);
    if free.contains(cell) {
        let i = choose|i: int| 0 <= i < free.len() && free[i] == cell;
        grid_cells().lemma_filter_pred(pred, i);
        grid_cells().lemma_filter_contains_rev(pred, cell);
    }
    if is_free(occupied, cell) {
        let j = choose|j: int| 0 <= j < grid_cells().len() && grid_cells()[j] == cell;
        grid_cells().lemma_filter_contains(pred, j);
    }
}

/// No cell is free exactly when the board is full.
pub proof fn lemma_no_free_cell(occupied: Seq<Cell>)
    ensures
        free_cells_of(occupied).len() == 0 <==> board_full(occupied),
{
    let free = free_cells_of(occupied);
    if free.len() == 0 {
        assert forall|cell: Cell| cell.in_bounds() implies #[trigger] occupied.contains(cell) by {
            lemma_free_cells_contains(occupied, cell);
        }
    } else {
        lemma_free_cells_contains(occupied, free[0]);
        assert(free.contains(free[0]));
    }
}

/// Filling the board takes at least as many cells as the arena has.
pub proof fn lemma_full_board_is_long(occupied: Seq<Cell>)
    requires
        board_full(occupied),
    ensures
        occupied.len() >= ARENA_WIDTH * ARENA_HEIGHT,
{
    let grid = grid_cells();
    lemma_grid_cells_distinct();
    grid.unique_seq_to_set();
    occupied.lemma_cardinality_of_set();
    vstd::seq_lib::seq_to_set_is_finite(occupied);
    assert forall|cell: Cell| grid.to_set().contains(cell) implies occupied.to_set().contains(
        cell,
    ) by {
        lemma_grid_cells_contains(cell);
        assert(occupied.contains(cell));
    }
    vstd::set_lib::lemma_len_subset(grid.to_set(), occupied.to_set());
}

/// The cells of the arena that are not among `occupied`, in enumeration
/// order.
pub fn free_cells(occupied: &Vec<Cell>) -> (free: Vec<Cell>)
    ensures
        free@ == free_cells_of(occupied@),
        forall|cell: Cell| free@.contains(cell) <==> is_free(occupied@, cell),
        free@.len() == 0 <==> board_full(occupied@),
{
    let grid = all_cells();
    let ghost pred = |cell: Cell| !occupied@.contains(cell);
    let mut free: Vec<Cell> = Vec::new();
    let mut i: usize = 0;
    proof {
        reveal(Seq::filter);
        assert(grid@.take(0) =~= Seq::<Cell>::empty());
    }
    while i < grid.len()
        invariant
            i <= grid@.len(),
            grid@ == grid_cells(),
            pred == (|cell: Cell| !occupied@.contains(cell)),
            free@ == grid@.take(i as int).filter(pred),
        decreases grid@.len() - i,
    {
        let cell = grid[i];
        proof {
            assert(grid@.take(i + 1) =~= grid@.take(i as int).push(cell));
            grid@.take(i as int).lemma_filter_push(cell, pred);
        }
        if !contains_cell(occupied, cell) {
            free.push(cell);
        }
        i = i + 1;
    }
    proof {
        assert(grid@.take(i as int) =~= grid@);
        assert forall|cell: Cell| free@.contains(cell) <==> is_free(occupied@, cell) by {
            lemma_free_cells_contains(occupied@, cell);
        }
        lemma_no_free_cell(occupied@);
    }
    free
}

/// Picks one of `candidates` at random with `rand::seq::IteratorRandom::choose`
/// on the thread-local generator `rand::thread_rng()`. Trusted, not proved:
/// the pick is an element of `candidates`, and there is none exactly when
/// `candidates` is empty. Which element comes back is left open, and so is
/// how likely each one is. The generator is seeded from the operating
/// system on its first use in a thread.
#[verifier::external_body]
fn pick_at_random(candidates: &Vec<Cell>) -> (picked: Option<Cell>)
    ensures
        picked is None <==> candidates@.len() == 0,
        picked matches Some(cell) ==> candidates@.contains(cell),
{
    candidates.iter().choose(&mut rand::thread_rng()).copied()
}

/// Picks at random a cell of the arena that is not among `occupied`, for
/// the food to appear on. Only a full board leaves no such cell: then the
/// answer is `None`.
pub fn place_food(occupied: &Vec<Cell>) -> (food: Option<Cell>)
    ensures
        valid_placement(occupied@, food),
        food is None <==> board_full(occupied@),
        food matches Some(cell) ==> cell.in_bounds() && !occupied@.contains(cell),
        occupied@.len() < ARENA_WIDTH * ARENA_HEIGHT ==> food is Some,
{
    let free = free_cells(occupied);
    let food = pick_at_random(&free);
    proof {
        if board_full(occupied@) {
            lemma_full_board_is_long(occupied@);
        }
    }
    food
}

} // verus!
