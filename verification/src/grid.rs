//! The arena: its dimensions, its cells and their enumeration.

use vstd::prelude::*;

verus! {

/// Number of columns of the arena.
pub const ARENA_WIDTH: i32 = 20;

/// Number of rows of the arena.
pub const ARENA_HEIGHT: i32 = 20;

/// A grid coordinate. A cell may lie outside the arena: the head of a snake
/// that has just run into a wall does.
#[derive(Clone, Copy, Debug, PartialEq, Eq, Hash, Structural)]
pub struct Cell {
    pub x: i32,
    pub y: i32,
}

impl Cell {
    /// The cell lies inside the arena.
    pub open spec fn in_bounds(self) -> bool {
        0 <= self.x < ARENA_WIDTH && 0 <= self.y < ARENA_HEIGHT
    }

    /// Position of an arena cell in the enumeration `grid_cells`.
    pub open spec fn grid_index(self) -> int {
        self.x * ARENA_HEIGHT + self.y
    }
}

/// Every cell of the arena, column by column, each column from the bottom
/// row upwards.
pub open spec fn grid_cells() -> Seq<Cell> {
    Seq::new(
        (ARENA_WIDTH * ARENA_HEIGHT) as nat,
        |i: int| Cell { x: (i / ARENA_HEIGHT as int) as i32, y: (i % ARENA_HEIGHT as int) as i32 },
    )
}

/// An arena cell stands in the enumeration at its grid index.
pub proof fn lemma_grid_cells_at_index(cell: Cell)
    requires
        cell.in_bounds(),
    ensures
        0 <= cell.grid_index() < grid_cells().len(),
        grid_cells()[cell.grid_index()] == cell,
{
}

/// The enumeration holds exactly the cells of the arena.
pub proof fn lemma_grid_cells_contains(cell: Cell)
    ensures
        grid_cells().contains(cell) <==> cell.in_bounds(),
{
    if cell.in_bounds() {
        lemma_grid_cells_at_index(cell);
    }
}

/// The enumeration has one entry for each cell of the arena and none twice.
pub proof fn lemma_grid_cells_distinct()
    ensures
        grid_cells().len() == ARENA_WIDTH * ARENA_HEIGHT,
        grid_cells().no_duplicates(),
        forall|i: int| 0 <= i < grid_cells().len() ==> (#[trigger] grid_cells()[i]).in_bounds(),
{
}

/// Every cell of `cells` lies inside the arena.
pub open spec fn all_in_bounds(cells: Seq<Cell>) -> bool {
    forall|i: int| 0 <= i < cells.len() ==> (#[trigger] cells[i]).in_bounds()
}

/// Whether `cell` lies inside the arena.
pub fn is_within_bounds(cell: Cell) -> (inside: bool)
    ensures
        inside == cell.in_bounds(),
{
    0 <= cell.x && cell.x < ARENA_WIDTH && 0 <= cell.y && cell.y < ARENA_HEIGHT
}

/// Whether every cell of `cells` lies inside the arena.
pub fn cells_in_bounds(cells: &Vec<Cell>) -> (inside: bool)
    ensures
        inside == all_in_bounds(cells@),
{
    let mut i: usize = 0;
    while i < cells.len()
        invariant
            i <= cells@.len(),
            forall|k: int| 0 <= k < i ==> (#[trigger] cells@[k]).in_bounds(),
        decreases cells@.len() - i,
    {
        if !is_within_bounds(cells[i]) {
            return false;
        }
        i = i + 1;
    }
    true
}

/// Whether no cell occurs twice in `cells`.
pub fn cells_distinct(cells: &Vec<Cell>) -> (distinct: bool)
    ensures
        distinct == cells@.no_duplicates(),
{
    let mut i: usize = 0;
    while i < cells.len()
        invariant
            i <= cells@.len(),
            forall|a: int, b: int| 0 <= a < i && a < b < cells@.len() ==> cells@[a] != cells@[b],
        decreases cells@.len() - i,
    {
        let mut j: usize = i + 1;
        while j < cells.len()
            invariant
                i < j <= cells@.len(),
                forall|b: int| i < b < j ==> cells@[i as int] != cells@[b],
            decreases cells@.len() - j,
        {
            if cells[i] == cells[j] {
                return false;
            }
            j = j + 1;
        }
        i = i + 1;
    }
    proof {
        assert forall|a: int, b: int|
            0 <= a < cells@.len() && 0 <= b < cells@.len() && a != b implies cells@[a]
            != cells@[b] by {
            if a < b {
                assert(cells@[a] != cells@[b]);
            } else {
                assert(cells@[b] != cells@[a]);
            }
        }
    }
    true
}

/// All cells of the arena in their fixed enumeration order.
pub fn all_cells() -> (cells: Vec<Cell>)
    ensures
        cells@ == grid_cells(),
{
    let mut cells: Vec<Cell> = Vec::new();
    let mut x: i32 = 0;
    while x < ARENA_WIDTH
        invariant
            0 <= x <= ARENA_WIDTH,
            cells@.len() == x * ARENA_HEIGHT,
            forall|k: int| 0 <= k < cells@.len() ==> cells@[k] == grid_cells()[k],
        decreases ARENA_WIDTH - x,
    {
        let mut y: i32 = 0;
        while y < ARENA_HEIGHT
            invariant
                0 <= x < ARENA_WIDTH,
                0 <= y <= ARENA_HEIGHT,
                cells@.len() == x * ARENA_HEIGHT + y,
                forall|k: int| 0 <= k < cells@.len() ==> cells@[k] == grid_cells()[k],
            decreases ARENA_HEIGHT - y,
        {
            cells.push(Cell { x, y });
            y = y + 1;
        }
        x = x + 1;
    }
    cells
}

} // verus!
