//! Some well-known patterns and what becomes of them.

use crate::grid::{lemma_neighbour_count_sum, lemma_same_cells, BorderPolicy, Grid};
use vstd::prelude::*;

verus! {

impl Grid {
    /// The cell at `(x, y)` is alive and no other.
    pub open spec fn is_lone_cell(self, x: int, y: int) -> bool {
        forall|i: int, j: int|
            self.in_bounds(i, j) ==> (#[trigger] self.alive(i, j) <==> i == x && j == y)
    }

    /// The live cells are `(x, y)` and its neighbours to the west and east.
    pub open spec fn is_row_of_three(self, x: int, y: int) -> bool {
        forall|i: int, j: int|
            self.in_bounds(i, j) ==> (#[trigger] self.alive(i, j) <==> x - 1 <= i <= x + 1 && j
                == y)
    }

    /// The live cells are `(x, y)` and its neighbours to the north and south.
    pub open spec fn is_column_of_three(self, x: int, y: int) -> bool {
        forall|i: int, j: int|
            self.in_bounds(i, j) ==> (#[trigger] self.alive(i, j) <==> i == x && y - 1 <= j <= y
                + 1)
    }
}

/// With clipped borders a cell that is alone dies, and nothing is born: the
/// next generation is empty.
pub proof fn lemma_lone_cell_dies(grid: Grid, x: int, y: int)
    requires
        grid.wf(),
        grid.border == BorderPolicy::Clipped,
        grid.in_bounds(x, y),
        grid.is_lone_cell(x, y),
    ensures
        grid.next_generation() == grid.cleared(),
{
    let next = grid.next_generation();
    assert forall|i: int, j: int| grid.in_bounds(i, j) implies !next.alive(i, j) by {
        lemma_neighbour_count_sum(grid, i, j);
    }
    lemma_same_cells(next, grid.cleared());
}

/// With clipped borders a row of three that does not touch the top or the
/// bottom edge becomes the column of three through its middle.
pub proof fn lemma_row_of_three_turns(grid: Grid, x: int, y: int)
    requires
        grid.wf(),
        grid.border == BorderPolicy::Clipped,
        grid.in_bounds(x - 1, y - 1),
        grid.in_bounds(x + 1, y + 1),
        grid.is_row_of_three(x, y),
    ensures
        grid.next_generation().is_column_of_three(x, y),
{
    let next = grid.next_generation();
    assert forall|i: int, j: int| grid.in_bounds(i, j) implies (#[trigger] next.alive(i, j) <==> i
        == x && y - 1 <= j <= y + 1) by {
        lemma_neighbour_count_sum(grid, i, j);
    }
}

/// With clipped borders a column of three that does not touch the left or
/// the right edge becomes the row of three through its middle.
pub proof fn lemma_column_of_three_turns(grid: Grid, x: int, y: int)
    requires
        grid.wf(),
        grid.border == BorderPolicy::Clipped,
        grid.in_bounds(x - 1, y - 1),
        grid.in_bounds(x + 1, y + 1),
        grid.is_column_of_three(x, y),
    ensures
        grid.next_generation().is_row_of_three(x, y),
{
    let next = grid.next_generation();
    assert forall|i: int, j: int| grid.in_bounds(i, j) implies (#[trigger] next.alive(i, j) <==> x
        - 1 <= i <= x + 1 && j == y) by {
        lemma_neighbour_count_sum(grid, i, j);
    }
}

/// With clipped borders a row of three away from the edges is back after
/// two generations.
pub proof fn lemma_row_of_three_returns(grid: Grid, x: int, y: int)
    requires
        grid.wf(),
        grid.border == BorderPolicy::Clipped,
        grid.in_bounds(x - 1, y - 1),
        grid.in_bounds(x + 1, y + 1),
        grid.is_row_of_three(x, y),
    ensures
        grid.next_generation().next_generation() == grid,
{
    let turned = grid.next_generation();
    lemma_row_of_three_turns(grid, x, y);
    lemma_column_of_three_turns(turned, x, y);
    lemma_same_cells(turned.next_generation(), grid);
}

} // verus!
