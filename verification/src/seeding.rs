//! Counting the population and seeding the grid at random.

use crate::counting::{
    count_cells, count_state, lemma_count_cells_complement, lemma_count_cells_none,
    lemma_count_cells_prefix, lemma_count_cells_step, lemma_count_cells_update,
    lemma_count_state_prefix, lemma_count_state_step, lemma_count_state_update,
};
use crate::game_map::GameMap;
use crate::grid::{BorderPolicy, Grid};
use crate::random::random_in_range;
use vstd::prelude::*;

verus! {

impl GameMap {
    /// Counts the cells that are in `state`.
    fn count_in_state(&self, state: bool) -> (count: usize)
        requires
            self.wf(),
        ensures
            count == count_cells(self@.cells, state),
    {
        let width: usize = self.width();
        let height: usize = self.height();
        let mut count: usize = 0;
        let mut y: usize = 0;
        while y < height
            invariant
                self.wf(),
                width == self@.width,
                height == self@.height,
                y <= height,
                count == count_cells(self@.cells.take(y as int), state),
                count <= y * width,
            decreases height - y,
        {
            let ghost above = count;
            let ghost row = self@.cells[y as int];
            assert((y + 1) * width <= height * width) by (nonlinear_arith)
                requires
                    y + 1 <= height,
            ;
            assert((y + 1) * width == y * width + width) by (nonlinear_arith);
            let mut x: usize = 0;
            while x < width
                invariant
                    self.wf(),
                    width == self@.width,
                    y < self@.height,
                    x <= width,
                    row == self@.cells[y as int],
                    count == above + count_state(row.take(x as int), state),
                    count <= above + x,
                    above + width <= usize::MAX,
                decreases width - x,
            {
                proof {
                    lemma_count_state_step(row, x as int, state);
                }
                if self.is_alive(x, y) == state {
                    count = count + 1;
                }
                x = x + 1;
            }
            proof {
                assert(row.take(width as int) == row);
                lemma_count_cells_step(self@.cells, y as int, state);
            }
            y = y + 1;
        }
        proof {
            assert(self@.cells.take(height as int) == self@.cells);
        }
        count
    }

    /// The number of live cells.
    pub fn live_count(&self) -> (count: usize)
        requires
            self.wf(),
        ensures
            count == self@.live_count(),
    {
        self.count_in_state(true)
    }

    /// The number of dead cells.
    pub fn dead_count(&self) -> (count: usize)
        requires
            self.wf(),
        ensures
            count == self@.dead_count(),
    {
        self.count_in_state(false)
    }

    /// Brings to life the dead cell that has exactly `rank` dead cells before
    /// it, reading row by row from the top and each row from the left, and
    /// returns its `(x, y)`. Where no more than `rank` cells are dead, nothing
    /// changes and `None` is returned.
    pub fn insert_nth_dead(&mut self, rank: usize) -> (position: Option<(usize, usize)>)
        requires
            old(self).wf(),
        ensures
            final(self).wf(),
            position is Some <==> rank < old(self)@.dead_count(),
            position is None ==> final(self)@ == old(self)@,
            position matches Some((x, y)) ==> {
                &&& old(self)@.in_bounds(x as int, y as int)
                &&& !old(self)@.alive(x as int, y as int)
                &&& old(self)@.dead_before(x as int, y as int) == rank
                &&& final(self)@ == old(self)@.with_cell(x as int, y as int, true)
            },
    {
        let width: usize = self.width();
        let height: usize = self.height();
        let mut remaining: usize = rank;
        let mut y: usize = 0;
        while y < height
            invariant
                self.wf(),
                self@ == old(self)@,
                width == self@.width,
                height == self@.height,
                y <= height,
                remaining + count_cells(self@.cells.take(y as int), false) == rank,
            decreases height - y,
        {
            let ghost row = self@.cells[y as int];
            assert(row.take(0) == Seq::<bool>::empty());
            let mut x: usize = 0;
            while x < width
                invariant
                    self.wf(),
                    self@ == old(self)@,
                    width == self@.width,
                    y < self@.height,
                    x <= width,
                    row == self@.cells[y as int],
                    remaining + self@.dead_before(x as int, y as int) == rank,
                decreases width - x,
            {
                proof {
                    lemma_count_state_step(row, x as int, false);
                }
                if !self.is_alive(x, y) {
                    if remaining == 0 {
                        proof {
                            lemma_count_state_prefix(row, x as int + 1, false);
                            lemma_count_cells_prefix(self@.cells, y as int + 1, false);
                            lemma_count_cells_step(self@.cells, y as int, false);
                        }
                        self.set_cell(x, y, true);
                        return Some((x, y));
                    }
                    remaining = remaining - 1;
                }
                x = x + 1;
            }
            proof {
                assert(row.take(width as int) == row);
                lemma_count_cells_step(self@.cells, y as int, false);
            }
            y = y + 1;
        }
        proof {
            assert(self@.cells.take(height as int) == self@.cells);
        }
        None
    }

    /// Brings `count` dead cells to life, each drawn at random from those
    /// that are dead at that moment; where fewer are dead, all of them.
    pub fn random_insert(&mut self, count: usize)
        requires
            old(self).wf(),
        ensures
            final(self).wf(),
            final(self)@.seeded_from(old(self)@, count as nat),
    {
        let free: usize = self.dead_count();
        let wanted: usize = if count > free {
            free
        } else {
            count
        };
        let mut rng = rand::thread_rng();
        let mut placed: usize = 0;
        while placed < wanted
            invariant
                self.wf(),
                self@.width == old(self)@.width,
                self@.height == old(self)@.height,
                self@.border == old(self)@.border,
                placed <= wanted <= free,
                self@.dead_count() == free - placed,
                self@.live_count() == old(self)@.live_count() + placed,
                forall|x: int, y: int|
                    old(self)@.in_bounds(x, y) && old(self)@.alive(x, y)
                        ==> #[trigger] self@.alive(x, y),
            decreases wanted - placed,
        {
            let ghost before = self@;
            let rank: usize = random_in_range(&mut rng, 0, free - placed);
            let position = self.insert_nth_dead(rank);
            proof {
                let found = position->0;
                let x: int = found.0 as int;
                let y: int = found.1 as int;
                let row = before.cells[y].update(x, true);
                lemma_count_state_update(before.cells[y], x, true, true);
                lemma_count_state_update(before.cells[y], x, true, false);
                lemma_count_cells_update(before.cells, y, row, true);
                lemma_count_cells_update(before.cells, y, row, false);
                assert forall|i: int, j: int|
                    old(self)@.in_bounds(i, j) && old(self)@.alive(i, j)
                implies #[trigger] self@.alive(i, j) by {
                    assert(before.alive(i, j));
                }
            }
            placed = placed + 1;
        }
    }
}

/// Every cell of a grid is alive or dead.
pub proof fn lemma_population(grid: Grid)
    requires
        grid.wf(),
    ensures
        grid.live_count() + grid.dead_count() == grid.width * grid.height,
{
    lemma_count_cells_complement(grid.cells, grid.width);
    assert(grid.height * grid.width == grid.width * grid.height) by (nonlinear_arith);
}

/// In a grid made empty no cell is alive and every cell is dead.
pub proof fn lemma_empty_population(width: nat, height: nat, border: BorderPolicy)
    requires
        width >= 1,
        height >= 1,
    ensures
        Grid::empty(width, height, border).wf(),
        Grid::empty(width, height, border).live_count() == 0,
        Grid::empty(width, height, border).dead_count() == width * height,
{
    let grid = Grid::empty(width, height, border);
    lemma_count_cells_none(grid.cells, true);
    lemma_population(grid);
}

/// Seeding an empty grid with no more cells than it has leaves exactly that
/// many alive.
pub proof fn lemma_seeding_exact(
    width: nat,
    height: nat,
    border: BorderPolicy,
    seeded: Grid,
    count: nat,
)
    requires
        width >= 1,
        height >= 1,
        count <= width * height,
        seeded.seeded_from(Grid::empty(width, height, border), count),
    ensures
        seeded.live_count() == count,
{
    lemma_empty_population(width, height, border);
}

/// Seeding a grid twice is seeding it once with the sum: the second seeding
/// takes none of the cells that the first one took.
pub proof fn lemma_seeding_composes(
    first: Grid,
    second: Grid,
    third: Grid,
    count: nat,
    more: nat,
)
    requires
        first.wf(),
        second.seeded_from(first, count),
        third.seeded_from(second, more),
    ensures
        third.seeded_from(first, count + more),
{
    lemma_population(first);
    lemma_population(second);
    assert forall|x: int, y: int|
        first.in_bounds(x, y) && first.alive(x, y)
    implies #[trigger] third.alive(x, y) by {
        assert(second.alive(x, y));
    }
}

/// No two dead cells have the same number of dead cells before them, so a
/// rank names at most one cell.
pub proof fn lemma_dead_rank_unique(grid: Grid, x1: int, y1: int, x2: int, y2: int)
    requires
        grid.wf(),
        grid.in_bounds(x1, y1),
        grid.in_bounds(x2, y2),
        !grid.alive(x1, y1),
        !grid.alive(x2, y2),
        grid.dead_before(x1, y1) == grid.dead_before(x2, y2),
    ensures
        x1 == x2,
        y1 == y2,
{
    if y1 < y2 || (y1 == y2 && x1 < x2) {
        lemma_dead_rank_grows(grid, x1, y1, x2, y2);
    } else if y2 < y1 || (y1 == y2 && x2 < x1) {
        lemma_dead_rank_grows(grid, x2, y2, x1, y1);
    }
}

/// A dead cell counts among the dead cells before every cell that comes
/// after it.
proof fn lemma_dead_rank_grows(grid: Grid, x1: int, y1: int, x2: int, y2: int)
    requires
        grid.wf(),
        grid.in_bounds(x1, y1),
        grid.in_bounds(x2, y2),
        !grid.alive(x1, y1),
        y1 < y2 || (y1 == y2 && x1 < x2),
    ensures
        grid.dead_before(x1, y1) < grid.dead_before(x2, y2),
{
    let row = grid.cells[y1];
    lemma_count_state_step(row, x1, false);
    if y1 == y2 {
        assert(row.take(x2).take(x1 + 1) == row.take(x1 + 1));
        lemma_count_state_prefix(row.take(x2), x1 + 1, false);
    } else {
        lemma_count_state_prefix(row, x1 + 1, false);
        lemma_count_cells_step(grid.cells, y1, false);
        assert(grid.cells.take(y2).take(y1 + 1) == grid.cells.take(y1 + 1));
        lemma_count_cells_prefix(grid.cells.take(y2), y1 + 1, false);
    }
}

} // verus!
