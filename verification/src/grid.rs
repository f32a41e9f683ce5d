//! The mathematical grid: cells, borders, neighbourhoods and the rule that
//! takes one generation to the next.

use crate::counting::{count_cells, count_state, indicator, lemma_count_state_step};
use vstd::arithmetic::div_mod::lemma_fundamental_div_mod_converse;
use vstd::prelude::*;
use vstd::string::StrSliceExecFns;

verus! {

/// What lies beyond the edge of the grid.
#[derive(Clone, Copy, Debug, PartialEq, Eq, Structural)]
pub enum BorderPolicy {
    /// Each edge is joined to the opposite edge.
    Wrap,
    /// Everything beyond an edge is dead.
    Clipped,
}

impl BorderPolicy {
    /// The policy that a flag asks for: `1` for wrapped borders, anything
    /// else for clipped ones.
    pub fn from_flag(flag: &str) -> (policy: BorderPolicy)
        ensures
            policy == if flag@ == seq!['1'] {
                BorderPolicy::Wrap
            } else {
                BorderPolicy::Clipped
            },
    {
        let wrap = flag.unicode_len() == 1 && flag.get_char(0) == '1';
        proof {
            let one = seq!['1'];
            assert(one.len() == 1 && one[0] == '1');
            if wrap {
                assert(flag@ =~= one);
            }
        }
        if wrap {
            BorderPolicy::Wrap
        } else {
            BorderPolicy::Clipped
        }
    }
}

/// A rectangle of cells, `cells[y][x]` being the state of column `x` in row `y`.
pub struct Grid {
    pub width: nat,
    pub height: nat,
    pub border: BorderPolicy,
    pub cells: Seq<Seq<bool>>,
}

/// Column displacement of a direction: 0 = N, 1 = NE, 2 = E, 3 = SE, 4 = S,
/// 5 = SW, 6 = W, 7 = NW. A number that names no direction displaces nothing.
pub open spec fn column_step(direction: int) -> int {
    if 1 <= direction <= 3 {
        1
    } else if 5 <= direction <= 7 {
        -1
    } else {
        0
    }
}

/// Row displacement of a direction; rows grow southwards.
pub open spec fn row_step(direction: int) -> int {
    if direction == 0 || direction == 1 || direction == 7 {
        -1
    } else if 3 <= direction <= 5 {
        1
    } else {
        0
    }
}

/// The classic rule: a live cell survives with two or three live neighbours,
/// a dead cell comes alive with exactly three.
pub open spec fn next_state(alive: bool, neighbours: nat) -> bool {
    if alive {
        neighbours == 2 || neighbours == 3
    } else {
        neighbours == 3
    }
}

impl Grid {
    /// The grid has at least one cell, and `cells` holds `height` rows of
    /// `width` cells each.
    pub open spec fn wf(self) -> bool {
        &&& self.width >= 1
        &&& self.height >= 1
        &&& self.cells.len() == self.height
        &&& forall|y: int| 0 <= y < self.height ==> (#[trigger] self.cells[y]).len() == self.width
    }

    /// The grid of the given size in which every cell is dead.
    pub open spec fn empty(width: nat, height: nat, border: BorderPolicy) -> Grid {
        Grid {
            width,
            height,
            border,
            cells: Seq::new(height, |y: int| Seq::new(width, |x: int| false)),
        }
    }

    /// This grid with every cell dead.
    pub open spec fn cleared(self) -> Grid {
        Grid::empty(self.width, self.height, self.border)
    }

    /// This grid with the cell at `(x, y)` put in the given state.
    pub open spec fn with_cell(self, x: int, y: int, alive: bool) -> Grid {
        Grid { cells: self.cells.update(y, self.cells[y].update(x, alive)), ..self }
    }

    /// Whether `(x, y)` names a cell of the grid.
    pub open spec fn in_bounds(self, x: int, y: int) -> bool {
        0 <= x < self.width && 0 <= y < self.height
    }

    /// The state of the cell in column `x` of row `y`.
    pub open spec fn alive(self, x: int, y: int) -> bool {
        self.cells[y][x]
    }

    /// The cell that lies in `direction` from `(x, y)`, if the border policy
    /// gives it one. With wrapped borders each coordinate is taken modulo
    /// the size of its axis. With clipped borders there is no neighbour
    /// beyond an edge, and none for a number that names no direction.
    pub open spec fn neighbour_position(self, x: int, y: int, direction: int) -> Option<
        (int, int),
    > {
        let nx: int = x + column_step(direction);
        let ny: int = y + row_step(direction);
        match self.border {
            BorderPolicy::Wrap => Some((nx % (self.width as int), ny % (self.height as int))),
            BorderPolicy::Clipped => if 0 <= direction < 8 && self.in_bounds(nx, ny) {
                Some((nx, ny))
            } else {
                None
            },
        }
    }

    /// Whether `(x, y)` has a live neighbour in `direction`.
    pub open spec fn neighbour_active(self, x: int, y: int, direction: int) -> bool {
        match self.neighbour_position(x, y, direction) {
            Some((nx, ny)) => self.alive(nx, ny),
            None => false,
        }
    }

    /// The states found in the eight directions around `(x, y)`, N first and
    /// then clockwise.
    pub open spec fn neighbourhood(self, x: int, y: int) -> Seq<bool> {
        Seq::new(8, |direction: int| self.neighbour_active(x, y, direction))
    }

    /// The number of live cells among the eight neighbours of `(x, y)`.
    pub open spec fn neighbour_count(self, x: int, y: int) -> nat {
        count_state(self.neighbourhood(x, y), true)
    }

    /// The number of live cells.
    pub open spec fn live_count(self) -> nat {
        count_cells(self.cells, true)
    }

    /// The number of dead cells.
    pub open spec fn dead_count(self) -> nat {
        count_cells(self.cells, false)
    }

    /// The number of dead cells that come before `(x, y)` when the grid is
    /// read row by row from the top, each row from the left.
    pub open spec fn dead_before(self, x: int, y: int) -> nat {
        count_cells(self.cells.take(y), false) + count_state(self.cells[y].take(x), false)
    }

    /// Whether this grid can come of seeding `before` with `count` cells:
    /// what lived still lives, and `count` dead cells have come alive, or all
    /// of them where there were fewer.
    pub open spec fn seeded_from(self, before: Grid, count: nat) -> bool {
        &&& self.wf()
        &&& self.width == before.width
        &&& self.height == before.height
        &&& self.border == before.border
        &&& forall|x: int, y: int|
            before.in_bounds(x, y) && before.alive(x, y) ==> #[trigger] self.alive(x, y)
        &&& self.live_count() == before.live_count() + if count <= before.dead_count() {
            count
        } else {
            before.dead_count()
        }
    }

    /// The generation that follows this one: every cell is judged by its
    /// state and its neighbours in this grid.
    pub open spec fn next_generation(self) -> Grid {
        Grid {
            cells: Seq::new(
                self.height,
                |y: int|
                    Seq::new(
                        self.width,
                        |x: int| next_state(self.alive(x, y), self.neighbour_count(x, y)),
                    ),
            ),
            ..self
        }
    }
}

/// A coordinate moved by at most one step and wrapped lands on the opposite
/// edge when it leaves the range, and stays where the step put it otherwise.
pub proof fn lemma_wrapped_step(c: int, n: int, step: int)
    requires
        0 <= c < n,
        -1 <= step <= 1,
    ensures
        (c + step) % n == if c + step < 0 {
            n - 1
        } else if c + step >= n {
            0
        } else {
            c + step
        },
{
    if c + step < 0 {
        lemma_fundamental_div_mod_converse(c + step, n, -1, n - 1);
    } else if c + step >= n {
        lemma_fundamental_div_mod_converse(c + step, n, 1, 0);
    } else {
        lemma_fundamental_div_mod_converse(c + step, n, 0, c + step);
    }
}

/// Two grids of one shape and border that agree on every cell are the same
/// grid.
pub proof fn lemma_same_cells(first: Grid, second: Grid)
    requires
        first.wf(),
        second.wf(),
        first.width == second.width,
        first.height == second.height,
        first.border == second.border,
        forall|x: int, y: int| first.in_bounds(x, y) ==> first.alive(x, y) == second.alive(x, y),
    ensures
        first == second,
{
    assert forall|y: int| 0 <= y < first.height implies first.cells[y] == second.cells[y] by {
        assert forall|x: int| 0 <= x < first.width implies first.cells[y][x]
            == second.cells[y][x] by {
            assert(first.alive(x, y) == second.alive(x, y));
        }
        assert(first.cells[y] =~= second.cells[y]);
    }
    assert(first.cells =~= second.cells);
}

/// The number of live neighbours is the sum over the eight directions.
pub proof fn lemma_neighbour_count_sum(grid: Grid, x: int, y: int)
    ensures
        grid.neighbour_count(x, y) == indicator(grid.neighbour_active(x, y, 0)) + indicator(
            grid.neighbour_active(x, y, 1),
        ) + indicator(grid.neighbour_active(x, y, 2)) + indicator(grid.neighbour_active(x, y, 3))
            + indicator(grid.neighbour_active(x, y, 4)) + indicator(
            grid.neighbour_active(x, y, 5),
        ) + indicator(grid.neighbour_active(x, y, 6)) + indicator(grid.neighbour_active(x, y, 7)),
{
    let around = grid.neighbourhood(x, y);
    assert(around.take(0) == Seq::<bool>::empty());
    lemma_count_state_step(around, 0, true);
    lemma_count_state_step(around, 1, true);
    lemma_count_state_step(around, 2, true);
    lemma_count_state_step(around, 3, true);
    lemma_count_state_step(around, 4, true);
    lemma_count_state_step(around, 5, true);
    lemma_count_state_step(around, 6, true);
    lemma_count_state_step(around, 7, true);
    assert(around.take(8) == around);
}

/// The direction that points the other way.
pub open spec fn opposite(direction: int) -> int {
    (direction + 4) % 8
}

/// The next generation has the shape and the border of this one.
pub proof fn lemma_next_generation_wf(grid: Grid)
    requires
        grid.wf(),
    ensures
        grid.next_generation().wf(),
        grid.next_generation().width == grid.width,
        grid.next_generation().height == grid.height,
        grid.next_generation().border == grid.border,
{
}

/// A live cell lives on exactly if two or three of its neighbours are alive:
/// with fewer or more it dies.
pub proof fn lemma_survival(grid: Grid, x: int, y: int)
    requires
        grid.wf(),
        grid.in_bounds(x, y),
        grid.alive(x, y),
    ensures
        grid.next_generation().alive(x, y) <==> (grid.neighbour_count(x, y) == 2
            || grid.neighbour_count(x, y) == 3),
{
}

/// A dead cell comes alive exactly if three of its neighbours are alive:
/// with any other number it stays dead.
pub proof fn lemma_birth(grid: Grid, x: int, y: int)
    requires
        grid.wf(),
        grid.in_bounds(x, y),
        !grid.alive(x, y),
    ensures
        grid.next_generation().alive(x, y) <==> grid.neighbour_count(x, y) == 3,
{
}

/// With wrapped borders every cell has a neighbour in each of the eight
/// directions, and is itself the neighbour of that cell in the opposite
/// direction.
pub proof fn lemma_wrap_is_symmetric(grid: Grid, x: int, y: int, direction: int)
    requires
        grid.wf(),
        grid.border == BorderPolicy::Wrap,
        grid.in_bounds(x, y),
        0 <= direction < 8,
    ensures
        grid.neighbour_position(x, y, direction) matches Some((nx, ny)) && grid.in_bounds(nx, ny)
            && grid.neighbour_position(nx, ny, opposite(direction)) == Some((x, y)),
{
    let w: int = grid.width as int;
    let h: int = grid.height as int;
    lemma_wrapped_step(x, w, column_step(direction));
    lemma_wrapped_step(y, h, row_step(direction));
    let nx: int = (x + column_step(direction)) % w;
    let ny: int = (y + row_step(direction)) % h;
    lemma_wrapped_step(nx, w, column_step(opposite(direction)));
    lemma_wrapped_step(ny, h, row_step(opposite(direction)));
}

/// With wrapped borders the top left and the bottom right corner are
/// neighbours: the one lies north-west of the other, which lies south-east
/// of it.
pub proof fn lemma_wrap_joins_corners(grid: Grid)
    requires
        grid.wf(),
        grid.border == BorderPolicy::Wrap,
    ensures
        grid.neighbour_position(0, 0, 7) == Some((grid.width - 1, grid.height - 1)),
        grid.neighbour_position(grid.width - 1, grid.height - 1, 3) == Some((0int, 0int)),
        grid.neighbour_active(0, 0, 7) == grid.alive(grid.width - 1, grid.height - 1),
        grid.neighbour_active(grid.width - 1, grid.height - 1, 3) == grid.alive(0, 0),
{
    let w: int = grid.width as int;
    let h: int = grid.height as int;
    lemma_wrapped_step(0, w, -1);
    lemma_wrapped_step(0, h, -1);
    lemma_wrapped_step(w - 1, w, 1);
    lemma_wrapped_step(h - 1, h, 1);
}

/// With clipped borders the top left corner has no neighbour to the north,
/// north-east, south-west, west or north-west: those five directions report
/// a dead cell whatever the grid holds.
pub proof fn lemma_clipped_corner_outside(grid: Grid, direction: int)
    requires
        grid.wf(),
        grid.border == BorderPolicy::Clipped,
        direction == 0 || direction == 1 || direction == 5 || direction == 6 || direction == 7,
    ensures
        grid.neighbour_position(0, 0, direction) is None,
        !grid.neighbour_active(0, 0, direction),
{
}

/// With clipped borders, on a grid of at least two columns and two rows, the
/// top left corner has exactly three neighbours: the cells to its east,
/// south-east and south.
pub proof fn lemma_clipped_corner_inside(grid: Grid)
    requires
        grid.wf(),
        grid.border == BorderPolicy::Clipped,
        grid.width >= 2,
        grid.height >= 2,
    ensures
        grid.neighbour_position(0, 0, 2) == Some((1int, 0int)),
        grid.neighbour_position(0, 0, 3) == Some((1int, 1int)),
        grid.neighbour_position(0, 0, 4) == Some((0int, 1int)),
        forall|direction: int|
            (#[trigger] grid.neighbour_position(0, 0, direction)) is Some <==> 2 <= direction <= 4,
        grid.neighbour_count(0, 0) == indicator(grid.alive(1, 0)) + indicator(grid.alive(1, 1))
            + indicator(grid.alive(0, 1)),
{
    lemma_neighbour_count_sum(grid, 0, 0);
}

} // verus!
