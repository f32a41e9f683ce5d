//! The executable grid and its operations.

use crate::counting::count_state;
use crate::grid::{column_step, lemma_wrapped_step, next_state, row_step, BorderPolicy, Grid};
use vstd::prelude::*;

verus! {

/// Why a grid could not be made.
#[derive(Clone, Copy, Debug, PartialEq, Eq, Structural)]
pub enum GridError {
    /// The width or the height was zero.
    InvalidDimension,
}

/// A grid of cells stored row by row.
#[derive(Debug)]
pub struct GameMap {
    width: usize,
    height: usize,
    matrix: Vec<Vec<bool>>,
    border: BorderPolicy,
}

impl View for GameMap {
    type V = Grid;

    closed spec fn view(&self) -> Grid {
        Grid {
            width: self.width as nat,
            height: self.height as nat,
            border: self.border,
            cells: Seq::new(self.matrix@.len(), |y: int| self.matrix@[y]@),
        }
    }
}

/// `height` rows of `width` dead cells.
fn dead_matrix(width: usize, height: usize) -> (matrix: Vec<Vec<bool>>)
    ensures
        matrix@.len() == height,
        forall|y: int|
            0 <= y < height ==> (#[trigger] matrix@[y])@ == Seq::new(width as nat, |x: int| false),
{
    let mut matrix: Vec<Vec<bool>> = Vec::new();
    let mut y: usize = 0;
    while y < height
        invariant
            y <= height,
            matrix@.len() == y,
            forall|j: int|
                0 <= j < y ==> (#[trigger] matrix@[j])@ == Seq::new(width as nat, |x: int| false),
        decreases height - y,
    {
        let mut row: Vec<bool> = Vec::new();
        let mut x: usize = 0;
        while x < width
            invariant
                x <= width,
                row@.len() == x,
                forall|i: int| 0 <= i < x ==> !#[trigger] row@[i],
            decreases width - x,
        {
            row.push(false);
            x = x + 1;
        }
        assert(row@ == Seq::new(width as nat, |x: int| false));
        matrix.push(row);
        y = y + 1;
    }
    matrix
}

impl GameMap {
    /// The grid is a proper rectangle whose cells can be counted in a `usize`.
    pub open spec fn wf(&self) -> bool {
        &&& self@.wf()
        &&& self@.width * self@.height <= usize::MAX
    }

    /// An all-dead grid of the given size, or `InvalidDimension` if it would
    /// have no cells.
    pub fn new(width: usize, height: usize, border: BorderPolicy) -> (made: Result<
        GameMap,
        GridError,
    >)
        requires
            width * height <= usize::MAX,
        ensures
            made is Err <==> width == 0 || height == 0,
            made matches Err(e) ==> e == GridError::InvalidDimension,
            made matches Ok(map) ==> map.wf() && map@ == Grid::empty(
                width as nat,
                height as nat,
                border,
            ),
    {
        if width == 0 || height == 0 {
            return Err(GridError::InvalidDimension);
        }
        let matrix = dead_matrix(width, height);
        let map = GameMap { width, height, matrix, border };
        assert(map@.cells == Grid::empty(width as nat, height as nat, border).cells);
        Ok(map)
    }

    /// The number of columns.
    pub fn width(&self) -> (width: usize)
        ensures
            width == self@.width,
    {
        self.width
    }

    /// The number of rows.
    pub fn height(&self) -> (height: usize)
        ensures
            height == self@.height,
    {
        self.height
    }

    /// What lies beyond the edges.
    pub fn border(&self) -> (border: BorderPolicy)
        ensures
            border == self@.border,
    {
        self.border
    }

    /// Sets all cells dead.
    pub fn clear(&mut self)
        requires
            old(self).wf(),
        ensures
            final(self).wf(),
            final(self)@ == old(self)@.cleared(),
    {
        self.matrix = dead_matrix(self.width, self.height);
        assert(self@.cells == old(self)@.cleared().cells);
    }

    /// The state of the cell at `(x, y)`.
    pub fn is_alive(&self, x: usize, y: usize) -> (alive: bool)
        requires
            self.wf(),
            self@.in_bounds(x as int, y as int),
        ensures
            alive == self@.alive(x as int, y as int),
    {
        assert(self@.cells[y as int] == self.matrix@[y as int]@);
        self.matrix[y][x]
    }

    /// Puts the cell at `(x, y)` in the given state.
    pub fn set_cell(&mut self, x: usize, y: usize, alive: bool)
        requires
            old(self).wf(),
            old(self)@.in_bounds(x as int, y as int),
        ensures
            final(self).wf(),
            final(self)@ == old(self)@.with_cell(x as int, y as int, alive),
    {
        assert(self@.cells[y as int] == self.matrix@[y as int]@);
        self.matrix[y][x] = alive;
        assert(self@.cells == old(self)@.with_cell(x as int, y as int, alive).cells);
    }

    /// Whether the neighbour of `(x, y)` in `direction` is alive: 0 = N,
    /// 1 = NE, 2 = E, 3 = SE, 4 = S, 5 = SW, 6 = W, 7 = NW. A number past 7
    /// names no direction: with clipped borders it finds nothing alive, with
    /// wrapped borders it finds the cell itself.
    pub fn get_neighbour_active(&self, x: usize, y: usize, direction: usize) -> (active: bool)
        requires
            self.wf(),
            self@.in_bounds(x as int, y as int),
        ensures
            active == self@.neighbour_active(x as int, y as int, direction as int),
    {
        let mut eff_y: usize = y;
        if direction == 0 || direction == 1 || direction == 7 {
            if y == 0 {
                eff_y = self.height - 1;
            } else {
                eff_y = y - 1;
            }
        }
        if direction == 3 || direction == 4 || direction == 5 {
            if y == self.height - 1 {
                eff_y = 0;
            } else {
                eff_y = y + 1;
            }
        }
        let mut eff_x: usize = x;
        if direction == 5 || direction == 6 || direction == 7 {
            if x == 0 {
                eff_x = self.width - 1;
            } else {
                eff_x = x - 1;
            }
        }
        if direction == 1 || direction == 2 || direction == 3 {
            if x == self.width - 1 {
                eff_x = 0;
            } else {
                eff_x = x + 1;
            }
        }
        proof {
            lemma_wrapped_step(x as int, self.width as int, column_step(direction as int));
            lemma_wrapped_step(y as int, self.height as int, row_step(direction as int));
            assert(self@.cells[eff_y as int] == self.matrix@[eff_y as int]@);
        }
        match self.border {
            BorderPolicy::Wrap => self.matrix[eff_y][eff_x],
            BorderPolicy::Clipped => {
                let beyond_edge = match direction {
                    0 => y == 0,
                    1 => y == 0 || x == self.width - 1,
                    2 => x == self.width - 1,
                    3 => y == self.height - 1 || x == self.width - 1,
                    4 => y == self.height - 1,
                    5 => y == self.height - 1 || x == 0,
                    6 => x == 0,
                    7 => y == 0 || x == 0,
                    _ => true,
                };
                !beyond_edge && self.matrix[eff_y][eff_x]
            },
        }
    }

    /// The number of live cells among the eight neighbours of `(x, y)`.
    pub fn get_neighbour_count(&self, x: usize, y: usize) -> (count: usize)
        requires
            self.wf(),
            self@.in_bounds(x as int, y as int),
        ensures
            count == self@.neighbour_count(x as int, y as int),
    {
        let ghost around = self@.neighbourhood(x as int, y as int);
        let mut count: usize = 0;
        let mut direction: usize = 0;
        while direction < 8
            invariant
                self.wf(),
                self@.in_bounds(x as int, y as int),
                around == self@.neighbourhood(x as int, y as int),
                direction <= 8,
                count == count_state(around.take(direction as int), true),
                count <= direction,
            decreases 8 - direction,
        {
            let active = self.get_neighbour_active(x, y, direction);
            proof {
                let seen = around.take(direction + 1);
                assert(seen.drop_last() == around.take(direction as int));
                assert(seen.last() == active);
            }
            if active {
                count = count + 1;
            }
            direction = direction + 1;
        }
        proof {
            assert(around.take(8) == around);
        }
        count
    }

    /// Replaces the grid by its next generation.
    pub fn compute_next_iteration(&mut self)
        requires
            old(self).wf(),
        ensures
            final(self).wf(),
            final(self)@ == old(self)@.next_generation(),
    {
        let ghost next = self@.next_generation();
        let mut next_matrix: Vec<Vec<bool>> = Vec::new();
        let mut y: usize = 0;
        while y < self.height
            invariant
                self.wf(),
                *self == *old(self),
                next == self@.next_generation(),
                y <= self.height,
                next_matrix@.len() == y,
                forall|j: int| 0 <= j < y ==> (#[trigger] next_matrix@[j])@ == next.cells[j],
            decreases self.height - y,
        {
            let mut row: Vec<bool> = Vec::new();
            let mut x: usize = 0;
            while x < self.width
                invariant
                    self.wf(),
                    next == self@.next_generation(),
                    y < self.height,
                    x <= self.width,
                    row@.len() == x,
                    forall|i: int| 0 <= i < x ==> #[trigger] row@[i] == next.cells[y as int][i],
                decreases self.width - x,
            {
                let count: usize = self.get_neighbour_count(x, y);
                let alive = self.is_alive(x, y);
                let lives = if alive {
                    count == 2 || count == 3
                } else {
                    count == 3
                };
                assert(lives == next_state(alive, count as nat));
                row.push(lives);
                x = x + 1;
            }
            assert(row@ == next.cells[y as int]);
            next_matrix.push(row);
            y = y + 1;
        }
        self.matrix = next_matrix;
        assert(self@.cells == next.cells);
    }
}

} // verus!
