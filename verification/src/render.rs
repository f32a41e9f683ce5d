//! The grid as text: one line per row, one character per cell.

use crate::game_map::GameMap;
use crate::grid::Grid;
use vstd::prelude::*;
use vstd::string::StringExecFns;

verus! {

/// The character that stands for a cell: `#` for a live one, a space for a
/// dead one.
pub open spec fn glyph(alive: bool) -> char {
    if alive {
        '#'
    } else {
        ' '
    }
}

/// The characters of the cells of a row, in order.
pub open spec fn cells_text(row: Seq<bool>) -> Seq<char> {
    Seq::new(row.len(), |x: int| glyph(row[x]))
}

/// The line of a row: its cells, then a newline.
pub open spec fn row_text(row: Seq<bool>) -> Seq<char> {
    cells_text(row).push('\n')
}

/// The lines of the rows, one after another.
pub open spec fn rows_text(rows: Seq<Seq<bool>>) -> Seq<char>
    decreases rows.len(),
{
    if rows.len() == 0 {
        Seq::empty()
    } else {
        rows_text(rows.drop_last()) + row_text(rows.last())
    }
}

impl Grid {
    /// The text of the grid, top row first.
    pub open spec fn rendered(self) -> Seq<char> {
        rows_text(self.cells)
    }
}

impl GameMap {
    /// The text of the grid, top row first: `#` for a live cell, a space for
    /// a dead one, and a newline after each row.
    pub fn render(&self) -> (text: String)
        requires
            self.wf(),
        ensures
            text@ == self@.rendered(),
    {
        let width: usize = self.width();
        let height: usize = self.height();
        let mut text = String::new();
        let mut y: usize = 0;
        while y < height
            invariant
                self.wf(),
                width == self@.width,
                height == self@.height,
                y <= height,
                text@ == rows_text(self@.cells.take(y as int)),
            decreases height - y,
        {
            let ghost above = text@;
            let ghost row = self@.cells[y as int];
            let mut x: usize = 0;
            while x < width
                invariant
                    self.wf(),
                    width == self@.width,
                    y < self@.height,
                    x <= width,
                    row == self@.cells[y as int],
                    text@ == above + cells_text(row.take(x as int)),
                decreases width - x,
            {
                if self.is_alive(x, y) {
                    text.append("#");
                } else {
                    text.append(" ");
                }
                proof {
                    reveal_strlit("#");
                    reveal_strlit(" ");
                    assert(cells_text(row.take(x + 1)) == cells_text(row.take(x as int)).push(
                        glyph(row[x as int]),
                    ));
                }
                x = x + 1;
            }
            text.append("\n");
            proof {
                reveal_strlit("\n");
                assert(row.take(width as int) == row);
                assert(self@.cells.take(y + 1).drop_last() == self@.cells.take(y as int));
            }
            y = y + 1;
        }
        proof {
            assert(self@.cells.take(height as int) == self@.cells);
        }
        text
    }
}

/// The text of a rectangle has one character for each cell and one newline
/// for each row.
pub proof fn lemma_rows_text_len(rows: Seq<Seq<bool>>, width: nat)
    requires
        forall|y: int| 0 <= y < rows.len() ==> (#[trigger] rows[y]).len() == width,
    ensures
        rows_text(rows).len() == rows.len() * (width + 1),
    decreases rows.len(),
{
    if rows.len() > 0 {
        lemma_rows_text_len(rows.drop_last(), width);
        assert((rows.len() - 1) * (width + 1) + (width + 1) == rows.len() * (width + 1))
            by (nonlinear_arith);
    } else {
        assert(0 * (width + 1) == 0);
    }
}

/// In the text of a rectangle the line of row `y` starts after `y` full
/// lines: there stand the characters of its cells, and after them a newline.
pub proof fn lemma_rows_text_index(rows: Seq<Seq<bool>>, width: nat, x: int, y: int)
    requires
        forall|j: int| 0 <= j < rows.len() ==> (#[trigger] rows[j]).len() == width,
        0 <= y < rows.len(),
        0 <= x <= width,
    ensures
        0 <= y * (width + 1) + x < rows_text(rows).len(),
        rows_text(rows)[y * (width + 1) + x] == if x == width {
            '\n'
        } else {
            glyph(rows[y][x])
        },
    decreases rows.len(),
{
    let above = rows.drop_last();
    lemma_rows_text_len(above, width);
    lemma_rows_text_len(rows, width);
    let at: int = y * (width + 1) + x;
    assert(0 <= y * (width + 1)) by (nonlinear_arith)
        requires
            0 <= y,
    ;
    if y == rows.len() - 1 {
        assert(rows_text(rows)[at] == row_text(rows.last())[x]);
    } else {
        assert((y + 1) * (width + 1) <= (rows.len() - 1) * (width + 1)) by (nonlinear_arith)
            requires
                y + 1 <= rows.len() - 1,
        ;
        assert((y + 1) * (width + 1) == y * (width + 1) + (width + 1)) by (nonlinear_arith);
        lemma_rows_text_index(above, width, x, y);
        assert(rows_text(rows)[at] == rows_text(above)[at]);
    }
}

/// The text of a grid has a line of `width` characters and a newline for
/// each of its rows.
pub proof fn lemma_rendered_len(grid: Grid)
    requires
        grid.wf(),
    ensures
        grid.rendered().len() == grid.height * (grid.width + 1),
{
    lemma_rows_text_len(grid.cells, grid.width);
}

/// The character of the cell at `(x, y)` stands at place `x` of line `y`,
/// and each line ends in a newline.
pub proof fn lemma_rendered_cell(grid: Grid, x: int, y: int)
    requires
        grid.wf(),
        grid.in_bounds(x, y),
    ensures
        grid.rendered()[y * (grid.width + 1) + x] == glyph(grid.alive(x, y)),
        grid.rendered()[y * (grid.width + 1) + grid.width] == '\n',
{
    lemma_rows_text_index(grid.cells, grid.width, x, y);
    lemma_rows_text_index(grid.cells, grid.width, grid.width as int, y);
}

/// The text is that of the cells alone: whenever a grid is rendered again
/// with no cell changed, the same text comes out.
pub proof fn lemma_rendered_again(first: Grid, second: Grid)
    requires
        first.cells == second.cells,
    ensures
        first.rendered() == second.rendered(),
{
}

} // verus!
