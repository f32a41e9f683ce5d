//! Counting the cells that are in one state, and how the counts move when
//! cells change.

use vstd::prelude::*;

verus! {

/// One where the condition holds, zero where it does not.
pub open spec fn indicator(holds: bool) -> nat {
    if holds {
        1
    } else {
        0
    }
}

/// How many entries of `row` are in the given state.
pub open spec fn count_state(row: Seq<bool>, state: bool) -> nat
    decreases row.len(),
{
    if row.len() == 0 {
        0
    } else {
        count_state(row.drop_last(), state) + indicator(row.last() == state)
    }
}

/// How many cells of `rows` are in the given state.
pub open spec fn count_cells(rows: Seq<Seq<bool>>, state: bool) -> nat
    decreases rows.len(),
{
    if rows.len() == 0 {
        0
    } else {
        count_cells(rows.drop_last(), state) + count_state(rows.last(), state)
    }
}

/// One more cell at the end of a prefix adds one to the count if it is in
/// the state counted.
pub proof fn lemma_count_state_step(row: Seq<bool>, x: int, state: bool)
    requires
        0 <= x < row.len(),
    ensures
        count_state(row.take(x + 1), state) == count_state(row.take(x), state) + indicator(
            row[x] == state,
        ),
{
    assert(row.take(x + 1).drop_last() == row.take(x));
}

/// One more row at the end of a prefix adds that row's count.
pub proof fn lemma_count_cells_step(rows: Seq<Seq<bool>>, y: int, state: bool)
    requires
        0 <= y < rows.len(),
    ensures
        count_cells(rows.take(y + 1), state) == count_cells(rows.take(y), state) + count_state(
            rows[y],
            state,
        ),
{
    assert(rows.take(y + 1).drop_last() == rows.take(y));
}

/// A prefix of a row holds no more cells in a state than the row.
pub proof fn lemma_count_state_prefix(row: Seq<bool>, x: int, state: bool)
    requires
        0 <= x <= row.len(),
    ensures
        count_state(row.take(x), state) <= count_state(row, state),
    decreases row.len() - x,
{
    if x < row.len() {
        lemma_count_state_step(row, x, state);
        lemma_count_state_prefix(row, x + 1, state);
    } else {
        assert(row.take(x) == row);
    }
}

/// The first rows of a rectangle hold no more cells in a state than all of it.
pub proof fn lemma_count_cells_prefix(rows: Seq<Seq<bool>>, y: int, state: bool)
    requires
        0 <= y <= rows.len(),
    ensures
        count_cells(rows.take(y), state) <= count_cells(rows, state),
    decreases rows.len() - y,
{
    if y < rows.len() {
        lemma_count_cells_step(rows, y, state);
        lemma_count_cells_prefix(rows, y + 1, state);
    } else {
        assert(rows.take(y) == rows);
    }
}

/// A row without a cell in a state counts none in it.
pub proof fn lemma_count_state_none(row: Seq<bool>, state: bool)
    requires
        forall|x: int| 0 <= x < row.len() ==> row[x] != state,
    ensures
        count_state(row, state) == 0,
    decreases row.len(),
{
    if row.len() > 0 {
        lemma_count_state_none(row.drop_last(), state);
    }
}

/// A rectangle without a cell in a state counts none in it.
pub proof fn lemma_count_cells_none(rows: Seq<Seq<bool>>, state: bool)
    requires
        forall|x: int, y: int|
            0 <= y < rows.len() && 0 <= x < rows[y].len() ==> #[trigger] rows[y][x] != state,
    ensures
        count_cells(rows, state) == 0,
    decreases rows.len(),
{
    if rows.len() > 0 {
        lemma_count_cells_none(rows.drop_last(), state);
        lemma_count_state_none(rows.last(), state);
    }
}

/// Every cell of a row is in one of the two states.
pub proof fn lemma_count_state_complement(row: Seq<bool>)
    ensures
        count_state(row, true) + count_state(row, false) == row.len(),
    decreases row.len(),
{
    if row.len() > 0 {
        lemma_count_state_complement(row.drop_last());
    }
}

/// Every cell of a rectangle is in one of the two states.
pub proof fn lemma_count_cells_complement(rows: Seq<Seq<bool>>, width: nat)
    requires
        forall|y: int| 0 <= y < rows.len() ==> (#[trigger] rows[y]).len() == width,
    ensures
        count_cells(rows, true) + count_cells(rows, false) == rows.len() * width,
    decreases rows.len(),
{
    if rows.len() > 0 {
        lemma_count_cells_complement(rows.drop_last(), width);
        lemma_count_state_complement(rows.last());
        assert((rows.len() - 1) * width + width == rows.len() * width) by (nonlinear_arith);
    } else {
        assert(0 * width == 0);
    }
}

/// Changing one cell of a row moves the count by that cell alone.
pub proof fn lemma_count_state_update(row: Seq<bool>, x: int, cell: bool, state: bool)
    requires
        0 <= x < row.len(),
    ensures
        count_state(row.update(x, cell), state) + indicator(row[x] == state) == count_state(
            row,
            state,
        ) + indicator(cell == state),
    decreases row.len(),
{
    let updated = row.update(x, cell);
    if x == row.len() - 1 {
        assert(updated.drop_last() == row.drop_last());
    } else {
        assert(updated.drop_last() == row.drop_last().update(x, cell));
        lemma_count_state_update(row.drop_last(), x, cell, state);
    }
}

/// Replacing one row of a rectangle moves the count by that row alone.
pub proof fn lemma_count_cells_update(rows: Seq<Seq<bool>>, y: int, row: Seq<bool>, state: bool)
    requires
        0 <= y < rows.len(),
    ensures
        count_cells(rows.update(y, row), state) + count_state(rows[y], state) == count_cells(
            rows,
            state,
        ) + count_state(row, state),
    decreases rows.len(),
{
    let updated = rows.update(y, row);
    if y == rows.len() - 1 {
        assert(updated.drop_last() == rows.drop_last());
    } else {
        assert(updated.drop_last() == rows.drop_last().update(y, row));
        lemma_count_cells_update(rows.drop_last(), y, row, state);
    }
}

} // verus!
