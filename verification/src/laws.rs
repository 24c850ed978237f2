//! What holds of every well-formed grid, stated over its spec functions.

use crate::grid::Grid;
use vstd::prelude::*;

verus! {

/// A coordinate inside the grid has its offset inside the buffer, so a
/// lookup there finds a cell: the checked and the unchecked lookup both
/// return the cell at that offset.
pub proof fn lemma_cell_in_bounds<T>(g: Grid<T>, x: nat, y: nat)
    requires
        g.wf(),
        x < g.spec_width(),
        y < g.spec_height(),
    ensures
        g.offset(x, y) < g@.len(),
        g.cell(x, y) == Some(g@[g.offset(x, y) as int]),
{
    let w = g.spec_width();
    let h = g.spec_height();
    assert(x + y * w < w * h) by (nonlinear_arith)
        requires
            x < w,
            y < h,
    ;
}

/// A lookup finds nothing exactly when the linear offset reaches the
/// number of cells.
pub proof fn lemma_cell_absent_iff<T>(g: Grid<T>, x: nat, y: nat)
    requires
        g.wf(),
    ensures
        g.cell(x, y) is None <==> x + y * g.spec_width() >= g.spec_width() * g.spec_height(),
{
}

/// A lookup goes by the linear offset alone: a column past the last one
/// names the cell that many columns on in the next row.
pub proof fn lemma_cell_wraps_into_next_row<T>(g: Grid<T>, x: nat, y: nat)
    requires
        x >= g.spec_width(),
    ensures
        g.cell(x, y) == g.cell((x - g.spec_width()) as nat, y + 1),
{
    let w = g.spec_width();
    assert(x + y * w == (x - w) + (y + 1) * w) by (nonlinear_arith);
}

/// A row holds `width` cells, and its `x`-th cell is the one a lookup at
/// `(x, row)` finds.
pub proof fn lemma_row_cells<T>(g: Grid<T>, row: nat)
    requires
        g.wf(),
        row < g.spec_height(),
    ensures
        g.row(row).len() == g.spec_width(),
        forall|x: int|
            0 <= x < g.spec_width() ==> #[trigger] g.row(row)[x] == g@[row * g.spec_width() + x],
        forall|x: nat| x < g.spec_width() ==> g.cell(x, row) == Some(#[trigger] g.row(row)[x as int]),
{
    let w = g.spec_width();
    let h = g.spec_height();
    assert(row * w + w <= w * h) by (nonlinear_arith)
        requires
            row < h,
    ;
    assert forall|x: nat| x < w implies g.cell(x, row) == Some(
        #[trigger] g.row(row)[x as int],
    ) by {
        lemma_cell_in_bounds(g, x, row);
    }
}

/// A column holds `height` cells, and its `y`-th cell is the one a lookup
/// at `(col, y)` finds.
pub proof fn lemma_col_cells<T>(g: Grid<T>, col: nat)
    requires
        g.wf(),
        col < g.spec_width(),
    ensures
        g.col(col).len() == g.spec_height(),
        forall|y: int|
            0 <= y < g.spec_height() ==> #[trigger] g.col(col)[y] == g@[col + y * g.spec_width()],
        forall|y: nat| y < g.spec_height() ==> g.cell(col, y) == Some(#[trigger] g.col(col)[y as int]),
{
    assert forall|y: nat| y < g.spec_height() implies g.cell(col, y) == Some(
        #[trigger] g.col(col)[y as int],
    ) by {
        lemma_cell_in_bounds(g, col, y);
    }
}

/// A grid holds no cell exactly when it has no column or no row.
pub proof fn lemma_empty_iff<T>(g: Grid<T>)
    requires
        g.wf(),
    ensures
        g@.len() == 0 <==> (g.spec_width() == 0 || g.spec_height() == 0),
{
    let w = g.spec_width();
    let h = g.spec_height();
    assert(w * h == 0 <==> (w == 0 || h == 0)) by (nonlinear_arith);
}

} // verus!
