//! Laws of tables that hold nothing to evaluate.

use vstd::prelude::*;

use crate::ir::{TableCellView, TableRowView};
use crate::laws_plain_inlines;
use crate::semantics;
use crate::semantics::{Ev, Evaluator, World};

verus! {

/// Whether table cells hold no call and no raw HTML.
pub open spec fn plain_cells(cells: Seq<TableCellView>) -> bool
    decreases cells,
{
    if cells.len() == 0 {
        true
    } else {
        plain_cells(cells.drop_last()) && laws_plain_inlines::plain_inlines(cells.last().content)
    }
}

/// Whether table rows hold no call and no raw HTML.
pub open spec fn plain_rows(rows: Seq<TableRowView>) -> bool
    decreases rows,
{
    if rows.len() == 0 {
        true
    } else {
        plain_rows(rows.drop_last()) && plain_cells(rows.last().cells)
    }
}

proof fn lemma_plain_cells_stay(e: Evaluator, cells: Seq<TableCellView>, f: nat, w: World)
    requires
        plain_cells(cells),
    ensures
        semantics::eval_cells(e, cells, f, w) == (Ev { out: cells, w }),
    decreases cells,
{
    reveal(semantics::eval_cells);
    if cells.len() == 0 {
        assert(Seq::<TableCellView>::empty() =~= cells);
    } else {
        lemma_plain_cells_stay(e, cells.drop_last(), f, w);
        laws_plain_inlines::lemma_plain_inlines_stay(e, cells.last().content, f, w);
        assert(cells.drop_last().push(cells.last()) =~= cells);
    }
}

/// A table row that holds nothing to evaluate stays as it is.
pub proof fn lemma_plain_row_stays(e: Evaluator, row: TableRowView, f: nat, w: World)
    requires
        plain_cells(row.cells),
    ensures
        semantics::eval_row(e, row, f, w) == (Ev { out: row, w }),
{
    reveal(semantics::eval_row);
    reveal(semantics::eval_cells);
    lemma_plain_cells_stay(e, row.cells, f, w);
}

/// Table rows that hold nothing to evaluate stay as they are.
pub proof fn lemma_plain_rows_stay(e: Evaluator, rows: Seq<TableRowView>, f: nat, w: World)
    requires
        plain_rows(rows),
    ensures
        semantics::eval_rows(e, rows, f, w) == (Ev { out: rows, w }),
    decreases rows,
{
    reveal(semantics::eval_rows);
    reveal(semantics::eval_row);
    if rows.len() == 0 {
        assert(Seq::<TableRowView>::empty() =~= rows);
    } else {
        lemma_plain_rows_stay(e, rows.drop_last(), f, w);
        lemma_plain_row_stays(e, rows.last(), f, w);
        assert(rows.drop_last().push(rows.last()) =~= rows);
    }
}

} // verus!
