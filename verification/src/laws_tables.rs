//! Laws of tables: every cell is evaluated in its place.

use vstd::prelude::*;

use crate::ir::{NodeView, SourceSpan, TableCellView, TableRowView};
use crate::semantics;
use crate::semantics::{Evaluator, World};

verus! {

/// The cells of a row stay in their places, each with what its line gives in the world that the
/// cells before it leave.
pub proof fn lemma_cells_evaluated(
    e: Evaluator,
    cells: Seq<TableCellView>,
    span: SourceSpan,
    f: nat,
    w: World,
)
    ensures
        ({
            let row = semantics::eval_row(e, TableRowView { cells, span }, f, w);
            &&& row.out.span == span
            &&& row.out.cells.len() == cells.len()
            &&& forall|i: int|
                0 <= i < cells.len() ==> {
                    let before = semantics::eval_row(
                        e,
                        TableRowView { cells: cells.take(i), span },
                        f,
                        w,
                    ).w;
                    &&& (#[trigger] row.out.cells[i]).content == semantics::eval_inlines(
                        e,
                        cells[i].content,
                        f,
                        before,
                    ).out
                    &&& row.out.cells[i].alignment == cells[i].alignment
                    &&& row.out.cells[i].span == cells[i].span
                }
            &&& cells.len() == 0 ==> row.w == w
            &&& cells.len() > 0 ==> row.w == semantics::eval_inlines(
                e,
                cells.last().content,
                f,
                semantics::eval_row(e, TableRowView { cells: cells.drop_last(), span }, f, w).w,
            ).w
        }),
    decreases cells.len(),
{
    reveal(semantics::eval_row);
    reveal(semantics::eval_cells);
    if cells.len() > 0 {
        let front = cells.drop_last();
        lemma_cells_evaluated(e, front, span, f, w);
        let row = semantics::eval_row(e, TableRowView { cells, span }, f, w);
        assert forall|i: int| 0 <= i < cells.len() implies {
            let before = semantics::eval_row(
                e,
                TableRowView { cells: cells.take(i), span },
                f,
                w,
            ).w;
            &&& (#[trigger] row.out.cells[i]).content == semantics::eval_inlines(
                e,
                cells[i].content,
                f,
                before,
            ).out
            &&& row.out.cells[i].alignment == cells[i].alignment
            &&& row.out.cells[i].span == cells[i].span
        } by {
            if i < front.len() {
                assert(cells.take(i) =~= front.take(i));
                assert(row.out.cells[i] == semantics::eval_row(
                    e,
                    TableRowView { cells: front, span },
                    f,
                    w,
                ).out.cells[i]);
            } else {
                assert(cells.take(i) =~= front);
            }
        }
    }
}

/// A table stays a table: its header is evaluated first, then its rows in order.
pub proof fn lemma_table_evaluated(
    e: Evaluator,
    header: TableRowView,
    rows: Seq<TableRowView>,
    row: TableRowView,
    span: SourceSpan,
    f: nat,
    w: World,
)
    ensures
        ({
            let first = semantics::eval_row(e, header, f, w);
            let table = semantics::eval_node(e, NodeView::Table { header, rows, span }, f, w);
            let longer = semantics::eval_node(
                e,
                NodeView::Table { header, rows: rows.push(row), span },
                f,
                w,
            );
            let last = semantics::eval_row(e, row, f, table.w);
            &&& table.out.len() == 1 && longer.out.len() == 1
            &&& table.out[0] is Table && longer.out[0] is Table
            &&& table.out[0]->Table_header == first.out && table.out[0]->Table_span == span
            &&& rows.len() == 0 ==> table.out[0]->Table_rows.len() == 0 && table.w == first.w
            &&& longer.out[0]->Table_rows == table.out[0]->Table_rows.push(last.out)
            &&& longer.w == last.w
        }),
{
    reveal(semantics::eval_cells);
    reveal(semantics::eval_row);
    reveal(semantics::eval_node);
    reveal(semantics::eval_rows);
    assert(rows.push(row).drop_last() =~= rows);
}

} // verus!
