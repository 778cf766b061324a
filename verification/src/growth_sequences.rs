//! More answers and higher limits keep what is settled: sequences.

use vstd::prelude::*;

use crate::growth;
use crate::growth::Growth;
use crate::growth_data;
use crate::growth_values;
use crate::host::ValueOrigin;
use crate::ir::{
    InlineView, ListItemView, NamedArgView, NodeView, SourceSpan, TableCellView, TableRowView,
    ValueView,
};
use crate::semantics;
use crate::semantics::{Evaluator, World};

verus! {

broadcast use growth::group_within;

/// What `eval_nodes` comes to is kept.
pub(crate) proof fn lemma_eval_nodes(
    e: Evaluator,
    nodes: Seq<NodeView>,
    f: nat,
    w: World,
    grow: Growth,
)
    requires
        growth::fits(e, grow),
    ensures
        growth::kept(
            w,
            semantics::eval_nodes(e, nodes, f, w),
            semantics::eval_nodes(
                growth::evaluator(e, grow),
                nodes,
                f + grow.depth,
                growth::world(w, grow),
            ),
            grow,
        ),
    decreases f, 4int, nodes, 0int,
{
    reveal(semantics::eval_nodes);
    if nodes.len() == 0 {
    } else {
        lemma_eval_nodes(e, nodes.drop_last(), f, w, grow);
        let before = semantics::eval_nodes(e, nodes.drop_last(), f, w);
        growth_values::lemma_eval_node(e, nodes.last(), f, before.w, grow);
    }
}

/// What `eval_items` comes to is kept.
pub(crate) proof fn lemma_eval_items(
    e: Evaluator,
    items: Seq<ListItemView>,
    f: nat,
    w: World,
    grow: Growth,
)
    requires
        growth::fits(e, grow),
    ensures
        growth::kept(
            w,
            semantics::eval_items(e, items, f, w),
            semantics::eval_items(
                growth::evaluator(e, grow),
                items,
                f + grow.depth,
                growth::world(w, grow),
            ),
            grow,
        ),
    decreases f, 4int, items, 0int,
{
    reveal(semantics::eval_items);
    reveal(semantics::eval_nodes);
    if items.len() == 0 {
    } else {
        lemma_eval_items(e, items.drop_last(), f, w, grow);
        let before = semantics::eval_items(e, items.drop_last(), f, w);
        let item = items.last();
        lemma_eval_nodes(e, item.nodes, f, before.w, grow);
    }
}

/// What `eval_rows` comes to is kept.
pub(crate) proof fn lemma_eval_rows(
    e: Evaluator,
    rows: Seq<TableRowView>,
    f: nat,
    w: World,
    grow: Growth,
)
    requires
        growth::fits(e, grow),
    ensures
        growth::kept(
            w,
            semantics::eval_rows(e, rows, f, w),
            semantics::eval_rows(
                growth::evaluator(e, grow),
                rows,
                f + grow.depth,
                growth::world(w, grow),
            ),
            grow,
        ),
    decreases f, 4int, rows, 0int,
{
    reveal(semantics::eval_rows);
    reveal(semantics::eval_row);
    if rows.len() == 0 {
    } else {
        lemma_eval_rows(e, rows.drop_last(), f, w, grow);
        let before = semantics::eval_rows(e, rows.drop_last(), f, w);
        lemma_eval_row(e, rows.last(), f, before.w, grow);
    }
}

/// What `eval_row` comes to is kept.
pub(crate) proof fn lemma_eval_row(e: Evaluator, row: TableRowView, f: nat, w: World, grow: Growth)
    requires
        growth::fits(e, grow),
    ensures
        growth::kept(
            w,
            semantics::eval_row(e, row, f, w),
            semantics::eval_row(
                growth::evaluator(e, grow),
                row,
                f + grow.depth,
                growth::world(w, grow),
            ),
            grow,
        ),
    decreases f, 4int, row, 0int,
{
    reveal(semantics::eval_row);
    reveal(semantics::eval_cells);
    lemma_eval_cells(e, row.cells, f, w, grow);
}

/// What `eval_cells` comes to is kept.
pub(crate) proof fn lemma_eval_cells(
    e: Evaluator,
    cells: Seq<TableCellView>,
    f: nat,
    w: World,
    grow: Growth,
)
    requires
        growth::fits(e, grow),
    ensures
        growth::kept(
            w,
            semantics::eval_cells(e, cells, f, w),
            semantics::eval_cells(
                growth::evaluator(e, grow),
                cells,
                f + grow.depth,
                growth::world(w, grow),
            ),
            grow,
        ),
    decreases f, 4int, cells, 0int,
{
    reveal(semantics::eval_cells);
    reveal(semantics::eval_inlines);
    if cells.len() == 0 {
    } else {
        lemma_eval_cells(e, cells.drop_last(), f, w, grow);
        let before = semantics::eval_cells(e, cells.drop_last(), f, w);
        let cell = cells.last();
        lemma_eval_inlines(e, cell.content, f, before.w, grow);
    }
}

/// What `eval_inlines` comes to is kept.
pub(crate) proof fn lemma_eval_inlines(
    e: Evaluator,
    inlines: Seq<InlineView>,
    f: nat,
    w: World,
    grow: Growth,
)
    requires
        growth::fits(e, grow),
    ensures
        growth::kept(
            w,
            semantics::eval_inlines(e, inlines, f, w),
            semantics::eval_inlines(
                growth::evaluator(e, grow),
                inlines,
                f + grow.depth,
                growth::world(w, grow),
            ),
            grow,
        ),
    decreases f, 4int, inlines, 0int,
{
    reveal(semantics::eval_inlines);
    if inlines.len() == 0 {
    } else {
        lemma_eval_inlines(e, inlines.drop_last(), f, w, grow);
        let before = semantics::eval_inlines(e, inlines.drop_last(), f, w);
        growth_values::lemma_eval_inline(e, inlines.last(), f, before.w, grow);
    }
}

/// What `eval_values` comes to is kept.
pub(crate) proof fn lemma_eval_values(
    e: Evaluator,
    values: Seq<ValueView>,
    span: SourceSpan,
    f: nat,
    w: World,
    grow: Growth,
)
    requires
        growth::fits(e, grow),
    ensures
        growth::kept(
            w,
            semantics::eval_values(e, values, span, f, w),
            semantics::eval_values(
                growth::evaluator(e, grow),
                values,
                span,
                f + grow.depth,
                growth::world(w, grow),
            ),
            grow,
        ),
    decreases f, 4int, values, 0int,
{
    reveal(semantics::eval_values);
    if values.len() == 0 {
    } else {
        lemma_eval_values(e, values.drop_last(), span, f, w, grow);
        let before = semantics::eval_values(e, values.drop_last(), span, f, w);
        match before.out {
            None => {},
            Some(done) => {
                growth_values::lemma_required(e, values.last(), span, f, before.w, grow);
            },
        }
    }
}

/// What `eval_named` comes to is kept.
pub(crate) proof fn lemma_eval_named(
    e: Evaluator,
    named: Seq<NamedArgView>,
    span: SourceSpan,
    f: nat,
    w: World,
    grow: Growth,
)
    requires
        growth::fits(e, grow),
    ensures
        growth::kept(
            w,
            semantics::eval_named(e, named, span, f, w),
            semantics::eval_named(
                growth::evaluator(e, grow),
                named,
                span,
                f + grow.depth,
                growth::world(w, grow),
            ),
            grow,
        ),
    decreases f, 4int, named, 0int,
{
    reveal(semantics::eval_named);
    if named.len() == 0 {
    } else {
        lemma_eval_named(e, named.drop_last(), span, f, w, grow);
        let before = semantics::eval_named(e, named.drop_last(), span, f, w);
        match before.out {
            None => {},
            Some(done) => {
                growth_values::lemma_required(e, named.last().value, span, f, before.w, grow);
            },
        }
    }
}

/// What `invocation_values` comes to is kept.
pub(crate) proof fn lemma_invocation_values(
    e: Evaluator,
    values: Seq<ValueView>,
    span: SourceSpan,
    first_origin: Option<ValueOrigin>,
    f: nat,
    w: World,
    grow: Growth,
)
    requires
        growth::fits(e, grow),
    ensures
        growth::kept(
            w,
            semantics::invocation_values(e, values, span, first_origin, f, w),
            semantics::invocation_values(
                growth::evaluator(e, grow),
                values,
                span,
                first_origin,
                f + grow.depth,
                growth::world(w, grow),
            ),
            grow,
        ),
    decreases f, 4int, values, 0int,
{
    reveal(semantics::invocation_values);
    if values.len() == 0 {
    } else {
        lemma_invocation_values(e, values.drop_last(), span, first_origin, f, w, grow);
        let before = semantics::invocation_values(e, values.drop_last(), span, first_origin, f, w);
        match before.out {
            None => {},
            Some(done) => {
                growth_values::lemma_required(e, values.last(), span, f, before.w, grow);
            },
        }
    }
}

/// What `invocation_named` comes to is kept.
pub(crate) proof fn lemma_invocation_named(
    e: Evaluator,
    named: Seq<NamedArgView>,
    span: SourceSpan,
    f: nat,
    w: World,
    grow: Growth,
)
    requires
        growth::fits(e, grow),
    ensures
        growth::kept(
            w,
            semantics::invocation_named(e, named, span, f, w),
            semantics::invocation_named(
                growth::evaluator(e, grow),
                named,
                span,
                f + grow.depth,
                growth::world(w, grow),
            ),
            grow,
        ),
    decreases f, 4int, named, 0int,
{
    reveal(semantics::invocation_named);
    if named.len() == 0 {
    } else {
        lemma_invocation_named(e, named.drop_last(), span, f, w, grow);
        let before = semantics::invocation_named(e, named.drop_last(), span, f, w);
        match before.out {
            None => {},
            Some(done) => {
                growth_values::lemma_required(e, named.last().value, span, f, before.w, grow);
            },
        }
    }
}

/// What `keep_values` comes to is kept.
pub(crate) proof fn lemma_keep_values(
    e: Evaluator,
    values: Seq<ValueView>,
    span: SourceSpan,
    f: nat,
    w: World,
    grow: Growth,
)
    requires
        growth::fits(e, grow),
    ensures
        growth::kept(
            w,
            semantics::keep_values(e, values, span, f, w),
            semantics::keep_values(
                growth::evaluator(e, grow),
                values,
                span,
                f + grow.depth,
                growth::world(w, grow),
            ),
            grow,
        ),
    decreases f, 4int, values, 0int,
{
    reveal(semantics::keep_values);
    if values.len() == 0 {
    } else {
        lemma_keep_values(e, values.drop_last(), span, f, w, grow);
        let before = semantics::keep_values(e, values.drop_last(), span, f, w);
        match before.out {
            None => {},
            Some(done) => {
                growth_values::lemma_kept(e, values.last(), span, f, before.w, grow);
            },
        }
    }
}

/// What `keep_named` comes to is kept.
pub(crate) proof fn lemma_keep_named(
    e: Evaluator,
    named: Seq<NamedArgView>,
    span: SourceSpan,
    f: nat,
    w: World,
    grow: Growth,
)
    requires
        growth::fits(e, grow),
    ensures
        growth::kept(
            w,
            semantics::keep_named(e, named, span, f, w),
            semantics::keep_named(
                growth::evaluator(e, grow),
                named,
                span,
                f + grow.depth,
                growth::world(w, grow),
            ),
            grow,
        ),
    decreases f, 4int, named, 0int,
{
    reveal(semantics::keep_named);
    if named.len() == 0 {
    } else {
        lemma_keep_named(e, named.drop_last(), span, f, w, grow);
        let before = semantics::keep_named(e, named.drop_last(), span, f, w);
        match before.out {
            None => {},
            Some(done) => {
                growth_values::lemma_kept(e, named.last().value, span, f, before.w, grow);
            },
        }
    }
}

/// What `entry_list` comes to is kept.
pub(crate) proof fn lemma_entry_list(
    e: Evaluator,
    items: Seq<ListItemView>,
    span: SourceSpan,
    f: nat,
    w: World,
    grow: Growth,
)
    requires
        growth::fits(e, grow),
    ensures
        growth::kept(
            w,
            semantics::entry_list(e, items, span, f, w),
            semantics::entry_list(
                growth::evaluator(e, grow),
                items,
                span,
                f + grow.depth,
                growth::world(w, grow),
            ),
            grow,
        ),
    decreases f, 5int, items, 0int,
{
    reveal(semantics::entry_list);
    if items.len() == 0 {
    } else {
        lemma_entry_list(e, items.drop_last(), span, f, w, grow);
        let before = semantics::entry_list(e, items.drop_last(), span, f, w);
        match before.out {
            None => {},
            Some(entries) => {
                growth_data::lemma_dictionary_entry(e, items.last(), span, f, before.w, grow);
            },
        }
    }
}

} // verus!
