//! Sequences, evaluated one piece after the other: blocks, list items, table rows and cells,
//! inlines, arguments and dictionary entries.

use vstd::prelude::*;

use crate::collection;
use crate::collection::check_materialized_elements;
use crate::data_calls::write_entry;
use crate::evaluator::{append_blocks, append_inlines};
use crate::host;
use crate::host::{InvocationNamedArg, InvocationValue, Session, ValueOrigin};
use crate::ir;
use crate::ir::{
    IrInline, IrListItem, IrNamedArg, IrNode, IrPair, IrTableCell, IrTableRow, IrValue,
    ListItemView, NamedArgView, SourceSpan, ValueView,
};
use crate::scope;
use crate::scope::EvaluationContext;
use crate::semantics;
use crate::semantics::{Ev, Evaluator, World};
use crate::sequences;
use crate::views;

verus! {

broadcast use {
    crate::ir::group_ir_views,
    crate::host::group_host_views,
    host::group_follows,
    scope::group_stays,
};

/// Where an entry is wrong, nothing behind it is evaluated.
proof fn lemma_entry_list_stops(
    e: Evaluator,
    all: Seq<ListItemView>,
    span: SourceSpan,
    i: int,
    f: nat,
    w: World,
)
    requires
        0 <= i <= all.len(),
        semantics::entry_list(e, all.take(i), span, f, w).out is None,
    ensures
        semantics::entry_list(e, all, span, f, w) == semantics::entry_list(
            e,
            all.take(i),
            span,
            f,
            w,
        ),
    decreases all.len() - i,
{
    reveal(semantics::entry_list);
    if i == all.len() {
        sequences::lemma_take_all(all);
    } else {
        sequences::lemma_take_step(all, i);
        lemma_entry_list_stops(e, all, span, i + 1, f, w);
    }
}

impl Evaluator {
    /// Evaluates blocks, from the first on.
    pub fn evaluate_nodes(
        &self,
        nodes: &Vec<IrNode>,
        frames: usize,
        session: &mut Session,
        context: &mut EvaluationContext,
    ) -> (r: Vec<IrNode>)
        ensures
            (Ev { out: ir::nodes_view(r@), w: World { s: final(session)@, c: final(context)@ } })
                == semantics::eval_nodes(
                *self,
                ir::nodes_view(nodes@),
                frames as nat,
                World { s: old(session)@, c: old(context)@ },
            ),
            host::follows(old(session)@, final(session)@),
            scope::stays(old(context)@, final(context)@),
        decreases frames, 4int, nodes, 0int,
    {
        proof {
            reveal(semantics::eval_nodes);
        }
        let ghost all = ir::nodes_view(nodes@);
        let ghost w0 = World { s: session@, c: context@ };
        let mut out: Vec<IrNode> = Vec::new();
        let mut i: usize = 0;
        assert(all.take(0) =~= Seq::empty());
        while i < nodes.len()
            invariant
                host::follows(old(session)@, session@),
                scope::stays(old(context)@, context@),
                0 <= i <= nodes@.len(),
                all == ir::nodes_view(nodes@),
                semantics::eval_nodes(*self, all.take(i as int), frames as nat, w0) == (Ev {
                    out: ir::nodes_view(out@),
                    w: World { s: session@, c: context@ },
                }),
            decreases nodes@.len() - i,
        {
            proof {
                reveal(semantics::eval_nodes);
                sequences::lemma_take_step(all, i as int);
            }
            let more = self.evaluate_node(&nodes[i], frames, session, context);
            append_blocks(&mut out, more);
            i += 1;
        }
        proof {
            sequences::lemma_take_all(all);
        }
        out
    }

    /// Evaluates list items, from the first on.
    pub fn evaluate_items(
        &self,
        items: &Vec<IrListItem>,
        frames: usize,
        session: &mut Session,
        context: &mut EvaluationContext,
    ) -> (r: Vec<IrListItem>)
        ensures
            (Ev { out: ir::items_view(r@), w: World { s: final(session)@, c: final(context)@ } })
                == semantics::eval_items(
                *self,
                ir::items_view(items@),
                frames as nat,
                World { s: old(session)@, c: old(context)@ },
            ),
            host::follows(old(session)@, final(session)@),
            scope::stays(old(context)@, final(context)@),
        decreases frames, 4int, items, 0int,
    {
        proof {
            reveal(semantics::eval_items);
            reveal(semantics::eval_nodes);
        }
        let ghost all = ir::items_view(items@);
        let ghost w0 = World { s: session@, c: context@ };
        let mut out: Vec<IrListItem> = Vec::new();
        let mut i: usize = 0;
        assert(all.take(0) =~= Seq::empty());
        while i < items.len()
            invariant
                host::follows(old(session)@, session@),
                scope::stays(old(context)@, context@),
                0 <= i <= items@.len(),
                all == ir::items_view(items@),
                semantics::eval_items(*self, all.take(i as int), frames as nat, w0) == (Ev {
                    out: ir::items_view(out@),
                    w: World { s: session@, c: context@ },
                }),
            decreases items@.len() - i,
        {
            proof {
                reveal(semantics::eval_items);
                reveal(semantics::eval_nodes);
                sequences::lemma_take_step(all, i as int);
            }
            let nodes = self.evaluate_nodes(&items[i].nodes, frames, session, context);
            out.push(IrListItem { nodes, task: items[i].task, span: items[i].span });
            i += 1;
        }
        proof {
            sequences::lemma_take_all(all);
        }
        out
    }

    /// Evaluates table rows, from the first on.
    pub fn evaluate_rows(
        &self,
        rows: &Vec<IrTableRow>,
        frames: usize,
        session: &mut Session,
        context: &mut EvaluationContext,
    ) -> (r: Vec<IrTableRow>)
        ensures
            (Ev { out: ir::rows_view(r@), w: World { s: final(session)@, c: final(context)@ } })
                == semantics::eval_rows(
                *self,
                ir::rows_view(rows@),
                frames as nat,
                World { s: old(session)@, c: old(context)@ },
            ),
            host::follows(old(session)@, final(session)@),
            scope::stays(old(context)@, final(context)@),
        decreases frames, 4int, rows, 0int,
    {
        proof {
            reveal(semantics::eval_rows);
            reveal(semantics::eval_row);
        }
        let ghost all = ir::rows_view(rows@);
        let ghost w0 = World { s: session@, c: context@ };
        let mut out: Vec<IrTableRow> = Vec::new();
        let mut i: usize = 0;
        assert(all.take(0) =~= Seq::empty());
        while i < rows.len()
            invariant
                host::follows(old(session)@, session@),
                scope::stays(old(context)@, context@),
                0 <= i <= rows@.len(),
                all == ir::rows_view(rows@),
                semantics::eval_rows(*self, all.take(i as int), frames as nat, w0) == (Ev {
                    out: ir::rows_view(out@),
                    w: World { s: session@, c: context@ },
                }),
            decreases rows@.len() - i,
        {
            proof {
                reveal(semantics::eval_rows);
                reveal(semantics::eval_row);
                sequences::lemma_take_step(all, i as int);
            }
            let row = self.evaluate_row(&rows[i], frames, session, context);
            out.push(row);
            i += 1;
        }
        proof {
            sequences::lemma_take_all(all);
        }
        out
    }

    /// Evaluates a table row.
    pub fn evaluate_row(
        &self,
        row: &IrTableRow,
        frames: usize,
        session: &mut Session,
        context: &mut EvaluationContext,
    ) -> (r: IrTableRow)
        ensures
            (Ev { out: r@, w: World { s: final(session)@, c: final(context)@ } })
                == semantics::eval_row(
                *self,
                row@,
                frames as nat,
                World { s: old(session)@, c: old(context)@ },
            ),
            host::follows(old(session)@, final(session)@),
            scope::stays(old(context)@, final(context)@),
        decreases frames, 4int, row, 0int,
    {
        proof {
            reveal(semantics::eval_row);
            reveal(semantics::eval_cells);
        }
        let cells = self.evaluate_cells(&row.cells, frames, session, context);
        IrTableRow { cells, span: row.span }
    }

    /// Evaluates table cells, from the first on.
    pub fn evaluate_cells(
        &self,
        cells: &Vec<IrTableCell>,
        frames: usize,
        session: &mut Session,
        context: &mut EvaluationContext,
    ) -> (r: Vec<IrTableCell>)
        ensures
            (Ev { out: ir::cells_view(r@), w: World { s: final(session)@, c: final(context)@ } })
                == semantics::eval_cells(
                *self,
                ir::cells_view(cells@),
                frames as nat,
                World { s: old(session)@, c: old(context)@ },
            ),
            host::follows(old(session)@, final(session)@),
            scope::stays(old(context)@, final(context)@),
        decreases frames, 4int, cells, 0int,
    {
        proof {
            reveal(semantics::eval_cells);
            reveal(semantics::eval_inlines);
        }
        let ghost all = ir::cells_view(cells@);
        let ghost w0 = World { s: session@, c: context@ };
        let mut out: Vec<IrTableCell> = Vec::new();
        let mut i: usize = 0;
        assert(all.take(0) =~= Seq::empty());
        while i < cells.len()
            invariant
                host::follows(old(session)@, session@),
                scope::stays(old(context)@, context@),
                0 <= i <= cells@.len(),
                all == ir::cells_view(cells@),
                semantics::eval_cells(*self, all.take(i as int), frames as nat, w0) == (Ev {
                    out: ir::cells_view(out@),
                    w: World { s: session@, c: context@ },
                }),
            decreases cells@.len() - i,
        {
            proof {
                reveal(semantics::eval_cells);
                reveal(semantics::eval_inlines);
                sequences::lemma_take_step(all, i as int);
            }
            let content = self.evaluate_inlines(&cells[i].content, frames, session, context);
            out.push(
                IrTableCell { content, alignment: cells[i].alignment, span: cells[i].span },
            );
            i += 1;
        }
        proof {
            sequences::lemma_take_all(all);
        }
        out
    }

    /// Evaluates inlines, from the first on.
    pub fn evaluate_inlines(
        &self,
        inlines: &Vec<IrInline>,
        frames: usize,
        session: &mut Session,
        context: &mut EvaluationContext,
    ) -> (r: Vec<IrInline>)
        ensures
            (Ev { out: ir::inlines_view(r@), w: World { s: final(session)@, c: final(context)@ } })
                == semantics::eval_inlines(
                *self,
                ir::inlines_view(inlines@),
                frames as nat,
                World { s: old(session)@, c: old(context)@ },
            ),
            host::follows(old(session)@, final(session)@),
            scope::stays(old(context)@, final(context)@),
        decreases frames, 4int, inlines, 0int,
    {
        proof {
            reveal(semantics::eval_inlines);
        }
        let ghost all = ir::inlines_view(inlines@);
        let ghost w0 = World { s: session@, c: context@ };
        let mut out: Vec<IrInline> = Vec::new();
        let mut i: usize = 0;
        assert(all.take(0) =~= Seq::empty());
        while i < inlines.len()
            invariant
                host::follows(old(session)@, session@),
                scope::stays(old(context)@, context@),
                0 <= i <= inlines@.len(),
                all == ir::inlines_view(inlines@),
                semantics::eval_inlines(*self, all.take(i as int), frames as nat, w0) == (Ev {
                    out: ir::inlines_view(out@),
                    w: World { s: session@, c: context@ },
                }),
            decreases inlines@.len() - i,
        {
            proof {
                reveal(semantics::eval_inlines);
                sequences::lemma_take_step(all, i as int);
            }
            let more = self.evaluate_inline(&inlines[i], frames, session, context);
            append_inlines(&mut out, more);
            i += 1;
        }
        proof {
            sequences::lemma_take_all(all);
        }
        out
    }

    /// Evaluates arguments, from the first on.
    pub fn evaluate_values(
        &self,
        values: &Vec<IrValue>,
        span: SourceSpan,
        frames: usize,
        session: &mut Session,
        context: &mut EvaluationContext,
    ) -> (r: Option<Vec<IrValue>>)
        ensures
            (Ev { out: views::values(r), w: World { s: final(session)@, c: final(context)@ } })
                == semantics::eval_values(
                *self,
                ir::values_view(values@),
                span,
                frames as nat,
                World { s: old(session)@, c: old(context)@ },
            ),
            r matches Some(done) ==> done@.len() == values@.len(),
            host::follows(old(session)@, final(session)@),
            scope::stays(old(context)@, final(context)@),
        decreases frames, 4int, values, 0int,
    {
        proof {
            reveal(semantics::eval_values);
        }
        let ghost all = ir::values_view(values@);
        let ghost w0 = World { s: session@, c: context@ };
        let mut out: Vec<IrValue> = Vec::new();
        let mut i: usize = 0;
        assert(all.take(0) =~= Seq::empty());
        while i < values.len()
            invariant
                host::follows(old(session)@, session@),
                scope::stays(old(context)@, context@),
                0 <= i <= values@.len(),
                all == ir::values_view(values@),
                out@.len() == i,
                w0 == (World { s: old(session)@, c: old(context)@ }),
                semantics::eval_values(*self, all.take(i as int), span, frames as nat, w0) == (Ev {
                    out: Some(ir::values_view(out@)),
                    w: World { s: session@, c: context@ },
                }),
            decreases values@.len() - i,
        {
            proof {
                reveal(semantics::eval_values);
                sequences::lemma_take_step(all, i as int);
            }
            match self.evaluate_required(&values[i], span, frames, session, context) {
                Some(v) => out.push(v),
                None => {
                    proof {
                        lemma_eval_values_stops(*self, all, span, i + 1, frames as nat, w0);
                    }
                    return None;
                },
            }
            i += 1;
        }
        proof {
            sequences::lemma_take_all(all);
        }
        Some(out)
    }

    /// Evaluates named arguments, from the first on.
    pub fn evaluate_named(
        &self,
        named: &Vec<IrNamedArg>,
        span: SourceSpan,
        frames: usize,
        session: &mut Session,
        context: &mut EvaluationContext,
    ) -> (r: Option<Vec<IrNamedArg>>)
        ensures
            (Ev { out: views::named_args(r), w: World { s: final(session)@, c: final(context)@ } })
                == semantics::eval_named(
                *self,
                ir::named_args_view(named@),
                span,
                frames as nat,
                World { s: old(session)@, c: old(context)@ },
            ),
            r matches Some(done) ==> done@.len() == named@.len(),
            host::follows(old(session)@, final(session)@),
            scope::stays(old(context)@, final(context)@),
        decreases frames, 4int, named, 0int,
    {
        proof {
            reveal(semantics::eval_named);
        }
        let ghost all = ir::named_args_view(named@);
        let ghost w0 = World { s: session@, c: context@ };
        let mut out: Vec<IrNamedArg> = Vec::new();
        let mut i: usize = 0;
        assert(all.take(0) =~= Seq::empty());
        while i < named.len()
            invariant
                host::follows(old(session)@, session@),
                scope::stays(old(context)@, context@),
                0 <= i <= named@.len(),
                all == ir::named_args_view(named@),
                out@.len() == i,
                w0 == (World { s: old(session)@, c: old(context)@ }),
                semantics::eval_named(*self, all.take(i as int), span, frames as nat, w0) == (Ev {
                    out: Some(ir::named_args_view(out@)),
                    w: World { s: session@, c: context@ },
                }),
            decreases named@.len() - i,
        {
            proof {
                reveal(semantics::eval_named);
                sequences::lemma_take_step(all, i as int);
            }
            match self.evaluate_required(&named[i].value, span, frames, session, context) {
                Some(v) => {
                    let arg = &named[i];
                    out.push(
                        IrNamedArg {
                            name: arg.name.clone(),
                            name_span: arg.name_span,
                            value: v,
                            span: arg.span,
                        },
                    );
                },
                None => {
                    proof {
                        lemma_eval_named_stops(*self, all, span, i + 1, frames as nat, w0);
                    }
                    return None;
                },
            }
            i += 1;
        }
        proof {
            sequences::lemma_take_all(all);
        }
        Some(out)
    }

    /// Evaluates arguments and finds where they come from, from the first on.
    pub fn evaluate_invocation_values(
        &self,
        values: &Vec<IrValue>,
        span: SourceSpan,
        first_origin: Option<ValueOrigin>,
        frames: usize,
        session: &mut Session,
        context: &mut EvaluationContext,
    ) -> (r: Option<Vec<InvocationValue>>)
        ensures
            (Ev { out: views::invocations(r), w: World { s: final(session)@, c: final(context)@ } })
                == semantics::invocation_values(
                *self,
                ir::values_view(values@),
                span,
                first_origin,
                frames as nat,
                World { s: old(session)@, c: old(context)@ },
            ),
            r matches Some(done) ==> done@.len() == values@.len(),
            host::follows(old(session)@, final(session)@),
            scope::stays(old(context)@, final(context)@),
        decreases frames, 4int, values, 0int,
    {
        proof {
            reveal(semantics::invocation_values);
        }
        let ghost all = ir::values_view(values@);
        let ghost w0 = World { s: session@, c: context@ };
        let mut out: Vec<InvocationValue> = Vec::new();
        let mut i: usize = 0;
        assert(all.take(0) =~= Seq::empty());
        while i < values.len()
            invariant
                host::follows(old(session)@, session@),
                scope::stays(old(context)@, context@),
                0 <= i <= values@.len(),
                all == ir::values_view(values@),
                out@.len() == i,
                w0 == (World { s: old(session)@, c: old(context)@ }),
                semantics::invocation_values(*self, all.take(i as int), span, first_origin, frames as nat, w0) == (Ev {
                    out: Some(host::invocation_values_view(out@)),
                    w: World { s: session@, c: context@ },
                }),
            decreases values@.len() - i,
        {
            proof {
                reveal(semantics::invocation_values);
                sequences::lemma_take_step(all, i as int);
            }
            let origin = match first_origin {
                Some(origin) if i == 0 => origin,
                _ => context.invocation_origin(&values[i]),
            };
            match self.evaluate_required(&values[i], span, frames, session, context) {
                Some(value) => out.push(InvocationValue { value, origin }),
                None => {
                    proof {
                        lemma_invocation_values_stops(
                            *self,
                            all,
                            span,
                            first_origin,
                            i + 1,
                            frames as nat,
                            w0,
                        );
                    }
                    return None;
                },
            }
            i += 1;
        }
        proof {
            sequences::lemma_take_all(all);
        }
        Some(out)
    }

    /// Evaluates named arguments and finds where they come from, from the first on.
    pub fn evaluate_invocation_named(
        &self,
        named: &Vec<IrNamedArg>,
        span: SourceSpan,
        frames: usize,
        session: &mut Session,
        context: &mut EvaluationContext,
    ) -> (r: Option<Vec<InvocationNamedArg>>)
        ensures
            (Ev {
                out: views::invocation_named(r),
                w: World { s: final(session)@, c: final(context)@ },
            })
                == semantics::invocation_named(
                *self,
                ir::named_args_view(named@),
                span,
                frames as nat,
                World { s: old(session)@, c: old(context)@ },
            ),
            r matches Some(done) ==> done@.len() == named@.len(),
            host::follows(old(session)@, final(session)@),
            scope::stays(old(context)@, final(context)@),
        decreases frames, 4int, named, 0int,
    {
        proof {
            reveal(semantics::invocation_named);
        }
        let ghost all = ir::named_args_view(named@);
        let ghost w0 = World { s: session@, c: context@ };
        let mut out: Vec<InvocationNamedArg> = Vec::new();
        let mut i: usize = 0;
        assert(all.take(0) =~= Seq::empty());
        while i < named.len()
            invariant
                host::follows(old(session)@, session@),
                scope::stays(old(context)@, context@),
                0 <= i <= named@.len(),
                all == ir::named_args_view(named@),
                out@.len() == i,
                w0 == (World { s: old(session)@, c: old(context)@ }),
                semantics::invocation_named(*self, all.take(i as int), span, frames as nat, w0)
                    == (Ev {
                    out: Some(host::invocation_named_args_view(out@)),
                    w: World { s: session@, c: context@ },
                }),
            decreases named@.len() - i,
        {
            proof {
                reveal(semantics::invocation_named);
                sequences::lemma_take_step(all, i as int);
            }
            let origin = context.invocation_origin(&named[i].value);
            match self.evaluate_required(&named[i].value, span, frames, session, context) {
                Some(v) => {
                    let arg = &named[i];
                    out.push(
                        InvocationNamedArg {
                            arg: IrNamedArg {
                                name: arg.name.clone(),
                                name_span: arg.name_span,
                                value: v,
                                span: arg.span,
                            },
                            origin,
                        },
                    );
                },
                None => {
                    proof {
                        lemma_invocation_named_stops(*self, all, span, i + 1, frames as nat, w0);
                    }
                    return None;
                },
            }
            i += 1;
        }
        proof {
            sequences::lemma_take_all(all);
        }
        Some(out)
    }

    /// Evaluates the arguments of a call that is kept, from the first on.
    pub fn evaluate_values_for_preservation(
        &self,
        values: &Vec<IrValue>,
        span: SourceSpan,
        frames: usize,
        session: &mut Session,
        context: &mut EvaluationContext,
    ) -> (r: Option<Vec<IrValue>>)
        ensures
            (Ev { out: views::values(r), w: World { s: final(session)@, c: final(context)@ } })
                == semantics::keep_values(
                *self,
                ir::values_view(values@),
                span,
                frames as nat,
                World { s: old(session)@, c: old(context)@ },
            ),
            r matches Some(done) ==> done@.len() == values@.len(),
            host::follows(old(session)@, final(session)@),
            scope::stays(old(context)@, final(context)@),
        decreases frames, 4int, values, 0int,
    {
        proof {
            reveal(semantics::keep_values);
        }
        let ghost all = ir::values_view(values@);
        let ghost w0 = World { s: session@, c: context@ };
        let mut out: Vec<IrValue> = Vec::new();
        let mut i: usize = 0;
        assert(all.take(0) =~= Seq::empty());
        while i < values.len()
            invariant
                host::follows(old(session)@, session@),
                scope::stays(old(context)@, context@),
                0 <= i <= values@.len(),
                all == ir::values_view(values@),
                out@.len() == i,
                w0 == (World { s: old(session)@, c: old(context)@ }),
                semantics::keep_values(*self, all.take(i as int), span, frames as nat, w0) == (Ev {
                    out: Some(ir::values_view(out@)),
                    w: World { s: session@, c: context@ },
                }),
            decreases values@.len() - i,
        {
            proof {
                reveal(semantics::keep_values);
                sequences::lemma_take_step(all, i as int);
            }
            match self.evaluate_kept(&values[i], span, frames, session, context) {
                Some(v) => out.push(v),
                None => {
                    proof {
                        lemma_keep_values_stops(*self, all, span, i + 1, frames as nat, w0);
                    }
                    return None;
                },
            }
            i += 1;
        }
        proof {
            sequences::lemma_take_all(all);
        }
        Some(out)
    }

    /// Evaluates the named arguments of a call that is kept, from the first on.
    pub fn evaluate_named_for_preservation(
        &self,
        named: &Vec<IrNamedArg>,
        span: SourceSpan,
        frames: usize,
        session: &mut Session,
        context: &mut EvaluationContext,
    ) -> (r: Option<Vec<IrNamedArg>>)
        ensures
            (Ev { out: views::named_args(r), w: World { s: final(session)@, c: final(context)@ } })
                == semantics::keep_named(
                *self,
                ir::named_args_view(named@),
                span,
                frames as nat,
                World { s: old(session)@, c: old(context)@ },
            ),
            r matches Some(done) ==> done@.len() == named@.len(),
            host::follows(old(session)@, final(session)@),
            scope::stays(old(context)@, final(context)@),
        decreases frames, 4int, named, 0int,
    {
        proof {
            reveal(semantics::keep_named);
        }
        let ghost all = ir::named_args_view(named@);
        let ghost w0 = World { s: session@, c: context@ };
        let mut out: Vec<IrNamedArg> = Vec::new();
        let mut i: usize = 0;
        assert(all.take(0) =~= Seq::empty());
        while i < named.len()
            invariant
                host::follows(old(session)@, session@),
                scope::stays(old(context)@, context@),
                0 <= i <= named@.len(),
                all == ir::named_args_view(named@),
                out@.len() == i,
                w0 == (World { s: old(session)@, c: old(context)@ }),
                semantics::keep_named(*self, all.take(i as int), span, frames as nat, w0) == (Ev {
                    out: Some(ir::named_args_view(out@)),
                    w: World { s: session@, c: context@ },
                }),
            decreases named@.len() - i,
        {
            proof {
                reveal(semantics::keep_named);
                sequences::lemma_take_step(all, i as int);
            }
            match self.evaluate_kept(&named[i].value, span, frames, session, context) {
                Some(v) => {
                    let arg = &named[i];
                    out.push(
                        IrNamedArg {
                            name: arg.name.clone(),
                            name_span: arg.name_span,
                            value: v,
                            span: arg.span,
                        },
                    );
                },
                None => {
                    proof {
                        lemma_keep_named_stops(*self, all, span, i + 1, frames as nat, w0);
                    }
                    return None;
                },
            }
            i += 1;
        }
        proof {
            sequences::lemma_take_all(all);
        }
        Some(out)
    }

    /// Evaluates the entries that list items are, from the first on.
    pub fn evaluate_entry_list(
        &self,
        items: &Vec<IrListItem>,
        span: SourceSpan,
        frames: usize,
        session: &mut Session,
        context: &mut EvaluationContext,
    ) -> (r: Option<Vec<IrPair>>)
        ensures
            (Ev { out: views::pairs(r), w: World { s: final(session)@, c: final(context)@ } })
                == (match collection::check_elements(
                self.limits.max_materialized_elements as nat,
                items@.len(),
                span,
                old(session)@,
            ) {
                (false, s) => semantics::nothing(World { s, c: old(context)@ }),
                (true, s) => semantics::entry_list(
                    *self,
                    ir::items_view(items@),
                    span,
                    frames as nat,
                    World { s, c: old(context)@ },
                ),
            }),
            host::follows(old(session)@, final(session)@),
            scope::stays(old(context)@, final(context)@),
        decreases frames, 5int, items, 0int,
    {
        proof {
            reveal(semantics::entry_list);
        }
        let limit = self.limits.max_materialized_elements;
        if !check_materialized_elements(limit, items.len() as u64, span, session) {
            return None;
        }
        let ghost all = ir::items_view(items@);
        let ghost w0 = World { s: session@, c: context@ };
        let mut entries: Vec<IrPair> = Vec::new();
        let mut i: usize = 0;
        assert(all.take(0) =~= Seq::empty());
        while i < items.len()
            invariant
                host::follows(old(session)@, session@),
                scope::stays(old(context)@, context@),
                0 <= i <= items@.len(),
                all == ir::items_view(items@),
                (true, w0.s) == collection::check_elements(
                    self.limits.max_materialized_elements as nat,
                    items@.len(),
                    span,
                    old(session)@,
                ),
                w0.c == old(context)@,
                semantics::entry_list(*self, all.take(i as int), span, frames as nat, w0) == (Ev {
                    out: Some(ir::pairs_view(entries@)),
                    w: World { s: session@, c: context@ },
                }),
            decreases items@.len() - i,
        {
            proof {
                reveal(semantics::keep_named);
                sequences::lemma_take_step(all, i as int);
            }
            proof {
                reveal(semantics::entry_list);
            }
            match self.dictionary_item_parts(&items[i], span, frames, session, context) {
                Some((key, value)) => write_entry(&mut entries, key, value, items[i].span),
                None => {
                    proof {
                        lemma_entry_list_stops(*self, all, span, i + 1, frames as nat, w0);
                    }
                    return None;
                },
            }
            i += 1;
        }
        proof {
            sequences::lemma_take_all(all);
        }
        Some(entries)
    }
}

/// Where one of the arguments fails, nothing behind it is evaluated.
proof fn lemma_eval_values_stops(
    e: Evaluator,
    all: Seq<ValueView>,
    span: SourceSpan,
    i: int,
    f: nat,
    w: World,
)
    requires
        0 <= i <= all.len(),
        semantics::eval_values(e, all.take(i), span, f, w).out is None,
    ensures
        semantics::eval_values(e, all, span, f, w) == semantics::eval_values(
            e,
            all.take(i),
            span,
            f,
            w,
        ),
    decreases all.len() - i,
{
    reveal(semantics::eval_values);
    if i == all.len() {
        sequences::lemma_take_all(all);
    } else {
        sequences::lemma_take_step(all, i);
        lemma_eval_values_stops(e, all, span, i + 1, f, w);
    }
}

/// Where one of the arguments fails, nothing behind it is evaluated.
proof fn lemma_eval_named_stops(
    e: Evaluator,
    all: Seq<NamedArgView>,
    span: SourceSpan,
    i: int,
    f: nat,
    w: World,
)
    requires
        0 <= i <= all.len(),
        semantics::eval_named(e, all.take(i), span, f, w).out is None,
    ensures
        semantics::eval_named(e, all, span, f, w) == semantics::eval_named(
            e,
            all.take(i),
            span,
            f,
            w,
        ),
    decreases all.len() - i,
{
    reveal(semantics::eval_named);
    if i == all.len() {
        sequences::lemma_take_all(all);
    } else {
        sequences::lemma_take_step(all, i);
        lemma_eval_named_stops(e, all, span, i + 1, f, w);
    }
}

/// Where one of the arguments fails, nothing behind it is evaluated.
proof fn lemma_invocation_values_stops(
    e: Evaluator,
    all: Seq<ValueView>,
    span: SourceSpan,
    first_origin: Option<ValueOrigin>,
    i: int,
    f: nat,
    w: World,
)
    requires
        0 <= i <= all.len(),
        semantics::invocation_values(e, all.take(i), span, first_origin, f, w).out is None,
    ensures
        semantics::invocation_values(
            e,
            all,
            span,
            first_origin,
            f,
            w,
        ) == semantics::invocation_values(
            e,
            all.take(i),
            span, first_origin,
            f,
            w,
        ),
    decreases all.len() - i,
{
    reveal(semantics::invocation_values);
    if i == all.len() {
        sequences::lemma_take_all(all);
    } else {
        sequences::lemma_take_step(all, i);
        lemma_invocation_values_stops(e, all, span, first_origin, i + 1, f, w);
    }
}

/// Where one of the arguments fails, nothing behind it is evaluated.
proof fn lemma_invocation_named_stops(
    e: Evaluator,
    all: Seq<NamedArgView>,
    span: SourceSpan,
    i: int,
    f: nat,
    w: World,
)
    requires
        0 <= i <= all.len(),
        semantics::invocation_named(e, all.take(i), span, f, w).out is None,
    ensures
        semantics::invocation_named(e, all, span, f, w) == semantics::invocation_named(
            e,
            all.take(i),
            span,
            f,
            w,
        ),
    decreases all.len() - i,
{
    reveal(semantics::invocation_named);
    if i == all.len() {
        sequences::lemma_take_all(all);
    } else {
        sequences::lemma_take_step(all, i);
        lemma_invocation_named_stops(e, all, span, i + 1, f, w);
    }
}

/// Where one of the arguments fails, nothing behind it is evaluated.
proof fn lemma_keep_values_stops(
    e: Evaluator,
    all: Seq<ValueView>,
    span: SourceSpan,
    i: int,
    f: nat,
    w: World,
)
    requires
        0 <= i <= all.len(),
        semantics::keep_values(e, all.take(i), span, f, w).out is None,
    ensures
        semantics::keep_values(e, all, span, f, w) == semantics::keep_values(
            e,
            all.take(i),
            span,
            f,
            w,
        ),
    decreases all.len() - i,
{
    reveal(semantics::keep_values);
    if i == all.len() {
        sequences::lemma_take_all(all);
    } else {
        sequences::lemma_take_step(all, i);
        lemma_keep_values_stops(e, all, span, i + 1, f, w);
    }
}

/// Where one of the arguments fails, nothing behind it is evaluated.
proof fn lemma_keep_named_stops(
    e: Evaluator,
    all: Seq<NamedArgView>,
    span: SourceSpan,
    i: int,
    f: nat,
    w: World,
)
    requires
        0 <= i <= all.len(),
        semantics::keep_named(e, all.take(i), span, f, w).out is None,
    ensures
        semantics::keep_named(e, all, span, f, w) == semantics::keep_named(
            e,
            all.take(i),
            span,
            f,
            w,
        ),
    decreases all.len() - i,
{
    reveal(semantics::keep_named);
    if i == all.len() {
        sequences::lemma_take_all(all);
    } else {
        sequences::lemma_take_step(all, i);
        lemma_keep_named_stops(e, all, span, i + 1, f, w);
    }
}

} // verus!
