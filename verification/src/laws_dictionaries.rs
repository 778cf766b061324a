//! Laws of `.dictionary` as a whole call.

use vstd::prelude::*;

use crate::ir::{DictionaryView, ListItemView, NodeView, SourceSpan, ValueView};
use crate::laws_layout;
use crate::outcome::OutcomeView;
use crate::semantics;
use crate::semantics::{CallView, Evaluator, World};

verus! {

/// `.dictionary` without a body has no entries, and with a list as its body the entries that the
/// items of the list are; any other body is reported.
pub proof fn lemma_dictionary_made(
    e: Evaluator,
    items: Seq<ListItemView>,
    other: NodeView,
    at: SourceSpan,
    span: SourceSpan,
    f: nat,
    w: World,
)
    requires
        items.len() <= e.limits.max_materialized_elements,
        !(other is UnorderedList),
        !(other is OrderedList),
    ensures
        ({
            let call = CallView {
                body: None,
                ..laws_layout::plain_block_call("dictionary"@, Seq::empty(), span)
            };
            let r = semantics::eval_dictionary(e, call, f, w);
            &&& r.w == w
            &&& r.out == OutcomeView::Value(
                ValueView::Dictionary(DictionaryView { entries: Seq::empty(), span }),
            )
        }),
        ({
            let entries = semantics::entry_list(e, items, span, f, w);
            let r = semantics::eval_dictionary(
                e,
                laws_layout::plain_block_call(
                    "dictionary"@,
                    seq![NodeView::UnorderedList { items, span: at }],
                    span,
                ),
                f,
                w,
            );
            &&& r.w == entries.w
            &&& entries.out is Some ==> r.out == OutcomeView::Value(
                ValueView::Dictionary(DictionaryView { entries: entries.out->0, span }),
            )
            &&& entries.out is None ==> r.out is Failed
        }),
        ({
            let r = semantics::eval_dictionary(
                e,
                laws_layout::plain_block_call("dictionary"@, seq![other], span),
                f,
                w,
            );
            &&& r.out is Failed && r.w.c == w.c
            &&& r.w.s.diagnostics.len() == w.s.diagnostics.len() + 1
            &&& r.w.s.diagnostics.last().primary == Some(span)
        }),
{
    reveal(semantics::eval_dictionary);
    reveal(semantics::dictionary_entries);
    assert(w.on(w.s) == w);
    let list = seq![NodeView::UnorderedList { items, span: at }];
    let entries = semantics::dictionary_entries(e, list, span, f, w);
    let inside = semantics::entry_list(e, items, span, f, w);
    assert(entries.out == inside.out && entries.w == inside.w);
    let none = semantics::dictionary_entries(e, Seq::empty(), span, f, w);
    assert(none.w == w);
    let refused = semantics::dictionary_entries(e, seq![other], span, f, w);
    assert(refused.out is None);
}

} // verus!
