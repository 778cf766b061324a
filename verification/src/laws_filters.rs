//! Laws of `.filter` and of callbacks that sort.

use vstd::prelude::*;

use crate::collection;
use crate::collection::KeyedView;
use crate::ir::{CallableView, SourceSpan, ValueView};
use crate::outcome::OutcomeView;
use crate::semantics;
use crate::semantics::{Evaluator, World};

verus! {

proof fn lemma_refusal_has_no_value(
    e: Evaluator,
    elements: Seq<ValueView>,
    callable: CallableView,
    span: SourceSpan,
    f: nat,
    w: World,
)
    ensures
        semantics::filter_values(e, elements, callable, span, f, w).out matches Err(out) ==> !(
        out is Value),
    decreases elements.len(),
{
    reveal(semantics::filter_values);
    if elements.len() > 0 {
        lemma_refusal_has_no_value(e, elements.drop_last(), callable, span, f, w);
    }
}

/// One more element is kept behind the others where the predicate is true of it, and left out where
/// it is false; the element is kept as it is. A predicate that is neither is refused.
pub proof fn lemma_filtered_step(
    e: Evaluator,
    elements: Seq<ValueView>,
    element: ValueView,
    callable: CallableView,
    span: SourceSpan,
    f: nat,
    w: World,
)
    requires
        elements.len() < e.limits.max_materialized_elements,
    ensures
        ({
            let none = semantics::filter_outcome(e, Seq::empty(), callable, span, f, w);
            none.out == OutcomeView::Value(ValueView::Collection(Seq::empty())) && none.w == w
        }),
        ({
            let before = semantics::filter_outcome(e, elements, callable, span, f, w);
            let after = semantics::filter_outcome(
                e,
                elements.push(element),
                callable,
                span,
                f,
                w,
            );
            let r = semantics::invoke(e, callable, seq![element], true, span, f, before.w);
            if before.out is Value {
                let kept = before.out->Value_0->Collection_0;
                &&& r.out == OutcomeView::Value(ValueView::Boolean(true)) ==> after.w == r.w
                    && after.out == OutcomeView::Value(ValueView::Collection(kept.push(element)))
                &&& r.out == OutcomeView::Value(ValueView::Boolean(false)) ==> after.w == r.w
                    && after.out == OutcomeView::Value(ValueView::Collection(kept))
                &&& r.out is Value && (r.out->Value_0 is Number || r.out->Value_0 is String
                    || r.out->Value_0 is Nothing || r.out->Value_0 is Content)
                    ==> after.out is Failed && after.w.s.diagnostics.len()
                    == r.w.s.diagnostics.len() + 1
                &&& r.out is NoValue ==> after.out is Failed
                &&& r.out is Failed ==> after.out is Failed && after.w == r.w
            } else {
                after.out == before.out && after.w == before.w
            }
        }),
{
    reveal(semantics::filter_outcome);
    reveal(semantics::filter_values);
    assert(w.on(w.s) == w);
    assert(elements.push(element).drop_last() =~= elements);
    lemma_refusal_has_no_value(e, elements, callable, span, f, w);
}

/// With a callback an element is sorted by what the callback gives for it, and stays itself.
pub proof fn lemma_sorted_by_callback(
    e: Evaluator,
    elements: Seq<ValueView>,
    element: ValueView,
    callable: CallableView,
    span: SourceSpan,
    f: nat,
    w: World,
)
    ensures
        ({
            let before = semantics::key_values(e, elements, Some(callable), span, f, w);
            let after = semantics::key_values(
                e,
                elements.push(element),
                Some(callable),
                span,
                f,
                w,
            );
            let r = semantics::invoke(e, callable, seq![element], true, span, f, before.w);
            before.out is Ok && r.out is Value ==> match collection::key_of(r.out->Value_0) {
                Ok(key) => after.w == r.w && after.out == Ok::<Seq<KeyedView>, OutcomeView>(
                    before.out->Ok_0.push(KeyedView { value: element, key }),
                ),
                Err(_) => after.out is Err && after.w.s.diagnostics.len()
                    == r.w.s.diagnostics.len() + 1,
            }
        }),
{
    reveal(semantics::key_values);
    reveal(semantics::sort_value);
    assert(elements.push(element).drop_last() =~= elements);
    let before = semantics::key_values(e, elements, Some(callable), span, f, w);
    let r = semantics::invoke(e, callable, seq![element], true, span, f, before.w);
    let v = semantics::sort_value(e, element, Some(callable), span, f, before.w);
    if r.out is Value {
        assert(v.out == r.out && v.w == r.w);
    }
}

/// Sorting gives the elements in the order of their keys, where the keys are of one kind; keys of
/// different kinds are refused.
pub proof fn lemma_sorted_by_keys(
    e: Evaluator,
    elements: Seq<ValueView>,
    callable: Option<CallableView>,
    span: SourceSpan,
    f: nat,
    w: World,
)
    requires
        elements.len() <= e.limits.max_materialized_elements,
    ensures
        ({
            let keyed = semantics::key_values(e, elements, callable, span, f, w);
            let r = semantics::sort_outcome(e, elements, callable, span, f, w);
            let keys = keyed.out->Ok_0;
            let mixed = exists|i: int|
                1 <= i < keys.len() && !collection::same_kind(
                    keys[0].key,
                    (#[trigger] keys[i]).key,
                );
            &&& keyed.out is Ok && !mixed ==> {
                let sorted = collection::sort_keyed(keys);
                &&& r.w == keyed.w
                &&& r.out is Value && r.out->Value_0 is Collection
                &&& r.out->Value_0->Collection_0.len() == sorted.len()
                &&& forall|i: int|
                    0 <= i < sorted.len() ==> #[trigger] r.out->Value_0->Collection_0[i]
                        == sorted[i].value
            }
            &&& keyed.out is Ok && mixed ==> r.out is Failed && r.w.s.diagnostics.len()
                == keyed.w.s.diagnostics.len() + 1
            &&& keyed.out is Err ==> r.out == keyed.out->Err_0 && r.w == keyed.w
        }),
{
    reveal(semantics::key_values);
    reveal(semantics::sort_value);
    reveal(semantics::sort_outcome);
    assert(w.on(w.s) == w);
}

} // verus!
