//! More answers and higher limits keep what is settled: callables.

use vstd::prelude::*;

use crate::calls;
use crate::calls::BoundView;
use crate::growth;
use crate::growth::Growth;
use crate::growth_helpers;
use crate::growth_values;
use crate::ir::{CallableView, SourceSpan, ValueView};
use crate::semantics;
use crate::semantics::{Evaluator, World};

verus! {

broadcast use growth::group_within;

/// What `invoke` comes to is kept.
pub(crate) proof fn lemma_invoke(
    e: Evaluator,
    callable: CallableView,
    arguments: Seq<ValueView>,
    destructuring: bool,
    span: SourceSpan,
    f: nat,
    w: World,
    grow: Growth,
)
    requires
        growth::fits(e, grow),
    ensures
        growth::kept(
            w,
            semantics::invoke(e, callable, arguments, destructuring, span, f, w),
            semantics::invoke(
                growth::evaluator(e, grow),
                callable,
                arguments,
                destructuring,
                span,
                f + grow.depth,
                growth::world(w, grow),
            ),
            grow,
        ),
    decreases f, 0int, e, 0int,
{
    reveal(semantics::invoke);
    reveal(semantics::invoke_bound);
    if f == 0 {
    } else {
        growth_helpers::lemma_bind_invocation(
            callable.parameters,
            arguments,
            destructuring,
            span,
            w.s,
            grow,
        );
        match calls::bind_invocation(callable.parameters, arguments, destructuring, span, w.s) {
            (None, s) => {},
            (Some(bound), s) => {
                lemma_invoke_bound(e, callable, bound, (f - 1) as nat, w.on(s), grow);
            },
        }
    }
}

/// What `invoke_bound` comes to is kept.
pub(crate) proof fn lemma_invoke_bound(
    e: Evaluator,
    callable: CallableView,
    bound: BoundView,
    f: nat,
    w: World,
    grow: Growth,
)
    requires
        growth::fits(e, grow),
    ensures
        growth::kept(
            w,
            semantics::invoke_bound(e, callable, bound, f, w),
            semantics::invoke_bound(
                growth::evaluator(e, grow),
                callable,
                bound,
                f + grow.depth,
                growth::world(w, grow),
            ),
            grow,
        ),
    decreases f, 5int, e, 0int,
{
    reveal(semantics::invoke_bound);
    growth_values::lemma_callable_body(
        e,
        callable.body,
        f,
        World { s: w.s, c: semantics::invocation_scope(callable, bound, w.c) },
        grow,
    );
}

/// What `map_values` comes to is kept.
pub(crate) proof fn lemma_map_values(
    e: Evaluator,
    elements: Seq<ValueView>,
    callable: CallableView,
    destructuring: bool,
    span: SourceSpan,
    f: nat,
    w: World,
    grow: Growth,
)
    requires
        growth::fits(e, grow),
    ensures
        growth::kept(
            w,
            semantics::map_values(e, elements, callable, destructuring, span, f, w),
            semantics::map_values(
                growth::evaluator(e, grow),
                elements,
                callable,
                destructuring,
                span,
                f + grow.depth,
                growth::world(w, grow),
            ),
            grow,
        ),
    decreases f, 5int, elements, 0int,
{
    reveal(semantics::map_values);
    reveal(semantics::invoke);
    if elements.len() == 0 {
    } else {
        lemma_map_values(e, elements.drop_last(), callable, destructuring, span, f, w, grow);
        let before = semantics::map_values(
            e,
            elements.drop_last(),
            callable,
            destructuring,
            span,
            f,
            w,
        );
        match before.out {
            Err(out) => {},
            Ok(done) => {
                lemma_invoke(
                    e,
                    callable,
                    seq![elements.last()],
                    destructuring,
                    span,
                    f,
                    before.w,
                    grow,
                );
            },
        }
    }
}

/// What `filter_values` comes to is kept.
pub(crate) proof fn lemma_filter_values(
    e: Evaluator,
    elements: Seq<ValueView>,
    callable: CallableView,
    span: SourceSpan,
    f: nat,
    w: World,
    grow: Growth,
)
    requires
        growth::fits(e, grow),
    ensures
        growth::kept(
            w,
            semantics::filter_values(e, elements, callable, span, f, w),
            semantics::filter_values(
                growth::evaluator(e, grow),
                elements,
                callable,
                span,
                f + grow.depth,
                growth::world(w, grow),
            ),
            grow,
        ),
    decreases f, 5int, elements, 0int,
{
    reveal(semantics::filter_values);
    reveal(semantics::invoke);
    if elements.len() == 0 {
    } else {
        lemma_filter_values(e, elements.drop_last(), callable, span, f, w, grow);
        let before = semantics::filter_values(e, elements.drop_last(), callable, span, f, w);
        match before.out {
            Err(out) => {},
            Ok(done) => {
                lemma_invoke(e, callable, seq![elements.last()], true, span, f, before.w, grow);
            },
        }
    }
}

/// What `sort_value` comes to is kept.
pub(crate) proof fn lemma_sort_value(
    e: Evaluator,
    element: ValueView,
    callable: Option<CallableView>,
    span: SourceSpan,
    f: nat,
    w: World,
    grow: Growth,
)
    requires
        growth::fits(e, grow),
    ensures
        growth::kept(
            w,
            semantics::sort_value(e, element, callable, span, f, w),
            semantics::sort_value(
                growth::evaluator(e, grow),
                element,
                callable,
                span,
                f + grow.depth,
                growth::world(w, grow),
            ),
            grow,
        ),
    decreases f, 1int, e, 0int,
{
    reveal(semantics::sort_value);
    reveal(semantics::invoke);
    match callable {
        None => {},
        Some(callable) => {
            lemma_invoke(e, callable, seq![element], true, span, f, w, grow);
        },
    }
}

/// What `key_values` comes to is kept.
pub(crate) proof fn lemma_key_values(
    e: Evaluator,
    elements: Seq<ValueView>,
    callable: Option<CallableView>,
    span: SourceSpan,
    f: nat,
    w: World,
    grow: Growth,
)
    requires
        growth::fits(e, grow),
    ensures
        growth::kept(
            w,
            semantics::key_values(e, elements, callable, span, f, w),
            semantics::key_values(
                growth::evaluator(e, grow),
                elements,
                callable,
                span,
                f + grow.depth,
                growth::world(w, grow),
            ),
            grow,
        ),
    decreases f, 5int, elements, 0int,
{
    reveal(semantics::key_values);
    reveal(semantics::sort_value);
    if elements.len() == 0 {
    } else {
        lemma_key_values(e, elements.drop_last(), callable, span, f, w, grow);
        let before = semantics::key_values(e, elements.drop_last(), callable, span, f, w);
        match before.out {
            Err(out) => {},
            Ok(done) => {
                lemma_sort_value(e, elements.last(), callable, span, f, before.w, grow);
            },
        }
    }
}

} // verus!
