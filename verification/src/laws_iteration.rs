//! Laws of iteration: every element is given to the body once, in order, and the results stand in
//! the same order.

use vstd::prelude::*;

use crate::collection;
use crate::ir::{CallableView, NodeView, ParameterView, SourceSpan, ValueView};
use crate::number;
use crate::outcome::OutcomeView;
use crate::scope;
use crate::semantics;
use crate::semantics::{BodyView, CallView, Evaluator, World};

verus! {

proof fn lemma_no_value_refused(
    e: Evaluator,
    elements: Seq<ValueView>,
    callable: CallableView,
    destructuring: bool,
    span: SourceSpan,
    f: nat,
    w: World,
)
    ensures
        semantics::map_values(
            e,
            elements,
            callable,
            destructuring,
            span,
            f,
            w,
        ).out matches Err(out) ==> !(out is Value),
    decreases elements.len(),
{
    reveal(semantics::map_values);
    if elements.len() > 0 {
        lemma_no_value_refused(
            e,
            elements.drop_last(),
            callable,
            destructuring,
            span,
            f,
            w,
        );
    }
}

/// What a callable gives for elements: as many results as elements, each what the callable gives
/// for the element at its place in the world that the elements before it leave.
pub proof fn lemma_mapped_elements(
    e: Evaluator,
    elements: Seq<ValueView>,
    callable: CallableView,
    destructuring: bool,
    span: SourceSpan,
    f: nat,
    w: World,
)
    ensures
        ({
            let all = semantics::map_outcome(e, elements, callable, destructuring, span, f, w);
            all.out matches OutcomeView::Value(value) ==> {
                &&& value is Collection
                &&& value->Collection_0.len() == elements.len()
                &&& forall|i: int|
                    0 <= i < elements.len() ==> {
                        let before = semantics::map_outcome(
                            e,
                            elements.take(i),
                            callable,
                            destructuring,
                            span,
                            f,
                            w,
                        );
                        semantics::invoke(
                            e,
                            callable,
                            seq![elements[i]],
                            destructuring,
                            span,
                            f,
                            before.w,
                        ).out == OutcomeView::Value(#[trigger] value->Collection_0[i])
                    }
            }
        }),
    decreases elements.len(),
{
    reveal(semantics::map_outcome);
    reveal(semantics::map_values);
    let all = semantics::map_outcome(e, elements, callable, destructuring, span, f, w);
    assert(w.on(w.s) == w);
    lemma_no_value_refused(e, elements, callable, destructuring, span, f, w);
    if elements.len() > 0 && all.out is Value {
        let front = elements.drop_last();
        lemma_no_value_refused(e, front, callable, destructuring, span, f, w);
        lemma_mapped_elements(e, front, callable, destructuring, span, f, w);
        let done = semantics::map_outcome(e, front, callable, destructuring, span, f, w);
        let value = all.out->Value_0;
        assert forall|i: int| 0 <= i < elements.len() implies {
            let before = semantics::map_outcome(
                e,
                elements.take(i),
                callable,
                destructuring,
                span,
                f,
                w,
            );
            semantics::invoke(
                e,
                callable,
                seq![elements[i]],
                destructuring,
                span,
                f,
                before.w,
            ).out == OutcomeView::Value(#[trigger] value->Collection_0[i])
        } by {
            if i < front.len() {
                assert(elements.take(i) =~= front.take(i));
                assert(value->Collection_0[i] == done.out->Value_0->Collection_0[i]);
            } else {
                assert(elements.take(i) =~= front);
            }
        }
    }
}

/// One more element adds one more result behind the others: what the callable gives for it in the
/// world that the others leave. Without elements there are no results, and nothing changes.
pub proof fn lemma_mapped_step(
    e: Evaluator,
    elements: Seq<ValueView>,
    element: ValueView,
    callable: CallableView,
    destructuring: bool,
    span: SourceSpan,
    f: nat,
    w: World,
)
    requires
        elements.len() < e.limits.max_materialized_elements,
    ensures
        ({
            let none = semantics::map_outcome(
                e,
                Seq::empty(),
                callable,
                destructuring,
                span,
                f,
                w,
            );
            none.out == OutcomeView::Value(ValueView::Collection(Seq::empty())) && none.w == w
        }),
        ({
            let before = semantics::map_outcome(e, elements, callable, destructuring, span, f, w);
            let after = semantics::map_outcome(
                e,
                elements.push(element),
                callable,
                destructuring,
                span,
                f,
                w,
            );
            let r = semantics::invoke(
                e,
                callable,
                seq![element],
                destructuring,
                span,
                f,
                before.w,
            );
            if before.out is Value {
                match r.out {
                    OutcomeView::Value(v) => after.w == r.w && after.out == OutcomeView::Value(
                        ValueView::Collection(before.out->Value_0->Collection_0.push(v)),
                    ),
                    OutcomeView::NoValue => after.out is Failed,
                    _ => after.out == r.out && after.w == r.w,
                }
            } else {
                after.out == before.out && after.w == before.w
            }
        }),
{
    reveal(semantics::map_outcome);
    reveal(semantics::map_values);
    assert(elements.push(element).drop_last() =~= elements);
    assert(w.on(w.s) == w);
    lemma_no_value_refused(e, elements, callable, destructuring, span, f, w);
}

/// A call of `.repeat` or `.foreach` with a block body.
pub open spec fn body_call(
    name: Seq<char>,
    argument: ValueView,
    lambda: Option<Seq<ParameterView>>,
    nodes: Seq<NodeView>,
    span: SourceSpan,
) -> CallView {
    CallView {
        name,
        positional: seq![argument],
        named: Seq::empty(),
        lambda,
        body: Some(BodyView::Block(nodes)),
        span,
        first_origin: None,
    }
}

/// The callable that a block body is in a scope: it has its parameters and its blocks, and it
/// captures the scope.
pub open spec fn body_callable(
    lambda: Option<Seq<ParameterView>>,
    nodes: Seq<NodeView>,
    span: SourceSpan,
    w: World,
) -> CallableView {
    CallableView {
        parameters: lambda,
        body: nodes,
        span,
        capture: Some(Box::new(scope::capture_of(w.c))),
    }
}

proof fn lemma_count(n: int)
    requires
        0 <= n <= i32::MAX,
    ensures
        crate::calls::count_of(ValueView::Number(number::number_of(n))) == Ok::<int, Seq<char>>(n),
{
    number::lemma_number_of_is_exact(n);
}

proof fn lemma_prefix_of_numbers(n: int, i: int)
    requires
        0 <= i <= n,
    ensures
        collection::range_numbers(1, n).take(i) =~= collection::range_numbers(1, i),
        collection::range_numbers(1, n).len() == n,
{
}

proof fn lemma_repeat_maps(
    e: Evaluator,
    lambda: Option<Seq<ParameterView>>,
    nodes: Seq<NodeView>,
    n: int,
    span: SourceSpan,
    f: nat,
    w: World,
)
    requires
        0 <= n <= i32::MAX,
        lambda is Some ==> lambda->0.len() == 1,
    ensures
        ({
            let count = ValueView::Number(number::number_of(n));
            let r = semantics::eval_repeat(
                e,
                body_call("repeat"@, count, lambda, nodes, span),
                f,
                w,
            );
            if n <= e.limits.max_materialized_elements {
                r == semantics::map_outcome(
                    e,
                    collection::range_numbers(1, n),
                    body_callable(lambda, nodes, span, w),
                    false,
                    span,
                    f,
                    w,
                )
            } else {
                r.out is Failed
            }
        }),
{
    reveal(semantics::map_outcome);
    reveal(semantics::map_values);
    reveal(semantics::eval_repeat);
    reveal(semantics::lambda_call_error);
    reveal(semantics::required);
    reveal(semantics::eval_value);
    lemma_count(n);
    assert(w.on(w.s) == w);
    if n == 0 {
        assert(collection::range_numbers(1, n) =~= Seq::empty());
    }
}

/// `.repeat` with the count `n`, where it gives a collection, gives one of exactly `n` elements,
/// and the element at place `i` is what the body gives for the number `i + 1` in the world that
/// repeating the body `i` times leaves.
pub proof fn lemma_repeat_counts(
    e: Evaluator,
    lambda: Option<Seq<ParameterView>>,
    nodes: Seq<NodeView>,
    n: int,
    span: SourceSpan,
    f: nat,
    w: World,
)
    requires
        0 <= n <= i32::MAX,
        lambda is Some ==> lambda->0.len() == 1,
    ensures
        ({
            let all = semantics::eval_repeat(
                e,
                body_call(
                    "repeat"@,
                    ValueView::Number(number::number_of(n)),
                    lambda,
                    nodes,
                    span,
                ),
                f,
                w,
            );
            &&& n > e.limits.max_materialized_elements ==> all.out is Failed
            &&& n == 0 ==> all.out == OutcomeView::Value(ValueView::Collection(Seq::empty()))
                && all.w == w
            &&& all.out matches OutcomeView::Value(value) ==> {
                &&& value is Collection
                &&& value->Collection_0.len() == n
                &&& forall|i: int|
                    0 <= i < n ==> {
                        let before = semantics::eval_repeat(
                            e,
                            body_call(
                                "repeat"@,
                                ValueView::Number(number::number_of(i)),
                                lambda,
                                nodes,
                                span,
                            ),
                            f,
                            w,
                        );
                        semantics::invoke(
                            e,
                            body_callable(lambda, nodes, span, w),
                            seq![ValueView::Number(number::number_of(i + 1))],
                            false,
                            span,
                            f,
                            before.w,
                        ).out == OutcomeView::Value(#[trigger] value->Collection_0[i])
                    }
            }
        }),
{
    lemma_repeat_maps(e, lambda, nodes, n, span, f, w);
    let callable = body_callable(lambda, nodes, span, w);
    let numbers = collection::range_numbers(1, n);
    if n <= e.limits.max_materialized_elements {
        let all = semantics::map_outcome(e, numbers, callable, false, span, f, w);
        lemma_mapped_elements(e, numbers, callable, false, span, f, w);
        lemma_prefix_of_numbers(n, 0);
        if n == 0 {
            reveal(semantics::map_outcome);
            reveal(semantics::map_values);
            assert(w.on(w.s) == w);
        }
        if all.out is Value {
            let value = all.out->Value_0;
            assert forall|i: int| 0 <= i < n implies {
                let before = semantics::eval_repeat(
                    e,
                    body_call(
                        "repeat"@,
                        ValueView::Number(number::number_of(i)),
                        lambda,
                        nodes,
                        span,
                    ),
                    f,
                    w,
                );
                semantics::invoke(
                    e,
                    callable,
                    seq![ValueView::Number(number::number_of(i + 1))],
                    false,
                    span,
                    f,
                    before.w,
                ).out == OutcomeView::Value(#[trigger] value->Collection_0[i])
            } by {
                lemma_repeat_maps(e, lambda, nodes, i, span, f, w);
                lemma_prefix_of_numbers(n, i);
                assert(numbers[i] == ValueView::Number(number::number_of(i + 1)));
            }
        }
    }
}

/// `.repeat` with an argument that has to be evaluated counts as far as the number that the
/// argument gives, in the world that evaluating it leaves.
pub proof fn lemma_repeat_counts_evaluated(
    e: Evaluator,
    argument: ValueView,
    lambda: Option<Seq<ParameterView>>,
    nodes: Seq<NodeView>,
    span: SourceSpan,
    f: nat,
    w: World,
)
    requires
        lambda is Some ==> lambda->0.len() == 1,
    ensures
        ({
            let counted = semantics::required(e, argument, span, f, w);
            let all = semantics::eval_repeat(
                e,
                body_call("repeat"@, argument, lambda, nodes, span),
                f,
                w,
            );
            match counted.out {
                None => all.out is Failed && all.w == counted.w,
                Some(count) => if count is Number {
                    all == semantics::eval_repeat(
                        e,
                        body_call("repeat"@, count, lambda, nodes, span),
                        f,
                        counted.w,
                    )
                } else {
                    all.out is Failed && all.w.s.diagnostics.len()
                        == counted.w.s.diagnostics.len() + 1
                },
            }
        }),
{
    reveal(semantics::map_outcome);
    reveal(semantics::map_values);
    reveal(semantics::eval_repeat);
    reveal(semantics::lambda_call_error);
    reveal(semantics::required);
    reveal(semantics::eval_value);
    assert(w.on(w.s) == w);
}

/// `.foreach` over a collection gives one result for each of its elements, in order: what the body
/// gives for that element in the world that the elements before it leave.
pub proof fn lemma_foreach_elements(
    e: Evaluator,
    elements: Seq<ValueView>,
    lambda: Option<Seq<ParameterView>>,
    nodes: Seq<NodeView>,
    span: SourceSpan,
    f: nat,
    w: World,
)
    requires
        lambda is Some ==> 1 <= lambda->0.len() <= 2,
    ensures
        ({
            let all = semantics::eval_foreach(
                e,
                body_call("foreach"@, ValueView::Collection(elements), lambda, nodes, span),
                f,
                w,
            );
            &&& elements.len() > e.limits.max_materialized_elements ==> all.out is Failed
            &&& all.out matches OutcomeView::Value(value) ==> {
                &&& value is Collection
                &&& value->Collection_0.len() == elements.len()
                &&& forall|i: int|
                    0 <= i < elements.len() ==> {
                        let before = semantics::eval_foreach(
                            e,
                            body_call(
                                "foreach"@,
                                ValueView::Collection(elements.take(i)),
                                lambda,
                                nodes,
                                span,
                            ),
                            f,
                            w,
                        );
                        semantics::invoke(
                            e,
                            body_callable(lambda, nodes, span, w),
                            seq![elements[i]],
                            true,
                            span,
                            f,
                            before.w,
                        ).out == OutcomeView::Value(#[trigger] value->Collection_0[i])
                    }
            }
        }),
{
    lemma_foreach_maps(e, elements, lambda, nodes, span, f, w);
    let callable = body_callable(lambda, nodes, span, w);
    if elements.len() <= e.limits.max_materialized_elements {
        lemma_mapped_elements(e, elements, callable, true, span, f, w);
        let all = semantics::map_outcome(e, elements, callable, true, span, f, w);
        if all.out is Value {
            let value = all.out->Value_0;
            assert forall|i: int| 0 <= i < elements.len() implies {
                let before = semantics::eval_foreach(
                    e,
                    body_call(
                        "foreach"@,
                        ValueView::Collection(elements.take(i)),
                        lambda,
                        nodes,
                        span,
                    ),
                    f,
                    w,
                );
                semantics::invoke(
                    e,
                    callable,
                    seq![elements[i]],
                    true,
                    span,
                    f,
                    before.w,
                ).out == OutcomeView::Value(#[trigger] value->Collection_0[i])
            } by {
                lemma_foreach_maps(e, elements.take(i), lambda, nodes, span, f, w);
            }
        }
    }
}

proof fn lemma_foreach_maps(
    e: Evaluator,
    elements: Seq<ValueView>,
    lambda: Option<Seq<ParameterView>>,
    nodes: Seq<NodeView>,
    span: SourceSpan,
    f: nat,
    w: World,
)
    requires
        lambda is Some ==> 1 <= lambda->0.len() <= 2,
    ensures
        ({
            let r = semantics::eval_foreach(
                e,
                body_call("foreach"@, ValueView::Collection(elements), lambda, nodes, span),
                f,
                w,
            );
            if elements.len() <= e.limits.max_materialized_elements {
                r == semantics::map_outcome(
                    e,
                    elements,
                    body_callable(lambda, nodes, span, w),
                    true,
                    span,
                    f,
                    w,
                )
            } else {
                r.out is Failed
            }
        }),
{
    reveal(semantics::map_outcome);
    reveal(semantics::map_values);
    reveal(semantics::eval_foreach);
    reveal(semantics::lambda_call_error);
    reveal(semantics::invocation_value);
    reveal(semantics::required);
    reveal(semantics::eval_value);
    assert(w.on(w.s) == w);
}

} // verus!
