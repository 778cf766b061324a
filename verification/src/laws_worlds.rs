//! Laws of order: an argument that has to be evaluated means what its value means, in the world
//! that evaluating it leaves.

use vstd::prelude::*;

use crate::collection;
use crate::ir::{NodeView, PairView, ParameterView, SourceSpan, ValueView};
use crate::laws_arguments;
use crate::laws_builtins;
use crate::laws_iteration;
use crate::outcome::OutcomeView;
use crate::semantics;
use crate::semantics::{Evaluator, World};

verus! {

/// `.let` of an argument is `.let` of its value.
pub proof fn lemma_let_evaluated(
    e: Evaluator,
    argument: ValueView,
    lambda: Option<Seq<ParameterView>>,
    nodes: Seq<NodeView>,
    span: SourceSpan,
    f: nat,
    w: World,
)
    requires
        lambda is Some ==> lambda->0.len() == 1,
    ensures
        ({
            let given = semantics::required(e, argument, span, f, w);
            let r = semantics::eval_let(
                e,
                laws_iteration::body_call("let"@, argument, lambda, nodes, span),
                f,
                w,
            );
            match given.out {
                None => r.out is Failed && r.w == given.w,
                Some(value) => r == semantics::invoke(
                    e,
                    laws_iteration::body_callable(lambda, nodes, span, given.w),
                    seq![value],
                    false,
                    span,
                    f,
                    given.w,
                ),
            }
        }),
{
    reveal(semantics::eval_let);
    reveal(semantics::lambda_call_error);
}

/// Whether a value can be iterated as it is.
pub open spec fn iterable(value: ValueView) -> bool {
    value is Collection || value is Pair || value is Dictionary || value is Range
}

/// `.foreach` over an argument is `.foreach` over its value.
pub proof fn lemma_foreach_evaluated(
    e: Evaluator,
    argument: ValueView,
    lambda: Option<Seq<ParameterView>>,
    nodes: Seq<NodeView>,
    span: SourceSpan,
    f: nat,
    w: World,
)
    requires
        lambda is Some ==> 1 <= lambda->0.len() <= 2,
    ensures
        ({
            let given = semantics::required(e, argument, span, f, w);
            let r = semantics::eval_foreach(
                e,
                laws_iteration::body_call("foreach"@, argument, lambda, nodes, span),
                f,
                w,
            );
            &&& given.out is None ==> r.out is Failed && r.w == given.w
            &&& given.out is Some && iterable(given.out->0) ==> r == semantics::eval_foreach(
                e,
                laws_iteration::body_call("foreach"@, given.out->0, lambda, nodes, span),
                f,
                given.w,
            )
        }),
{
    reveal(semantics::eval_foreach);
    reveal(semantics::lambda_call_error);
    reveal(semantics::invocation_value);
    assert(w.on(w.s) == w);
    let given = semantics::required(e, argument, span, f, w);
    assert(given.w.on(given.w.s) == given.w);
    let a = semantics::invocation_value(e, argument, span, None, f, w);
    assert(a.w == given.w);
    if given.out is Some && iterable(given.out->0) {
        let value = given.out->0;
        laws_arguments::lemma_literal_evaluated(e, value, span, f, given.w);
        let b = semantics::invocation_value(e, value, span, None, f, given.w);
        assert(b.w == given.w && b.out->0.value == value && a.out->0.value == value);
    }
}

/// `.map`, `.filter` and `.sorted` of an argument are those of its value.
pub proof fn lemma_transform_evaluated(
    e: Evaluator,
    name: Seq<char>,
    argument: ValueView,
    lambda: Option<Seq<ParameterView>>,
    nodes: Seq<NodeView>,
    span: SourceSpan,
    f: nat,
    w: World,
)
    ensures
        ({
            let given = semantics::required(e, argument, span, f, w);
            let r = semantics::eval_transform(
                e,
                laws_iteration::body_call(name, argument, lambda, nodes, span),
                f,
                w,
            );
            &&& given.out is None ==> r.out is Failed && r.w == given.w
            &&& given.out is Some && iterable(given.out->0) ==> r == semantics::eval_transform(
                e,
                laws_iteration::body_call(name, given.out->0, lambda, nodes, span),
                f,
                given.w,
            )
        }),
{
    reveal(semantics::eval_transform);
    reveal(semantics::invocation_value);
    reveal(semantics::transform_callback);
    reveal(semantics::transform_elements);
    assert(w.on(w.s) == w);
    let given = semantics::required(e, argument, span, f, w);
    assert(given.w.on(given.w.s) == given.w);
    crate::laws_transforms::lemma_transform_operand(name, argument, true, span, w.s);
    let a = semantics::invocation_value(e, argument, span, None, f, w);
    assert(a.w == given.w);
    if given.out is Some && iterable(given.out->0) {
        let value = given.out->0;
        crate::laws_transforms::lemma_transform_operand(name, value, true, span, given.w.s);
        laws_arguments::lemma_literal_evaluated(e, value, span, f, given.w);
        let b = semantics::invocation_value(e, value, span, None, f, given.w);
        assert(b.w == given.w && b.out->0.value == value && a.out->0.value == value);
        let one = laws_iteration::body_call(name, argument, lambda, nodes, span);
        let two = laws_iteration::body_call(name, value, lambda, nodes, span);
        let limit = e.limits.max_materialized_elements as nat;
        let elements = collection::iterable_elements(limit, a.out->0, span, given.w.s);
        assert(elements == collection::iterable_elements(limit, b.out->0, span, given.w.s));
        let v = given.w.on(elements.1);
        assert(semantics::transform_callback(e, one, None, f, v)
            == semantics::transform_callback(e, two, None, f, v));
        if elements.0 is Some {
            let c = semantics::transform_callback(e, one, None, f, v);
            if c.out is Some {
                assert(semantics::transform_elements(e, one, elements.0->0, c.out->0, f, c.w)
                    == semantics::transform_elements(e, two, elements.0->0, c.out->0, f, c.w));
            }
        }
    }
}

/// `.pair` evaluates its first argument and then, in the world that this leaves, its second.
pub proof fn lemma_pair_evaluated(
    e: Evaluator,
    first: ValueView,
    second: ValueView,
    span: SourceSpan,
    f: nat,
    w: World,
)
    ensures
        ({
            let one = semantics::required(e, first, span, f, w);
            let two = semantics::required(e, second, span, f, one.w);
            let r = semantics::eval_pair(
                e,
                laws_builtins::positional_call("pair"@, seq![first, second], span),
                f,
                w,
            );
            if one.out is None {
                r.out is Failed && r.w == one.w
            } else if two.out is None {
                r.out is Failed && r.w == two.w
            } else {
                &&& r.w == two.w
                &&& r.out == OutcomeView::Value(
                    ValueView::Pair(
                        PairView {
                            first: Box::new(one.out->0),
                            second: Box::new(two.out->0),
                            span,
                        },
                    ),
                )
            }
        }),
{
    reveal(semantics::eval_pair);
    assert(seq![first, second] =~= Seq::empty().push(first).push(second));
    laws_arguments::lemma_values_in_order(e, Seq::empty(), first, span, f, w);
    laws_arguments::lemma_values_in_order(e, Seq::empty().push(first), second, span, f, w);
}

} // verus!
