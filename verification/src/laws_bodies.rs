//! Laws of bodies: what a body that is called comes to, and which names it sees.

use vstd::prelude::*;

use crate::calls::BoundView;
use crate::ir::{CallableView, InlineView, NodeView, ParameterView, SourceSpan, ValueView};
use crate::laws_scope;
use crate::materialize;
use crate::outcome::OutcomeView;
use crate::scope;
use crate::scope::{ContextView, LambdaScopeView, VariableValueView};
use crate::semantics;
use crate::semantics::{BodyView, Evaluator, World};

verus! {

/// A body that is given to a call is the content that its blocks evaluate to, or one paragraph of
/// what its line evaluates to. It is no content where something in it is reported.
pub proof fn lemma_body_evaluated(
    e: Evaluator,
    nodes: Seq<NodeView>,
    line: Seq<InlineView>,
    span: SourceSpan,
    f: nat,
    w: World,
)
    ensures
        ({
            let blocks = semantics::eval_nodes(e, nodes, f, w);
            let body = semantics::body_content(e, BodyView::Block(nodes), span, f, w);
            &&& body.w == blocks.w
            &&& body.out == (if blocks.w.s.diagnostics.len() == w.s.diagnostics.len() {
                Some(blocks.out)
            } else {
                None
            })
        }),
        ({
            let inlines = semantics::eval_inlines(e, line, f, w);
            let body = semantics::body_content(e, BodyView::Inline(line), span, f, w);
            &&& body.w == inlines.w
            &&& body.out == (if inlines.w.s.diagnostics.len() == w.s.diagnostics.len() {
                Some(seq![NodeView::Paragraph { content: inlines.out, span }])
            } else {
                None
            })
        }),
{
    reveal(semantics::body_content);
}

/// A body without statements gives no value, and one statement gives what it comes to.
pub proof fn lemma_single_statement(e: Evaluator, node: NodeView, f: nat, w: World)
    ensures
        semantics::callable_body(e, Seq::empty(), f, w).out == OutcomeView::NoValue,
        semantics::callable_body(e, Seq::empty(), f, w).w == w,
        ({
            let statement = semantics::eval_statement(e, node, f, w);
            let body = semantics::callable_body(e, seq![node], f, w);
            body.out == statement.out && body.w == statement.w
        }),
{
    reveal(semantics::callable_body);
    reveal(semantics::body_results);
    reveal(semantics::append_result);
    assert(seq![node].drop_last() =~= Seq::<NodeView>::empty());
    assert(semantics::body_results(e, Seq::empty(), f, w).out == Ok::<
        semantics::BodyResult,
        OutcomeView,
    >(semantics::BodyResult::Empty));
    let r = semantics::eval_statement(e, node, f, w);
    assert(r.w.on(r.w.s) == r.w);
}

/// Two statements that both give a value give content: what the first is shown as, and behind it
/// what the second is shown as. A statement without a value leaves the value of the other.
pub proof fn lemma_two_statements(e: Evaluator, first: NodeView, second: NodeView, f: nat, w: World)
    ensures
        ({
            let one = semantics::eval_statement(e, first, f, w);
            let two = semantics::eval_statement(e, second, f, one.w);
            let body = semantics::callable_body(e, seq![first, second], f, w);
            match (one.out, two.out) {
                (OutcomeView::Value(a), OutcomeView::Value(b)) => {
                    let shown = materialize::content_nodes(
                        a,
                        materialize::node_span(first),
                        two.w.s,
                    );
                    let more = materialize::content_nodes(
                        b,
                        materialize::node_span(second),
                        shown.1,
                    );
                    &&& body.w.c == two.w.c
                    &&& shown.0 is Some && more.0 is Some ==> body.out == OutcomeView::Value(
                        ValueView::Content(shown.0->0 + more.0->0),
                    ) && body.w.s == more.1
                    &&& shown.0 is None ==> body.out is Failed && body.w.s == shown.1
                },
                (OutcomeView::Value(_), OutcomeView::NoValue) => body.out == one.out && body.w
                    == two.w,
                (OutcomeView::NoValue, OutcomeView::Value(_)) => body.out == two.out && body.w
                    == two.w,
                (OutcomeView::NoValue, OutcomeView::NoValue) => body.out is NoValue && body.w
                    == two.w,
                (OutcomeView::Failed, _) => body.out is Failed && body.w == one.w,
                (OutcomeView::Unresolved, _) => body.out is Unresolved && body.w == one.w,
                (_, OutcomeView::Failed) => body.out is Failed && body.w == two.w,
                (_, OutcomeView::Unresolved) => body.out is Unresolved && body.w == two.w,
            }
        }),
{
    reveal(semantics::callable_body);
    reveal(semantics::body_results);
    reveal(semantics::append_result);
    let both = seq![first, second];
    assert(both.drop_last() =~= seq![first]);
    assert(seq![first].drop_last() =~= Seq::<NodeView>::empty());
    assert(semantics::body_results(e, Seq::empty(), f, w).out == Ok::<
        semantics::BodyResult,
        OutcomeView,
    >(semantics::BodyResult::Empty));
    assert(semantics::body_results(e, Seq::empty(), f, w).w == w);
    let one = semantics::eval_statement(e, first, f, w);
    assert(one.w.on(one.w.s) == one.w);
    let before = semantics::body_results(e, seq![first], f, w);
    assert(before.w == one.w);
}

/// What a value is as a variable.
pub open spec fn as_variable(value: ValueView) -> VariableValueView {
    match value {
        ValueView::Content(nodes) => VariableValueView::Content(nodes),
        _ => VariableValueView::Scalar(value),
    }
}

proof fn lemma_assigned(
    c: ContextView,
    list: Seq<ParameterView>,
    values: Seq<ValueView>,
    done: nat,
    name: Seq<char>,
    i: int,
)
    requires
        done <= list.len(),
        done <= values.len(),
        forall|a: int, b: int| 0 <= a < b < list.len() ==> list[a].name != list[b].name,
    ensures
        ({
            let after = semantics::assign_all(c, list, values, done);
            &&& 0 <= i < done ==> scope::visible_variable(after, list[i].name) == Some(
                as_variable(values[i]),
            )
            &&& (forall|j: int| 0 <= j < done ==> (#[trigger] list[j]).name != name)
                ==> scope::visible_variable(after, name) == scope::visible_variable(c, name)
            &&& scope::visible_function(after, name) == scope::visible_function(c, name)
            &&& after.lambda_scope == c.lambda_scope
            &&& after.parent == c.parent
        }),
    decreases done,
{
    if done > 0 {
        let d = (done - 1) as nat;
        lemma_assigned(c, list, values, d, name, i);
        let before = semantics::assign_all(c, list, values, d);
        laws_scope::lemma_assignment(before, list[d as int].name, values[d as int], name);
        if 0 <= i < d {
            laws_scope::lemma_assignment(
                before,
                list[d as int].name,
                values[d as int],
                list[i].name,
            );
        }
    }
}

/// In the body of a callable with named parameters each parameter is a variable that has the
/// value it was bound to.
pub proof fn lemma_parameters_visible(
    callable: CallableView,
    list: Seq<ParameterView>,
    values: Seq<ValueView>,
    caller: ContextView,
    i: int,
)
    requires
        callable.parameters == Some(list),
        values.len() == list.len(),
        0 <= i < list.len(),
        forall|a: int, b: int| 0 <= a < b < list.len() ==> list[a].name != list[b].name,
    ensures
        scope::visible_variable(
            semantics::invocation_scope(callable, BoundView::Explicit(values), caller),
            list[i].name,
        ) == Some(as_variable(values[i])),
        scope::visible_lambda_scope(
            semantics::invocation_scope(callable, BoundView::Explicit(values), caller),
        ) == Some(LambdaScopeView::Explicit),
{
    reveal(semantics::invocation_scope);
    let definition = match callable.capture {
        Some(capture) => scope::context_of(*capture),
        None => scope::root_context(),
    };
    let child = scope::child_context(scope::overlaid_context(definition, caller));
    let inner = ContextView { lambda_scope: Some(LambdaScopeView::Explicit), ..child };
    lemma_assigned(inner, list, values, list.len(), list[i].name, i);
}

/// In the body of a callable without named parameters the positional parameters are its
/// arguments.
pub proof fn lemma_positions_visible(
    callable: CallableView,
    values: Seq<ValueView>,
    caller: ContextView,
)
    ensures
        scope::visible_lambda_scope(
            semantics::invocation_scope(callable, BoundView::Implicit(values), caller),
        ) == Some(LambdaScopeView::Implicit(values)),
{
    reveal(semantics::invocation_scope);
}

/// Any other name means in the body of a callable what it means where the callable is called, and
/// what it meant where the callable was made where it means nothing there.
pub proof fn lemma_other_names_visible(
    callable: CallableView,
    values: Seq<ValueView>,
    made: ContextView,
    caller: ContextView,
    name: Seq<char>,
)
    requires
        callable.capture == Some(Box::new(scope::capture_of(made))),
    ensures
        ({
            let inside = semantics::invocation_scope(callable, BoundView::Implicit(values), caller);
            let here = scope::visible_variable(caller, name);
            let there = scope::visible_variable(made, name);
            let seen = scope::visible_variable(inside, name);
            &&& here is Some ==> seen is Some && scope::value_of(seen->0) == scope::value_of(
                here->0,
            )
            &&& here is None && there is Some ==> seen is Some && scope::value_of(seen->0)
                == scope::value_of(there->0)
            &&& here is None && there is None ==> seen is None
            &&& scope::visible_function(caller, name) is Some ==> scope::visible_function(
                inside,
                name,
            ) == scope::visible_function(caller, name)
        }),
{
    reveal(semantics::invocation_scope);
    reveal_with_fuel(scope::visible_variable, 2);
    reveal_with_fuel(scope::visible_function, 2);
    let definition = scope::context_of(scope::capture_of(made));
    let child = scope::child_context(scope::overlaid_context(definition, caller));
    laws_scope::lemma_child_inherits(scope::overlaid_context(definition, caller), name);
    laws_scope::lemma_caller_overlay(definition, caller, name);
    laws_scope::lemma_capture(made, name);
    let inside = semantics::invocation_scope(callable, BoundView::Implicit(values), caller);
    assert(inside.variables == child.variables && inside.functions == child.functions
        && inside.parent == child.parent);
}

/// A callable that is applied gives what its body comes to with its arguments bound, in the
/// session that it is called in; the scope that it is called in stays.
pub proof fn lemma_callable_applied(
    e: Evaluator,
    callable: CallableView,
    values: Seq<ValueView>,
    span: SourceSpan,
    f: nat,
    w: World,
)
    requires
        f > 0,
        callable.parameters is Some ==> callable.parameters->0.len() == values.len(),
    ensures
        ({
            let bound = if callable.parameters is Some {
                BoundView::Explicit(values)
            } else {
                BoundView::Implicit(values)
            };
            let body = semantics::callable_body(
                e,
                callable.body,
                (f - 1) as nat,
                World { s: w.s, c: semantics::invocation_scope(callable, bound, w.c) },
            );
            let r = semantics::invoke(e, callable, values, false, span, f, w);
            r.out == body.out && r.w.s == body.w.s && r.w.c == w.c
        }),
{
    reveal(semantics::append_result);
    reveal(semantics::body_results);
    reveal(semantics::callable_body);
    reveal(semantics::invocation_scope);
    reveal(semantics::invoke);
    reveal(semantics::invoke_bound);
}

/// Two named parameters take the two values of a pair.
pub proof fn lemma_pair_taken_apart(
    e: Evaluator,
    callable: CallableView,
    list: Seq<ParameterView>,
    first: ValueView,
    second: ValueView,
    at: SourceSpan,
    span: SourceSpan,
    f: nat,
    w: World,
)
    requires
        callable.parameters == Some(list),
        list.len() == 2,
    ensures
        ({
            let pair = crate::ir::PairView {
                first: Box::new(first),
                second: Box::new(second),
                span: at,
            };
            let whole = semantics::invoke(
                e,
                callable,
                seq![ValueView::Pair(pair)],
                true,
                span,
                f,
                w,
            );
            let parts = semantics::invoke(e, callable, seq![first, second], false, span, f, w);
            whole.out == parts.out && whole.w == parts.w
        }),
{
    reveal(semantics::append_result);
    reveal(semantics::body_results);
    reveal(semantics::callable_body);
    reveal(semantics::invocation_scope);
    reveal(semantics::invoke);
    reveal(semantics::invoke_bound);
}

} // verus!
