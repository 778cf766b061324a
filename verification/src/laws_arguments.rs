//! Laws of arguments: they are evaluated in order, each to its own value, and keep their names.

use vstd::prelude::*;

use crate::host::ValueOrigin;
use crate::ir::{CallableView, NamedArgView, NodeView, SourceSpan, ValueView};
use crate::outcome::OutcomeView;
use crate::scope;
use crate::semantics;
use crate::semantics::{Evaluator, World};

verus! {

/// A value that is neither content nor a callable stands for itself, and evaluating it changes
/// nothing.
pub proof fn lemma_literal_evaluated(
    e: Evaluator,
    value: ValueView,
    span: SourceSpan,
    f: nat,
    w: World,
)
    requires
        !(value is Content),
        !(value is Callable),
    ensures
        semantics::eval_value(e, value, f, w).out == OutcomeView::Value(value),
        semantics::eval_value(e, value, f, w).w == w,
        semantics::required(e, value, span, f, w).out == Some(value),
        semantics::required(e, value, span, f, w).w == w,
{
    reveal(semantics::required);
    reveal(semantics::eval_value);
}

/// A callable captures the scope that it is written in, and keeps a capture that it has; its
/// parameters, its body and its place stay.
pub proof fn lemma_callable_captured(
    e: Evaluator,
    callable: CallableView,
    span: SourceSpan,
    f: nat,
    w: World,
)
    ensures
        ({
            let r = semantics::required(e, ValueView::Callable(callable), span, f, w);
            &&& r.w == w
            &&& r.out is Some && r.out->0 is Callable
            &&& r.out->0->Callable_0.parameters == callable.parameters
            &&& r.out->0->Callable_0.body == callable.body
            &&& r.out->0->Callable_0.span == callable.span
            &&& callable.capture is Some ==> r.out->0->Callable_0.capture == callable.capture
            &&& callable.capture is None ==> r.out->0->Callable_0.capture == Some(
                Box::new(scope::capture_of(w.c)),
            )
        }),
{
    reveal(semantics::required);
    reveal(semantics::eval_value);
}

/// Content that is no call has the content that its blocks evaluate to as its value; it has none
/// where something in it is reported.
pub proof fn lemma_content_evaluated(
    e: Evaluator,
    nodes: Seq<NodeView>,
    span: SourceSpan,
    f: nat,
    w: World,
)
    requires
        nodes.len() == 1 ==> !(nodes[0] is FunctionCall) && !(nodes[0] is ChainedFunctionCall),
        forall|i: int|
            0 <= i < nodes.len() ==> !((#[trigger] nodes[i]) is FunctionDeclaration),
    ensures
        ({
            let blocks = semantics::eval_nodes(e, nodes, f, w);
            let r = semantics::required(e, ValueView::Content(nodes), span, f, w);
            &&& r.w == blocks.w
            &&& blocks.w.s.diagnostics.len() == w.s.diagnostics.len() ==> r.out == Some(
                ValueView::Content(blocks.out),
            )
            &&& blocks.w.s.diagnostics.len() != w.s.diagnostics.len() ==> r.out is None
        }),
{
    reveal(semantics::required);
    reveal(semantics::eval_value);
}

/// The arguments of a call are evaluated in order, each in the world that those before it leave,
/// and their values stand in the same order; where one has no value there are none.
pub proof fn lemma_values_in_order(
    e: Evaluator,
    values: Seq<ValueView>,
    last: ValueView,
    span: SourceSpan,
    f: nat,
    w: World,
)
    ensures
        ({
            let none = semantics::eval_values(e, Seq::empty(), span, f, w);
            none.out == Some(Seq::<ValueView>::empty()) && none.w == w
        }),
        ({
            let before = semantics::eval_values(e, values, span, f, w);
            let r = semantics::required(e, last, span, f, before.w);
            let all = semantics::eval_values(e, values.push(last), span, f, w);
            if before.out is None {
                all.out is None && all.w == before.w
            } else if r.out is None {
                all.out is None && all.w == r.w
            } else {
                all.out == Some(before.out->0.push(r.out->0)) && all.w == r.w
            }
        }),
{
    reveal(semantics::eval_value);
    reveal(semantics::required);
    reveal(semantics::eval_values);
    assert(values.push(last).drop_last() =~= values);
}

/// Named arguments are evaluated in order; each keeps its name and its place, and has the value
/// that its argument evaluates to.
pub proof fn lemma_named_in_order(
    e: Evaluator,
    named: Seq<NamedArgView>,
    last: NamedArgView,
    span: SourceSpan,
    f: nat,
    w: World,
)
    ensures
        ({
            let none = semantics::eval_named(e, Seq::empty(), span, f, w);
            none.out == Some(Seq::<NamedArgView>::empty()) && none.w == w
        }),
        ({
            let before = semantics::eval_named(e, named, span, f, w);
            let r = semantics::required(e, last.value, span, f, before.w);
            let all = semantics::eval_named(e, named.push(last), span, f, w);
            if before.out is None {
                all.out is None && all.w == before.w
            } else if r.out is None {
                all.out is None && all.w == r.w
            } else {
                &&& all.w == r.w
                &&& all.out is Some && all.out->0.len() == before.out->0.len() + 1
                &&& all.out->0.drop_last() == before.out->0
                &&& all.out->0.last().name == last.name
                &&& all.out->0.last().name_span == last.name_span
                &&& all.out->0.last().span == last.span
                &&& all.out->0.last().value == r.out->0
            }
        }),
{
    reveal(semantics::eval_value);
    reveal(semantics::required);
    reveal(semantics::eval_named);
    assert(named.push(last).drop_last() =~= named);
    let all = semantics::eval_named(e, named.push(last), span, f, w);
    let before = semantics::eval_named(e, named, span, f, w);
    if all.out is Some {
        assert(all.out->0.drop_last() =~= before.out->0);
    }
}

/// Where the value of an argument comes from, as far as the argument alone tells.
pub open spec fn literal_origin(value: ValueView) -> ValueOrigin {
    if value is String || value is Identifier {
        ValueOrigin::Dynamic
    } else {
        ValueOrigin::Static
    }
}

/// The arguments of a builtin have the values that they evaluate to, in order. Texts and words
/// come from the document as they are written; any other literal has a type of its own. The first
/// one comes from where a chain says that it comes from.
pub proof fn lemma_arguments_in_order(
    e: Evaluator,
    values: Seq<ValueView>,
    last: ValueView,
    span: SourceSpan,
    origin: Option<ValueOrigin>,
    f: nat,
    w: World,
)
    requires
        !(last is Content),
        !(last is Callable),
    ensures
        ({
            let none = semantics::invocation_values(e, Seq::empty(), span, origin, f, w);
            none.out is Some && none.out->0.len() == 0 && none.w == w
        }),
        ({
            let before = semantics::invocation_values(e, values, span, origin, f, w);
            let all = semantics::invocation_values(e, values.push(last), span, origin, f, w);
            &&& all.w == before.w
            &&& all.out is Some <==> before.out is Some
            &&& before.out is Some ==> {
                &&& all.out->0.len() == before.out->0.len() + 1
                &&& all.out->0.drop_last() == before.out->0
                &&& all.out->0.last().value == last
                &&& all.out->0.last().origin == (if values.len() == 0 && origin is Some {
                    origin->0
                } else {
                    literal_origin(last)
                })
            }
        }),
{
    reveal(semantics::eval_value);
    reveal(semantics::required);
    reveal(semantics::invocation_values);
    lemma_literal_evaluated(
        e,
        last,
        span,
        f,
        semantics::invocation_values(e, values, span, origin, f, w).w,
    );
    assert(values.push(last).drop_last() =~= values);
    let all = semantics::invocation_values(e, values.push(last), span, origin, f, w);
    let before = semantics::invocation_values(e, values, span, origin, f, w);
    if all.out is Some {
        assert(all.out->0.drop_last() =~= before.out->0);
    }
}

/// Named arguments of a builtin keep their names and their places, and have the values that they
/// evaluate to.
pub proof fn lemma_named_arguments_in_order(
    e: Evaluator,
    named: Seq<NamedArgView>,
    last: NamedArgView,
    span: SourceSpan,
    f: nat,
    w: World,
)
    requires
        !(last.value is Content),
        !(last.value is Callable),
    ensures
        ({
            let none = semantics::invocation_named(e, Seq::empty(), span, f, w);
            none.out is Some && none.out->0.len() == 0 && none.w == w
        }),
        ({
            let before = semantics::invocation_named(e, named, span, f, w);
            let all = semantics::invocation_named(e, named.push(last), span, f, w);
            &&& all.w == before.w
            &&& all.out is Some <==> before.out is Some
            &&& before.out is Some ==> {
                &&& all.out->0.len() == before.out->0.len() + 1
                &&& all.out->0.drop_last() == before.out->0
                &&& all.out->0.last().arg == last
                &&& all.out->0.last().origin == literal_origin(last.value)
            }
        }),
{
    reveal(semantics::eval_value);
    reveal(semantics::required);
    reveal(semantics::invocation_named);
    lemma_literal_evaluated(
        e,
        last.value,
        span,
        f,
        semantics::invocation_named(e, named, span, f, w).w,
    );
    assert(named.push(last).drop_last() =~= named);
    let all = semantics::invocation_named(e, named.push(last), span, f, w);
    let before = semantics::invocation_named(e, named, span, f, w);
    if all.out is Some {
        assert(all.out->0.drop_last() =~= before.out->0);
    }
}

/// One argument alone is evaluated as it is among others: it has its value, and it comes from
/// where a chain says, or from where it is written.
pub proof fn lemma_argument_alone(
    e: Evaluator,
    value: ValueView,
    span: SourceSpan,
    origin: Option<ValueOrigin>,
    f: nat,
    w: World,
)
    requires
        !(value is Content),
        !(value is Callable),
    ensures
        ({
            let r = semantics::invocation_value(e, value, span, origin, f, w);
            &&& r.w == w
            &&& r.out is Some && r.out->0.value == value
            &&& r.out->0.origin == (match origin {
                Some(origin) => origin,
                None => literal_origin(value),
            })
        }),
{
    reveal(semantics::eval_value);
    reveal(semantics::required);
    reveal(semantics::invocation_value);
    lemma_literal_evaluated(e, value, span, f, w);
}

/// An argument of a builtin that has to be evaluated has the value that it evaluates to in the
/// world that those before it leave, and comes from where it came from in that world; where it has
/// no value there are no arguments.
pub proof fn lemma_arguments_evaluated(
    e: Evaluator,
    values: Seq<ValueView>,
    last: ValueView,
    span: SourceSpan,
    origin: Option<ValueOrigin>,
    f: nat,
    w: World,
)
    ensures
        ({
            let before = semantics::invocation_values(e, values, span, origin, f, w);
            let r = semantics::required(e, last, span, f, before.w);
            let all = semantics::invocation_values(e, values.push(last), span, origin, f, w);
            if before.out is None {
                all.out is None && all.w == before.w
            } else if r.out is None {
                all.out is None && all.w == r.w
            } else {
                &&& all.w == r.w
                &&& all.out is Some && all.out->0.len() == before.out->0.len() + 1
                &&& all.out->0.drop_last() == before.out->0
                &&& all.out->0.last().value == r.out->0
                &&& all.out->0.last().origin == (if values.len() == 0 && origin is Some {
                    origin->0
                } else {
                    scope::argument_origin(before.w.c, last)
                })
            }
        }),
{
    reveal(semantics::eval_value);
    reveal(semantics::required);
    reveal(semantics::invocation_values);
    assert(values.push(last).drop_last() =~= values);
    let all = semantics::invocation_values(e, values.push(last), span, origin, f, w);
    let before = semantics::invocation_values(e, values, span, origin, f, w);
    if all.out is Some {
        assert(all.out->0.drop_last() =~= before.out->0);
    }
}

/// So it is with a named argument, which keeps its name and its place.
pub proof fn lemma_named_arguments_evaluated(
    e: Evaluator,
    named: Seq<NamedArgView>,
    last: NamedArgView,
    span: SourceSpan,
    f: nat,
    w: World,
)
    ensures
        ({
            let before = semantics::invocation_named(e, named, span, f, w);
            let r = semantics::required(e, last.value, span, f, before.w);
            let all = semantics::invocation_named(e, named.push(last), span, f, w);
            if before.out is None {
                all.out is None && all.w == before.w
            } else if r.out is None {
                all.out is None && all.w == r.w
            } else {
                &&& all.w == r.w
                &&& all.out is Some && all.out->0.len() == before.out->0.len() + 1
                &&& all.out->0.drop_last() == before.out->0
                &&& all.out->0.last().arg.name == last.name
                &&& all.out->0.last().arg.name_span == last.name_span
                &&& all.out->0.last().arg.span == last.span
                &&& all.out->0.last().arg.value == r.out->0
                &&& all.out->0.last().origin == scope::argument_origin(before.w.c, last.value)
            }
        }),
{
    reveal(semantics::eval_value);
    reveal(semantics::required);
    reveal(semantics::invocation_named);
    assert(named.push(last).drop_last() =~= named);
    let all = semantics::invocation_named(e, named.push(last), span, f, w);
    let before = semantics::invocation_named(e, named, span, f, w);
    if all.out is Some {
        assert(all.out->0.drop_last() =~= before.out->0);
    }
}

/// So it is with one argument alone.
pub proof fn lemma_argument_evaluated(
    e: Evaluator,
    value: ValueView,
    span: SourceSpan,
    origin: Option<ValueOrigin>,
    f: nat,
    w: World,
)
    ensures
        ({
            let given = semantics::required(e, value, span, f, w);
            let r = semantics::invocation_value(e, value, span, origin, f, w);
            &&& r.w == given.w
            &&& given.out is None ==> r.out is None
            &&& given.out is Some ==> r.out is Some && r.out->0.value == given.out->0
                && r.out->0.origin == (match origin {
                Some(origin) => origin,
                None => scope::argument_origin(w.c, value),
            })
        }),
{
    reveal(semantics::eval_value);
    reveal(semantics::required);
    reveal(semantics::invocation_value);
}

/// The arguments of a call are its positional ones and then its named ones, each evaluated in the
/// world that those before it leave.
pub proof fn lemma_call_arguments(
    e: Evaluator,
    call: crate::semantics::CallView,
    f: nat,
    w: World,
)
    ensures
        ({
            let values = semantics::invocation_values(
                e,
                call.positional,
                call.span,
                call.first_origin,
                f,
                w,
            );
            let named = semantics::invocation_named(e, call.named, call.span, f, values.w);
            let all = semantics::call_arguments(e, call, f, w);
            if values.out is None {
                all.out is None && all.w == values.w
            } else if named.out is None {
                all.out is None && all.w == named.w
            } else {
                all.out == Some((values.out->0, named.out->0)) && all.w == named.w
            }
        }),
{
    reveal(semantics::eval_value);
    reveal(semantics::invocation_named);
    reveal(semantics::invocation_values);
    reveal(semantics::required);
    reveal(semantics::call_arguments);
}

} // verus!
