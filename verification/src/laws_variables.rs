//! Laws of `.var`, of functions that are called, and of calls that are kept.

use vstd::prelude::*;

use crate::calls::BoundView;
use crate::ir::{NamedArgView, NodeView, ParameterView, SourceSpan, ValueView};
use crate::laws_arguments;
use crate::laws_bodies;
use crate::laws_functions;
use crate::laws_scope;
use crate::outcome::OutcomeView;
use crate::scope;
use crate::scope::{FunctionBindingView, LambdaParametersView, VariableValueView};
use crate::semantics;
use crate::semantics::{BodyView, CallView, Evaluator, World};
use crate::text;

verus! {

/// Whether a value stands for itself.
pub open spec fn literal(value: ValueView) -> bool {
    !(value is Content) && !(value is Callable)
}

/// A call of `.var` with a name and nothing else.
pub open spec fn var_call(name: Seq<char>, span: SourceSpan) -> CallView {
    CallView {
        name: "var"@,
        positional: seq![ValueView::Identifier(name)],
        named: Seq::empty(),
        lambda: None,
        body: None,
        span,
        first_origin: None,
    }
}

/// `.var` assigns its second argument to the name that is its first; so does the argument `value`,
/// and so does the argument `body`. It gives no value, and every other name keeps its meaning.
pub proof fn lemma_variable_declared(
    e: Evaluator,
    name: Seq<char>,
    value: ValueView,
    other: Seq<char>,
    at: SourceSpan,
    span: SourceSpan,
    f: nat,
    w: World,
)
    requires
        text::is_call_name(name),
        literal(value),
    ensures
        ({
            let call = CallView {
                positional: seq![ValueView::Identifier(name), value],
                ..var_call(name, span)
            };
            let r = semantics::eval_var(e, call, f, w);
            &&& r.out is NoValue && r.w.s == w.s
            &&& scope::visible_variable(r.w.c, name) == Some(laws_bodies::as_variable(value))
            &&& other != name ==> scope::visible_variable(r.w.c, other) == scope::visible_variable(
                w.c,
                other,
            )
            &&& scope::visible_function(r.w.c, other) == scope::visible_function(w.c, other)
        }),
        ({
            let call = CallView {
                named: seq![NamedArgView { name: "value"@, name_span: at, value, span: at }],
                ..var_call(name, span)
            };
            let r = semantics::eval_var(e, call, f, w);
            &&& r.out is NoValue && r.w.s == w.s
            &&& scope::visible_variable(r.w.c, name) == Some(laws_bodies::as_variable(value))
        }),
        ({
            let call = CallView {
                named: seq![NamedArgView { name: "body"@, name_span: at, value, span: at }],
                ..var_call(name, span)
            };
            let r = semantics::eval_var(e, call, f, w);
            &&& r.out is NoValue && r.w.s == w.s
            &&& scope::visible_variable(r.w.c, name) == Some(laws_bodies::as_variable(value))
        }),
{
    reveal(semantics::eval_var);
    reveal(semantics::assign_argument);
    laws_arguments::lemma_literal_evaluated(e, value, span, f, w);
    laws_scope::lemma_assignment(w.c, name, value, other);
    reveal_strlit("value");
    reveal_strlit("body");
    assert("value"@.len() != "body"@.len());
    let by_value = seq![NamedArgView { name: "value"@, name_span: at, value, span: at }];
    let by_body = seq![NamedArgView { name: "body"@, name_span: at, value, span: at }];
    lemma_only_name(by_value[0]);
    lemma_only_name(by_body[0]);
}

proof fn lemma_only_name(arg: NamedArgView)
    ensures
        forall|name: Seq<char>| #[trigger]
            crate::calls::named_index(seq![arg], name) == (if name == arg.name {
                Some(0int)
            } else {
                None
            }),
{
    let named = seq![arg];
    assert forall|name: Seq<char>| #[trigger]
        crate::calls::named_index(named, name) == (if name == arg.name {
            Some(0int)
        } else {
            None
        }) by {
        if name == arg.name {
            assert(crate::calls::is_named(named, name, 0));
            let k = choose|k: int| crate::calls::is_named(named, name, k);
            assert(crate::calls::is_named(named, name, k));
        }
    }
}

/// `.var` with a block body assigns what the statements of the body come to, and reports nothing
/// of its own; one without a name or a value, or with a name that is none, is reported at the call.
pub proof fn lemma_variable_of_body(
    e: Evaluator,
    name: Seq<char>,
    nodes: Seq<NodeView>,
    span: SourceSpan,
    f: nat,
    w: World,
)
    requires
        text::is_call_name(name),
    ensures
        ({
            let call = CallView {
                body: Some(BodyView::Block(nodes)),
                ..var_call(name, span)
            };
            let body = semantics::callable_body(e, nodes, f, w);
            let r = semantics::eval_var(e, call, f, w);
            match body.out {
                OutcomeView::Value(value) => r.out is NoValue && r.w.s == body.w.s
                    && scope::visible_variable(r.w.c, name) == Some(
                    laws_bodies::as_variable(value),
                ),
                _ => r.out is Failed && r.w == body.w,
            }
        }),
        ({
            let r = semantics::eval_var(e, var_call(name, span), f, w);
            &&& r.out is Failed && r.w.c == w.c
            &&& r.w.s.diagnostics.len() == w.s.diagnostics.len() + 1
            &&& r.w.s.diagnostics.last().code == "E3002"@
            &&& r.w.s.diagnostics.last().primary == Some(span)
        }),
{
    reveal(semantics::eval_var);
    reveal(semantics::assign_argument);
    let body = semantics::callable_body(e, nodes, f, w);
    if body.out is Value {
        laws_scope::lemma_assignment(body.w.c, name, body.out->Value_0, name);
    }
}

/// A name may be written as a word or as a text, and as nothing else; a name that is no name is
/// reported at the call.
pub proof fn lemma_declared_names(
    e: Evaluator,
    name: Seq<char>,
    value: ValueView,
    span: SourceSpan,
    f: nat,
    w: World,
)
    ensures
        semantics::declared_name(ValueView::Identifier(name)) == Some(name),
        semantics::declared_name(ValueView::String(name)) == Some(name),
        !(value is Identifier) && !(value is String) ==> semantics::declared_name(value) is None,
        !text::is_call_name(name) ==> {
            let r = semantics::eval_var(e, var_call(name, span), f, w);
            &&& r.out is Failed && r.w.c == w.c
            &&& r.w.s.diagnostics.len() == w.s.diagnostics.len() + 1
            &&& r.w.s.diagnostics.last().code == "E3002"@
            &&& r.w.s.diagnostics.last().primary == Some(span)
        },
{
    reveal(semantics::assign_argument);
    reveal(semantics::eval_var);
}

/// A body goes before the argument `body`, that before the argument `value`, and that before the
/// second argument.
pub proof fn lemma_variable_sources(
    e: Evaluator,
    name: Seq<char>,
    a: ValueView,
    b: ValueView,
    c: ValueView,
    at: SourceSpan,
    span: SourceSpan,
    f: nat,
    w: World,
)
    requires
        text::is_call_name(name),
        literal(a),
        literal(b),
        literal(c),
    ensures
        ({
            let body = NamedArgView { name: "body"@, name_span: at, value: a, span: at };
            let value = NamedArgView { name: "value"@, name_span: at, value: b, span: at };
            let all = CallView {
                positional: seq![ValueView::Identifier(name), c],
                named: seq![value, body],
                ..var_call(name, span)
            };
            let two = CallView {
                positional: seq![ValueView::Identifier(name), c],
                named: seq![value],
                ..var_call(name, span)
            };
            &&& scope::visible_variable(semantics::eval_var(e, all, f, w).w.c, name) == Some(
                laws_bodies::as_variable(a),
            )
            &&& scope::visible_variable(semantics::eval_var(e, two, f, w).w.c, name) == Some(
                laws_bodies::as_variable(b),
            )
        }),
{
    reveal(semantics::eval_var);
    reveal(semantics::assign_argument);
    laws_arguments::lemma_literal_evaluated(e, a, span, f, w);
    laws_arguments::lemma_literal_evaluated(e, b, span, f, w);
    laws_scope::lemma_assignment(w.c, name, a, name);
    laws_scope::lemma_assignment(w.c, name, b, name);
    reveal_strlit("value");
    reveal_strlit("body");
    assert("value"@.len() != "body"@.len());
    let body = NamedArgView { name: "body"@, name_span: at, value: a, span: at };
    let value = NamedArgView { name: "value"@, name_span: at, value: b, span: at };
    lemma_only_name(value);
    let both = seq![value, body];
    assert(crate::calls::is_named(both, "body"@, 1));
    let k = choose|k: int| crate::calls::is_named(both, "body"@, k);
    assert(crate::calls::is_named(both, "body"@, k));
    assert(k == 1);
    assert(both[1].value == a);
}

/// A variable that is called with one argument is assigned the value of the argument, and gives no
/// value.
pub proof fn lemma_variable_reassigned(
    e: Evaluator,
    name: Seq<char>,
    value: ValueView,
    span: SourceSpan,
    f: nat,
    w: World,
)
    requires
        literal(value),
        scope::visible_variable(w.c, name) is Some,
    ensures
        ({
            let call = CallView {
                name,
                positional: seq![value],
                named: Seq::empty(),
                lambda: None,
                body: None,
                span,
                first_origin: None,
            };
            let r = semantics::dispatch_bound(e, call, f, w);
            &&& r.out is NoValue && r.w.s == w.s
            &&& scope::visible_variable(r.w.c, name) == Some(laws_bodies::as_variable(value))
        }),
{
    reveal(semantics::eval_user_function);
    reveal(semantics::invoke_bound);
    reveal(semantics::dispatch_bound);
    reveal(semantics::eval_reassignment);
    reveal(semantics::assign_argument);
    laws_arguments::lemma_literal_evaluated(e, value, span, f, w);
    laws_scope::lemma_assignment(w.c, name, value, name);
    let call = CallView {
        name,
        positional: seq![value],
        named: Seq::empty(),
        lambda: None,
        body: None,
        span,
        first_origin: None,
    };
    let r = semantics::eval_reassignment(e, call, f, w);
    assert(r == semantics::assign_argument(e, name, value, span, f, w));
    let a = semantics::assign_argument(e, name, value, span, f, w);
    assert(a.w == w.assign(name, value));
}

/// A function of the document that is called with one argument comes to what its body comes to in
/// a scope where its parameter is bound to that argument; the scope of the call stays.
pub proof fn lemma_function_applied(
    e: Evaluator,
    binding: FunctionBindingView,
    parameter: ParameterView,
    name: Seq<char>,
    value: ValueView,
    span: SourceSpan,
    f: nat,
    w: World,
)
    requires
        binding.parameters == LambdaParametersView::Explicit(seq![parameter]),
        literal(value),
    ensures
        ({
            let call = CallView {
                name,
                positional: seq![value],
                named: Seq::empty(),
                lambda: None,
                body: None,
                span,
                first_origin: None,
            };
            let callable = crate::ir::CallableView {
                parameters: Some(seq![parameter]),
                body: binding.body,
                span: binding.declaration_span,
                capture: binding.capture,
            };
            let inside = semantics::invocation_scope(
                callable,
                BoundView::Explicit(seq![value]),
                w.c,
            );
            let body = semantics::callable_body(e, binding.body, f, World { s: w.s, c: inside });
            let r = semantics::eval_user_function(e, binding, call, f, w);
            &&& scope::visible_variable(inside, parameter.name) == Some(
                laws_bodies::as_variable(value),
            )
            &&& r.out == body.out
            &&& r.w.s == body.w.s
            &&& r.w.c == w.c
        }),
{
    reveal(semantics::eval_user_function);
    reveal(semantics::invoke_bound);
    let call = CallView {
        name,
        positional: seq![value],
        named: Seq::empty(),
        lambda: None,
        body: None,
        span,
        first_origin: None,
    };
    assert(seq![value] =~= Seq::empty().push(value));
    laws_arguments::lemma_values_in_order(e, Seq::empty(), value, span, f, w);
    laws_arguments::lemma_literal_evaluated(e, value, span, f, w);
    laws_arguments::lemma_named_in_order(
        e,
        Seq::empty(),
        NamedArgView { name, name_span: span, value, span },
        span,
        f,
        w,
    );
    let list = seq![parameter];
    laws_functions::lemma_arguments_bound(e, list, seq![value], call, f, w);
    let bound = semantics::bind_parameters(
        e,
        LambdaParametersView::Explicit(list),
        seq![value],
        Seq::empty(),
        call,
        f,
        w,
    );
    assert(laws_functions::optional_between(list, 1, 1));
    assert(bound.out->0->Explicit_0 =~= seq![value]);
    laws_bodies::lemma_parameters_visible(
        scope::callable_of(binding),
        list,
        seq![value],
        w.c,
        0,
    );
}

/// A function with one parameter that is called with a block argument comes to what its body comes
/// to in a scope where the parameter is bound to the content of the block.
pub proof fn lemma_function_applied_to_block(
    e: Evaluator,
    binding: FunctionBindingView,
    parameter: ParameterView,
    name: Seq<char>,
    nodes: Seq<NodeView>,
    span: SourceSpan,
    f: nat,
    w: World,
)
    requires
        binding.parameters == LambdaParametersView::Explicit(seq![parameter]),
    ensures
        ({
            let call = CallView {
                name,
                positional: Seq::empty(),
                named: Seq::empty(),
                lambda: None,
                body: Some(BodyView::Block(nodes)),
                span,
                first_origin: None,
            };
            let callable = crate::ir::CallableView {
                parameters: Some(seq![parameter]),
                body: binding.body,
                span: binding.declaration_span,
                capture: binding.capture,
            };
            let content = semantics::body_content(e, BodyView::Block(nodes), span, f, w);
            let value = ValueView::Content(content.out->0);
            let inside = semantics::invocation_scope(
                callable,
                BoundView::Explicit(seq![value]),
                content.w.c,
            );
            let body = semantics::callable_body(
                e,
                binding.body,
                f,
                World { s: content.w.s, c: inside },
            );
            let r = semantics::eval_user_function(e, binding, call, f, w);
            &&& content.out is None ==> r.out is Failed && r.w == content.w
            &&& content.out is Some ==> {
                &&& scope::visible_variable(inside, parameter.name) == Some(
                    VariableValueView::Content(content.out->0),
                )
                &&& r.out == body.out
                &&& r.w.s == body.w.s
                &&& r.w.c == content.w.c
            }
        }),
{
    reveal(semantics::eval_user_function);
    reveal(semantics::invoke_bound);
    let call = CallView {
        name,
        positional: Seq::empty(),
        named: Seq::empty(),
        lambda: None,
        body: Some(BodyView::Block(nodes)),
        span,
        first_origin: None,
    };
    let nothing = ValueView::Nothing;
    laws_arguments::lemma_values_in_order(e, Seq::empty(), nothing, span, f, w);
    laws_arguments::lemma_named_in_order(
        e,
        Seq::empty(),
        NamedArgView { name, name_span: span, value: nothing, span },
        span,
        f,
        w,
    );
    let list = seq![parameter];
    laws_functions::lemma_block_argument_bound(e, list, Seq::empty(), call, f, w);
    assert(laws_functions::optional_between(list, 0, 0));
    let bound = semantics::bind_parameters(
        e,
        LambdaParametersView::Explicit(list),
        Seq::empty(),
        Seq::empty(),
        call,
        f,
        w,
    );
    let content = semantics::body_content(e, BodyView::Block(nodes), span, f, w);
    if content.out is Some {
        let value = ValueView::Content(content.out->0);
        assert(bound.out->0->Explicit_0 =~= seq![value]);
        laws_bodies::lemma_parameters_visible(
            scope::callable_of(binding),
            list,
            seq![value],
            content.w.c,
            0,
        );
    }
}

} // verus!
