//! Laws of calls with arguments of any kind: arguments are evaluated first, in order, and a call
//! works in the world that they leave.

use vstd::prelude::*;

use crate::binding;
use crate::binding::Style;
use crate::calls;
use crate::host::{BuiltinBodyPolicy, QueryView, ReplyView, SessionView};
use crate::ir::{NodeView, ValueView};
use crate::laws_leaves;
use crate::natives;
use crate::natives::NativeDispatchOwner;
use crate::outcome::OutcomeView;
use crate::scope;
use crate::scope::FunctionBindingView;
use crate::semantics;
use crate::semantics::{BodyView, CallView, Evaluator, World};

verus! {

/// A function of the document is called with the values of its positional arguments and then of
/// its named ones; they are bound in the world that evaluating them leaves, and the body is
/// evaluated in the world that binding them leaves. An argument without a value ends the call.
pub proof fn lemma_function_called(
    e: Evaluator,
    binding: FunctionBindingView,
    call: CallView,
    f: nat,
    w: World,
)
    ensures
        ({
            let values = semantics::eval_values(e, call.positional, call.span, f, w);
            let named = semantics::eval_named(e, call.named, call.span, f, values.w);
            let bound = semantics::bind_parameters(
                e,
                binding.parameters,
                values.out->0,
                named.out->0,
                call,
                f,
                named.w,
            );
            let r = semantics::eval_user_function(e, binding, call, f, w);
            if values.out is None {
                r.out is Failed && r.w == values.w
            } else if named.out is None {
                r.out is Failed && r.w == named.w
            } else if bound.out is None {
                r.out is Failed && r.w == bound.w
            } else {
                let body = semantics::callable_body(
                    e,
                    binding.body,
                    f,
                    World {
                        s: bound.w.s,
                        c: semantics::invocation_scope(
                            scope::callable_of(binding),
                            bound.out->0,
                            bound.w.c,
                        ),
                    },
                );
                r.out == body.out && r.w.s == body.w.s && r.w.c == bound.w.c
            }
        }),
{
    reveal(semantics::eval_user_function);
    reveal(semantics::invoke_bound);
}

/// A builtin of the host is given the values of its positional arguments and then of its named
/// ones, each evaluated in the world that those before it leave.
pub proof fn lemma_builtin_given(
    e: Evaluator,
    call: CallView,
    policy: BuiltinBodyPolicy,
    f: nat,
    w: World,
)
    requires
        w.s.pending is None,
        w.s.used < w.s.replies.len(),
        w.s.replies[w.s.used as int] == ReplyView::Policy(Some(policy)),
    ensures
        ({
            let told = World { s: SessionView { used: w.s.used + 1, ..w.s }, c: w.c };
            let values = semantics::builtin_values(e, call, policy, f, told);
            let named = semantics::invocation_named(e, call.named, call.span, f, values.w);
            let r = semantics::eval_builtin(e, call, f, w);
            if values.out is None {
                r.out is Failed && r.w == values.w
            } else if named.out is None {
                r.out is Failed && r.w == named.w
            } else {
                let asked = named.w.s.ask_value(
                    QueryView::BuiltinCall {
                        name: call.name,
                        positional: values.out->0,
                        named: named.out->0,
                        has_body: policy == BuiltinBodyPolicy::Reject && call.body is Some,
                    },
                );
                &&& r.w.c == named.w.c
                &&& asked.0 is None ==> r.out is Failed && r.w.s == asked.1
                &&& asked.0 is Some && asked.0->0 is Ok ==> r.w.s == asked.1 && r.out
                    == OutcomeView::Value(asked.0->0->Ok_0)
                &&& asked.0 is Some && asked.0->0 is Err ==> r.out is Failed
                    && laws_leaves::reported(asked.1, r.w.s, "E3001"@, call.span)
            }
        }),
{
    reveal(semantics::eval_builtin);
    let told = World { s: SessionView { used: w.s.used + 1, ..w.s }, c: w.c };
    assert(w.on(told.s) == told);
    let values = semantics::builtin_values(e, call, policy, f, told);
    let named = semantics::invocation_named(e, call.named, call.span, f, values.w);
    if values.out is Some && named.out is Some {
        let asked = named.w.s.ask_value(
            QueryView::BuiltinCall {
                name: call.name,
                positional: values.out->0,
                named: named.out->0,
                has_body: policy == BuiltinBodyPolicy::Reject && call.body is Some,
            },
        );
        let r = semantics::eval_builtin(e, call, f, w);
        if asked.0 is Some && asked.0->0 is Err {
            let n = asked.1.diagnostics.len() as int;
            assert(r.w.s.diagnostics.take(n) =~= asked.1.diagnostics);
        }
    }
}

/// A resource builtin works in the world that evaluating its arguments leaves.
pub proof fn lemma_resource_given(e: Evaluator, call: CallView, f: nat, w: World)
    requires
        call.body is None,
    ensures
        ({
            let values = semantics::eval_values(e, call.positional, call.span, f, w);
            let named = semantics::eval_named(e, call.named, call.span, f, values.w);
            let r = semantics::eval_resource(e, call, f, w);
            if values.out is None {
                r.out is Failed && r.w == values.w
            } else if named.out is None {
                r.out is Failed && r.w == named.w
            } else {
                &&& call.name == "read"@ ==> r == semantics::eval_read(
                    values.out->0,
                    named.out->0,
                    call.span,
                    named.w,
                )
                &&& call.name == "json"@ ==> r == semantics::eval_json(
                    values.out->0,
                    named.out->0,
                    call.span,
                    named.w,
                )
                &&& call.name == "include"@ ==> r == semantics::eval_include(
                    e,
                    values.out->0,
                    named.out->0,
                    call.span,
                    f,
                    named.w,
                )
            }
        }),
{
    reveal(semantics::eval_resource);
    reveal_strlit("read");
    reveal_strlit("json");
    reveal_strlit("include");
    assert("read"@.len() == 4 && "json"@.len() == 4 && "include"@.len() == 7);
    assert("read"@[0] == 'r' && "json"@[0] == 'j');
}

/// `.whitespace` has the sizes that its arguments are bound to, in the world that evaluating them
/// leaves.
pub proof fn lemma_whitespace_given(e: Evaluator, call: CallView, f: nat, w: World)
    ensures
        ({
            let args = semantics::call_arguments(e, call, f, w);
            let (values, named) = args.out->0;
            let bound = binding::bind_arguments(
                Style::Whitespace,
                "whitespace"@,
                seq!["width"@, "height"@],
                "`.whitespace` accepts at most two positional arguments"@,
                binding::arguments_of(values, call.positional, call.span),
                named,
                call.span,
                args.w.s,
            );
            let after = World { s: bound.1, c: args.w.c };
            let r = semantics::eval_whitespace(e, call, f, w);
            if args.out is None {
                r.out is Failed && r.w == args.w
            } else if bound.0 is None {
                r.out is Failed && r.w == after
            } else {
                r == semantics::whitespace_sizes(call, bound.0->0, after)
            }
        }),
{
    reveal(semantics::eval_whitespace);
}

/// The operations that read a collection are given the values of their arguments, in the world that
/// evaluating them leaves; they take no body.
pub proof fn lemma_access_given(e: Evaluator, call: CallView, f: nat, w: World)
    ensures
        ({
            let args = semantics::call_arguments(e, call, f, w);
            let (values, named) = args.out->0;
            let r = semantics::eval_access(e, call, f, w);
            if call.body is Some {
                &&& r.out is Failed && r.w.c == w.c
                &&& laws_leaves::reported(w.s, r.w.s, "E3001"@, call.span)
            } else if args.out is None {
                r.out is Failed && r.w == args.w
            } else {
                let read = semantics::access_outcome(
                    e.limits.max_materialized_elements as nat,
                    call.name,
                    values,
                    named,
                    call.span,
                    args.w.s,
                );
                r.out == read.0 && r.w.s == read.1 && r.w.c == args.w.c
            }
        }),
{
    reveal(semantics::eval_access);
    if call.body is Some {
        let r = semantics::eval_access(e, call, f, w);
        assert(r.w.s.diagnostics.take(w.s.diagnostics.len() as int) =~= w.s.diagnostics);
    }
}

/// `.align` converts the argument that its parameter is bound to, and then evaluates its body; each
/// works in the world that the one before leaves.
pub proof fn lemma_align_given(
    e: Evaluator,
    call: CallView,
    nodes: Seq<NodeView>,
    f: nat,
    w: World,
)
    requires
        call.body == Some(BodyView::Block(nodes)),
        call.lambda is None,
    ensures
        ({
            let args = semantics::call_arguments(e, call, f, w);
            let (values, named) = args.out->0;
            let bound = binding::bind_align(
                binding::arguments_of(values, call.positional, call.span),
                named,
                call.span,
                args.w.s,
            );
            let told = calls::container_alignment(bound.0->0.value, bound.1);
            let after = World { s: told.1, c: args.w.c };
            let body = semantics::body_content(e, BodyView::Block(nodes), call.span, f, after);
            let r = semantics::eval_align(e, call, f, w);
            if args.out is None {
                r.out is Failed && r.w == args.w
            } else if bound.0 is None {
                r.out is Failed && r.w.s == bound.1 && r.w.c == args.w.c
            } else if told.0 is None {
                r.out is Failed && r.w == after
            } else if told.0->0 is Err {
                r.out is Failed && laws_leaves::reported(
                    told.1,
                    r.w.s,
                    "E3003"@,
                    bound.0->0.span,
                )
            } else {
                &&& r.w == body.w
                &&& body.out is None ==> r.out is Failed
                &&& body.out is Some ==> {
                    let c = r.out->Value_0->Component_0;
                    &&& r.out is Value && r.out->Value_0 is Component && c is Container
                    &&& c->Container_0.alignment == Some(told.0->0->Ok_0)
                    &&& c->Container_0.children == body.out->0
                }
            }
        }),
{
    reveal(semantics::eval_align);
    reveal(semantics::children);
    let args = semantics::call_arguments(e, call, f, w);
    if args.out is Some {
        let (values, named) = args.out->0;
        let bound = binding::bind_align(
            binding::arguments_of(values, call.positional, call.span),
            named,
            call.span,
            args.w.s,
        );
        if bound.0 is Some {
            let told = calls::container_alignment(bound.0->0.value, bound.1);
            let r = semantics::eval_align(e, call, f, w);
            if told.0 is Some && told.0->0 is Err {
                let n = told.1.diagnostics.len() as int;
                assert(r.w.s.diagnostics.take(n) =~= told.1.diagnostics);
            }
        }
    }
}

/// A container has the sizes that its arguments are bound to; its body is evaluated in the world
/// that they leave.
pub proof fn lemma_container_given(
    e: Evaluator,
    call: CallView,
    nodes: Seq<NodeView>,
    f: nat,
    w: World,
)
    requires
        call.body == Some(BodyView::Block(nodes)),
        call.lambda is None,
    ensures
        ({
            let args = semantics::call_arguments(e, call, f, w);
            let (values, named) = args.out->0;
            let bound = binding::bind_arguments(
                Style::Container,
                "container"@,
                seq!["width"@, "height"@, "fullwidth"@],
                "`.container` accepts at most three positional arguments"@,
                binding::arguments_of(values, call.positional, call.span),
                named,
                call.span,
                args.w.s,
            );
            let sizes = semantics::container_sizes(bound.0->0, bound.1);
            let after = World { s: sizes.1, c: args.w.c };
            let body = semantics::body_content(e, BodyView::Block(nodes), call.span, f, after);
            let r = semantics::eval_container(e, call, f, w);
            if args.out is None {
                r.out is Failed && r.w == args.w
            } else if bound.0 is None {
                r.out is Failed && r.w.s == bound.1 && r.w.c == args.w.c
            } else if sizes.0 is None {
                r.out is Failed && r.w == after
            } else {
                let (width, height, full) = sizes.0->0;
                &&& r.w == body.w
                &&& body.out is None ==> r.out is Failed
                &&& body.out is Some ==> {
                    let c = r.out->Value_0->Component_0;
                    &&& r.out is Value && r.out->Value_0 is Component && c is Container
                    &&& c->Container_0.width == width
                    &&& c->Container_0.height == height
                    &&& c->Container_0.full_width == full
                    &&& c->Container_0.alignment is None
                    &&& c->Container_0.children == body.out->0
                }
            }
        }),
{
    reveal(semantics::eval_container);
    reveal(semantics::children);
}

/// A stacked layout is placed as its arguments say, which are bound to the parameters of a grid for
/// `.grid` and to those of a line for `.row` and `.column`; its body is evaluated behind them.
pub proof fn lemma_stacked_given(e: Evaluator, call: CallView, f: nat, w: World)
    requires
        natives::owns(NativeDispatchOwner::StackedLayout, call.name),
    ensures
        ({
            let grid = call.name == "grid"@;
            let args = semantics::call_arguments(e, call, f, w);
            let (values, named) = args.out->0;
            let bound = binding::bind_arguments(
                Style::Stacked,
                call.name,
                if grid {
                    seq!["columns"@, "alignment"@, "cross"@, "gap"@, "vgap"@, "hgap"@]
                } else {
                    seq!["alignment"@, "cross"@, "gap"@]
                },
                "`."@ + call.name + "` parameter `positional`: too many positional arguments"@,
                binding::arguments_of(values, call.positional, call.span),
                named,
                call.span,
                args.w.s,
            );
            let placed = if grid {
                semantics::grid_stacking(call.name, bound.0->0, call.span, bound.1)
            } else {
                semantics::line_stacking(call.name, bound.0->0, call.span, bound.1)
            };
            let after = World { s: placed.1, c: args.w.c };
            let r = semantics::eval_stacked(e, call, f, w);
            if args.out is None {
                r.out is Failed && r.w == args.w
            } else if bound.0 is None {
                r.out is Failed && r.w.s == bound.1 && r.w.c == args.w.c
            } else if placed.0 is None {
                r.out is Failed && r.w == after
            } else {
                r == semantics::stacked_component(e, call, placed.0->0, f, after)
            }
        }),
{
    reveal(semantics::eval_stacked);
}

/// The content of a conditional is evaluated in the world that evaluating its condition leaves.
pub proof fn lemma_conditional_given(e: Evaluator, call: CallView, f: nat, w: World)
    ensures
        ({
            let given = semantics::condition_argument(e, call, f, w);
            let told = calls::condition_value(given.out->0, given.w.s);
            let after = World { s: told.1, c: given.w.c };
            let r = semantics::eval_conditional(e, call, f, w);
            if given.out is None {
                r.out is Failed && r.w == given.w
            } else if told.0 is None {
                r.out is Failed && r.w == after
            } else if told.0->0 is None {
                r.out is Failed && r.w.c == given.w.c && laws_leaves::reported(
                    told.1,
                    r.w.s,
                    "E3001"@,
                    call.span,
                )
            } else if (call.name == "if"@) == told.0->0->0 {
                r == semantics::conditional_content(e, call, f, after)
            } else {
                r.w == after && r.out == OutcomeView::Value(ValueView::Content(Seq::empty()))
            }
        }),
{
    reveal(semantics::eval_conditional);
    let given = semantics::condition_argument(e, call, f, w);
    if given.out is Some {
        let told = calls::condition_value(given.out->0, given.w.s);
        let r = semantics::eval_conditional(e, call, f, w);
        if told.0 is Some && told.0->0 is None {
            let n = told.1.diagnostics.len() as int;
            assert(r.w.s.diagnostics.take(n) =~= told.1.diagnostics);
        }
    }
}

} // verus!
