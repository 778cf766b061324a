//! More answers and higher limits keep what is settled: calls and functions.

use vstd::prelude::*;

use crate::binding;
use crate::binding::{ArgumentView, Style};
use crate::calls;
use crate::growth;
use crate::growth::Growth;
use crate::growth_callables;
use crate::growth_content;
use crate::growth_data;
use crate::growth_helpers;
use crate::growth_iteration;
use crate::growth_layout;
use crate::growth_resources;
use crate::growth_sequences;
use crate::growth_values;
use crate::host::{BuiltinBodyPolicy, QueryView, SessionView};
use crate::ir::{NamedArgView, NodeView, ParameterView, SourceSpan, ValueView};
use crate::natives;
use crate::natives::NativeDispatchOwner;
use crate::scope;
use crate::scope::{FunctionBindingView, LambdaParametersView};
use crate::semantics;
use crate::semantics::{BodyView, CallView, Evaluator, World};
use crate::text;

verus! {

broadcast use growth::group_within;

/// What `eval_call` comes to is kept.
pub(crate) proof fn lemma_eval_call(e: Evaluator, call: CallView, f: nat, w: World, grow: Growth)
    requires
        growth::fits(e, grow),
    ensures
        growth::kept(
            w,
            semantics::eval_call(e, call, f, w),
            semantics::eval_call(
                growth::evaluator(e, grow),
                call,
                f + grow.depth,
                growth::world(w, grow),
            ),
            grow,
        ),
    decreases f, 0int, e, 0int,
{
    reveal(semantics::eval_call);
    reveal(semantics::dispatch);
    if f == 0 {
    } else {
        lemma_dispatch(e, call, (f - 1) as nat, w, grow);
    }
}

/// What `dispatch` comes to is kept.
pub(crate) proof fn lemma_dispatch(e: Evaluator, call: CallView, f: nat, w: World, grow: Growth)
    requires
        growth::fits(e, grow),
    ensures
        growth::kept(
            w,
            semantics::dispatch(e, call, f, w),
            semantics::dispatch(
                growth::evaluator(e, grow),
                call,
                f + grow.depth,
                growth::world(w, grow),
            ),
            grow,
        ),
    decreases f, 7int, e, 0int,
{
    reveal(semantics::dispatch);
    reveal(semantics::dispatch_bound);
    reveal(semantics::eval_conditional);
    reveal(semantics::eval_var);
    let name = call.name;
    match scope::positional_value(w.c, name) {
        Some(Ok(value)) => {},
        Some(Err(error)) => {},
        None => {
            if natives::owns(NativeDispatchOwner::Conditional, name) {
                lemma_eval_conditional(e, call, f, w, grow);
            } else {
                if natives::owns(NativeDispatchOwner::DocumentState, name) {
                    growth_content::lemma_eval_document_state(e, call, f, w, grow);
                } else {
                    if natives::owns(NativeDispatchOwner::Html, name) {
                        growth_content::lemma_eval_html(e, call, f, w, grow);
                    } else {
                        if natives::owns(NativeDispatchOwner::Markdown, name) {
                            growth_content::lemma_eval_markdown(e, call, f, w, grow);
                        } else {
                            if natives::owns(NativeDispatchOwner::Resource, name) {
                                growth_resources::lemma_eval_resource(e, call, f, w, grow);
                            } else {
                                if natives::deferred_names().contains(name) {
                                } else {
                                    if natives::owns(NativeDispatchOwner::Let, name) {
                                        growth_iteration::lemma_eval_let(e, call, f, w, grow);
                                    } else {
                                        if natives::owns(NativeDispatchOwner::Foreach, name) {
                                            growth_iteration::lemma_eval_foreach(
                                                e,
                                                call,
                                                f,
                                                w,
                                                grow,
                                            );
                                        } else {
                                            if natives::owns(NativeDispatchOwner::Repeat, name) {
                                                growth_iteration::lemma_eval_repeat(
                                                    e,
                                                    call,
                                                    f,
                                                    w,
                                                    grow,
                                                );
                                            } else {
                                                if natives::owns(
                                                    NativeDispatchOwner::OptionalityCallback,
                                                    name,
                                                ) {
                                                    growth_iteration::lemma_eval_optionality(
                                                        e,
                                                        call,
                                                        f,
                                                        w,
                                                        grow,
                                                    );
                                                } else {
                                                    if natives::owns(
                                                        NativeDispatchOwner::CollectionTransform,
                                                        name,
                                                    ) {
                                                        growth_iteration::lemma_eval_transform(
                                                            e,
                                                            call,
                                                            f,
                                                            w,
                                                            grow,
                                                        );
                                                    } else {
                                                        if natives::owns(
                                                            NativeDispatchOwner::VariableState,
                                                            name,
                                                        ) {
                                                            lemma_eval_var(e, call, f, w, grow);
                                                        } else {
                                                            lemma_dispatch_bound(
                                                                e,
                                                                call,
                                                                f,
                                                                w,
                                                                grow,
                                                            );
                                                        }
                                                    }
                                                }
                                            }
                                        }
                                    }
                                }
                            }
                        }
                    }
                }
            }
        },
    }
}

/// What `dispatch_bound` comes to is kept.
pub(crate) proof fn lemma_dispatch_bound(
    e: Evaluator,
    call: CallView,
    f: nat,
    w: World,
    grow: Growth,
)
    requires
        growth::fits(e, grow),
    ensures
        growth::kept(
            w,
            semantics::dispatch_bound(e, call, f, w),
            semantics::dispatch_bound(
                growth::evaluator(e, grow),
                call,
                f + grow.depth,
                growth::world(w, grow),
            ),
            grow,
        ),
    decreases f, 6int, e, 2int,
{
    reveal(semantics::dispatch_bound);
    reveal(semantics::dispatch_native);
    reveal(semantics::eval_reassignment);
    reveal(semantics::eval_user_function);
    let name = call.name;
    let variable = scope::visible_variable(w.c, name);
    if variable is Some && call.positional.len() == 0 && call.named.len()
        == 0 && call.body is None {
    } else {
        if variable is Some && call.positional.len() == 1 && call.named.len()
            == 0 && call.body is None {
            lemma_eval_reassignment(e, call, f, w, grow);
        } else {
            match scope::visible_function(w.c, name) {
                Some(binding) => {
                    lemma_eval_user_function(e, binding, call, f, w, grow);
                },
                None => {
                    lemma_dispatch_native(e, call, f, w, grow);
                },
            }
        }
    }
}

/// What `dispatch_native` comes to is kept.
pub(crate) proof fn lemma_dispatch_native(
    e: Evaluator,
    call: CallView,
    f: nat,
    w: World,
    grow: Growth,
)
    requires
        growth::fits(e, grow),
    ensures
        growth::kept(
            w,
            semantics::dispatch_native(e, call, f, w),
            semantics::dispatch_native(
                growth::evaluator(e, grow),
                call,
                f + grow.depth,
                growth::world(w, grow),
            ),
            grow,
        ),
    decreases f, 6int, e, 1int,
{
    reveal(semantics::dispatch_native);
    reveal(semantics::eval_builtin);
    let name = call.name;
    if natives::owns(NativeDispatchOwner::Center, name) {
        growth_layout::lemma_eval_center(e, call, f, w, grow);
    } else {
        if natives::owns(NativeDispatchOwner::Align, name) {
            growth_layout::lemma_eval_align(e, call, f, w, grow);
        } else {
            if natives::owns(NativeDispatchOwner::Container, name) {
                growth_layout::lemma_eval_container(e, call, f, w, grow);
            } else {
                if natives::owns(NativeDispatchOwner::Landscape, name) {
                    growth_layout::lemma_eval_landscape(e, call, f, w, grow);
                } else {
                    if natives::owns(NativeDispatchOwner::Br, name) {
                        growth_layout::lemma_eval_br(call, w, grow);
                    } else {
                        if natives::owns(NativeDispatchOwner::Whitespace, name) {
                            growth_layout::lemma_eval_whitespace(e, call, f, w, grow);
                        } else {
                            if natives::owns(NativeDispatchOwner::StackedLayout, name) {
                                growth_layout::lemma_eval_stacked(e, call, f, w, grow);
                            } else {
                                if natives::owns(NativeDispatchOwner::Range, name) {
                                    growth_data::lemma_eval_range(e, call, f, w, grow);
                                } else {
                                    if natives::owns(NativeDispatchOwner::Pair, name) {
                                        growth_data::lemma_eval_pair(e, call, f, w, grow);
                                    } else {
                                        if natives::owns(NativeDispatchOwner::Dictionary, name) {
                                            growth_data::lemma_eval_dictionary(e, call, f, w, grow);
                                        } else {
                                            if natives::owns(
                                                NativeDispatchOwner::CollectionAccess,
                                                name,
                                            ) {
                                                growth_data::lemma_eval_access(e, call, f, w, grow);
                                            } else {
                                                lemma_eval_builtin(e, call, f, w, grow);
                                            }
                                        }
                                    }
                                }
                            }
                        }
                    }
                }
            }
        }
    }
}

/// What `condition_argument` comes to is kept.
pub(crate) proof fn lemma_condition_argument(
    e: Evaluator,
    call: CallView,
    f: nat,
    w: World,
    grow: Growth,
)
    requires
        growth::fits(e, grow),
    ensures
        growth::kept(
            w,
            semantics::condition_argument(e, call, f, w),
            semantics::condition_argument(
                growth::evaluator(e, grow),
                call,
                f + grow.depth,
                growth::world(w, grow),
            ),
            grow,
        ),
    decreases f, 5int, e, 0int,
{
    reveal(semantics::condition_argument);
    match semantics::raw_condition(call) {
        None => {},
        Some((value, origin)) => {
            match value {
                ValueView::Identifier(name) => {},
                _ => {
                    growth_values::lemma_invocation_value(e, value, call.span, origin, f, w, grow);
                },
            }
        },
    }
}

/// What `eval_conditional` comes to is kept.
pub(crate) proof fn lemma_eval_conditional(
    e: Evaluator,
    call: CallView,
    f: nat,
    w: World,
    grow: Growth,
)
    requires
        growth::fits(e, grow),
    ensures
        growth::kept(
            w,
            semantics::eval_conditional(e, call, f, w),
            semantics::eval_conditional(
                growth::evaluator(e, grow),
                call,
                f + grow.depth,
                growth::world(w, grow),
            ),
            grow,
        ),
    decreases f, 6int, e, 0int,
{
    reveal(semantics::eval_conditional);
    reveal(semantics::condition_argument);
    reveal(semantics::conditional_content);
    lemma_condition_argument(e, call, f, w, grow);
    let r = semantics::condition_argument(e, call, f, w);
    match r.out {
        None => {},
        Some(argument) => {
            growth_helpers::lemma_condition_value(argument, r.w.s, grow);
            match calls::condition_value(argument, r.w.s) {
                (None, s) => {},
                (Some(None), s) => {},
                (Some(Some(condition)), s) => {
                    if semantics::branch_taken(call.name, condition) {
                        lemma_conditional_content(e, call, f, r.w.on(s), grow);
                    }
                },
            }
        },
    }
}

/// What `conditional_content` comes to is kept.
pub(crate) proof fn lemma_conditional_content(
    e: Evaluator,
    call: CallView,
    f: nat,
    w: World,
    grow: Growth,
)
    requires
        growth::fits(e, grow),
    ensures
        growth::kept(
            w,
            semantics::conditional_content(e, call, f, w),
            semantics::conditional_content(
                growth::evaluator(e, grow),
                call,
                f + grow.depth,
                growth::world(w, grow),
            ),
            grow,
        ),
    decreases f, 5int, e, 2int,
{
    reveal(semantics::conditional_content);
    reveal(semantics::content_argument);
    match call.body {
        Some(body) => {
            growth_values::lemma_eval_body(e, body, call.span, f, w, grow);
        },
        None => {
            match calls::named_index(call.named, "body"@) {
                Some(i) => {
                    lemma_content_argument(e, call.named[i].value, call.span, f, w, grow);
                },
                None => {
                    if call.positional.len() > 1 {
                        lemma_content_argument(e, call.positional[1], call.span, f, w, grow);
                    }
                },
            }
        },
    }
}

/// What `content_argument` comes to is kept.
pub(crate) proof fn lemma_content_argument(
    e: Evaluator,
    value: ValueView,
    span: SourceSpan,
    f: nat,
    w: World,
    grow: Growth,
)
    requires
        growth::fits(e, grow),
    ensures
        growth::kept(
            w,
            semantics::content_argument(e, value, span, f, w),
            semantics::content_argument(
                growth::evaluator(e, grow),
                value,
                span,
                f + grow.depth,
                growth::world(w, grow),
            ),
            grow,
        ),
    decreases f, 5int, e, 0int,
{
    reveal(semantics::content_argument);
    growth_values::lemma_required(e, value, span, f, w, grow);
    let r = semantics::required(e, value, span, f, w);
    match r.out {
        None => {},
        Some(value) => {
            growth_helpers::lemma_content_nodes(value, span, r.w.s, grow);
        },
    }
}

/// What `eval_builtin` comes to is kept.
pub(crate) proof fn lemma_eval_builtin(e: Evaluator, call: CallView, f: nat, w: World, grow: Growth)
    requires
        growth::fits(e, grow),
    ensures
        growth::kept(
            w,
            semantics::eval_builtin(e, call, f, w),
            semantics::eval_builtin(
                growth::evaluator(e, grow),
                call,
                f + grow.depth,
                growth::world(w, grow),
            ),
            grow,
        ),
    decreases f, 6int, e, 0int,
{
    reveal(semantics::eval_builtin);
    reveal(semantics::builtin_values);
    match w.s.ask_policy(QueryView::BuiltinPolicy { name: call.name }) {
        (None, s) => {},
        (Some(None), s) => {},
        (Some(Some(policy)), s) => {
            lemma_builtin_values(e, call, policy, f, w.on(s), grow);
            let positional = semantics::builtin_values(e, call, policy, f, w.on(s));
            match positional.out {
                None => {},
                Some(values) => {
                    growth_sequences::lemma_invocation_named(
                        e,
                        call.named,
                        call.span,
                        f,
                        positional.w,
                        grow,
                    );
                },
            }
        },
    }
}

/// What `builtin_values` comes to is kept.
pub(crate) proof fn lemma_builtin_values(
    e: Evaluator,
    call: CallView,
    policy: BuiltinBodyPolicy,
    f: nat,
    w: World,
    grow: Growth,
)
    requires
        growth::fits(e, grow),
    ensures
        growth::kept(
            w,
            semantics::builtin_values(e, call, policy, f, w),
            semantics::builtin_values(
                growth::evaluator(e, grow),
                call,
                policy,
                f + grow.depth,
                growth::world(w, grow),
            ),
            grow,
        ),
    decreases f, 5int, e, 2int,
{
    reveal(semantics::builtin_values);
    growth_sequences::lemma_invocation_values(
        e,
        call.positional,
        call.span,
        call.first_origin,
        f,
        w,
        grow,
    );
    let r = semantics::invocation_values(e, call.positional, call.span, call.first_origin, f, w);
    match r.out {
        None => {},
        Some(values) => {
            if policy == BuiltinBodyPolicy::BindEvaluatedContent && call.body is Some {
                growth_values::lemma_body_value(e, call.body->0, call.span, f, r.w, grow);
            }
        },
    }
}

/// What `eval_user_function` comes to is kept.
pub(crate) proof fn lemma_eval_user_function(
    e: Evaluator,
    binding: FunctionBindingView,
    call: CallView,
    f: nat,
    w: World,
    grow: Growth,
)
    requires
        growth::fits(e, grow),
    ensures
        growth::kept(
            w,
            semantics::eval_user_function(e, binding, call, f, w),
            semantics::eval_user_function(
                growth::evaluator(e, grow),
                binding,
                call,
                f + grow.depth,
                growth::world(w, grow),
            ),
            grow,
        ),
    decreases f, 6int, e, 0int,
{
    reveal(semantics::eval_user_function);
    reveal(semantics::bind_parameters);
    growth_sequences::lemma_eval_values(e, call.positional, call.span, f, w, grow);
    let values = semantics::eval_values(e, call.positional, call.span, f, w);
    match values.out {
        None => {},
        Some(positional) => {
            growth_sequences::lemma_eval_named(e, call.named, call.span, f, values.w, grow);
            let args = semantics::eval_named(e, call.named, call.span, f, values.w);
            match args.out {
                None => {},
                Some(named) => {
                    lemma_bind_parameters(
                        e,
                        binding.parameters,
                        positional,
                        named,
                        call,
                        f,
                        args.w,
                        grow,
                    );
                    let b = semantics::bind_parameters(
                        e,
                        binding.parameters,
                        positional,
                        named,
                        call,
                        f,
                        args.w,
                    );
                    match b.out {
                        None => {},
                        Some(bound) => {
                            growth_callables::lemma_invoke_bound(
                                e,
                                scope::callable_of(binding),
                                bound,
                                f,
                                b.w,
                                grow,
                            );
                        },
                    }
                },
            }
        },
    }
}

/// What `bind_parameters` comes to is kept.
pub(crate) proof fn lemma_bind_parameters(
    e: Evaluator,
    parameters: LambdaParametersView,
    positional: Seq<ValueView>,
    named: Seq<NamedArgView>,
    call: CallView,
    f: nat,
    w: World,
    grow: Growth,
)
    requires
        growth::fits(e, grow),
    ensures
        growth::kept(
            w,
            semantics::bind_parameters(e, parameters, positional, named, call, f, w),
            semantics::bind_parameters(
                growth::evaluator(e, grow),
                parameters,
                positional,
                named,
                call,
                f + grow.depth,
                growth::world(w, grow),
            ),
            grow,
        ),
    decreases f, 5int, e, 3int,
{
    reveal(semantics::bind_parameters);
    reveal(semantics::bind_body);
    reveal(semantics::filled);
    match parameters {
        LambdaParametersView::Implicit => {
            if named.len() > 0 {
            } else {
                match call.body {
                    None => {},
                    Some(body) => {
                        growth_values::lemma_body_value(e, body, call.span, f, w, grow);
                    },
                }
            }
        },
        LambdaParametersView::Explicit(list) => {
            growth_helpers::lemma_bind_arguments(
                Style::Parameters,
                call.name,
                semantics::parameter_names(list),
                "Function call has too many positional arguments (received at least "@
                    + text::decimal_text(list.len() + 1) + ")"@,
                binding::static_arguments(positional, call.span),
                binding::static_named(named),
                call.span,
                w.s,
                grow,
            );
            match binding::bind_arguments(
                Style::Parameters,
                call.name,
                semantics::parameter_names(list),
                "Function call has too many positional arguments (received at least "@
                    + text::decimal_text(list.len() + 1) + ")"@,
                binding::static_arguments(positional, call.span),
                binding::static_named(named),
                call.span,
                w.s,
            ) {
                (None, s) => {},
                (Some(slots), s) => {
                    lemma_bind_body(e, slots, call, f, w.on(s), grow);
                    let b = semantics::bind_body(e, slots, call, f, w.on(s));
                    match b.out {
                        None => {},
                        Some(slots) => {
                            lemma_filled(list, slots, list.len(), b.w.s, grow);
                        },
                    }
                },
            }
        },
    }
}

/// What `bind_body` comes to is kept.
pub(crate) proof fn lemma_bind_body(
    e: Evaluator,
    slots: Seq<Option<ArgumentView>>,
    call: CallView,
    f: nat,
    w: World,
    grow: Growth,
)
    requires
        growth::fits(e, grow),
    ensures
        growth::kept(
            w,
            semantics::bind_body(e, slots, call, f, w),
            semantics::bind_body(
                growth::evaluator(e, grow),
                slots,
                call,
                f + grow.depth,
                growth::world(w, grow),
            ),
            grow,
        ),
    decreases f, 5int, e, 2int,
{
    reveal(semantics::bind_body);
    match call.body {
        None => {},
        Some(body) => {
            if slots.len() == 0 {
            } else {
                if slots.last() is Some {
                } else {
                    growth_values::lemma_body_value(e, body, call.span, f, w, grow);
                }
            }
        },
    }
}

/// What `filled` comes to is kept.
pub(crate) proof fn lemma_filled(
    parameters: Seq<ParameterView>,
    slots: Seq<Option<ArgumentView>>,
    done: nat,
    s: SessionView,
    grow: Growth,
)
    ensures
        growth::kept_answer(
            s,
            semantics::filled(parameters, slots, done, s),
            semantics::filled(parameters, slots, done, growth::session(s, grow)),
            grow,
        ),
    decreases done,
{
    reveal(semantics::filled);
    if done == 0 {
    } else {
        lemma_filled(parameters, slots, (done - 1) as nat, s, grow);
    }
}

/// What `assign_argument` comes to is kept.
pub(crate) proof fn lemma_assign_argument(
    e: Evaluator,
    name: Seq<char>,
    value: ValueView,
    span: SourceSpan,
    f: nat,
    w: World,
    grow: Growth,
)
    requires
        growth::fits(e, grow),
    ensures
        growth::kept(
            w,
            semantics::assign_argument(e, name, value, span, f, w),
            semantics::assign_argument(
                growth::evaluator(e, grow),
                name,
                value,
                span,
                f + grow.depth,
                growth::world(w, grow),
            ),
            grow,
        ),
    decreases f, 5int, e, 0int,
{
    reveal(semantics::assign_argument);
    growth_values::lemma_required(e, value, span, f, w, grow);
}

/// What `eval_reassignment` comes to is kept.
pub(crate) proof fn lemma_eval_reassignment(
    e: Evaluator,
    call: CallView,
    f: nat,
    w: World,
    grow: Growth,
)
    requires
        growth::fits(e, grow),
    ensures
        growth::kept(
            w,
            semantics::eval_reassignment(e, call, f, w),
            semantics::eval_reassignment(
                growth::evaluator(e, grow),
                call,
                f + grow.depth,
                growth::world(w, grow),
            ),
            grow,
        ),
    decreases f, 6int, e, 0int,
{
    reveal(semantics::eval_reassignment);
    reveal(semantics::assign_argument);
    lemma_assign_argument(e, call.name, call.positional[0], call.span, f, w, grow);
}

/// What `eval_var` comes to is kept.
pub(crate) proof fn lemma_eval_var(e: Evaluator, call: CallView, f: nat, w: World, grow: Growth)
    requires
        growth::fits(e, grow),
    ensures
        growth::kept(
            w,
            semantics::eval_var(e, call, f, w),
            semantics::eval_var(
                growth::evaluator(e, grow),
                call,
                f + grow.depth,
                growth::world(w, grow),
            ),
            grow,
        ),
    decreases f, 6int, e, 0int,
{
    reveal(semantics::eval_var);
    reveal(semantics::assign_argument);
    let declared = if call.positional.len() > 0 {
        semantics::declared_name(call.positional[0])
    } else {
        None
    };
    match declared {
        None => {},
        Some(name) => {
            if !text::is_call_name(name) {
            } else {
                match call.body {
                    Some(body) => {
                        match body {
                            BodyView::Block(nodes) => {
                                growth_values::lemma_callable_body(e, nodes, f, w, grow);
                            },
                            BodyView::Inline(_) => {
                                growth_values::lemma_eval_body(e, body, call.span, f, w, grow);
                            },
                        }
                    },
                    None => {
                        match calls::named_index(call.named, "body"@) {
                            Some(i) => {
                                lemma_assign_argument(
                                    e,
                                    name,
                                    call.named[i].value,
                                    call.span,
                                    f,
                                    w,
                                    grow,
                                );
                            },
                            None => {
                                match calls::named_index(call.named, "value"@) {
                                    Some(i) => {
                                        lemma_assign_argument(
                                            e,
                                            name,
                                            call.named[i].value,
                                            call.span,
                                            f,
                                            w,
                                            grow,
                                        );
                                    },
                                    None => {
                                        if call.positional.len() > 1 {
                                            lemma_assign_argument(
                                                e,
                                                name,
                                                call.positional[1],
                                                call.span,
                                                f,
                                                w,
                                                grow,
                                            );
                                        }
                                    },
                                }
                            },
                        }
                    },
                }
            }
        },
    }
}

/// What `declare_function` comes to is kept.
pub(crate) proof fn lemma_declare_function(
    name: ValueView,
    parameters: Seq<ParameterView>,
    body: Seq<NodeView>,
    span: SourceSpan,
    w: World,
    grow: Growth,
)
    ensures
        growth::kept_world(
            w,
            semantics::declare_function(name, parameters, body, span, w),
            semantics::declare_function(name, parameters, body, span, growth::world(w, grow)),
            grow,
        ),
{
    reveal(semantics::declare_function);

}

} // verus!
