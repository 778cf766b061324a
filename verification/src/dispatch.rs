//! Calls: which part of the evaluator answers to a name, and the calls that read or change
//! the scope.

use vstd::prelude::*;

use crate::binding;
use crate::binding::{bind, given_value, raw_arguments, raw_named, Argument, Style};
use crate::calls;
use crate::calls::{
    find_named, implicit_parameter_message, resolve_boolean_value, BoundLambdaArguments,
};
use crate::diagnostic::Fault;
use crate::evaluator;
use crate::evaluator::{Call, CallBody};
use crate::host;
use crate::host::{BuiltinBodyPolicy, InvocationValue, Query, Session, SessionView, ValueOrigin};
use crate::ir;
use crate::ir::{IrNamedArg, IrNode, IrParameter, IrValue, ParameterView, SourceSpan};
use crate::ir_copy::{copy_nodes, copy_parameters, copy_value};
use crate::materialize::value_into_content_nodes;
use crate::natives::{
    is_align, is_br, is_center, is_collection_access, is_collection_transform, is_conditional,
    is_container, is_deferred, is_dictionary, is_document_state, is_foreach, is_html, is_landscape,
    is_let, is_markdown, is_optionality_callback, is_pair, is_range, is_repeat, is_resource,
    is_stacked_layout, is_var_declaration, is_whitespace,
};
use crate::outcome::{CallOutcome, OutcomeView};
use crate::scope;
use crate::scope::{copy_function_binding, EvaluationContext, FunctionBinding, LambdaParameters};
use crate::semantics;
use crate::semantics::{Ev, Evaluator, World};
use crate::text;
use crate::text::{decimal, is_valid_normal_call_name, join3, same_text};
use crate::views;

verus! {

broadcast use {
    crate::ir::group_ir_views,
    crate::host::group_host_views,
    host::group_follows,
    scope::group_stays,
};

/// Whether the branch of a conditional is taken.
pub fn take_branch(name: &str, condition: bool) -> (r: bool)
    ensures
        r == semantics::branch_taken(name@, condition),
{
    if same_text(name, "if") {
        condition
    } else {
        !condition
    }
}

/// The name that a declaration gives.
pub fn name_of_declaration(value: &IrValue) -> (r: Option<String>)
    ensures
        (match r {
            Some(name) => Some(name@),
            None => None,
        }) == semantics::declared_name(value@),
{
    match value {
        IrValue::Identifier(name) => Some(name.clone()),
        IrValue::String(name) => Some(name.clone()),
        _ => None,
    }
}

/// Whether a call reads a variable.
pub fn is_variable_reference_call(call: &Call, context: &EvaluationContext) -> (r: bool)
    ensures
        r == (scope::visible_variable(context@, call@.name) is Some && call@.positional.len() == 0
            && call@.named.len() == 0 && call@.body is None),
{
    call.positional.len() == 0 && call.named.len() == 0 && call.body.is_none() && context.contains(
        call.name,
    )
}

/// Whether a call assigns to a variable.
pub fn is_variable_reassignment_call(call: &Call, context: &EvaluationContext) -> (r: bool)
    ensures
        r == (scope::visible_variable(context@, call@.name) is Some && call@.positional.len() == 1
            && call@.named.len() == 0 && call@.body is None),
{
    call.positional.len() == 1 && call.named.len() == 0 && call.body.is_none() && context.contains(
        call.name,
    )
}

/// Reports a condition that is no truth value.
fn report_condition(name: &str, span: SourceSpan, session: &mut Session)
    ensures
        forall|c: scope::ContextView|
            (World { s: final(session)@, c }) == #[trigger] semantics::bad_condition(
                World { s: old(session)@, c },
                name@,
                span,
            ),
        host::follows(old(session)@, final(session)@),
{
    session.fault(
        Fault::Condition,
        join3(
            "`",
            name,
            "` requires a boolean-compatible condition (literals `true`, `false`, `yes`, `no`, or variable reference `.name`) as its `condition` argument",
        ),
        span,
    );
}

/// Reports a declaration of a variable without a name or a value.
fn report_declaration(span: SourceSpan, session: &mut Session)
    ensures
        forall|c: scope::ContextView|
            (World { s: final(session)@, c }) == #[trigger] semantics::bad_declaration(
                World { s: old(session)@, c },
                span,
            ),
        host::follows(old(session)@, final(session)@),
{
    session.fault(
        Fault::VarDeclaration,
        "`.var` declaration requires a name and a value (body, second positional argument, or named `value`/`body` argument)".to_owned(),
        span,
    );
}

/// Reports that no evaluator frame is left.
pub(
    crate
) fn report_depth(limit: usize, span: SourceSpan, session: &mut Session) -> (r: CallOutcome)
    ensures
        r@ == OutcomeView::Failed,
        final(session)@ == old(session)@.fault(
            Fault::DepthLimit,
            semantics::depth_message(limit as nat),
            span,
        ),
        host::follows(old(session)@, final(session)@),
{
    let count = decimal(limit as u64);
    session.fail(
        Fault::DepthLimit,
        join3(
            "evaluation depth limit exceeded: maximum is ",
            count.as_str(),
            " active evaluator frame(s)",
        ),
        span,
    )
}

/// The first parameter that has the name of an earlier one.
pub fn duplicate_parameter(parameters: &Vec<IrParameter>) -> (r: Option<usize>)
    ensures
        (match r {
            Some(i) => Some(i as int),
            None => None,
        }) == semantics::first_duplicate(
            ir::parameters_view(parameters@),
            parameters@.len(),
        ),
        r matches Some(i) ==> i < parameters@.len(),
{
    let ghost all = ir::parameters_view(parameters@);
    let mut i: usize = 0;
    while i < parameters.len()
        invariant
            0 <= i <= parameters@.len(),
            all == ir::parameters_view(parameters@),
            semantics::first_duplicate(all, i as nat) is None,
        decreases parameters@.len() - i,
    {
        let mut j: usize = 0;
        while j < i
            invariant
                0 <= j <= i < parameters@.len(),
                all == ir::parameters_view(parameters@),
                semantics::first_duplicate(all, i as nat) is None,
                forall|k: int| 0 <= k < j ==> (#[trigger] all[k]).name != all[i as int].name,
            decreases i - j,
        {
            assert(all[j as int] == parameters@[j as int]@);
            assert(all[i as int] == parameters@[i as int]@);
            if same_text(parameters[j].name.as_str(), parameters[i].name.as_str()) {
                proof {
                    assert(semantics::is_duplicate(all, i as int));
                    assert(semantics::first_duplicate(all, (i + 1) as nat) == Some(i as int));
                    lemma_first_duplicate_stays(all, (i + 1) as nat, all.len());
                }
                return Some(i);
            }
            j += 1;
        }
        assert(!semantics::is_duplicate(all, i as int));
        i += 1;
    }
    None
}

/// The first duplicate stays the first, however many parameters follow.
proof fn lemma_first_duplicate_stays(all: Seq<ParameterView>, i: nat, n: nat)
    requires
        i <= n,
        semantics::first_duplicate(all, i) is Some,
    ensures
        semantics::first_duplicate(all, n) == semantics::first_duplicate(all, i),
    decreases n,
{
    if i < n {
        lemma_first_duplicate_stays(all, i, (n - 1) as nat);
    }
}

impl Evaluator {
    /// Evaluates a call: it enters a frame, where one is left.
    pub fn evaluate_call_value(
        &self,
        call: &Call,
        frames: usize,
        session: &mut Session,
        context: &mut EvaluationContext,
    ) -> (r: CallOutcome)
        ensures
            (Ev { out: r@, w: World { s: final(session)@, c: final(context)@ } })
                == semantics::eval_call(
                *self,
                call@,
                frames as nat,
                World { s: old(session)@, c: old(context)@ },
            ),
            host::follows(old(session)@, final(session)@),
            scope::stays(old(context)@, final(context)@),
        decreases frames, 0int, self, 0int,
    {
        proof {
            reveal(semantics::eval_call);
            reveal(semantics::dispatch);
        }
        if frames == 0 {
            return report_depth(self.limits.max_evaluation_depth, call.span, session);
        }
        self.dispatch(call, frames - 1, session, context)
    }

    /// Evaluates a call inside its frame.
    fn dispatch(
        &self,
        call: &Call,
        frames: usize,
        session: &mut Session,
        context: &mut EvaluationContext,
    ) -> (r: CallOutcome)
        ensures
            (Ev { out: r@, w: World { s: final(session)@, c: final(context)@ } })
                == semantics::dispatch(
                *self,
                call@,
                frames as nat,
                World { s: old(session)@, c: old(context)@ },
            ),
            host::follows(old(session)@, final(session)@),
            scope::stays(old(context)@, final(context)@),
        decreases frames, 7int, self, 0int,
    {
        proof {
            reveal(semantics::dispatch);
            reveal(semantics::dispatch_bound);
            reveal(semantics::eval_conditional);
            reveal(semantics::eval_var);
        }
        if let Some(result) = context.get_implicit_parameter(call.name) {
            return match result {
                Ok(value) => CallOutcome::Value(value),
                Err(error) => session.fail(
                    Fault::ImplicitParameter,
                    implicit_parameter_message(call.name, error),
                    call.span,
                ),
            };
        }
        if is_conditional(call.name) {
            self.evaluate_conditional(call, frames, session, context)
        } else if is_document_state(call.name) {
            self.evaluate_document_state_builtin(call, frames, session, context)
        } else if is_html(call.name) {
            self.evaluate_html(call, frames, session, context)
        } else if is_markdown(call.name) {
            self.evaluate_markdown(call, frames, session, context)
        } else if is_resource(call.name) {
            self.evaluate_resource_builtin(call, frames, session, context)
        } else if is_deferred(call.name) {
            session.complain(
                "E8001",
                "`.llmstxt` is not part of the tracked Quarkdown v2.5.1 standard builtin surface".to_owned(),
                call.span,
                "This resource/document feature remains deferred until an evidenced upstream contract is available.",
            );
            CallOutcome::Failed
        } else if is_let(call.name) {
            self.evaluate_let(call, frames, session, context)
        } else if is_foreach(call.name) {
            self.evaluate_foreach(call, frames, session, context)
        } else if is_repeat(call.name) {
            self.evaluate_repeat(call, frames, session, context)
        } else if is_optionality_callback(call.name) {
            self.evaluate_optionality_callback(call, frames, session, context)
        } else if is_collection_transform(call.name) {
            self.evaluate_collection_transform(call, frames, session, context)
        } else if is_var_declaration(call.name) {
            self.handle_var_declaration(call, frames, session, context)
        } else {
            self.dispatch_bound(call, frames, session, context)
        }
    }

    /// Evaluates a call whose name may be a variable or a function.
    fn dispatch_bound(
        &self,
        call: &Call,
        frames: usize,
        session: &mut Session,
        context: &mut EvaluationContext,
    ) -> (r: CallOutcome)
        ensures
            (Ev { out: r@, w: World { s: final(session)@, c: final(context)@ } })
                == semantics::dispatch_bound(
                *self,
                call@,
                frames as nat,
                World { s: old(session)@, c: old(context)@ },
            ),
            host::follows(old(session)@, final(session)@),
            scope::stays(old(context)@, final(context)@),
        decreases frames, 6int, self, 2int,
    {
        proof {
            reveal(semantics::dispatch_bound);
            reveal(semantics::dispatch_native);
            reveal(semantics::eval_reassignment);
            reveal(semantics::eval_user_function);
        }
        if is_variable_reference_call(call, context) {
            return match context.get(call.name) {
                Some(variable) => CallOutcome::Value(variable.to_value()),
                None => CallOutcome::NoValue,
            };
        }
        if is_variable_reassignment_call(call, context) {
            return self.handle_variable_reassignment_value(call, frames, session, context);
        }
        let function = match context.get_function(call.name) {
            Some(binding) => Some(copy_function_binding(binding)),
            None => None,
        };
        match function {
            Some(binding) => self.evaluate_user_function(&binding, call, frames, session, context),
            None => self.dispatch_native(call, frames, session, context),
        }
    }

    /// Evaluates a call whose name is bound to nothing in the document.
    fn dispatch_native(
        &self,
        call: &Call,
        frames: usize,
        session: &mut Session,
        context: &mut EvaluationContext,
    ) -> (r: CallOutcome)
        ensures
            (Ev { out: r@, w: World { s: final(session)@, c: final(context)@ } })
                == semantics::dispatch_native(
                *self,
                call@,
                frames as nat,
                World { s: old(session)@, c: old(context)@ },
            ),
            host::follows(old(session)@, final(session)@),
            scope::stays(old(context)@, final(context)@),
        decreases frames, 6int, self, 1int,
    {
        proof {
            reveal(semantics::dispatch_native);
            reveal(semantics::eval_builtin);
        }
        if is_center(call.name) {
            self.evaluate_center(call, frames, session, context)
        } else if is_align(call.name) {
            self.evaluate_align(call, frames, session, context)
        } else if is_container(call.name) {
            self.evaluate_container(call, frames, session, context)
        } else if is_landscape(call.name) {
            self.evaluate_landscape(call, frames, session, context)
        } else if is_br(call.name) {
            self.evaluate_br(call, session, context)
        } else if is_whitespace(call.name) {
            self.evaluate_whitespace(call, frames, session, context)
        } else if is_stacked_layout(call.name) {
            self.evaluate_stacked_layout(call, frames, session, context)
        } else if is_range(call.name) {
            self.evaluate_range(call, frames, session, context)
        } else if is_pair(call.name) {
            self.evaluate_pair(call, frames, session, context)
        } else if is_dictionary(call.name) {
            self.evaluate_dictionary(call, frames, session, context)
        } else if is_collection_access(call.name) {
            self.evaluate_collection_access(call, frames, session, context)
        } else {
            self.evaluate_regular_builtin(call, frames, session, context)
        }
    }

    /// Evaluates `.if` and `.ifnot`.
    fn evaluate_conditional(
        &self,
        call: &Call,
        frames: usize,
        session: &mut Session,
        context: &mut EvaluationContext,
    ) -> (r: CallOutcome)
        ensures
            (Ev { out: r@, w: World { s: final(session)@, c: final(context)@ } })
                == semantics::eval_conditional(
                *self,
                call@,
                frames as nat,
                World { s: old(session)@, c: old(context)@ },
            ),
            host::follows(old(session)@, final(session)@),
            scope::stays(old(context)@, final(context)@),
        decreases frames, 6int, self, 0int,
    {
        proof {
            reveal(semantics::eval_conditional);
            reveal(semantics::condition_argument);
            reveal(semantics::conditional_content);
        }
        let argument = match self.resolve_call_condition(call, frames, session, context) {
            Some(argument) => argument,
            None => return CallOutcome::Failed,
        };
        match resolve_boolean_value(&argument, session) {
            None => CallOutcome::Failed,
            Some(None) => {
                report_condition(call.name, call.span, session);
                CallOutcome::Failed
            },
            Some(Some(condition)) => {
                if take_branch(call.name, condition) {
                    self.conditional_content_value(call, frames, session, context)
                } else {
                    CallOutcome::Value(IrValue::Content(Vec::new()))
                }
            },
        }
    }

    /// The condition of a conditional.
    fn resolve_call_condition(
        &self,
        call: &Call,
        frames: usize,
        session: &mut Session,
        context: &mut EvaluationContext,
    ) -> (r: Option<InvocationValue>)
        ensures
            (Ev { out: views::invocation(r), w: World { s: final(session)@, c: final(context)@ } })
                == semantics::condition_argument(
                *self,
                call@,
                frames as nat,
                World { s: old(session)@, c: old(context)@ },
            ),
            host::follows(old(session)@, final(session)@),
            scope::stays(old(context)@, final(context)@),
        decreases frames, 5int, self, 0int,
    {
        proof {
            reveal(semantics::condition_argument);
        }
        let (value, origin): (&IrValue, Option<ValueOrigin>) = match find_named(
            call.named,
            "condition",
        ) {
            Some(i) => {
                assert(call@.named[i as int] == call.named@[i as int]@);
                (&call.named[i].value, None)
            },
            None => {
                if call.positional.len() > 0 {
                    assert(call@.positional[0] == call.positional@[0]@);
                    (&call.positional[0], call.first_origin)
                } else {
                    report_condition(call.name, call.span, session);
                    return None;
                }
            },
        };
        match value {
            IrValue::Identifier(name) => match context.get(name.as_str()) {
                Some(variable) => Some(InvocationValue::dynamic_value(variable.to_value())),
                None => Some(
                    InvocationValue {
                        value: copy_value(value),
                        origin: match call.first_origin {
                            Some(origin) => origin,
                            None => ValueOrigin::Dynamic,
                        },
                    },
                ),
            },
            _ => self.evaluate_invocation_value(value, call.span, origin, frames, session, context),
        }
    }

    /// The content of a conditional whose branch is taken.
    fn conditional_content_value(
        &self,
        call: &Call,
        frames: usize,
        session: &mut Session,
        context: &mut EvaluationContext,
    ) -> (r: CallOutcome)
        ensures
            (Ev { out: r@, w: World { s: final(session)@, c: final(context)@ } })
                == semantics::conditional_content(
                *self,
                call@,
                frames as nat,
                World { s: old(session)@, c: old(context)@ },
            ),
            host::follows(old(session)@, final(session)@),
            scope::stays(old(context)@, final(context)@),
        decreases frames, 5int, self, 2int,
    {
        proof {
            reveal(semantics::conditional_content);
            reveal(semantics::content_argument);
        }
        if let Some(body) = call.body {
            return self.evaluate_call_body(body, call.span, frames, session, context);
        }
        if let Some(i) = find_named(call.named, "body") {
            assert(call@.named[i as int] == call.named@[i as int]@);
            return self.evaluate_content_argument(
                &call.named[i].value,
                call.span,
                frames,
                session,
                context,
            );
        }
        if call.positional.len() > 1 {
            assert(call@.positional[1] == call.positional@[1]@);
            return self.evaluate_content_argument(
                &call.positional[1],
                call.span,
                frames,
                session,
                context,
            );
        }
        CallOutcome::Value(IrValue::Content(Vec::new()))
    }

    /// Evaluates an argument as content.
    fn evaluate_content_argument(
        &self,
        value: &IrValue,
        span: SourceSpan,
        frames: usize,
        session: &mut Session,
        context: &mut EvaluationContext,
    ) -> (r: CallOutcome)
        ensures
            (Ev { out: r@, w: World { s: final(session)@, c: final(context)@ } })
                == semantics::content_argument(
                *self,
                value@,
                span,
                frames as nat,
                World { s: old(session)@, c: old(context)@ },
            ),
            host::follows(old(session)@, final(session)@),
            scope::stays(old(context)@, final(context)@),
        decreases frames, 5int, self, 0int,
    {
        proof {
            reveal(semantics::content_argument);
        }
        match self.evaluate_required(value, span, frames, session, context) {
            None => CallOutcome::Failed,
            Some(value) => match value_into_content_nodes(&value, span, session) {
                Some(nodes) => CallOutcome::Value(IrValue::Content(nodes)),
                None => CallOutcome::Failed,
            },
        }
    }

    /// Evaluates a regular builtin of the host.
    fn evaluate_regular_builtin(
        &self,
        call: &Call,
        frames: usize,
        session: &mut Session,
        context: &mut EvaluationContext,
    ) -> (r: CallOutcome)
        ensures
            (Ev { out: r@, w: World { s: final(session)@, c: final(context)@ } })
                == semantics::eval_builtin(
                *self,
                call@,
                frames as nat,
                World { s: old(session)@, c: old(context)@ },
            ),
            host::follows(old(session)@, final(session)@),
            scope::stays(old(context)@, final(context)@),
        decreases frames, 6int, self, 0int,
    {
        proof {
            reveal(semantics::eval_builtin);
            reveal(semantics::builtin_values);
        }
        let policy = match session.ask_policy(
            Query::BuiltinPolicy { name: call.name.to_owned() },
        ) {
            None => return CallOutcome::Failed,
            Some(None) => return CallOutcome::Unresolved,
            Some(Some(policy)) => policy,
        };
        let positional = match self.evaluate_builtin_values(
            call,
            policy,
            frames,
            session,
            context,
        ) {
            Some(values) => values,
            None => return CallOutcome::Failed,
        };
        let named = match self.evaluate_invocation_named(
            call.named,
            call.span,
            frames,
            session,
            context,
        ) {
            Some(named) => named,
            None => return CallOutcome::Failed,
        };
        let has_body = match policy {
            BuiltinBodyPolicy::Reject => call.body.is_some(),
            BuiltinBodyPolicy::BindEvaluatedContent => false,
        };
        match session.ask_value(
            Query::BuiltinCall { name: call.name.to_owned(), positional, named, has_body },
        ) {
            None => CallOutcome::Failed,
            Some(Ok(value)) => CallOutcome::Value(value),
            Some(Err(message)) => session.fail(Fault::Chain, message, call.span),
        }
    }

    /// Evaluates the positional values of a builtin, and its body where it takes one.
    fn evaluate_builtin_values(
        &self,
        call: &Call,
        policy: BuiltinBodyPolicy,
        frames: usize,
        session: &mut Session,
        context: &mut EvaluationContext,
    ) -> (r: Option<Vec<InvocationValue>>)
        ensures
            (Ev { out: views::invocations(r), w: World { s: final(session)@, c: final(context)@ } })
                == semantics::builtin_values(
                *self,
                call@,
                policy,
                frames as nat,
                World { s: old(session)@, c: old(context)@ },
            ),
            host::follows(old(session)@, final(session)@),
            scope::stays(old(context)@, final(context)@),
        decreases frames, 5int, self, 2int,
    {
        proof {
            reveal(semantics::builtin_values);
        }
        let mut values = match self.evaluate_invocation_values(
            call.positional,
            call.span,
            call.first_origin,
            frames, session, context,
        ) {
            Some(values) => values,
            None => return None,
        };
        match (policy, call.body) {
            (BuiltinBodyPolicy::BindEvaluatedContent, Some(body)) => {
                match self.evaluate_body_value(body, call.span, frames, session, context) {
                    Some(value) => {
                        values.push(InvocationValue::static_value(value));
                        Some(values)
                    },
                    None => None,
                }
            },
            _ => Some(values),
        }
    }

    /// Evaluates a function of the document.
    fn evaluate_user_function(
        &self,
        binding: &FunctionBinding,
        call: &Call,
        frames: usize,
        session: &mut Session,
        context: &mut EvaluationContext,
    ) -> (r: CallOutcome)
        ensures
            (Ev { out: r@, w: World { s: final(session)@, c: final(context)@ } })
                == semantics::eval_user_function(
                *self,
                binding@,
                call@,
                frames as nat,
                World { s: old(session)@, c: old(context)@ },
            ),
            host::follows(old(session)@, final(session)@),
            scope::stays(old(context)@, final(context)@),
        decreases frames, 6int, self, 0int,
    {
        proof {
            reveal(semantics::eval_user_function);
            reveal(semantics::bind_parameters);
        }
        let positional = match self.evaluate_values(
            call.positional,
            call.span,
            frames,
            session,
            context,
        ) {
            Some(values) => values,
            None => return CallOutcome::Failed,
        };
        let named = match self.evaluate_named(call.named, call.span, frames, session, context) {
            Some(values) => values,
            None => return CallOutcome::Failed,
        };
        let bound = match self.bind_callable_arguments(
            &binding.parameters,
            positional,
            named,
            call,
            frames, session, context,
        ) {
            Some(bound) => bound,
            None => return CallOutcome::Failed,
        };
        let callable = binding.as_callable();
        self.invoke_bound_callable(&callable, bound, frames, session, context)
    }

    /// Binds the arguments of a function to its parameters.
    fn bind_callable_arguments(
        &self,
        parameters: &LambdaParameters,
        positional: Vec<IrValue>,
        named: Vec<IrNamedArg>,
        call: &Call,
        frames: usize,
        session: &mut Session,
        context: &mut EvaluationContext,
    ) -> (r: Option<BoundLambdaArguments>)
        ensures
            (Ev { out: (match r {
                Some(bound) => Some(bound@),
                None => None,
            }), w: World { s: final(session)@, c: final(context)@ } })
                == semantics::bind_parameters(
                *self,
                parameters@,
                ir::values_view(positional@),
                ir::named_args_view(named@),
                call@,
                frames as nat,
                World { s: old(session)@, c: old(context)@ },
            ),
            host::follows(old(session)@, final(session)@),
            scope::stays(old(context)@, final(context)@),
        decreases frames, 5int, self, 3int,
    {
        proof {
            reveal(semantics::bind_parameters);
            reveal(semantics::bind_body);
        }
        match parameters {
            LambdaParameters::Implicit => {
                if named.len() > 0 {
                    assert(ir::named_args_view(named@)[0] == named@[0]@);
                    session.fault(
                        Fault::Function,
                        "Implicit lambda parameters are positional only".to_owned(),
                        named[0].name_span,
                    );
                    return None;
                }
                let mut arguments = positional;
                if let Some(body) = call.body {
                    match self.evaluate_body_value(body, call.span, frames, session, context) {
                        Some(value) => arguments.push(value),
                        None => return None,
                    }
                }
                Some(BoundLambdaArguments::Implicit(arguments))
            },
            LambdaParameters::Explicit(list) => {
                let names = names_of_parameters(list);
                let too_many = if list.len() < positional.len() {
                    let count = decimal((list.len() + 1) as u64);
                    join3(
                        "Function call has too many positional arguments (received at least ",
                        count.as_str(),
                        ")",
                    )
                } else {
                    "".to_owned()
                };
                let slots = match bind(
                    Style::Parameters,
                    call.name,
                    &names,
                    too_many,
                    raw_arguments(&positional, call.span),
                    &raw_named(&named),
                    call.span,
                    session,
                ) {
                    Some(slots) => slots,
                    None => return None,
                };
                let slots = match self.bind_body_argument(slots, call, frames, session, context) {
                    Some(slots) => slots,
                    None => return None,
                };
                match fill_parameters(list, &slots, session) {
                    Some(values) => Some(BoundLambdaArguments::Explicit(values)),
                    None => None,
                }
            },
        }
    }

    /// Gives the body of a call to the last parameter.
    fn bind_body_argument(
        &self,
        slots: Vec<Option<Argument>>,
        call: &Call,
        frames: usize,
        session: &mut Session,
        context: &mut EvaluationContext,
    ) -> (r: Option<Vec<Option<Argument>>>)
        ensures
            (Ev {
                out: (match r {
                    Some(slots) => Some(binding::slots_view(slots@)),
                    None => None,
                }),
                w: World { s: final(session)@, c: final(context)@ },
            }) == semantics::bind_body(
                *self,
                binding::slots_view(slots@),
                call@,
                frames as nat,
                World { s: old(session)@, c: old(context)@ },
            ),
            r matches Some(bound) ==> bound@.len() == slots@.len(),
            host::follows(old(session)@, final(session)@),
            scope::stays(old(context)@, final(context)@),
        decreases frames, 5int, self, 2int,
    {
        proof {
            reveal(semantics::bind_body);
        }
        let body = match call.body {
            Some(body) => body,
            None => return Some(slots),
        };
        if slots.len() == 0 {
            session.fault(
                Fault::Function,
                "A block argument requires a final function parameter".to_owned(),
                call.span,
            );
            return None;
        }
        let last = slots.len() - 1;
        assert(binding::slots_view(slots@).last() == binding::slot_view(slots@[last as int]));
        if slots[last].is_some() {
            session.fault(
                Fault::Function,
                "A block argument collides with the function's final parameter binding".to_owned(),
                call.span,
            );
            return None;
        }
        match self.evaluate_body_value(body, call.span, frames, session, context) {
            Some(value) => {
                let mut slots = slots;
                let ghost given = binding::slots_view(slots@);
                slots.set(
                    last,
                    Some(
                        Argument { value: InvocationValue::static_value(value), span: call.span },
                    ),
                );
                assert(binding::slots_view(slots@) =~= given.update(
                    last as int,
                    binding::slot_view(slots@[last as int]),
                ));
                Some(slots)
            },
            None => None,
        }
    }

    /// Evaluates an argument and assigns it to a variable.
    fn assign_evaluated(
        &self,
        name: String,
        value: &IrValue,
        span: SourceSpan,
        frames: usize,
        session: &mut Session,
        context: &mut EvaluationContext,
    ) -> (r: CallOutcome)
        ensures
            (Ev { out: r@, w: World { s: final(session)@, c: final(context)@ } })
                == semantics::assign_argument(
                *self,
                name@,
                value@,
                span,
                frames as nat,
                World { s: old(session)@, c: old(context)@ },
            ),
            host::follows(old(session)@, final(session)@),
            scope::stays(old(context)@, final(context)@),
        decreases frames, 5int, self, 0int,
    {
        proof {
            reveal(semantics::assign_argument);
        }
        match self.evaluate_required(value, span, frames, session, context) {
            Some(v) => {
                context.set_value(name, v);
                CallOutcome::NoValue
            },
            None => CallOutcome::Failed,
        }
    }

    /// Evaluates a variable called with one argument.
    fn handle_variable_reassignment_value(
        &self,
        call: &Call,
        frames: usize,
        session: &mut Session,
        context: &mut EvaluationContext,
    ) -> (r: CallOutcome)
        requires
            call@.positional.len() == 1,
        ensures
            (Ev { out: r@, w: World { s: final(session)@, c: final(context)@ } })
                == semantics::eval_reassignment(
                *self,
                call@,
                frames as nat,
                World { s: old(session)@, c: old(context)@ },
            ),
            host::follows(old(session)@, final(session)@),
            scope::stays(old(context)@, final(context)@),
        decreases frames, 6int, self, 0int,
    {
        proof {
            reveal(semantics::eval_reassignment);
            reveal(semantics::assign_argument);
        }
        assert(call@.positional[0] == call.positional@[0]@);
        self.assign_evaluated(
            call.name.to_owned(),
            &call.positional[0],
            call.span,
            frames,
            session,
            context,
        )
    }

    /// Evaluates `.var`.
    fn handle_var_declaration(
        &self,
        call: &Call,
        frames: usize,
        session: &mut Session,
        context: &mut EvaluationContext,
    ) -> (r: CallOutcome)
        ensures
            (Ev { out: r@, w: World { s: final(session)@, c: final(context)@ } })
                == semantics::eval_var(
                *self,
                call@,
                frames as nat,
                World { s: old(session)@, c: old(context)@ },
            ),
            host::follows(old(session)@, final(session)@),
            scope::stays(old(context)@, final(context)@),
        decreases frames, 6int, self, 0int,
    {
        proof {
            reveal(semantics::eval_var);
            reveal(semantics::assign_argument);
        }
        let declared = if call.positional.len() > 0 {
            assert(call@.positional[0] == call.positional@[0]@);
            name_of_declaration(&call.positional[0])
        } else {
            None
        };
        let name = match declared {
            Some(name) => name,
            None => {
                report_declaration(call.span, session);
                return CallOutcome::Failed;
            },
        };
        if !is_valid_normal_call_name(name.as_str()) {
            return session.fail(
                Fault::VarName,
                join3(
                    "Invalid variable name `",
                    name.as_str(),
                    "`: must match `[A-Za-z_][A-Za-z0-9_-]*`",
                ),
                call.span,
            );
        }
        if let Some(body) = call.body {
            let outcome = match body {
                CallBody::Block(nodes) => self.evaluate_callable_body_value(
                    nodes,
                    frames,
                    session,
                    context,
                ),
                CallBody::Inline(_) => self.evaluate_call_body(
                    body,
                    call.span,
                    frames,
                    session,
                    context,
                ),
            };
            return match outcome {
                CallOutcome::Value(value) => {
                    context.set_value(name, value);
                    CallOutcome::NoValue
                },
                _ => CallOutcome::Failed,
            };
        }
        if let Some(i) = find_named(call.named, "body") {
            assert(call@.named[i as int] == call.named@[i as int]@);
            return self.assign_evaluated(
                name,
                &call.named[i].value,
                call.span,
                frames,
                session,
                context,
            );
        }
        if let Some(i) = find_named(call.named, "value") {
            assert(call@.named[i as int] == call.named@[i as int]@);
            return self.assign_evaluated(
                name,
                &call.named[i].value,
                call.span,
                frames,
                session,
                context,
            );
        }
        if call.positional.len() > 1 {
            assert(call@.positional[1] == call.positional@[1]@);
            return self.assign_evaluated(
                name,
                &call.positional[1],
                call.span,
                frames,
                session,
                context,
            );
        }
        report_declaration(call.span, session);
        CallOutcome::Failed
    }

    /// Declares a function.
    pub fn handle_function_declaration(
        &self,
        name: &IrValue,
        parameters: &Vec<IrParameter>,
        body: &Vec<IrNode>,
        span: SourceSpan,
        session: &mut Session,
        context: &mut EvaluationContext,
    )
        ensures
            (World { s: final(session)@, c: final(context)@ }) == semantics::declare_function(
                name@,
                ir::parameters_view(parameters@),
                ir::nodes_view(body@),
                span,
                World { s: old(session)@, c: old(context)@ },
            ),
            host::follows(old(session)@, final(session)@),
            scope::stays(old(context)@, final(context)@),
    {
        proof {
            reveal(semantics::declare_function);
        }
        let name = match name_of_declaration(name) {
            Some(name) => name,
            None => {
                session.fault(
                    Fault::Function,
                    "Function name must be a normal identifier".to_owned(),
                    span,
                );
                return;
            },
        };
        if !is_valid_normal_call_name(name.as_str()) {
            session.fault(
                Fault::Function,
                join3("Invalid function name `", name.as_str(), "`"),
                span,
            );
            return;
        }
        if body.len() == 0 {
            session.fault(
                Fault::Function,
                "Function declaration requires a non-empty body".to_owned(),
                span,
            );
            return;
        }
        if let Some(i) = duplicate_parameter(parameters) {
            assert(ir::parameters_view(parameters@)[i as int] == parameters@[i as int]@);
            session.fault(
                Fault::Function,
                join3("Duplicate function parameter `", parameters[i].name.as_str(), "`"),
                parameters[i].span,
            );
            return;
        }
        let lambda = if parameters.len() == 0 {
            LambdaParameters::Implicit
        } else {
            LambdaParameters::Explicit(copy_parameters(parameters))
        };
        let capture = context.capture_snapshot();
        context.set_function_binding(
            name,
            FunctionBinding {
                parameters: lambda,
                body: copy_nodes(body),
                declaration_span: span,
                capture: Some(Box::new(capture)),
            },
        );
    }
}

/// The names of parameters.
fn names_of_parameters(parameters: &Vec<IrParameter>) -> (r: Vec<String>)
    ensures
        text::strings_view(r@) == semantics::parameter_names(ir::parameters_view(parameters@)),
        r@.len() == parameters@.len(),
{
    let ghost want = semantics::parameter_names(ir::parameters_view(parameters@));
    let mut r: Vec<String> = Vec::new();
    let mut i: usize = 0;
    while i < parameters.len()
        invariant
            0 <= i <= parameters@.len(),
            want == semantics::parameter_names(ir::parameters_view(parameters@)),
            r@.len() == i,
            forall|j: int| 0 <= j < i ==> (#[trigger] r@[j])@ == want[j],
        decreases parameters@.len() - i,
    {
        r.push(parameters[i].name.clone());
        i += 1;
    }
    assert(text::strings_view(r@) =~= want);
    r
}

/// The values of parameters: what they were given, or nothing where they are optional.
fn fill_parameters(
    parameters: &Vec<IrParameter>,
    slots: &Vec<Option<Argument>>,
    session: &mut Session,
) -> (r: Option<Vec<IrValue>>)
    requires
        slots@.len() == parameters@.len(),
    ensures
        (views::values(r), final(session)@) == semantics::filled(
            ir::parameters_view(parameters@),
            binding::slots_view(slots@),
            parameters@.len(),
            old(session)@,
        ),
        host::follows(old(session)@, final(session)@),
{
    let ghost all = ir::parameters_view(parameters@);
    let ghost given = binding::slots_view(slots@);
    let ghost s0 = session@;
    proof {
        reveal(semantics::filled);
    }
    let mut values: Vec<IrValue> = Vec::new();
    let mut i: usize = 0;
    while i < parameters.len()
        invariant
            host::follows(old(session)@, session@),
            0 <= i <= parameters@.len(),
            slots@.len() == parameters@.len(),
            all == ir::parameters_view(parameters@),
            given == binding::slots_view(slots@),
            s0 == old(session)@,
            session@ == s0,
            semantics::filled(all, given, i as nat, s0) == (
                Some(ir::values_view(values@)),
                session@,
            ),
        decreases parameters@.len() - i,
    {
        proof {
            reveal(semantics::filled);
        }
        assert(all[i as int] == parameters@[i as int]@);
        assert(given[i as int] == binding::slot_view(slots@[i as int]));
        match given_value(&slots[i]) {
            Some(value) => values.push(value),
            None => {
                if parameters[i].optional {
                    values.push(IrValue::Nothing);
                } else {
                    session.fault(
                        Fault::Function,
                        join3("Missing required argument `", parameters[i].name.as_str(), "`"),
                        parameters[i].name_span,
                    );
                    proof {
                        lemma_filled_stops(all, given, (i + 1) as nat, all.len(), s0);
                    }
                    return None;
                }
            },
        }
        i += 1;
    }
    Some(values)
}

/// Where a required parameter has no value, nothing behind it is looked at.
proof fn lemma_filled_stops(
    all: Seq<ParameterView>,
    slots: Seq<Option<binding::ArgumentView>>,
    i: nat,
    n: nat,
    s: SessionView,
)
    requires
        i <= n,
        semantics::filled(all, slots, i, s).0 is None,
    ensures
        semantics::filled(all, slots, n, s) == semantics::filled(all, slots, i, s),
    decreases n,
{
    reveal(semantics::filled);
    if i < n {
        lemma_filled_stops(all, slots, i, (n - 1) as nat, s);
    }
}

} // verus!
