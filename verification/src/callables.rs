//! Callables: how they are made, and what applying them gives.

use vstd::prelude::*;

use crate::calls::{bind_invocation_arguments, scalar_boolean_value, BoundLambdaArguments};
use crate::collection;
use crate::collection::{Keyed, KeyedView, SortKey};
use crate::diagnostic::Fault;
use crate::dispatch::report_depth;
use crate::evaluator::report_no_value;
use crate::host;
use crate::host::Session;
use crate::ir;
use crate::ir::{CallableView, IrCallable, IrNode, IrParameter, IrValue, SourceSpan, ValueView};
use crate::ir_copy::{copy_nodes, copy_parameters, copy_value};
use crate::materialize::value_source_span;
use crate::outcome::{CallOutcome, OutcomeView};
use crate::scope;
use crate::scope::{EvaluationContext, LambdaScope};
use crate::semantics;
use crate::semantics::{Ev, Evaluator, World};
use crate::sequences;
use crate::views;

verus! {

broadcast use {
    crate::ir::group_ir_views,
    crate::host::group_host_views,
    host::group_follows,
    scope::group_stays,
};

/// Makes a callable in a scope.
pub fn make_callable(
    parameters: Option<&Vec<IrParameter>>,
    body: &Vec<IrNode>,
    span: SourceSpan,
    context: &EvaluationContext,
) -> (r: IrCallable)
    ensures
        r@ == semantics::callable_here(
            views::parameters(parameters),
            ir::nodes_view(body@),
            span,
            context@,
        ),
{
    IrCallable {
        parameters: match parameters {
            Some(list) => Some(copy_parameters(list)),
            None => None,
        },
        body: copy_nodes(body),
        span,
        capture: Some(Box::new(context.capture_snapshot())),
    }
}

/// One value as arguments.
pub fn one_argument(value: IrValue) -> (r: Vec<IrValue>)
    ensures
        ir::values_view(r@) == seq![value@],
{
    let mut r: Vec<IrValue> = Vec::new();
    r.push(value);
    assert(ir::values_view(r@) =~= seq![value@]);
    r
}

/// Gives parameters their values.
fn assign_parameters(
    context: &mut EvaluationContext,
    parameters: &Vec<IrParameter>,
    values: Vec<IrValue>,
)
    ensures
        final(context)@ == semantics::assign_all(
            old(context)@,
            ir::parameters_view(parameters@),
            ir::values_view(values@),
            if parameters@.len() <= values@.len() {
                parameters@.len()
            } else {
                values@.len()
            },
        ),
        scope::stays(old(context)@, final(context)@),
{
    let ghost all = ir::parameters_view(parameters@);
    let ghost given = ir::values_view(values@);
    let ghost c0 = context@;
    let mut i: usize = 0;
    while i < parameters.len() && i < values.len()
        invariant
            scope::stays(old(context)@, context@),
            0 <= i <= parameters@.len(),
            i <= values@.len(),
            all == ir::parameters_view(parameters@),
            given == ir::values_view(values@),
            context@ == semantics::assign_all(c0, all, given, i as nat),
        decreases parameters@.len() - i,
    {
        assert(all[i as int] == parameters@[i as int]@);
        assert(given[i as int] == values@[i as int]@);
        context.set_value(parameters[i].name.clone(), copy_value(&values[i]));
        i += 1;
    }
}

/// Where an element fails, nothing behind it is visited.
proof fn lemma_map_stops(
    e: Evaluator,
    all: Seq<ValueView>,
    callable: CallableView,
    destructuring: bool,
    span: SourceSpan,
    i: int,
    f: nat,
    w: World,
)
    requires
        0 <= i <= all.len(),
        semantics::map_values(e, all.take(i), callable, destructuring, span, f, w).out is Err,
    ensures
        semantics::map_values(e, all, callable, destructuring, span, f, w)
            == semantics::map_values(e, all.take(i), callable, destructuring, span, f, w),
    decreases all.len() - i,
{
    reveal(semantics::map_values);
    reveal(semantics::invoke);
    if i == all.len() {
        sequences::lemma_take_all(all);
    } else {
        sequences::lemma_take_step(all, i);
        lemma_map_stops(e, all, callable, destructuring, span, i + 1, f, w);
    }
}

/// Where an element fails, nothing behind it is visited.
proof fn lemma_filter_stops(
    e: Evaluator,
    all: Seq<ValueView>,
    callable: CallableView,
    span: SourceSpan,
    i: int,
    f: nat,
    w: World,
)
    requires
        0 <= i <= all.len(),
        semantics::filter_values(e, all.take(i), callable, span, f, w).out is Err,
    ensures
        semantics::filter_values(e, all, callable, span, f, w) == semantics::filter_values(
            e,
            all.take(i),
            callable,
            span,
            f,
            w,
        ),
    decreases all.len() - i,
{
    reveal(semantics::filter_values);
    reveal(semantics::invoke);
    if i == all.len() {
        sequences::lemma_take_all(all);
    } else {
        sequences::lemma_take_step(all, i);
        lemma_filter_stops(e, all, callable, span, i + 1, f, w);
    }
}

/// Where an element fails, nothing behind it is visited.
proof fn lemma_key_stops(
    e: Evaluator,
    all: Seq<ValueView>,
    callable: Option<CallableView>,
    span: SourceSpan,
    i: int,
    f: nat,
    w: World,
)
    requires
        0 <= i <= all.len(),
        semantics::key_values(e, all.take(i), callable, span, f, w).out is Err,
    ensures
        semantics::key_values(e, all, callable, span, f, w) == semantics::key_values(
            e,
            all.take(i),
            callable,
            span,
            f,
            w,
        ),
    decreases all.len() - i,
{
    reveal(semantics::key_values);
    reveal(semantics::sort_value);
    if i == all.len() {
        sequences::lemma_take_all(all);
    } else {
        sequences::lemma_take_step(all, i);
        lemma_key_stops(e, all, callable, span, i + 1, f, w);
    }
}

impl Evaluator {
    /// Applies a callable to arguments: it enters a frame, where one is left.
    pub fn invoke_callable(
        &self,
        callable: &IrCallable,
        arguments: Vec<IrValue>,
        destructuring: bool,
        span: SourceSpan,
        frames: usize,
        session: &mut Session,
        context: &EvaluationContext,
    ) -> (r: CallOutcome)
        ensures
            (Ev { out: r@, w: World { s: final(session)@, c: context@ } }) == semantics::invoke(
                *self,
                callable@,
                ir::values_view(arguments@),
                destructuring,
                span,
                frames as nat,
                World { s: old(session)@, c: context@ },
            ),
            host::follows(old(session)@, final(session)@),
        decreases frames, 0int, self, 0int,
    {
        proof {
            reveal(semantics::invoke);
            reveal(semantics::invoke_bound);
        }
        if frames == 0 {
            return report_depth(
                self.limits.max_evaluation_depth,
                span,
                session,
            );
        }
        let parameters = match &callable.parameters {
            Some(list) => Some(list),
            None => None,
        };
        match bind_invocation_arguments(parameters, arguments, destructuring, span, session) {
            Some(bound) => self.invoke_bound_callable(
                callable,
                bound,
                frames - 1,
                session,
                context,
            ),
            None => CallOutcome::Failed,
        }
    }

    /// Evaluates the body of a callable whose arguments are bound.
    pub fn invoke_bound_callable(
        &self,
        callable: &IrCallable,
        bound: BoundLambdaArguments,
        frames: usize,
        session: &mut Session,
        context: &EvaluationContext,
    ) -> (r: CallOutcome)
        ensures
            (Ev { out: r@, w: World { s: final(session)@, c: context@ } })
                == semantics::invoke_bound(
                *self,
                callable@,
                bound@,
                frames as nat,
                World { s: old(session)@, c: context@ },
            ),
            host::follows(old(session)@, final(session)@),
        decreases frames, 5int, self, 0int,
    {
        proof {
            reveal(semantics::invoke_bound);
            reveal(semantics::invocation_scope);
        }
        let definition = match &callable.capture {
            Some(capture) => EvaluationContext::from_capture(capture),
            None => EvaluationContext::new(),
        };
        let base = EvaluationContext::with_caller_overlay(definition, context);
        let mut child = base.child();
        match bound {
            BoundLambdaArguments::Explicit(values) => {
                child.set_lambda_scope(LambdaScope::Explicit);
                if let Some(list) = &callable.parameters {
                    assign_parameters(&mut child, list, values);
                }
            },
            BoundLambdaArguments::Implicit(values) => {
                child.set_lambda_scope(LambdaScope::Implicit(values));
            },
        }
        assert(child@ == semantics::invocation_scope(callable@, bound@, context@));
        self.evaluate_callable_body_value(&callable.body, frames, session, &mut child)
    }

    /// Applies a callable to elements, from the first on.
    pub fn map_elements(
        &self,
        elements: &Vec<IrValue>,
        callable: &IrCallable,
        destructuring: bool,
        span: SourceSpan,
        frames: usize,
        session: &mut Session,
        context: &EvaluationContext,
    ) -> (r: Result<Vec<IrValue>, CallOutcome>)
        ensures
            (Ev {
                out: (match r {
                    Ok(values) => Ok(ir::values_view(values@)),
                    Err(out) => Err(out@),
                }),
                w: World { s: final(session)@, c: context@ },
            }) == semantics::map_values(
                *self,
                ir::values_view(elements@),
                callable@,
                destructuring,
                span,
                frames as nat,
                World { s: old(session)@, c: context@ },
            ),
            host::follows(old(session)@, final(session)@),
        decreases frames, 5int, self, 0int,
    {
        proof {
            reveal(semantics::map_values);
            reveal(semantics::invoke);
        }
        let ghost all = ir::values_view(elements@);
        let ghost w0 = World { s: session@, c: context@ };
        let mut results: Vec<IrValue> = Vec::new();
        let mut i: usize = 0;
        assert(all.take(0) =~= Seq::empty());
        while i < elements.len()
            invariant
                host::follows(old(session)@, session@),
                0 <= i <= elements@.len(),
                all == ir::values_view(elements@),
                w0 == (World { s: old(session)@, c: context@ }),
                semantics::map_values(
                    *self,
                    all.take(i as int),
                    callable@,
                    destructuring,
                    span,
                    frames as nat,
                    w0,
                ) == (Ev {
                    out: Ok::<Seq<ValueView>, OutcomeView>(ir::values_view(results@)),
                    w: World { s: session@, c: context@ },
                }),
            decreases elements@.len() - i,
        {
            proof {
                reveal(semantics::map_values);
                reveal(semantics::invoke);
                sequences::lemma_take_step(all, i as int);
            }
            let argument = one_argument(copy_value(&elements[i]));
            match self.invoke_callable(
                callable,
                argument,
                destructuring,
                span,
                frames,
                session,
                context,
            ) {
                CallOutcome::Value(value) => results.push(value),
                out => {
                    proof {
                        lemma_map_stops(
                            *self,
                            all,
                            callable@,
                            destructuring,
                            span,
                            i + 1,
                            frames as nat,
                            w0,
                        );
                    }
                    return match out {
                        CallOutcome::NoValue => {
                            report_no_value(span, session);
                            Err(CallOutcome::Failed)
                        },
                        out => Err(out),
                    };
                },
            }
            i += 1;
        }
        proof {
            sequences::lemma_take_all(all);
        }
        Ok(results)
    }

    /// Keeps the elements that a predicate accepts.
    pub fn filter_elements(
        &self,
        elements: &Vec<IrValue>,
        callable: &IrCallable,
        span: SourceSpan,
        frames: usize,
        session: &mut Session,
        context: &EvaluationContext,
    ) -> (r: Result<Vec<IrValue>, CallOutcome>)
        ensures
            (Ev {
                out: (match r {
                    Ok(values) => Ok(ir::values_view(values@)),
                    Err(out) => Err(out@),
                }),
                w: World { s: final(session)@, c: context@ },
            }) == semantics::filter_values(
                *self,
                ir::values_view(elements@),
                callable@,
                span,
                frames as nat,
                World { s: old(session)@, c: context@ },
            ),
            host::follows(old(session)@, final(session)@),
        decreases frames, 5int, self, 0int,
    {
        proof {
            reveal(semantics::filter_values);
            reveal(semantics::invoke);
        }
        let ghost all = ir::values_view(elements@);
        let ghost w0 = World { s: session@, c: context@ };
        let mut results: Vec<IrValue> = Vec::new();
        let mut i: usize = 0;
        assert(all.take(0) =~= Seq::empty());
        while i < elements.len()
            invariant
                host::follows(old(session)@, session@),
                0 <= i <= elements@.len(),
                all == ir::values_view(elements@),
                w0 == (World { s: old(session)@, c: context@ }),
                semantics::filter_values(
                    *self,
                    all.take(i as int),
                    callable@,
                    span,
                    frames as nat,
                    w0,
                ) == (Ev {
                    out: Ok::<Seq<ValueView>, OutcomeView>(ir::values_view(results@)),
                    w: World { s: session@, c: context@ },
                }),
            decreases elements@.len() - i,
        {
            proof {
                sequences::lemma_take_step(all, i as int);
            }
            proof {
                reveal(semantics::filter_values);
                reveal(semantics::invoke);
            }
            let argument = one_argument(copy_value(&elements[i]));
            match self.invoke_callable(callable, argument, true, span, frames, session, context) {
                CallOutcome::Value(v) => match scalar_boolean_value(&v) {
                    Some(keep) => {
                        if keep {
                            results.push(copy_value(&elements[i]));
                        }
                    },
                    None => {
                        proof {
                            lemma_filter_stops(
                                *self,
                                all,
                                callable@,
                                span,
                                i + 1,
                                frames as nat,
                                w0,
                            );
                        }
                        session.fault(
                            Fault::Iteration,
                            "`.filter` predicate must return Boolean".to_owned(),
                            value_source_span(&v, callable.span),
                        );
                        return Err(CallOutcome::Failed);
                    },
                },
                out => {
                    proof {
                        lemma_filter_stops(*self, all, callable@, span, i + 1, frames as nat, w0);
                    }
                    return match out {
                        CallOutcome::NoValue => {
                            report_no_value(callable.span, session);
                            Err(CallOutcome::Failed)
                        },
                        out => Err(out),
                    };
                },
            }
            i += 1;
        }
        proof {
            sequences::lemma_take_all(all);
        }
        Ok(results)
    }

    /// The value that an element is sorted by.
    fn sort_key_value(
        &self,
        element: &IrValue,
        callable: &Option<IrCallable>,
        span: SourceSpan,
        frames: usize,
        session: &mut Session,
        context: &EvaluationContext,
    ) -> (r: CallOutcome)
        ensures
            (Ev { out: r@, w: World { s: final(session)@, c: context@ } })
                == semantics::sort_value(
                *self,
                element@,
                views::callable(*callable),
                span,
                frames as nat,
                World { s: old(session)@, c: context@ },
            ),
            host::follows(old(session)@, final(session)@),
        decreases frames, 1int, self, 0int,
    {
        proof {
            reveal(semantics::sort_value);
            reveal(semantics::invoke);
        }
        match callable {
            None => CallOutcome::Value(copy_value(element)),
            Some(callable) => {
                let argument = one_argument(copy_value(element));
                match self.invoke_callable(
                    callable,
                    argument,
                    true,
                    span,
                    frames,
                    session,
                    context,
                ) {
                    CallOutcome::NoValue => {
                        report_no_value(callable.span, session);
                        CallOutcome::Failed
                    },
                    out => out,
                }
            },
        }
    }

    /// Finds the keys that elements are sorted by.
    pub fn key_callable_values(
        &self,
        elements: &Vec<IrValue>,
        callable: &Option<IrCallable>,
        span: SourceSpan,
        frames: usize,
        session: &mut Session,
        context: &EvaluationContext,
    ) -> (r: Result<Vec<Keyed>, CallOutcome>)
        ensures
            (Ev {
                out: (match r {
                    Ok(keyed) => Ok(collection::keyed_view(keyed@)),
                    Err(out) => Err(out@),
                }),
                w: World { s: final(session)@, c: context@ },
            }) == semantics::key_values(
                *self,
                ir::values_view(elements@),
                views::callable(*callable),
                span,
                frames as nat,
                World { s: old(session)@, c: context@ },
            ),
            host::follows(old(session)@, final(session)@),
        decreases frames, 5int, self, 0int,
    {
        proof {
            reveal(semantics::key_values);
            reveal(semantics::sort_value);
        }
        let ghost all = ir::values_view(elements@);
        let ghost by = views::callable(*callable);
        let ghost w0 = World { s: session@, c: context@ };
        let mut results: Vec<Keyed> = Vec::new();
        let mut i: usize = 0;
        assert(all.take(0) =~= Seq::empty());
        assert(collection::keyed_view(results@) =~= Seq::empty());
        while i < elements.len()
            invariant
                host::follows(old(session)@, session@),
                0 <= i <= elements@.len(),
                all == ir::values_view(elements@),
                by == views::callable(*callable),
                results@.len() == i,
                w0 == (World { s: old(session)@, c: context@ }),
                semantics::key_values(*self, all.take(i as int), by, span, frames as nat, w0) == (
                Ev {
                    out: Ok::<Seq<KeyedView>, OutcomeView>(collection::keyed_view(results@)),
                    w: World { s: session@, c: context@ },
                }),
            decreases elements@.len() - i,
        {
            proof {
                sequences::lemma_take_step(all, i as int);
            }
            proof {
                reveal(semantics::key_values);
                reveal(semantics::sort_value);
            }
            match self.sort_key_value(&elements[i], callable, span, frames, session, context) {
                CallOutcome::Value(v) => match SortKey::try_from_value(&v) {
                    Ok(key) => {
                        let ghost before = results@;
                        results.push(Keyed { value: copy_value(&elements[i]), key });
                        assert(collection::keyed_view(results@) =~= collection::keyed_view(
                            before,
                        ).push(results@[i as int]@));
                    },
                    Err(message) => {
                        session.fault(
                            Fault::Iteration,
                            message.to_owned(),
                            value_source_span(&v, span),
                        );
                        proof {
                            lemma_key_stops(*self, all, by, span, i + 1, frames as nat, w0);
                        }
                        return Err(CallOutcome::Failed);
                    },
                },
                out => {
                    proof {
                        lemma_key_stops(*self, all, by, span, i + 1, frames as nat, w0);
                    }
                    return Err(out);
                },
            }
            i += 1;
        }
        proof {
            sequences::lemma_take_all(all);
        }
        Ok(results)
    }
}

} // verus!
