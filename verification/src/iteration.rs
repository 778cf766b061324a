//! Lambdas and the calls that apply them.

use vstd::prelude::*;

use crate::binding::{optionality_operands, transform_operands};
use crate::callables::{make_callable, one_argument};
use crate::calls;
use crate::calls::{repeat_count, scalar_boolean_value, validate_iteration_lambda};
use crate::collection;
use crate::collection::{
    check_materialized_elements, coerce_iterable, materialize_range, sorted_values, Keyed,
};
use crate::diagnostic::Fault;
use crate::evaluator::{report_no_value, Call, CallBody};
use crate::host;
use crate::host::Session;
use crate::ir;
use crate::ir::{IrCallable, IrRange, IrValue, SourceSpan};
use crate::ir_copy::copy_value;
use crate::layout::lambda_place;
use crate::materialize::value_source_span;
use crate::outcome::CallOutcome;
use crate::scope;
use crate::scope::EvaluationContext;
use crate::semantics;
use crate::semantics::{Ev, Evaluator, World};
use crate::text::{decimal, join3, join5, same_text};
use crate::views;

verus! {

broadcast use {
    crate::ir::group_ir_views,
    crate::host::group_host_views,
    host::group_follows,
    scope::group_stays,
};

/// The error of a call of `.let`, `.foreach` or `.repeat` that is not shaped as it must be.
fn lambda_call_problem(call: &Call, count: &str, inline: &str) -> (r: Option<(String, SourceSpan)>)
    ensures
        (match r {
            Some((message, span)) => Some((message@, span)),
            None => None,
        }) == semantics::lambda_call_error(call@, count@, inline@),
        r is None ==> call.positional@.len() == 1 && (call.body matches Some(CallBody::Block(_))),
{
    proof {
        reveal(semantics::lambda_call_error);
    }
    if call.positional.len() != 1 {
        let received = decimal(call.positional.len() as u64);
        return Some((join3(count, received.as_str(), ")"), call.span));
    }
    if call.named.len() > 0 {
        assert(call@.named[0] == call.named@[0]@);
        return Some(
            (
                join5(
                    "Unknown named argument `",
                    call.named[0].name.as_str(),
                    "` for `.",
                    call.name,
                    "`",
                ),
                call.named[0].name_span,
            ),
        );
    }
    match call.body {
        Some(CallBody::Block(_)) => None,
        Some(CallBody::Inline(_)) => Some((inline.to_owned(), call.span)),
        None => Some((join3("`.", call.name, "` requires a block lambda body"), call.span)),
    }
}

/// Whether all keys can be compared with the first.
fn all_comparable(keyed: &Vec<Keyed>) -> (r: bool)
    ensures
        r == semantics::comparable(collection::keyed_view(keyed@)),
{
    let ghost all = collection::keyed_view(keyed@);
    let mut i: usize = 1;
    while i < keyed.len()
        invariant
            1 <= i,
            i <= keyed@.len() || (i == 1 && keyed@.len() == 0),
            all == collection::keyed_view(keyed@),
            forall|j: int|
                1 <= j < i && j < all.len() ==> collection::same_kind(
                    all[0].key,
                    (#[trigger] all[j]).key,
                ),
        decreases keyed@.len() - i,
    {
        assert(all[0] == keyed@[0]@);
        assert(all[i as int] == keyed@[i as int]@);
        if !keyed[0].key.same_kind(&keyed[i].key) {
            return false;
        }
        i += 1;
    }
    true
}

impl Evaluator {
    /// Applies a callable to elements and collects what it gives.
    pub fn map_callable_values(
        &self,
        elements: &Vec<IrValue>,
        callable: &IrCallable,
        destructuring: bool,
        span: SourceSpan,
        frames: usize,
        session: &mut Session,
        context: &EvaluationContext,
    ) -> (r: CallOutcome)
        ensures
            (Ev { out: r@, w: World { s: final(session)@, c: context@ } })
                == semantics::map_outcome(
                *self,
                ir::values_view(elements@),
                callable@,
                destructuring,
                span,
                frames as nat,
                World { s: old(session)@, c: context@ },
            ),
            host::follows(old(session)@, final(session)@),
        decreases frames, 5int, self, 1int,
    {
        proof {
            reveal(semantics::map_outcome);
        }
        let limit = self.limits.max_materialized_elements;
        if !check_materialized_elements(limit, elements.len() as u64, span, session) {
            return CallOutcome::Failed;
        }
        match self.map_elements(elements, callable, destructuring, span, frames, session, context) {
            Ok(values) => CallOutcome::Value(IrValue::Collection(values)),
            Err(out) => out,
        }
    }

    /// Keeps the elements that a predicate wants.
    pub fn filter_callable_values(
        &self,
        elements: &Vec<IrValue>,
        callable: &IrCallable,
        span: SourceSpan,
        frames: usize,
        session: &mut Session,
        context: &EvaluationContext,
    ) -> (r: CallOutcome)
        ensures
            (Ev { out: r@, w: World { s: final(session)@, c: context@ } })
                == semantics::filter_outcome(
                *self,
                ir::values_view(elements@),
                callable@,
                span,
                frames as nat,
                World { s: old(session)@, c: context@ },
            ),
            host::follows(old(session)@, final(session)@),
        decreases frames, 5int, self, 1int,
    {
        proof {
            reveal(semantics::filter_outcome);
        }
        let limit = self.limits.max_materialized_elements;
        if !check_materialized_elements(limit, elements.len() as u64, span, session) {
            return CallOutcome::Failed;
        }
        match self.filter_elements(elements, callable, span, frames, session, context) {
            Ok(values) => CallOutcome::Value(IrValue::Collection(values)),
            Err(out) => out,
        }
    }

    /// Sorts elements by the keys that a callable gives, or by themselves.
    pub fn sort_iterable_values(
        &self,
        elements: &Vec<IrValue>,
        callable: &Option<IrCallable>,
        span: SourceSpan,
        frames: usize,
        session: &mut Session,
        context: &EvaluationContext,
    ) -> (r: CallOutcome)
        ensures
            (Ev { out: r@, w: World { s: final(session)@, c: context@ } })
                == semantics::sort_outcome(
                *self,
                ir::values_view(elements@),
                views::callable(*callable),
                span,
                frames as nat,
                World { s: old(session)@, c: context@ },
            ),
            host::follows(old(session)@, final(session)@),
        decreases frames, 5int, self, 1int,
    {
        proof {
            reveal(semantics::sort_outcome);
        }
        let limit = self.limits.max_materialized_elements;
        if !check_materialized_elements(limit, elements.len() as u64, span, session) {
            return CallOutcome::Failed;
        }
        match self.key_callable_values(elements, callable, span, frames, session, context) {
            Err(out) => out,
            Ok(keyed) => {
                if all_comparable(&keyed) {
                    CallOutcome::Value(IrValue::Collection(sorted_values(keyed)))
                } else {
                    session.fail(
                        Fault::Iteration,
                        "`.sorted` does not compare heterogeneous key types".to_owned(),
                        span,
                    )
                }
            },
        }
    }

    /// Evaluates `.map`, `.filter` and `.sorted`.
    pub fn evaluate_collection_transform(
        &self,
        call: &Call,
        frames: usize,
        session: &mut Session,
        context: &mut EvaluationContext,
    ) -> (r: CallOutcome)
        ensures
            (Ev { out: r@, w: World { s: final(session)@, c: final(context)@ } })
                == semantics::eval_transform(
                *self,
                call@,
                frames as nat,
                World { s: old(session)@, c: old(context)@ },
            ),
            host::follows(old(session)@, final(session)@),
            scope::stays(old(context)@, final(context)@),
        decreases frames, 6int, self, 0int,
    {
        proof {
            reveal(semantics::eval_transform);
            reveal(semantics::transform_callback);
            reveal(semantics::transform_elements);
        }
        let (raw, raw_callback) = match transform_operands(
            call.name,
            call.positional,
            call.named,
            call.body.is_some(),
            call.span,
            session,
        ) {
            Some(operands) => operands,
            None => return CallOutcome::Failed,
        };
        let argument = match self.evaluate_invocation_value(
            &raw,
            call.span,
            call.first_origin,
            frames, session, context,
        ) {
            Some(argument) => argument,
            None => return CallOutcome::Failed,
        };
        let limit = self.limits.max_materialized_elements;
        let elements = match coerce_iterable(limit, &argument, call.span, session) {
            Some(elements) => elements,
            None => return CallOutcome::Failed,
        };
        let callable = match self.evaluate_transform_callback(
            call,
            &raw_callback,
            frames,
            session,
            context,
        ) {
            Some(callable) => callable,
            None => return CallOutcome::Failed,
        };
        self.transform_elements(call, &elements, &callable, frames, session, context)
    }

    /// The callback of a collection transform.
    fn evaluate_transform_callback(
        &self,
        call: &Call,
        raw: &Option<IrValue>,
        frames: usize,
        session: &mut Session,
        context: &mut EvaluationContext,
    ) -> (r: Option<Option<IrCallable>>)
        ensures
            (Ev { out: (match r {
                    Some(callable) => Some(views::callable(callable)),
                    None => None,
                }), w: World { s: final(session)@, c: final(context)@ } })
                == semantics::transform_callback(
                *self,
                call@,
                views::value(*raw),
                frames as nat,
                World { s: old(session)@, c: old(context)@ },
            ),
            host::follows(old(session)@, final(session)@),
            scope::stays(old(context)@, final(context)@),
        decreases frames, 5int, self, 0int,
    {
        proof {
            reveal(semantics::transform_callback);
        }
        match call.body {
            Some(CallBody::Block(nodes)) => Some(
                Some(make_callable(call.lambda, nodes, call.span, context)),
            ),
            Some(CallBody::Inline(_)) => {
                session.fault(
                    Fault::Iteration,
                    join3("`.", call.name, "` requires a block or first-class lambda callback"),
                    call.span,
                );
                None
            },
            None => match raw {
                Some(value) => match self.evaluate_required(
                    value,
                    call.span,
                    frames,
                    session,
                    context,
                ) {
                    None => None,
                    Some(IrValue::Callable(callable)) => Some(Some(callable)),
                    Some(v) => {
                        session.fault(
                            Fault::Iteration,
                            join3("`.", call.name, "` callback must be a first-class callable"),
                            value_source_span(&v, call.span),
                        );
                        None
                    },
                },
                None => {
                    if same_text(call.name, "sorted") {
                        Some(None)
                    } else {
                        session.fault(
                            Fault::Iteration,
                            join3("`.", call.name, "` requires a callback lambda"),
                            call.span,
                        );
                        None
                    }
                },
            },
        }
    }

    /// Transforms the elements of a collection.
    fn transform_elements(
        &self,
        call: &Call,
        elements: &Vec<IrValue>,
        callable: &Option<IrCallable>,
        frames: usize,
        session: &mut Session,
        context: &EvaluationContext,
    ) -> (r: CallOutcome)
        ensures
            (Ev { out: r@, w: World { s: final(session)@, c: context@ } })
                == semantics::transform_elements(
                *self,
                call@,
                ir::values_view(elements@),
                views::callable(*callable),
                frames as nat,
                World { s: old(session)@, c: context@ },
            ),
            host::follows(old(session)@, final(session)@),
        decreases frames, 5int, self, 2int,
    {
        proof {
            reveal(semantics::transform_elements);
            reveal(semantics::map_outcome);
            reveal(semantics::filter_outcome);
            reveal(semantics::sort_outcome);
        }
        let span = call.span;
        if same_text(call.name, "map") {
            match callable {
                Some(callable) => self.map_callable_values(
                    elements,
                    callable,
                    true,
                    span,
                    frames,
                    session,
                    context,
                ),
                None => session.fail(
                    Fault::Iteration,
                    "`.map` requires a callback lambda".to_owned(),
                    span,
                ),
            }
        } else if same_text(call.name, "filter") {
            match callable {
                Some(callable) => self.filter_callable_values(
                    elements,
                    callable,
                    span,
                    frames,
                    session,
                    context,
                ),
                None => session.fail(
                    Fault::Iteration,
                    "`.filter` requires a predicate lambda".to_owned(),
                    span,
                ),
            }
        } else if same_text(call.name, "sorted") {
            self.sort_iterable_values(elements, callable, span, frames, session, context)
        } else {
            session.fail(
                Fault::Iteration,
                join3("Unsupported collection transform `.", call.name, "`"),
                span,
            )
        }
    }

    /// Evaluates `.ifpresent` and `.takeif`.
    pub fn evaluate_optionality_callback(
        &self,
        call: &Call,
        frames: usize,
        session: &mut Session,
        context: &mut EvaluationContext,
    ) -> (r: CallOutcome)
        ensures
            (Ev { out: r@, w: World { s: final(session)@, c: final(context)@ } })
                == semantics::eval_optionality(
                *self,
                call@,
                frames as nat,
                World { s: old(session)@, c: old(context)@ },
            ),
            host::follows(old(session)@, final(session)@),
            scope::stays(old(context)@, final(context)@),
        decreases frames, 6int, self, 0int,
    {
        proof {
            reveal(semantics::eval_optionality);
            reveal(semantics::optionality_callback);
            reveal(semantics::optionality_outcome);
        }
        let (raw, raw_callback) = match optionality_operands(
            call.name,
            call.positional,
            call.named,
            call.body.is_some(),
            call.span,
            session,
        ) {
            Some(operands) => operands,
            None => return CallOutcome::Failed,
        };
        let value = match self.evaluate_required(&raw, call.span, frames, session, context) {
            Some(value) => value,
            None => return CallOutcome::Failed,
        };
        if same_text(call.name, "ifpresent") {
            if let IrValue::Nothing = &value {
                return CallOutcome::Value(IrValue::Nothing);
            }
        }
        let callable = match self.evaluate_optional_callback(
            call,
            &raw_callback,
            frames,
            session,
            context,
        ) {
            Some(callable) => callable,
            None => return CallOutcome::Failed,
        };
        self.apply_optional_callback(call, value, &callable, frames, session, context)
    }

    /// The callback of `.ifpresent` and `.takeif`.
    fn evaluate_optional_callback(
        &self,
        call: &Call,
        raw: &Option<IrValue>,
        frames: usize,
        session: &mut Session,
        context: &mut EvaluationContext,
    ) -> (r: Option<IrCallable>)
        ensures
            (Ev { out: views::callable(r), w: World { s: final(session)@, c: final(context)@ } })
                == semantics::optionality_callback(
                *self,
                call@,
                views::value(*raw),
                frames as nat,
                World { s: old(session)@, c: old(context)@ },
            ),
            host::follows(old(session)@, final(session)@),
            scope::stays(old(context)@, final(context)@),
        decreases frames, 5int, self, 0int,
    {
        proof {
            reveal(semantics::optionality_callback);
        }
        match call.body {
            Some(CallBody::Block(nodes)) => Some(
                make_callable(call.lambda, nodes, call.span, context),
            ),
            Some(CallBody::Inline(_)) => {
                session.fault(
                    Fault::Function,
                    join3("`.", call.name, "` requires a block or first-class lambda callback"),
                    call.span,
                );
                None
            },
            None => match raw {
                None => {
                    session.fault(
                        Fault::Function,
                        join3("`.", call.name, "` requires a callback lambda"),
                        call.span,
                    );
                    None
                },
                Some(value) => match self.evaluate_value(value, frames, session, context) {
                    CallOutcome::Value(IrValue::Callable(callable)) => Some(callable),
                    CallOutcome::Value(v) => {
                        session.fault(
                            Fault::Iteration,
                            join3("`.", call.name, "` callback must be a first-class callable"),
                            value_source_span(&v, call.span),
                        );
                        None
                    },
                    CallOutcome::Unresolved => {
                        session.fault(
                            Fault::Iteration,
                            join3("`.", call.name, "` callback must be a first-class callable"),
                            value_source_span(value, call.span),
                        );
                        None
                    },
                    CallOutcome::NoValue => {
                        report_no_value(value_source_span(value, call.span), session);
                        None
                    },
                    CallOutcome::Failed => None,
                },
            },
        }
    }

    /// Applies the callback of `.ifpresent` and `.takeif`.
    fn apply_optional_callback(
        &self,
        call: &Call,
        value: IrValue,
        callable: &IrCallable,
        frames: usize,
        session: &mut Session,
        context: &EvaluationContext,
    ) -> (r: CallOutcome)
        ensures
            (Ev { out: r@, w: World { s: final(session)@, c: context@ } })
                == semantics::optionality_outcome(
                *self,
                call@,
                value@,
                callable@,
                frames as nat,
                World { s: old(session)@, c: context@ },
            ),
            host::follows(old(session)@, final(session)@),
        decreases frames, 5int, self, 0int,
    {
        proof {
            reveal(semantics::optionality_outcome);
        }
        let argument = one_argument(copy_value(&value));
        match self.invoke_callable(callable, argument, false, call.span, frames, session, context) {
            CallOutcome::Value(result) => {
                if same_text(call.name, "ifpresent") {
                    return CallOutcome::Value(result);
                }
                match scalar_boolean_value(&result) {
                    Some(true) => CallOutcome::Value(value),
                    Some(false) => CallOutcome::Value(IrValue::Nothing),
                    None => session.fail(
                        Fault::Iteration,
                        "`.takeif` condition must return Boolean".to_owned(),
                        value_source_span(&result, callable.span),
                    ),
                }
            },
            CallOutcome::NoValue => {
                report_no_value(callable.span, session);
                CallOutcome::Failed
            },
            out => out,
        }
    }

    /// Evaluates `.let`.
    pub fn evaluate_let(
        &self,
        call: &Call,
        frames: usize,
        session: &mut Session,
        context: &mut EvaluationContext,
    ) -> (r: CallOutcome)
        ensures
            (Ev { out: r@, w: World { s: final(session)@, c: final(context)@ } })
                == semantics::eval_let(
                *self,
                call@,
                frames as nat,
                World { s: old(session)@, c: old(context)@ },
            ),
            host::follows(old(session)@, final(session)@),
            scope::stays(old(context)@, final(context)@),
        decreases frames, 6int, self, 0int,
    {
        proof {
            reveal(semantics::eval_let);
        }
        if let Some((message, span)) = lambda_call_problem(
            call,
            "`.let` requires exactly one positional value argument (received ",
            "`.let` supports only the block lambda form",
        ) {
            return session.fail(Fault::Let, message, span);
        }
        if let Some(list) = call.lambda {
            if list.len() != 1 {
                let received = decimal(list.len() as u64);
                return session.fail(
                    Fault::Let,
                    join3(
                        "`.let` requires exactly one explicit lambda parameter (received ",
                        received.as_str(),
                        ")",
                    ),
                    lambda_place(list, call.span),
                );
            }
        }
        assert(call@.positional[0] == call.positional@[0]@);
        let value = match self.evaluate_required(
            &call.positional[0],
            call.span,
            frames,
            session,
            context,
        ) {
            Some(value) => value,
            None => return CallOutcome::Failed,
        };
        match call.body {
            Some(CallBody::Block(nodes)) => {
                let callable = make_callable(call.lambda, nodes, call.span, context);
                self.invoke_callable(
                    &callable,
                    one_argument(value),
                    false,
                    call.span,
                    frames,
                    session,
                    context,
                )
            },
            _ => CallOutcome::Failed,
        }
    }

    /// Evaluates `.foreach`.
    pub fn evaluate_foreach(
        &self,
        call: &Call,
        frames: usize,
        session: &mut Session,
        context: &mut EvaluationContext,
    ) -> (r: CallOutcome)
        ensures
            (Ev { out: r@, w: World { s: final(session)@, c: final(context)@ } })
                == semantics::eval_foreach(
                *self,
                call@,
                frames as nat,
                World { s: old(session)@, c: old(context)@ },
            ),
            host::follows(old(session)@, final(session)@),
            scope::stays(old(context)@, final(context)@),
        decreases frames, 6int, self, 0int,
    {
        proof {
            reveal(semantics::eval_foreach);
            reveal(semantics::map_outcome);
        }
        if let Some((message, span)) = lambda_call_problem(
            call,
            "`.foreach` requires exactly one positional iterable argument (received ",
            "`.foreach` supports only the block lambda form in this slice",
        ) {
            return session.fail(Fault::Iteration, message, span);
        }
        if !validate_iteration_lambda(call.lambda, ".foreach", true, call.span, session) {
            return CallOutcome::Failed;
        }
        assert(call@.positional[0] == call.positional@[0]@);
        let argument = match self.evaluate_invocation_value(
            &call.positional[0],
            call.span,
            call.first_origin,
            frames, session, context,
        ) {
            Some(argument) => argument,
            None => return CallOutcome::Failed,
        };
        let limit = self.limits.max_materialized_elements;
        let elements = match coerce_iterable(limit, &argument, call.span, session) {
            Some(elements) => elements,
            None => return CallOutcome::Failed,
        };
        match call.body {
            Some(CallBody::Block(nodes)) => {
                let callable = make_callable(call.lambda, nodes, call.span, context);
                self.map_callable_values(
                    &elements,
                    &callable,
                    true,
                    call.span,
                    frames,
                    session,
                    context,
                )
            },
            _ => CallOutcome::Failed,
        }
    }

    /// Evaluates `.repeat`.
    pub fn evaluate_repeat(
        &self,
        call: &Call,
        frames: usize,
        session: &mut Session,
        context: &mut EvaluationContext,
    ) -> (r: CallOutcome)
        ensures
            (Ev { out: r@, w: World { s: final(session)@, c: final(context)@ } })
                == semantics::eval_repeat(
                *self,
                call@,
                frames as nat,
                World { s: old(session)@, c: old(context)@ },
            ),
            host::follows(old(session)@, final(session)@),
            scope::stays(old(context)@, final(context)@),
        decreases frames, 6int, self, 0int,
    {
        proof {
            reveal(semantics::eval_repeat);
            reveal(semantics::map_outcome);
        }
        if let Some((message, span)) = lambda_call_problem(
            call,
            "`.repeat` requires exactly one positional count argument (received ",
            "`.repeat` supports only the block lambda form in this slice",
        ) {
            return session.fail(Fault::Iteration, message, span);
        }
        if !validate_iteration_lambda(call.lambda, ".repeat", false, call.span, session) {
            return CallOutcome::Failed;
        }
        assert(call@.positional[0] == call.positional@[0]@);
        let value = match self.evaluate_required(
            &call.positional[0],
            call.span,
            frames,
            session,
            context,
        ) {
            Some(value) => value,
            None => return CallOutcome::Failed,
        };
        let count = match repeat_count(&value) {
            Ok(count) => count,
            Err(message) => {
                return session.fail(
                    Fault::Iteration,
                    message.to_owned(),
                    value_source_span(&value, call.span),
                );
            },
        };
        let limit = self.limits.max_materialized_elements;
        let range = IrRange { start: Some(1), end: Some(count), span: call.span };
        let elements = match materialize_range(limit, range, session) {
            Some(elements) => elements,
            None => return CallOutcome::Failed,
        };
        match call.body {
            Some(CallBody::Block(nodes)) => {
                let callable = make_callable(call.lambda, nodes, call.span, context);
                self.map_callable_values(
                    &elements,
                    &callable,
                    false,
                    call.span,
                    frames,
                    session,
                    context,
                )
            },
            _ => CallOutcome::Failed,
        }
    }
}

} // verus!
