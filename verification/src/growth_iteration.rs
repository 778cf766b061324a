//! More answers and higher limits keep what is settled: iteration.

use vstd::prelude::*;

use crate::binding;
use crate::calls;
use crate::collection;
use crate::growth;
use crate::growth::Growth;
use crate::growth_callables;
use crate::growth_helpers;
use crate::growth_values;
use crate::ir::{CallableView, IrRange, SourceSpan, ValueView};
use crate::semantics;
use crate::semantics::{BodyView, CallView, Evaluator, World};

verus! {

broadcast use growth::group_within;

/// What `map_outcome` comes to is kept.
pub(crate) proof fn lemma_map_outcome(
    e: Evaluator,
    elements: Seq<ValueView>,
    callable: CallableView,
    destructuring: bool,
    span: SourceSpan,
    f: nat,
    w: World,
    grow: Growth,
)
    requires
        growth::fits(e, grow),
    ensures
        growth::kept(
            w,
            semantics::map_outcome(e, elements, callable, destructuring, span, f, w),
            semantics::map_outcome(
                growth::evaluator(e, grow),
                elements,
                callable,
                destructuring,
                span,
                f + grow.depth,
                growth::world(w, grow),
            ),
            grow,
        ),
    decreases f, 5int, elements, 1int,
{
    reveal(semantics::map_outcome);
    growth_helpers::lemma_check_elements(
        e.limits.max_materialized_elements as nat,
        elements.len(),
        span,
        w.s,
        grow,
    );
    match collection::check_elements(
        e.limits.max_materialized_elements as nat,
        elements.len(),
        span,
        w.s,
    ) {
        (false, s) => {},
        (true, s) => {
            growth_callables::lemma_map_values(
                e,
                elements,
                callable,
                destructuring,
                span,
                f,
                w.on(s),
                grow,
            );
        },
    }
}

/// What `eval_transform` comes to is kept.
pub(crate) proof fn lemma_eval_transform(
    e: Evaluator,
    call: CallView,
    f: nat,
    w: World,
    grow: Growth,
)
    requires
        growth::fits(e, grow),
    ensures
        growth::kept(
            w,
            semantics::eval_transform(e, call, f, w),
            semantics::eval_transform(
                growth::evaluator(e, grow),
                call,
                f + grow.depth,
                growth::world(w, grow),
            ),
            grow,
        ),
    decreases f, 6int, e, 0int,
{
    reveal(semantics::eval_transform);
    reveal(semantics::transform_callback);
    reveal(semantics::transform_elements);
    growth_helpers::lemma_transform_parts(
        call.name,
        call.positional,
        call.named,
        call.body is Some,
        call.span,
        w.s,
        grow,
    );
    match binding::transform_parts(
        call.name,
        call.positional,
        call.named,
        call.body is Some,
        call.span,
        w.s,
    ) {
        (None, s) => {},
        (Some((raw, raw_callback)), s) => {
            growth_values::lemma_invocation_value(
                e,
                raw,
                call.span,
                call.first_origin,
                f,
                w.on(s),
                grow,
            );
            let r = semantics::invocation_value(e, raw, call.span, call.first_origin, f, w.on(s));
            match r.out {
                None => {},
                Some(argument) => {
                    growth_helpers::lemma_iterable_elements(
                        e.limits.max_materialized_elements as nat,
                        argument,
                        call.span,
                        r.w.s,
                        grow,
                    );
                    match collection::iterable_elements(
                        e.limits.max_materialized_elements as nat,
                        argument,
                        call.span,
                        r.w.s,
                    ) {
                        (None, t) => {},
                        (Some(elements), t) => {
                            lemma_transform_callback(e, call, raw_callback, f, r.w.on(t), grow);
                            let c = semantics::transform_callback(
                                e,
                                call,
                                raw_callback,
                                f,
                                r.w.on(t),
                            );
                            match c.out {
                                None => {},
                                Some(callable) => {
                                    lemma_transform_elements(
                                        e,
                                        call,
                                        elements,
                                        callable,
                                        f,
                                        c.w,
                                        grow,
                                    );
                                },
                            }
                        },
                    }
                },
            }
        },
    }
}

/// What `transform_callback` comes to is kept.
pub(crate) proof fn lemma_transform_callback(
    e: Evaluator,
    call: CallView,
    raw: Option<ValueView>,
    f: nat,
    w: World,
    grow: Growth,
)
    requires
        growth::fits(e, grow),
    ensures
        growth::kept(
            w,
            semantics::transform_callback(e, call, raw, f, w),
            semantics::transform_callback(
                growth::evaluator(e, grow),
                call,
                raw,
                f + grow.depth,
                growth::world(w, grow),
            ),
            grow,
        ),
    decreases f, 5int, e, 0int,
{
    reveal(semantics::transform_callback);
    match call.body {
        Some(BodyView::Block(nodes)) => {},
        Some(BodyView::Inline(_)) => {},
        None => {
            match raw {
                Some(value) => {
                    growth_values::lemma_required(e, value, call.span, f, w, grow);
                },
                None => {},
            }
        },
    }
}

/// What `transform_elements` comes to is kept.
pub(crate) proof fn lemma_transform_elements(
    e: Evaluator,
    call: CallView,
    elements: Seq<ValueView>,
    callable: Option<CallableView>,
    f: nat,
    w: World,
    grow: Growth,
)
    requires
        growth::fits(e, grow),
    ensures
        growth::kept(
            w,
            semantics::transform_elements(e, call, elements, callable, f, w),
            semantics::transform_elements(
                growth::evaluator(e, grow),
                call,
                elements,
                callable,
                f + grow.depth,
                growth::world(w, grow),
            ),
            grow,
        ),
    decreases f, 5int, elements, 2int,
{
    reveal(semantics::transform_elements);
    reveal(semantics::filter_outcome);
    reveal(semantics::map_outcome);
    reveal(semantics::sort_outcome);
    if call.name == "map"@ {
        match callable {
            Some(callable) => {
                lemma_map_outcome(e, elements, callable, true, call.span, f, w, grow);
            },
            None => {},
        }
    } else {
        if call.name == "filter"@ {
            match callable {
                Some(callable) => {
                    lemma_filter_outcome(e, elements, callable, call.span, f, w, grow);
                },
                None => {},
            }
        } else {
            if call.name == "sorted"@ {
                lemma_sort_outcome(e, elements, callable, call.span, f, w, grow);
            }
        }
    }
}

/// What `filter_outcome` comes to is kept.
pub(crate) proof fn lemma_filter_outcome(
    e: Evaluator,
    elements: Seq<ValueView>,
    callable: CallableView,
    span: SourceSpan,
    f: nat,
    w: World,
    grow: Growth,
)
    requires
        growth::fits(e, grow),
    ensures
        growth::kept(
            w,
            semantics::filter_outcome(e, elements, callable, span, f, w),
            semantics::filter_outcome(
                growth::evaluator(e, grow),
                elements,
                callable,
                span,
                f + grow.depth,
                growth::world(w, grow),
            ),
            grow,
        ),
    decreases f, 5int, elements, 1int,
{
    reveal(semantics::filter_outcome);
    growth_helpers::lemma_check_elements(
        e.limits.max_materialized_elements as nat,
        elements.len(),
        span,
        w.s,
        grow,
    );
    match collection::check_elements(
        e.limits.max_materialized_elements as nat,
        elements.len(),
        span,
        w.s,
    ) {
        (false, s) => {},
        (true, s) => {
            growth_callables::lemma_filter_values(e, elements, callable, span, f, w.on(s), grow);
        },
    }
}

/// What `sort_outcome` comes to is kept.
pub(crate) proof fn lemma_sort_outcome(
    e: Evaluator,
    elements: Seq<ValueView>,
    callable: Option<CallableView>,
    span: SourceSpan,
    f: nat,
    w: World,
    grow: Growth,
)
    requires
        growth::fits(e, grow),
    ensures
        growth::kept(
            w,
            semantics::sort_outcome(e, elements, callable, span, f, w),
            semantics::sort_outcome(
                growth::evaluator(e, grow),
                elements,
                callable,
                span,
                f + grow.depth,
                growth::world(w, grow),
            ),
            grow,
        ),
    decreases f, 5int, elements, 1int,
{
    reveal(semantics::sort_outcome);
    growth_helpers::lemma_check_elements(
        e.limits.max_materialized_elements as nat,
        elements.len(),
        span,
        w.s,
        grow,
    );
    match collection::check_elements(
        e.limits.max_materialized_elements as nat,
        elements.len(),
        span,
        w.s,
    ) {
        (false, s) => {},
        (true, s) => {
            growth_callables::lemma_key_values(e, elements, callable, span, f, w.on(s), grow);
        },
    }
}

/// What `eval_optionality` comes to is kept.
pub(crate) proof fn lemma_eval_optionality(
    e: Evaluator,
    call: CallView,
    f: nat,
    w: World,
    grow: Growth,
)
    requires
        growth::fits(e, grow),
    ensures
        growth::kept(
            w,
            semantics::eval_optionality(e, call, f, w),
            semantics::eval_optionality(
                growth::evaluator(e, grow),
                call,
                f + grow.depth,
                growth::world(w, grow),
            ),
            grow,
        ),
    decreases f, 6int, e, 0int,
{
    reveal(semantics::eval_optionality);
    reveal(semantics::optionality_callback);
    reveal(semantics::optionality_outcome);
    growth_helpers::lemma_optionality_parts(
        call.name,
        call.positional,
        call.named,
        call.body is Some,
        call.span,
        w.s,
        grow,
    );
    match binding::optionality_parts(
        call.name,
        call.positional,
        call.named,
        call.body is Some,
        call.span,
        w.s,
    ) {
        (None, s) => {},
        (Some((raw, raw_callback)), s) => {
            growth_values::lemma_required(e, raw, call.span, f, w.on(s), grow);
            let r = semantics::required(e, raw, call.span, f, w.on(s));
            match r.out {
                None => {},
                Some(value) => {
                    if call.name == "ifpresent"@ && value is Nothing {
                    } else {
                        lemma_optionality_callback(e, call, raw_callback, f, r.w, grow);
                        let c = semantics::optionality_callback(e, call, raw_callback, f, r.w);
                        match c.out {
                            None => {},
                            Some(callable) => {
                                lemma_optionality_outcome(e, call, value, callable, f, c.w, grow);
                            },
                        }
                    }
                },
            }
        },
    }
}

/// What `optionality_callback` comes to is kept.
pub(crate) proof fn lemma_optionality_callback(
    e: Evaluator,
    call: CallView,
    raw: Option<ValueView>,
    f: nat,
    w: World,
    grow: Growth,
)
    requires
        growth::fits(e, grow),
    ensures
        growth::kept(
            w,
            semantics::optionality_callback(e, call, raw, f, w),
            semantics::optionality_callback(
                growth::evaluator(e, grow),
                call,
                raw,
                f + grow.depth,
                growth::world(w, grow),
            ),
            grow,
        ),
    decreases f, 5int, e, 0int,
{
    reveal(semantics::optionality_callback);
    match call.body {
        Some(BodyView::Block(nodes)) => {},
        Some(BodyView::Inline(_)) => {},
        None => {
            match raw {
                None => {},
                Some(value) => {
                    growth_values::lemma_eval_value(e, value, f, w, grow);
                },
            }
        },
    }
}

/// What `optionality_outcome` comes to is kept.
pub(crate) proof fn lemma_optionality_outcome(
    e: Evaluator,
    call: CallView,
    value: ValueView,
    callable: CallableView,
    f: nat,
    w: World,
    grow: Growth,
)
    requires
        growth::fits(e, grow),
    ensures
        growth::kept(
            w,
            semantics::optionality_outcome(e, call, value, callable, f, w),
            semantics::optionality_outcome(
                growth::evaluator(e, grow),
                call,
                value,
                callable,
                f + grow.depth,
                growth::world(w, grow),
            ),
            grow,
        ),
    decreases f, 5int, e, 0int,
{
    reveal(semantics::optionality_outcome);
    growth_callables::lemma_invoke(e, callable, seq![value], false, call.span, f, w, grow);
}

/// What `eval_let` comes to is kept.
pub(crate) proof fn lemma_eval_let(e: Evaluator, call: CallView, f: nat, w: World, grow: Growth)
    requires
        growth::fits(e, grow),
    ensures
        growth::kept(
            w,
            semantics::eval_let(e, call, f, w),
            semantics::eval_let(
                growth::evaluator(e, grow),
                call,
                f + grow.depth,
                growth::world(w, grow),
            ),
            grow,
        ),
    decreases f, 6int, e, 0int,
{
    reveal(semantics::eval_let);
    match semantics::lambda_call_error(
        call,
        "`.let` requires exactly one positional value argument (received "@,
        "`.let` supports only the block lambda form"@,
    ) {
        Some((message, span)) => {},
        None => {
            if call.lambda is Some && call.lambda->0.len() != 1 {
            } else {
                growth_values::lemma_required(e, call.positional[0], call.span, f, w, grow);
                let r = semantics::required(e, call.positional[0], call.span, f, w);
                match r.out {
                    None => {},
                    Some(value) => {
                        growth_callables::lemma_invoke(
                            e,
                            semantics::callable_here(
                                call.lambda,
                                semantics::block_of(call),
                                call.span,
                                r.w.c,
                            ),
                            seq![value],
                            false,
                            call.span,
                            f,
                            r.w,
                            grow,
                        );
                    },
                }
            }
        },
    }
}

/// What `eval_foreach` comes to is kept.
pub(crate) proof fn lemma_eval_foreach(e: Evaluator, call: CallView, f: nat, w: World, grow: Growth)
    requires
        growth::fits(e, grow),
    ensures
        growth::kept(
            w,
            semantics::eval_foreach(e, call, f, w),
            semantics::eval_foreach(
                growth::evaluator(e, grow),
                call,
                f + grow.depth,
                growth::world(w, grow),
            ),
            grow,
        ),
    decreases f, 6int, e, 0int,
{
    reveal(semantics::eval_foreach);
    reveal(semantics::map_outcome);
    match semantics::lambda_call_error(
        call,
        "`.foreach` requires exactly one positional iterable argument (received "@,
        "`.foreach` supports only the block lambda form in this slice"@,
    ) {
        Some((message, span)) => {},
        None => {
            growth_helpers::lemma_iteration_lambda(
                call.lambda,
                ".foreach"@,
                true,
                call.span,
                w.s,
                grow,
            );
            match calls::iteration_lambda(call.lambda, ".foreach"@, true, call.span, w.s) {
                (false, s) => {},
                (true, s) => {
                    growth_values::lemma_invocation_value(
                        e,
                        call.positional[0],
                        call.span,
                        call.first_origin,
                        f,
                        w.on(s),
                        grow,
                    );
                    let r = semantics::invocation_value(
                        e,
                        call.positional[0],
                        call.span,
                        call.first_origin,
                        f,
                        w.on(s),
                    );
                    match r.out {
                        None => {},
                        Some(argument) => {
                            growth_helpers::lemma_iterable_elements(
                                e.limits.max_materialized_elements as nat,
                                argument,
                                call.span,
                                r.w.s,
                                grow,
                            );
                            match collection::iterable_elements(
                                e.limits.max_materialized_elements as nat,
                                argument,
                                call.span,
                                r.w.s,
                            ) {
                                (None, t) => {},
                                (Some(elements), t) => {
                                    lemma_map_outcome(
                                        e,
                                        elements,
                                        semantics::callable_here(
                                            call.lambda,
                                            semantics::block_of(call),
                                            call.span,
                                            r.w.c,
                                        ),
                                        true,
                                        call.span,
                                        f,
                                        r.w.on(t),
                                        grow,
                                    );
                                },
                            }
                        },
                    }
                },
            }
        },
    }
}

/// What `eval_repeat` comes to is kept.
pub(crate) proof fn lemma_eval_repeat(e: Evaluator, call: CallView, f: nat, w: World, grow: Growth)
    requires
        growth::fits(e, grow),
    ensures
        growth::kept(
            w,
            semantics::eval_repeat(e, call, f, w),
            semantics::eval_repeat(
                growth::evaluator(e, grow),
                call,
                f + grow.depth,
                growth::world(w, grow),
            ),
            grow,
        ),
    decreases f, 6int, e, 0int,
{
    reveal(semantics::eval_repeat);
    reveal(semantics::map_outcome);
    match semantics::lambda_call_error(
        call,
        "`.repeat` requires exactly one positional count argument (received "@,
        "`.repeat` supports only the block lambda form in this slice"@,
    ) {
        Some((message, span)) => {},
        None => {
            growth_helpers::lemma_iteration_lambda(
                call.lambda,
                ".repeat"@,
                false,
                call.span,
                w.s,
                grow,
            );
            match calls::iteration_lambda(call.lambda, ".repeat"@, false, call.span, w.s) {
                (false, s) => {},
                (true, s) => {
                    growth_values::lemma_required(
                        e,
                        call.positional[0],
                        call.span,
                        f,
                        w.on(s),
                        grow,
                    );
                    let r = semantics::required(e, call.positional[0], call.span, f, w.on(s));
                    match r.out {
                        None => {},
                        Some(value) => {
                            match calls::count_of(value) {
                                Err(message) => {},
                                Ok(count) => {
                                    growth_helpers::lemma_range_elements(
                                        e.limits.max_materialized_elements as nat,
                                        IrRange {
                                            start: Some(1i32),
                                            end: Some(count as i32),
                                            span: call.span,
                                        },
                                        r.w.s,
                                        grow,
                                    );
                                    match collection::range_elements(
                                        e.limits.max_materialized_elements as nat,
                                        IrRange {
                                            start: Some(1i32),
                                            end: Some(count as i32),
                                            span: call.span,
                                        },
                                        r.w.s,
                                    ) {
                                        (None, t) => {},
                                        (Some(elements), t) => {
                                            lemma_map_outcome(
                                                e,
                                                elements,
                                                semantics::callable_here(
                                                    call.lambda,
                                                    semantics::block_of(call),
                                                    call.span,
                                                    r.w.c,
                                                ),
                                                false,
                                                call.span,
                                                f,
                                                r.w.on(t),
                                                grow,
                                            );
                                        },
                                    }
                                },
                            }
                        },
                    }
                },
            }
        },
    }
}

} // verus!
