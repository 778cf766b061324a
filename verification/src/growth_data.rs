//! More answers and higher limits keep what is settled: data.

use vstd::prelude::*;

use crate::binding;
use crate::calls;
use crate::collection;
use crate::dictionary;
use crate::growth;
use crate::growth::Growth;
use crate::growth_helpers;
use crate::growth_sequences;
use crate::growth_values;
use crate::host::{InvocationNamedView, InvocationValueView, SessionView, ValueOrigin};
use crate::ir::{ListItemView, NodeView, SourceSpan, ValueView};
use crate::semantics;
use crate::semantics::{BodyView, CallView, Evaluator, World};

verus! {

broadcast use growth::group_within;

/// What `range_bound` comes to is kept.
pub(crate) proof fn lemma_range_bound(
    e: Evaluator,
    value: Option<ValueView>,
    span: SourceSpan,
    origin: Option<ValueOrigin>,
    f: nat,
    w: World,
    grow: Growth,
)
    requires
        growth::fits(e, grow),
    ensures
        growth::kept(
            w,
            semantics::range_bound(e, value, span, origin, f, w),
            semantics::range_bound(
                growth::evaluator(e, grow),
                value,
                span,
                origin,
                f + grow.depth,
                growth::world(w, grow),
            ),
            grow,
        ),
    decreases f, 5int, e, 0int,
{
    reveal(semantics::range_bound);
    match value {
        None => {},
        Some(value) => {
            growth_values::lemma_invocation_value(e, value, span, origin, f, w, grow);
            let r = semantics::invocation_value(e, value, span, origin, f, w);
            match r.out {
                None => {},
                Some(argument) => {
                    growth_helpers::lemma_range_endpoint(argument, r.w.s, grow);
                },
            }
        },
    }
}

/// What `eval_range` comes to is kept.
pub(crate) proof fn lemma_eval_range(e: Evaluator, call: CallView, f: nat, w: World, grow: Growth)
    requires
        growth::fits(e, grow),
    ensures
        growth::kept(
            w,
            semantics::eval_range(e, call, f, w),
            semantics::eval_range(
                growth::evaluator(e, grow),
                call,
                f + grow.depth,
                growth::world(w, grow),
            ),
            grow,
        ),
    decreases f, 6int, e, 0int,
{
    reveal(semantics::eval_range);
    reveal(semantics::range_bound);
    if call.body is Some {
    } else {
        growth_helpers::lemma_range_parts(call.positional, call.named, call.span, w.s, grow);
        match binding::range_parts(call.positional, call.named, call.span, w.s) {
            (None, s) => {},
            (Some((from, to)), s) => {
                lemma_range_bound(e, from, call.span, call.first_origin, f, w.on(s), grow);
                let first = semantics::range_bound(
                    e,
                    from,
                    call.span,
                    call.first_origin,
                    f,
                    w.on(s),
                );
                match first.out {
                    None => {},
                    Some(start) => {
                        lemma_range_bound(e, to, call.span, None, f, first.w, grow);
                    },
                }
            },
        }
    }
}

/// What `eval_pair` comes to is kept.
pub(crate) proof fn lemma_eval_pair(e: Evaluator, call: CallView, f: nat, w: World, grow: Growth)
    requires
        growth::fits(e, grow),
    ensures
        growth::kept(
            w,
            semantics::eval_pair(e, call, f, w),
            semantics::eval_pair(
                growth::evaluator(e, grow),
                call,
                f + grow.depth,
                growth::world(w, grow),
            ),
            grow,
        ),
    decreases f, 6int, e, 0int,
{
    reveal(semantics::eval_pair);
    if call.positional.len() != 2 {
    } else {
        if call.named.len() > 0 {
        } else {
            if call.body is Some {
            } else {
                growth_sequences::lemma_eval_values(e, call.positional, call.span, f, w, grow);
            }
        }
    }
}

/// What `eval_dictionary` comes to is kept.
pub(crate) proof fn lemma_eval_dictionary(
    e: Evaluator,
    call: CallView,
    f: nat,
    w: World,
    grow: Growth,
)
    requires
        growth::fits(e, grow),
    ensures
        growth::kept(
            w,
            semantics::eval_dictionary(e, call, f, w),
            semantics::eval_dictionary(
                growth::evaluator(e, grow),
                call,
                f + grow.depth,
                growth::world(w, grow),
            ),
            grow,
        ),
    decreases f, 6int, e, 0int,
{
    reveal(semantics::eval_dictionary);
    reveal(semantics::dictionary_entries);
    if call.positional.len() > 0 {
    } else {
        if call.named.len() > 0 {
        } else {
            if call.body matches Some(BodyView::Inline(_)) {
            } else {
                lemma_dictionary_entries(e, semantics::block_of(call), call.span, f, w, grow);
            }
        }
    }
}

/// What `dictionary_entries` comes to is kept.
pub(crate) proof fn lemma_dictionary_entries(
    e: Evaluator,
    nodes: Seq<NodeView>,
    span: SourceSpan,
    f: nat,
    w: World,
    grow: Growth,
)
    requires
        growth::fits(e, grow),
    ensures
        growth::kept(
            w,
            semantics::dictionary_entries(e, nodes, span, f, w),
            semantics::dictionary_entries(
                growth::evaluator(e, grow),
                nodes,
                span,
                f + grow.depth,
                growth::world(w, grow),
            ),
            grow,
        ),
    decreases f, 5int, nodes, 0int,
{
    reveal(semantics::dictionary_entries);
    if nodes.len() == 0 {
    } else {
        match collection::only_list(nodes) {
            None => {},
            Some(items) => {
                growth_helpers::lemma_check_elements(
                    e.limits.max_materialized_elements as nat,
                    items.len(),
                    span,
                    w.s,
                    grow,
                );
                match collection::check_elements(
                    e.limits.max_materialized_elements as nat,
                    items.len(),
                    span,
                    w.s,
                ) {
                    (false, s) => {},
                    (true, s) => {
                        growth_sequences::lemma_entry_list(e, items, span, f, w.on(s), grow);
                    },
                }
            },
        }
    }
}

/// What `dictionary_entry` comes to is kept.
pub(crate) proof fn lemma_dictionary_entry(
    e: Evaluator,
    item: ListItemView,
    span: SourceSpan,
    f: nat,
    w: World,
    grow: Growth,
)
    requires
        growth::fits(e, grow),
    ensures
        growth::kept(
            w,
            semantics::dictionary_entry(e, item, span, f, w),
            semantics::dictionary_entry(
                growth::evaluator(e, grow),
                item,
                span,
                f + grow.depth,
                growth::world(w, grow),
            ),
            grow,
        ),
    decreases f, 5int, item, 0int,
{
    reveal(semantics::dictionary_entry);
    reveal(semantics::dictionary_entries);
    match semantics::entry_parts(item) {
        Err(message) => {},
        Ok(parts) => {
            if parts.key.len() == 0 {
            } else {
                if parts.inlines.len() > 0 {
                    growth_values::lemma_required(
                        e,
                        dictionary::inline_entry(parts.inlines, parts.span),
                        span,
                        f,
                        w,
                        grow,
                    );
                } else {
                    if parts.text.len() > 0 {
                        growth_helpers::lemma_scalar_entry(parts.text, w.s, grow);
                    } else {
                        if item.nodes.len() <= 1 {
                        } else {
                            lemma_dictionary_entries(e, item.nodes.skip(1), item.span, f, w, grow);
                        }
                    }
                }
            }
        },
    }
}

/// What `eval_access` comes to is kept.
pub(crate) proof fn lemma_eval_access(e: Evaluator, call: CallView, f: nat, w: World, grow: Growth)
    requires
        growth::fits(e, grow),
    ensures
        growth::kept(
            w,
            semantics::eval_access(e, call, f, w),
            semantics::eval_access(
                growth::evaluator(e, grow),
                call,
                f + grow.depth,
                growth::world(w, grow),
            ),
            grow,
        ),
    decreases f, 6int, e, 0int,
{
    reveal(semantics::eval_access);
    reveal(semantics::access_outcome);
    if call.body is Some {
    } else {
        growth_values::lemma_call_arguments(e, call, f, w, grow);
        let args = semantics::call_arguments(e, call, f, w);
        match args.out {
            None => {},
            Some((values, named)) => {
                lemma_access_outcome(
                    e.limits.max_materialized_elements as nat,
                    call.name,
                    values,
                    named,
                    call.span,
                    args.w.s,
                    grow,
                );
            },
        }
    }
}

/// What `access_outcome` comes to is kept.
pub(crate) proof fn lemma_access_outcome(
    limit: nat,
    name: Seq<char>,
    positional: Seq<InvocationValueView>,
    named: Seq<InvocationNamedView>,
    span: SourceSpan,
    s: SessionView,
    grow: Growth,
)
    ensures
        growth::kept_answer(
            s,
            semantics::access_outcome(limit, name, positional, named, span, s),
            semantics::access_outcome(
                limit + grow.elements,
                name,
                positional,
                named,
                span,
                growth::session(s, grow),
            ),
            grow,
        ),
{
    reveal(semantics::access_outcome);
    reveal(semantics::elements_outcome);
    if name == "getat"@ {
        growth_helpers::lemma_getat_parts(positional, named, span, s, grow);
        match binding::getat_parts(positional, named, span, s) {
            (None, t) => {},
            (Some((argument, index, fallback)), t) => {
                growth_helpers::lemma_iterable_elements(limit, argument, span, t, grow);
                match collection::iterable_elements(limit, argument, span, t) {
                    (None, u) => {},
                    (Some(elements), u) => {
                        growth_helpers::lemma_length_number(elements.len(), span, u, grow);
                        match collection::length_number(elements.len(), span, u) {
                            (None, v) => {},
                            (Some(_), v) => {
                                growth_helpers::lemma_element_at(
                                    index,
                                    elements.len(),
                                    span,
                                    v,
                                    grow,
                                );
                            },
                        }
                    },
                }
            },
        }
    } else {
        let parameter = if name == "size"@ { "of"@ } else { "from"@ };
        growth_helpers::lemma_access_operand(name, parameter, positional, named, span, s, grow);
        match calls::access_operand(name, parameter, positional, named, span, s) {
            (None, t) => {},
            (Some(argument), t) => {
                growth_helpers::lemma_iterable_elements(limit, argument, span, t, grow);
                match collection::iterable_elements(limit, argument, span, t) {
                    (None, u) => {},
                    (Some(elements), u) => {
                        lemma_elements_outcome(name, elements, span, u, grow);
                    },
                }
            },
        }
    }
}

/// What `elements_outcome` comes to is kept.
pub(crate) proof fn lemma_elements_outcome(
    name: Seq<char>,
    elements: Seq<ValueView>,
    span: SourceSpan,
    s: SessionView,
    grow: Growth,
)
    ensures
        growth::kept_answer(
            s,
            semantics::elements_outcome(name, elements, span, s),
            semantics::elements_outcome(name, elements, span, growth::session(s, grow)),
            grow,
        ),
{
    reveal(semantics::elements_outcome);
    if name == "size"@ {
        growth_helpers::lemma_length_number(elements.len(), span, s, grow);
    } else {
        if name == "first"@ {
        } else {
            if name == "second"@ {
            } else {
                if name == "third"@ {
                } else {
                    if name == "last"@ {
                    } else {
                        if name == "sumall"@ {
                            growth_helpers::lemma_sum_of(elements, s, grow);
                        } else {
                            if name == "average"@ {
                                growth_helpers::lemma_average_of(elements, span, s, grow);
                            }
                        }
                    }
                }
            }
        }
    }
}

} // verus!
