//! More answers and higher limits keep what is settled: values, bodies and chains.

use vstd::prelude::*;

use crate::binding::ArgumentView;
use crate::diagnostic::Fault;
use crate::growth;
use crate::growth::Growth;
use crate::growth_calls;
use crate::growth_helpers;
use crate::growth_layout;
use crate::growth_sequences;
use crate::host::{SessionView, ValueOrigin};
use crate::ir::{CallSegmentView, InlineView, NodeView, SourceSpan, ValueView};
use crate::materialize;
use crate::metadata::DocumentView;
use crate::outcome::OutcomeView;
use crate::scope::ContextView;
use crate::semantics;
use crate::semantics::{BodyResult, BodyView, CallView, Evaluator, World};

verus! {

broadcast use growth::group_within;

/// What `block_outcome` comes to is kept.
pub(crate) proof fn lemma_block_outcome(out: OutcomeView, span: SourceSpan, w: World, grow: Growth)
    ensures
        growth::kept(
            w,
            semantics::block_outcome(out, span, w),
            semantics::block_outcome(out, span, growth::world(w, grow)),
            grow,
        ),
{
    reveal(semantics::block_outcome);
    match out {
        OutcomeView::Value(value) => {
            growth_helpers::lemma_content_nodes(value, span, w.s, grow);
        },
        _ => {},
    }
}

/// What `inline_outcome` comes to is kept.
pub(crate) proof fn lemma_inline_outcome(out: OutcomeView, span: SourceSpan, w: World, grow: Growth)
    ensures
        growth::kept(
            w,
            semantics::inline_outcome(out, span, w),
            semantics::inline_outcome(out, span, growth::world(w, grow)),
            grow,
        ),
{
    reveal(semantics::inline_outcome);
    match out {
        OutcomeView::Value(value) => {
            growth_helpers::lemma_inline_content(value, span, w.s, grow);
        },
        _ => {},
    }
}

/// What `eval_node` comes to is kept.
pub(crate) proof fn lemma_eval_node(e: Evaluator, node: NodeView, f: nat, w: World, grow: Growth)
    requires
        growth::fits(e, grow),
    ensures
        growth::kept(
            w,
            semantics::eval_node(e, node, f, w),
            semantics::eval_node(
                growth::evaluator(e, grow),
                node,
                f + grow.depth,
                growth::world(w, grow),
            ),
            grow,
        ),
    decreases f, 4int, node, 2int,
{
    reveal(semantics::eval_node);
    reveal(semantics::block_outcome);
    reveal(semantics::eval_chain);
    reveal(semantics::preserve_call);
    match node {
        NodeView::FunctionDeclaration { name, parameters, body, span } => {
            growth_calls::lemma_declare_function(name, parameters, body, span, w, grow);
        },
        NodeView::FunctionCall { span, .. } => {
            growth_calls::lemma_eval_call(e, semantics::call_of_node(node), f, w, grow);
            let r = semantics::eval_call(e, semantics::call_of_node(node), f, w);
            if r.out is Unresolved {
                lemma_preserve_call(e, node, f, r.w, grow);
            } else {
                lemma_block_outcome(r.out, span, r.w, grow);
            }
        },
        NodeView::ChainedFunctionCall { head, chain, body, span } => {
            lemma_eval_chain(
                e,
                head,
                chain,
                match body { Some(nodes) => Some(BodyView::Block(nodes)), None => None, },
                f,
                w,
                grow,
            );
            let r = semantics::eval_chain(
                e,
                head,
                chain,
                match body { Some(nodes) => Some(BodyView::Block(nodes)), None => None, },
                f,
                w,
            );
            lemma_block_outcome(r.out, span, r.w, grow);
        },
        NodeView::Heading { level, content, span } => {
            growth_sequences::lemma_eval_inlines(e, content, f, w, grow);
        },
        NodeView::Paragraph { content, span } => {
            growth_sequences::lemma_eval_inlines(e, content, f, w, grow);
        },
        NodeView::Blockquote { content, span } => {
            growth_sequences::lemma_eval_nodes(e, content, f, w, grow);
        },
        NodeView::UnorderedList { items, span } => {
            growth_sequences::lemma_eval_items(e, items, f, w, grow);
        },
        NodeView::OrderedList { items, start, span } => {
            growth_sequences::lemma_eval_items(e, items, f, w, grow);
        },
        NodeView::Table { header, rows, span } => {
            growth_sequences::lemma_eval_row(e, header, f, w, grow);
            let first = semantics::eval_row(e, header, f, w);
            growth_sequences::lemma_eval_rows(e, rows, f, first.w, grow);
        },
        NodeView::RawHtml { span, .. } => {},
        _ => {},
    }
}

/// What `eval_inline` comes to is kept.
pub(crate) proof fn lemma_eval_inline(
    e: Evaluator,
    inline: InlineView,
    f: nat,
    w: World,
    grow: Growth,
)
    requires
        growth::fits(e, grow),
    ensures
        growth::kept(
            w,
            semantics::eval_inline(e, inline, f, w),
            semantics::eval_inline(
                growth::evaluator(e, grow),
                inline,
                f + grow.depth,
                growth::world(w, grow),
            ),
            grow,
        ),
    decreases f, 4int, inline, 2int,
{
    reveal(semantics::eval_inline);
    reveal(semantics::eval_chain);
    reveal(semantics::inline_outcome);
    reveal(semantics::preserve_inline_call);
    match inline {
        InlineView::Emphasis { content, span } => {
            growth_sequences::lemma_eval_inlines(e, content, f, w, grow);
        },
        InlineView::Strong { content, span } => {
            growth_sequences::lemma_eval_inlines(e, content, f, w, grow);
        },
        InlineView::Strikethrough { content, span } => {
            growth_sequences::lemma_eval_inlines(e, content, f, w, grow);
        },
        InlineView::Link { content, destination, title, span } => {
            growth_sequences::lemma_eval_inlines(e, content, f, w, grow);
        },
        InlineView::DirectiveCall { name, span, .. } => {
            match semantics::block_only(name, w.c) {
                Some((fault, message)) => {},
                None => {
                    growth_calls::lemma_eval_call(e, semantics::call_of_inline(inline), f, w, grow);
                    let r = semantics::eval_call(e, semantics::call_of_inline(inline), f, w);
                    if r.out is Unresolved {
                        lemma_preserve_inline_call(e, inline, f, r.w, grow);
                    } else {
                        lemma_inline_outcome(r.out, span, r.w, grow);
                    }
                },
            }
        },
        InlineView::ChainedDirectiveCall { head, chain, body, span } => {
            lemma_eval_chain(
                e,
                head,
                chain,
                match body { Some(inlines) => Some(BodyView::Inline(inlines)), None => None, },
                f,
                w,
                grow,
            );
            let r = semantics::eval_chain(
                e,
                head,
                chain,
                match body { Some(inlines) => Some(BodyView::Inline(inlines)), None => None, },
                f,
                w,
            );
            lemma_inline_outcome(r.out, span, r.w, grow);
        },
        InlineView::RawHtml { span, .. } => {},
        _ => {},
    }
}

/// What `eval_value` comes to is kept.
pub(crate) proof fn lemma_eval_value(e: Evaluator, value: ValueView, f: nat, w: World, grow: Growth)
    requires
        growth::fits(e, grow),
    ensures
        growth::kept(
            w,
            semantics::eval_value(e, value, f, w),
            semantics::eval_value(
                growth::evaluator(e, grow),
                value,
                f + grow.depth,
                growth::world(w, grow),
            ),
            grow,
        ),
    decreases f, 4int, value, 1int,
{
    reveal(semantics::eval_value);
    reveal(semantics::eval_chain_node);
    match value {
        ValueView::Content(nodes) => {
            if nodes.len() == 1 && nodes[0] is FunctionCall {
                growth_calls::lemma_eval_call(e, semantics::call_of_node(nodes[0]), f, w, grow);
            } else {
                if nodes.len() == 1 && nodes[0] is ChainedFunctionCall {
                    lemma_eval_chain_node(e, nodes[0], f, w, grow);
                } else {
                    growth_sequences::lemma_eval_nodes(e, nodes, f, w, grow);
                }
            }
        },
        ValueView::Callable(callable) => {},
        _ => {},
    }
}

/// What `eval_chain_node` comes to is kept.
pub(crate) proof fn lemma_eval_chain_node(
    e: Evaluator,
    node: NodeView,
    f: nat,
    w: World,
    grow: Growth,
)
    requires
        growth::fits(e, grow),
    ensures
        growth::kept(
            w,
            semantics::eval_chain_node(e, node, f, w),
            semantics::eval_chain_node(
                growth::evaluator(e, grow),
                node,
                f + grow.depth,
                growth::world(w, grow),
            ),
            grow,
        ),
    decreases f, 3int, e, 0int,
{
    reveal(semantics::eval_chain_node);
    reveal(semantics::eval_chain);
    match node {
        NodeView::ChainedFunctionCall { head, chain, body, .. } => {
            lemma_eval_chain(
                e,
                head,
                chain,
                match body { Some(nodes) => Some(BodyView::Block(nodes)), None => None, },
                f,
                w,
                grow,
            );
        },
        _ => {},
    }
}

/// What `preserve_value` comes to is kept.
pub(crate) proof fn lemma_preserve_value(
    e: Evaluator,
    value: ValueView,
    f: nat,
    w: World,
    grow: Growth,
)
    requires
        growth::fits(e, grow),
    ensures
        growth::kept(
            w,
            semantics::preserve_value(e, value, f, w),
            semantics::preserve_value(
                growth::evaluator(e, grow),
                value,
                f + grow.depth,
                growth::world(w, grow),
            ),
            grow,
        ),
    decreases f, 4int, value, 0int,
{
    reveal(semantics::preserve_value);
    reveal(semantics::preserve_call);
    match value {
        ValueView::Content(nodes) => {
            if nodes.len() == 1 && nodes[0] is FunctionCall {
                lemma_preserve_call(e, nodes[0], f, w, grow);
            } else {
                growth_sequences::lemma_eval_nodes(e, nodes, f, w, grow);
            }
        },
        _ => {
            growth_helpers::lemma_preservable(value, w.s, grow);
        },
    }
}

/// What `required` comes to is kept.
pub(crate) proof fn lemma_required(
    e: Evaluator,
    value: ValueView,
    span: SourceSpan,
    f: nat,
    w: World,
    grow: Growth,
)
    requires
        growth::fits(e, grow),
    ensures
        growth::kept(
            w,
            semantics::required(e, value, span, f, w),
            semantics::required(
                growth::evaluator(e, grow),
                value,
                span,
                f + grow.depth,
                growth::world(w, grow),
            ),
            grow,
        ),
    decreases f, 4int, value, 2int,
{
    reveal(semantics::required);
    reveal(semantics::eval_value);
    reveal(semantics::preserve_value);
    lemma_eval_value(e, value, f, w, grow);
    let r = semantics::eval_value(e, value, f, w);
    match r.out {
        OutcomeView::Value(v) => {},
        OutcomeView::Unresolved => {
            lemma_preserve_value(e, value, f, r.w, grow);
        },
        OutcomeView::NoValue => {},
        OutcomeView::Failed => {},
    }
}

/// What `kept` comes to is kept.
pub(crate) proof fn lemma_kept(
    e: Evaluator,
    value: ValueView,
    span: SourceSpan,
    f: nat,
    w: World,
    grow: Growth,
)
    requires
        growth::fits(e, grow),
    ensures
        growth::kept(
            w,
            semantics::kept(e, value, span, f, w),
            semantics::kept(
                growth::evaluator(e, grow),
                value,
                span,
                f + grow.depth,
                growth::world(w, grow),
            ),
            grow,
        ),
    decreases f, 4int, value, 2int,
{
    reveal(semantics::kept);
    reveal(semantics::eval_value);
    reveal(semantics::preserve_value);
    lemma_eval_value(e, value, f, w, grow);
    let r = semantics::eval_value(e, value, f, w);
    match r.out {
        OutcomeView::Value(v) => {
            growth_helpers::lemma_preservable(v, r.w.s, grow);
        },
        OutcomeView::Unresolved => {
            lemma_preserve_value(e, value, f, r.w, grow);
        },
        OutcomeView::NoValue => {},
        OutcomeView::Failed => {},
    }
}

/// What `invocation_value` comes to is kept.
pub(crate) proof fn lemma_invocation_value(
    e: Evaluator,
    value: ValueView,
    span: SourceSpan,
    first_origin: Option<ValueOrigin>,
    f: nat,
    w: World,
    grow: Growth,
)
    requires
        growth::fits(e, grow),
    ensures
        growth::kept(
            w,
            semantics::invocation_value(e, value, span, first_origin, f, w),
            semantics::invocation_value(
                growth::evaluator(e, grow),
                value,
                span,
                first_origin,
                f + grow.depth,
                growth::world(w, grow),
            ),
            grow,
        ),
    decreases f, 4int, value, 3int,
{
    reveal(semantics::invocation_value);
    reveal(semantics::required);
    lemma_required(e, value, span, f, w, grow);
}

/// What `preserve_call` comes to is kept.
pub(crate) proof fn lemma_preserve_call(
    e: Evaluator,
    node: NodeView,
    f: nat,
    w: World,
    grow: Growth,
)
    requires
        growth::fits(e, grow),
    ensures
        growth::kept(
            w,
            semantics::preserve_call(e, node, f, w),
            semantics::preserve_call(
                growth::evaluator(e, grow),
                node,
                f + grow.depth,
                growth::world(w, grow),
            ),
            grow,
        ),
    decreases f, 4int, node, 1int,
{
    reveal(semantics::preserve_call);
    match node {
        NodeView::FunctionCall {
            name,
            positional_args,
            named_args,
            lambda_parameters,
            body,
            span,
        } => {
            growth_sequences::lemma_keep_values(e, positional_args, span, f, w, grow);
            let values = semantics::keep_values(e, positional_args, span, f, w);
            match values.out {
                None => {},
                Some(positional) => {
                    growth_sequences::lemma_keep_named(e, named_args, span, f, values.w, grow);
                    let more = semantics::keep_named(e, named_args, span, f, values.w);
                    match more.out {
                        None => {},
                        Some(named) => {
                            match body {
                                None => {},
                                Some(nodes) => {
                                    growth_sequences::lemma_eval_nodes(e, nodes, f, more.w, grow);
                                },
                            }
                        },
                    }
                },
            }
        },
        _ => {},
    }
}

/// What `preserve_inline_call` comes to is kept.
pub(crate) proof fn lemma_preserve_inline_call(
    e: Evaluator,
    inline: InlineView,
    f: nat,
    w: World,
    grow: Growth,
)
    requires
        growth::fits(e, grow),
    ensures
        growth::kept(
            w,
            semantics::preserve_inline_call(e, inline, f, w),
            semantics::preserve_inline_call(
                growth::evaluator(e, grow),
                inline,
                f + grow.depth,
                growth::world(w, grow),
            ),
            grow,
        ),
    decreases f, 4int, inline, 1int,
{
    reveal(semantics::preserve_inline_call);
    match inline {
        InlineView::DirectiveCall { name, positional_args, named_args, body, span } => {
            growth_sequences::lemma_keep_values(e, positional_args, span, f, w, grow);
            let values = semantics::keep_values(e, positional_args, span, f, w);
            match values.out {
                None => {},
                Some(positional) => {
                    growth_sequences::lemma_keep_named(e, named_args, span, f, values.w, grow);
                    let more = semantics::keep_named(e, named_args, span, f, values.w);
                    match more.out {
                        None => {},
                        Some(named) => {
                            match body {
                                None => {},
                                Some(inlines) => {
                                    growth_sequences::lemma_eval_inlines(
                                        e,
                                        inlines,
                                        f,
                                        more.w,
                                        grow,
                                    );
                                },
                            }
                        },
                    }
                },
            }
        },
        _ => {},
    }
}

/// What `body_content` comes to is kept.
pub(crate) proof fn lemma_body_content(
    e: Evaluator,
    body: BodyView,
    span: SourceSpan,
    f: nat,
    w: World,
    grow: Growth,
)
    requires
        growth::fits(e, grow),
    ensures
        growth::kept(
            w,
            semantics::body_content(e, body, span, f, w),
            semantics::body_content(
                growth::evaluator(e, grow),
                body,
                span,
                f + grow.depth,
                growth::world(w, grow),
            ),
            grow,
        ),
    decreases f, 5int, e, 0int,
{
    reveal(semantics::body_content);
    match body {
        BodyView::Block(nodes) => {
            growth_sequences::lemma_eval_nodes(e, nodes, f, w, grow);
        },
        BodyView::Inline(inlines) => {
            growth_sequences::lemma_eval_inlines(e, inlines, f, w, grow);
        },
    }
}

/// What `eval_body` comes to is kept.
pub(crate) proof fn lemma_eval_body(
    e: Evaluator,
    body: BodyView,
    span: SourceSpan,
    f: nat,
    w: World,
    grow: Growth,
)
    requires
        growth::fits(e, grow),
    ensures
        growth::kept(
            w,
            semantics::eval_body(e, body, span, f, w),
            semantics::eval_body(
                growth::evaluator(e, grow),
                body,
                span,
                f + grow.depth,
                growth::world(w, grow),
            ),
            grow,
        ),
    decreases f, 5int, e, 1int,
{
    reveal(semantics::eval_body);
    reveal(semantics::body_content);
    lemma_body_content(e, body, span, f, w, grow);
}

/// What `append_result` comes to is kept.
pub(crate) proof fn lemma_append_result(
    result: BodyResult,
    value: ValueView,
    span: SourceSpan,
    s: SessionView,
    grow: Growth,
)
    ensures
        growth::kept_answer(
            s,
            semantics::append_result(result, value, span, s),
            semantics::append_result(result, value, span, growth::session(s, grow)),
            grow,
        ),
{
    reveal(semantics::append_result);
    match result {
        BodyResult::Empty => {},
        BodyResult::One(first, place) => {
            growth_helpers::lemma_content_nodes(first, place, s, grow);
            match materialize::content_nodes(first, place, s) {
                (None, t) => {},
                (Some(nodes), t) => {
                    lemma_append_nodes(nodes, value, span, t, grow);
                },
            }
        },
        BodyResult::Many(nodes) => {
            lemma_append_nodes(nodes, value, span, s, grow);
        },
    }
}

/// What `append_nodes` comes to is kept.
pub(crate) proof fn lemma_append_nodes(
    nodes: Seq<NodeView>,
    value: ValueView,
    span: SourceSpan,
    s: SessionView,
    grow: Growth,
)
    ensures
        growth::kept_answer(
            s,
            semantics::append_nodes(nodes, value, span, s),
            semantics::append_nodes(nodes, value, span, growth::session(s, grow)),
            grow,
        ),
{
    growth_helpers::lemma_content_nodes(value, span, s, grow);
}

/// What `body_results` comes to is kept.
pub(crate) proof fn lemma_body_results(
    e: Evaluator,
    nodes: Seq<NodeView>,
    f: nat,
    w: World,
    grow: Growth,
)
    requires
        growth::fits(e, grow),
    ensures
        growth::kept(
            w,
            semantics::body_results(e, nodes, f, w),
            semantics::body_results(
                growth::evaluator(e, grow),
                nodes,
                f + grow.depth,
                growth::world(w, grow),
            ),
            grow,
        ),
    decreases f, 4int, nodes, 1int,
{
    reveal(semantics::body_results);
    reveal(semantics::append_result);
    reveal(semantics::eval_statement);
    if nodes.len() == 0 {
    } else {
        lemma_body_results(e, nodes.drop_last(), f, w, grow);
        let before = semantics::body_results(e, nodes.drop_last(), f, w);
        match before.out {
            Err(out) => {},
            Ok(result) => {
                lemma_eval_statement(e, nodes.last(), f, before.w, grow);
                let r = semantics::eval_statement(e, nodes.last(), f, before.w);
                match r.out {
                    OutcomeView::Value(value) => {
                        lemma_append_result(
                            result,
                            value,
                            materialize::node_span(nodes.last()),
                            r.w.s,
                            grow,
                        );
                    },
                    OutcomeView::NoValue => {},
                    OutcomeView::Failed => {},
                    OutcomeView::Unresolved => {},
                }
            },
        }
    }
}

/// What `callable_body` comes to is kept.
pub(crate) proof fn lemma_callable_body(
    e: Evaluator,
    nodes: Seq<NodeView>,
    f: nat,
    w: World,
    grow: Growth,
)
    requires
        growth::fits(e, grow),
    ensures
        growth::kept(
            w,
            semantics::callable_body(e, nodes, f, w),
            semantics::callable_body(
                growth::evaluator(e, grow),
                nodes,
                f + grow.depth,
                growth::world(w, grow),
            ),
            grow,
        ),
    decreases f, 4int, nodes, 2int,
{
    reveal(semantics::callable_body);
    reveal(semantics::body_results);
    lemma_body_results(e, nodes, f, w, grow);
}

/// What `eval_statement` comes to is kept.
pub(crate) proof fn lemma_eval_statement(
    e: Evaluator,
    node: NodeView,
    f: nat,
    w: World,
    grow: Growth,
)
    requires
        growth::fits(e, grow),
    ensures
        growth::kept(
            w,
            semantics::eval_statement(e, node, f, w),
            semantics::eval_statement(
                growth::evaluator(e, grow),
                node,
                f + grow.depth,
                growth::world(w, grow),
            ),
            grow,
        ),
    decreases f, 4int, node, 3int,
{
    reveal(semantics::eval_statement);
    reveal(semantics::eval_chain_node);
    reveal(semantics::eval_node);
    reveal(semantics::preserve_call);
    if node is FunctionCall {
        growth_calls::lemma_eval_call(e, semantics::call_of_node(node), f, w, grow);
        let r = semantics::eval_call(e, semantics::call_of_node(node), f, w);
        if r.out is Unresolved {
            lemma_preserve_call(e, node, f, r.w, grow);
        }
    } else {
        if node is ChainedFunctionCall {
            lemma_eval_chain_node(e, node, f, w, grow);
        } else {
            lemma_eval_node(e, node, f, w, grow);
        }
    }
}

/// What `segment_outcome` comes to is kept.
pub(crate) proof fn lemma_segment_outcome(
    out: OutcomeView,
    segment: CallSegmentView,
    value_required: bool,
    w: World,
    grow: Growth,
)
    ensures
        growth::kept(
            w,
            semantics::segment_outcome(out, segment, value_required, w),
            semantics::segment_outcome(out, segment, value_required, growth::world(w, grow)),
            grow,
        ),
{
    reveal(semantics::segment_outcome);

}

/// What `chain_prefix` comes to is kept.
pub(crate) proof fn lemma_chain_prefix(
    e: Evaluator,
    head: CallSegmentView,
    chain: Seq<CallSegmentView>,
    done: nat,
    body: Option<BodyView>,
    f: nat,
    w: World,
    grow: Growth,
)
    requires
        growth::fits(e, grow),
    ensures
        growth::kept(
            w,
            semantics::chain_prefix(e, head, chain, done, body, f, w),
            semantics::chain_prefix(
                growth::evaluator(e, grow),
                head,
                chain,
                done,
                body,
                f + grow.depth,
                growth::world(w, grow),
            ),
            grow,
        ),
    decreases f, 1int, e, done,
{
    reveal(semantics::chain_prefix);
    reveal(semantics::segment_outcome);
    if done == 0 {
        growth_calls::lemma_eval_call(e, semantics::call_of_segment(head, None, None), f, w, grow);
        let r = semantics::eval_call(e, semantics::call_of_segment(head, None, None), f, w);
        lemma_segment_outcome(r.out, head, chain.len() > 0, r.w, grow);
    } else {
        lemma_chain_prefix(e, head, chain, (done - 1) as nat, body, f, w, grow);
        let before = semantics::chain_prefix(e, head, chain, (done - 1) as nat, body, f, w);
        match before.out.0 {
            OutcomeView::Value(value) => {
                let segment = chain[done - 1];
                growth_calls::lemma_eval_call(
                    e,
                    semantics::call_of_segment(
                        segment,
                        Some((value, before.out.1)),
                        if done == chain.len() { body } else { None },
                    ),
                    f,
                    before.w,
                    grow,
                );
                let r = semantics::eval_call(
                    e,
                    semantics::call_of_segment(
                        segment,
                        Some((value, before.out.1)),
                        if done == chain.len() { body } else { None },
                    ),
                    f,
                    before.w,
                );
                lemma_segment_outcome(r.out, segment, done < chain.len(), r.w, grow);
            },
            _ => {},
        }
    }
}

/// What `eval_chain` comes to is kept.
pub(crate) proof fn lemma_eval_chain(
    e: Evaluator,
    head: CallSegmentView,
    chain: Seq<CallSegmentView>,
    body: Option<BodyView>,
    f: nat,
    w: World,
    grow: Growth,
)
    requires
        growth::fits(e, grow),
    ensures
        growth::kept(
            w,
            semantics::eval_chain(e, head, chain, body, f, w),
            semantics::eval_chain(
                growth::evaluator(e, grow),
                head,
                chain,
                body,
                f + grow.depth,
                growth::world(w, grow),
            ),
            grow,
        ),
    decreases f, 2int, e, 0int,
{
    reveal(semantics::eval_chain);
    reveal(semantics::chain_prefix);
    lemma_chain_prefix(e, head, chain, chain.len(), body, f, w, grow);
}

/// What `call_arguments` comes to is kept.
pub(crate) proof fn lemma_call_arguments(
    e: Evaluator,
    call: CallView,
    f: nat,
    w: World,
    grow: Growth,
)
    requires
        growth::fits(e, grow),
    ensures
        growth::kept(
            w,
            semantics::call_arguments(e, call, f, w),
            semantics::call_arguments(
                growth::evaluator(e, grow),
                call,
                f + grow.depth,
                growth::world(w, grow),
            ),
            grow,
        ),
    decreases f, 5int, e, 0int,
{
    reveal(semantics::call_arguments);
    growth_sequences::lemma_invocation_values(
        e,
        call.positional,
        call.span,
        call.first_origin,
        f,
        w,
        grow,
    );
    let positional = semantics::invocation_values(
        e,
        call.positional,
        call.span,
        call.first_origin,
        f,
        w,
    );
    match positional.out {
        None => {},
        Some(values) => {
            growth_sequences::lemma_invocation_named(
                e,
                call.named,
                call.span,
                f,
                positional.w,
                grow,
            );
        },
    }
}

/// What `whitespace_sizes` comes to is kept.
pub(crate) proof fn lemma_whitespace_sizes(
    call: CallView,
    slots: Seq<Option<ArgumentView>>,
    w: World,
    grow: Growth,
)
    ensures
        growth::kept(
            w,
            semantics::whitespace_sizes(call, slots, w),
            semantics::whitespace_sizes(call, slots, growth::world(w, grow)),
            grow,
        ),
{
    reveal(semantics::whitespace_sizes);
    growth_layout::lemma_size_of(
        slots[0],
        "whitespace"@,
        "width"@,
        Fault::WhitespaceArgument,
        w.s,
        grow,
    );
    match semantics::size_of(slots[0], "whitespace"@, "width"@, Fault::WhitespaceArgument, w.s) {
        (None, s) => {},
        (Some(width), s) => {
            growth_layout::lemma_size_of(
                slots[1],
                "whitespace"@,
                "height"@,
                Fault::WhitespaceArgument,
                s,
                grow,
            );
        },
    }
}

/// What `body_value` comes to is kept.
pub(crate) proof fn lemma_body_value(
    e: Evaluator,
    body: BodyView,
    span: SourceSpan,
    f: nat,
    w: World,
    grow: Growth,
)
    requires
        growth::fits(e, grow),
    ensures
        growth::kept(
            w,
            semantics::body_value(e, body, span, f, w),
            semantics::body_value(
                growth::evaluator(e, grow),
                body,
                span,
                f + grow.depth,
                growth::world(w, grow),
            ),
            grow,
        ),
    decreases f, 5int, e, 1int,
{
    reveal(semantics::body_value);
    reveal(semantics::body_content);
    lemma_body_content(e, body, span, f, w, grow);
}

/// What `eval_document` comes to is kept.
pub(crate) proof fn lemma_eval_document(
    e: Evaluator,
    document: DocumentView,
    s: SessionView,
    c: ContextView,
    grow: Growth,
)
    requires
        growth::fits(e, grow),
    ensures
        growth::kept_answer(
            s,
            semantics::eval_document(e, document, s, c),
            semantics::eval_document(
                growth::evaluator(e, grow),
                document,
                growth::session(s, grow),
                c,
            ),
            grow,
        ),
{
    reveal(semantics::eval_document);
    growth_sequences::lemma_eval_nodes(
        e,
        document.nodes,
        e.limits.max_evaluation_depth as nat,
        World { s: SessionView { document_state: document.metadata.document_state, ..s }, c, },
        grow,
    );
}

} // verus!
