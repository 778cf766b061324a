//! Laws of statements: what the blocks of a body come to, and what declarations, chains and unknown
//! calls leave in a document.

use vstd::prelude::*;

use crate::ir::{
    CallSegmentView, InlineView, NamedArgView, NodeView, ParameterView, SourceSpan, ValueView,
};
use crate::laws_calls;
use crate::outcome::OutcomeView;
use crate::semantics;
use crate::semantics::{BodyView, Evaluator, World};

verus! {

/// A declaration leaves nothing where it stands; all that it does is to declare.
pub proof fn lemma_declaration_leaves_nothing(
    e: Evaluator,
    name: ValueView,
    parameters: Seq<ParameterView>,
    body: Seq<NodeView>,
    span: SourceSpan,
    f: nat,
    w: World,
)
    ensures
        ({
            let r = semantics::eval_node(
                e,
                NodeView::FunctionDeclaration { name, parameters, body, span },
                f,
                w,
            );
            &&& r.out.len() == 0
            &&& r.w == semantics::declare_function(name, parameters, body, span, w)
        }),
{
    reveal(semantics::block_outcome);
    reveal(semantics::eval_node);
}

/// A chain that stands as a block leaves what its value is shown as, and a chain in a line what its
/// value is shown as in a line; the body of the chain goes with it.
pub proof fn lemma_chain_shown(
    e: Evaluator,
    head: CallSegmentView,
    chain: Seq<CallSegmentView>,
    nodes: Seq<NodeView>,
    line: Seq<InlineView>,
    text: Seq<char>,
    span: SourceSpan,
    f: nat,
    w: World,
)
    ensures
        ({
            let block = BodyView::Block(nodes);
            let whole = semantics::eval_chain(e, head, chain, Some(block), f, w);
            let r = semantics::eval_node(
                e,
                NodeView::ChainedFunctionCall { head, chain, body: Some(nodes), span },
                f,
                w,
            );
            &&& whole.out == OutcomeView::Value(ValueView::String(text)) ==> r.w == whole.w
                && r.out == seq![
                NodeView::Paragraph {
                    content: seq![InlineView::Text { content: text, span }],
                    span,
                },
            ]
            &&& whole.out == OutcomeView::Value(ValueView::Content(nodes)) ==> r.w == whole.w
                && r.out == nodes
            &&& !(whole.out is Value) ==> r.w == whole.w && r.out.len() == 0
        }),
        ({
            let whole = semantics::eval_chain(e, head, chain, None, f, w);
            let r = semantics::eval_node(
                e,
                NodeView::ChainedFunctionCall { head, chain, body: None, span },
                f,
                w,
            );
            &&& whole.out == OutcomeView::Value(ValueView::Content(nodes)) ==> r.w == whole.w
                && r.out == nodes
            &&& !(whole.out is Value) ==> r.w == whole.w && r.out.len() == 0
        }),
        ({
            let inside = BodyView::Inline(line);
            let whole = semantics::eval_chain(e, head, chain, Some(inside), f, w);
            let r = semantics::eval_inline(
                e,
                InlineView::ChainedDirectiveCall { head, chain, body: Some(line), span },
                f,
                w,
            );
            &&& whole.out == OutcomeView::Value(ValueView::String(text)) ==> r.w == whole.w
                && r.out == seq![InlineView::Text { content: text, span }]
            &&& !(whole.out is Value) ==> r.w == whole.w && r.out.len() == 0
        }),
        ({
            let whole = semantics::eval_chain(e, head, chain, None, f, w);
            let r = semantics::eval_inline(
                e,
                InlineView::ChainedDirectiveCall { head, chain, body: None, span },
                f,
                w,
            );
            &&& whole.out == OutcomeView::Value(ValueView::String(text)) ==> r.w == whole.w
                && r.out == seq![InlineView::Text { content: text, span }]
            &&& !(whole.out is Value) ==> r.w == whole.w && r.out.len() == 0
        }),
{
    reveal(semantics::eval_node);
    reveal(semantics::eval_inline);
    reveal(semantics::block_outcome);
    reveal(semantics::inline_outcome);
}

/// A call that nothing answers to leaves the call that is kept of it, and nothing where it cannot
/// be kept.
pub proof fn lemma_unknown_call_kept(
    e: Evaluator,
    name: Seq<char>,
    positional: Seq<ValueView>,
    named: Seq<NamedArgView>,
    lambda: Option<Seq<ParameterView>>,
    body: Option<Seq<NodeView>>,
    span: SourceSpan,
    f: nat,
    w: World,
)
    ensures
        ({
            let node = NodeView::FunctionCall {
                name,
                positional_args: positional,
                named_args: named,
                lambda_parameters: lambda,
                body,
                span,
            };
            let call = semantics::eval_call(
                e,
                laws_calls::block_call(name, positional, named, lambda, body, span),
                f,
                w,
            );
            let kept = semantics::preserve_call(e, node, f, call.w);
            let r = semantics::eval_node(e, node, f, w);
            call.out is Unresolved ==> {
                &&& r.w == kept.w
                &&& kept.out is Some ==> r.out == kept.out->0
                &&& kept.out is None ==> r.out.len() == 0
            }
        }),
{
    reveal(semantics::block_outcome);
    reveal(semantics::inline_outcome);
    reveal(semantics::eval_node);
    reveal(semantics::eval_inline);
}

/// So it is with a call in a line.
pub proof fn lemma_unknown_line_call_kept(
    e: Evaluator,
    name: Seq<char>,
    positional: Seq<ValueView>,
    named: Seq<NamedArgView>,
    body: Option<Seq<InlineView>>,
    span: SourceSpan,
    f: nat,
    w: World,
)
    requires
        semantics::block_only(name, w.c) is None,
    ensures
        ({
            let inline = InlineView::DirectiveCall {
                name,
                positional_args: positional,
                named_args: named,
                body,
                span,
            };
            let call = semantics::eval_call(
                e,
                laws_calls::line_call(name, positional, named, body, span),
                f,
                w,
            );
            let kept = semantics::preserve_inline_call(e, inline, f, call.w);
            let r = semantics::eval_inline(e, inline, f, w);
            call.out is Unresolved ==> {
                &&& r.w == kept.w
                &&& kept.out is Some ==> r.out == kept.out->0
                &&& kept.out is None ==> r.out.len() == 0
            }
        }),
{
    reveal(semantics::inline_outcome);
    reveal(semantics::eval_inline);
}

} // verus!
