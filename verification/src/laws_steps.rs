//! Laws of the statements of a body, one by one.

use vstd::prelude::*;

use crate::ir::{CallSegmentView, NamedArgView, NodeView, ParameterView, SourceSpan, ValueView};
use crate::laws_calls;
use crate::outcome::OutcomeView;
use crate::semantics;
use crate::semantics::{BodyView, Evaluator, World};

verus! {

/// A statement that is a call comes to what the call comes to; where nothing answers to it, to the
/// call that is kept of it.
pub proof fn lemma_call_statement(
    e: Evaluator,
    name: Seq<char>,
    positional: Seq<ValueView>,
    named: Seq<NamedArgView>,
    lambda: Option<Seq<ParameterView>>,
    body: Option<Seq<NodeView>>,
    span: SourceSpan,
    f: nat,
    w: World,
)
    ensures
        ({
            let node = NodeView::FunctionCall {
                name,
                positional_args: positional,
                named_args: named,
                lambda_parameters: lambda,
                body,
                span,
            };
            let call = semantics::eval_call(
                e,
                laws_calls::block_call(name, positional, named, lambda, body, span),
                f,
                w,
            );
            let kept = semantics::preserve_call(e, node, f, call.w);
            let r = semantics::eval_statement(e, node, f, w);
            if call.out is Unresolved {
                &&& r.w == kept.w
                &&& kept.out is Some ==> r.out == OutcomeView::Value(
                    ValueView::Content(kept.out->0),
                )
                &&& kept.out is None ==> r.out is Failed
            } else {
                r.out == call.out && r.w == call.w
            }
        }),
{
    reveal(semantics::eval_chain_node);
    reveal(semantics::eval_statement);
}

/// A statement that is a chain comes to what the chain comes to.
pub proof fn lemma_chain_statement(
    e: Evaluator,
    head: CallSegmentView,
    chain: Seq<CallSegmentView>,
    nodes: Seq<NodeView>,
    span: SourceSpan,
    f: nat,
    w: World,
)
    ensures
        ({
            let node = NodeView::ChainedFunctionCall { head, chain, body: Some(nodes), span };
            let whole = semantics::eval_chain(
                e,
                head,
                chain,
                Some(BodyView::Block(nodes)),
                f,
                w,
            );
            let r = semantics::eval_statement(e, node, f, w);
            r.out == whole.out && r.w == whole.w
        }),
{
    reveal(semantics::eval_statement);
    reveal(semantics::eval_chain_node);
    let node = NodeView::ChainedFunctionCall { head, chain, body: Some(nodes), span };
    let a = semantics::eval_chain_node(e, node, f, w);
    assert(a == semantics::eval_chain(e, head, chain, Some(BodyView::Block(nodes)), f, w));
}

/// Any other statement comes to the content that it evaluates to, to no value where that is
/// nothing, and fails where something in it is reported.
pub proof fn lemma_content_statement(e: Evaluator, node: NodeView, f: nat, w: World)
    requires
        !(node is FunctionCall),
        !(node is ChainedFunctionCall),
    ensures
        ({
            let block = semantics::eval_node(e, node, f, w);
            let r = semantics::eval_statement(e, node, f, w);
            &&& r.w == block.w
            &&& block.w.s.diagnostics.len() != w.s.diagnostics.len() ==> r.out is Failed
            &&& block.w.s.diagnostics.len() == w.s.diagnostics.len() && block.out.len() == 0
                ==> r.out is NoValue
            &&& block.w.s.diagnostics.len() == w.s.diagnostics.len() && block.out.len() > 0
                ==> r.out == OutcomeView::Value(ValueView::Content(block.out))
        }),
{
    reveal(semantics::eval_chain_node);
    reveal(semantics::eval_statement);
}

} // verus!
