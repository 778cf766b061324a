//! Laws of values that are calls, and of calls that stand where they may not.

use vstd::prelude::*;

use crate::ir::{
    CallSegmentView, InlineView, NamedArgView, NodeView, ParameterView, SourceSpan, ValueView,
};
use crate::laws_calls;
use crate::laws_leaves;
use crate::natives;
use crate::natives::NativeDispatchOwner;
use crate::outcome::OutcomeView;
use crate::scope;
use crate::semantics;
use crate::semantics::{BodyView, Evaluator, World};

verus! {

/// A call that is an argument has the value that the call gives, as it gives it; where the call
/// gives none, that is reported where it is written, and where it fails the argument has none. A
/// call that nothing answers to is kept as content.
pub proof fn lemma_call_as_value(
    e: Evaluator,
    name: Seq<char>,
    positional: Seq<ValueView>,
    named: Seq<NamedArgView>,
    lambda: Option<Seq<ParameterView>>,
    body: Option<Seq<NodeView>>,
    at: SourceSpan,
    span: SourceSpan,
    f: nat,
    w: World,
)
    ensures
        ({
            let node = NodeView::FunctionCall {
                name,
                positional_args: positional,
                named_args: named,
                lambda_parameters: lambda,
                body,
                span: at,
            };
            let call = semantics::eval_call(
                e,
                laws_calls::block_call(name, positional, named, lambda, body, at),
                f,
                w,
            );
            let r = semantics::required(e, ValueView::Content(seq![node]), span, f, w);
            match call.out {
                OutcomeView::Value(value) => r.out == Some(value) && r.w == call.w,
                OutcomeView::Failed => r.out is None && r.w == call.w,
                OutcomeView::NoValue => r.out is None && r.w.c == call.w.c
                    && laws_leaves::reported(call.w.s, r.w.s, "E3001"@, at),
                OutcomeView::Unresolved => {
                    let kept = semantics::preserve_call(e, node, f, call.w);
                    &&& r.w == kept.w
                    &&& kept.out is Some ==> r.out == Some(ValueView::Content(kept.out->0))
                    &&& kept.out is None ==> r.out is None
                },
            }
        }),
{
    reveal(semantics::eval_chain_node);
    reveal(semantics::required);
    reveal(semantics::preserve_value);
    reveal(semantics::eval_value);
    let node = NodeView::FunctionCall {
        name,
        positional_args: positional,
        named_args: named,
        lambda_parameters: lambda,
        body,
        span: at,
    };
    let value = ValueView::Content(seq![node]);
    let call = semantics::eval_call(
        e,
        laws_calls::block_call(name, positional, named, lambda, body, at),
        f,
        w,
    );
    let v = semantics::eval_value(e, value, f, w);
    assert(v.out == call.out && v.w == call.w);
    let kept = semantics::preserve_call(e, node, f, call.w);
    let p = semantics::preserve_value(e, value, f, call.w);
    assert(p.w == kept.w);
    let r = semantics::required(e, value, span, f, w);
    if call.out is NoValue {
        let n = call.w.s.diagnostics.len() as int;
        assert(r.w.s.diagnostics.take(n) =~= call.w.s.diagnostics);
    }
}

/// A chain that is an argument has the value that the chain gives.
pub proof fn lemma_chain_as_value(
    e: Evaluator,
    head: CallSegmentView,
    chain: Seq<CallSegmentView>,
    nodes: Seq<NodeView>,
    at: SourceSpan,
    f: nat,
    w: World,
)
    ensures
        ({
            let node = NodeView::ChainedFunctionCall { head, chain, body: None, span: at };
            let whole = semantics::eval_chain(e, head, chain, None, f, w);
            let r = semantics::eval_value(e, ValueView::Content(seq![node]), f, w);
            r.out == whole.out && r.w == whole.w
        }),
        ({
            let node = NodeView::ChainedFunctionCall { head, chain, body: Some(nodes), span: at };
            let whole = semantics::eval_chain(
                e,
                head,
                chain,
                Some(BodyView::Block(nodes)),
                f,
                w,
            );
            let r = semantics::eval_value(e, ValueView::Content(seq![node]), f, w);
            r.out == whole.out && r.w == whole.w
        }),
{
    reveal(semantics::eval_value);
    reveal(semantics::eval_chain_node);
    let one = NodeView::ChainedFunctionCall { head, chain, body: None, span: at };
    let two = NodeView::ChainedFunctionCall { head, chain, body: Some(nodes), span: at };
    let a = semantics::eval_chain_node(e, one, f, w);
    assert(a == semantics::eval_chain(e, head, chain, None, f, w));
    let b = semantics::eval_chain_node(e, two, f, w);
    assert(b == semantics::eval_chain(e, head, chain, Some(BodyView::Block(nodes)), f, w));
}

/// Several blocks as an argument have the content that they evaluate to as their value; where they
/// only declare functions they have none.
pub proof fn lemma_blocks_as_value(e: Evaluator, nodes: Seq<NodeView>, f: nat, w: World)
    requires
        nodes.len() != 1,
    ensures
        ({
            let blocks = semantics::eval_nodes(e, nodes, f, w);
            let r = semantics::eval_value(e, ValueView::Content(nodes), f, w);
            let declares = exists|i: int|
                0 <= i < nodes.len() && (#[trigger] nodes[i]) is FunctionDeclaration;
            &&& r.w == blocks.w
            &&& blocks.w.s.diagnostics.len() != w.s.diagnostics.len() ==> r.out is Failed
            &&& blocks.w.s.diagnostics.len() == w.s.diagnostics.len() && (blocks.out.len() > 0
                || !declares) ==> r.out == OutcomeView::Value(ValueView::Content(blocks.out))
            &&& blocks.w.s.diagnostics.len() == w.s.diagnostics.len() && blocks.out.len() == 0
                && declares ==> r.out is NoValue
        }),
{
    reveal(semantics::eval_chain_node);
    reveal(semantics::eval_value);
}

/// A call of a layout that is made for blocks is refused in a line: nothing is left of it, and it
/// is reported. A function of the document with such a name stands in for it, but not for `.row`,
/// `.column` and `.grid`.
pub proof fn lemma_block_call_in_line(
    e: Evaluator,
    name: Seq<char>,
    positional: Seq<ValueView>,
    named: Seq<NamedArgView>,
    body: Option<Seq<InlineView>>,
    span: SourceSpan,
    f: nat,
    w: World,
)
    ensures
        ({
            let inline = InlineView::DirectiveCall {
                name,
                positional_args: positional,
                named_args: named,
                body,
                span,
            };
            let stacked = natives::owns(NativeDispatchOwner::StackedLayout, name);
            let other = natives::owns(NativeDispatchOwner::Center, name) || natives::owns(
                NativeDispatchOwner::Align,
                name,
            ) || natives::owns(NativeDispatchOwner::Container, name) || natives::owns(
                NativeDispatchOwner::Landscape,
                name,
            );
            let r = semantics::eval_inline(e, inline, f, w);
            stacked || (other && scope::visible_function(w.c, name) is None) ==> {
                &&& r.out.len() == 0
                &&& r.w.c == w.c
                &&& laws_leaves::reported(w.s, r.w.s, "E3001"@, span)
            }
        }),
{
    reveal(semantics::eval_inline);
    reveal(semantics::block_only);
    let inline = InlineView::DirectiveCall {
        name,
        positional_args: positional,
        named_args: named,
        body,
        span,
    };
    let r = semantics::eval_inline(e, inline, f, w);
    if semantics::block_only(name, w.c) is Some {
        let n = w.s.diagnostics.len() as int;
        assert(r.w.s.diagnostics.take(n) =~= w.s.diagnostics);
    }
}

} // verus!
