//! Laws of what a call leaves in its place: in a document, and in a line.

use vstd::prelude::*;

use crate::ir::{InlineView, NamedArgView, NodeView, ParameterView, SourceSpan, ValueView};
use crate::laws_calls;
use crate::laws_document;
use crate::laws_leaves;
use crate::materialize;
use crate::natives;
use crate::natives::NativeDispatchOwner;
use crate::outcome::OutcomeView;
use crate::scope;
use crate::scope::VariableValueView;
use crate::semantics;
use crate::semantics::{Evaluator, World};

verus! {

/// A call that stands as a block is evaluated with its name, arguments, parameters and body. A
/// text that it gives stands as a paragraph, content as it is, and any other value as what it is
/// shown as; where it gives nothing or fails, nothing is left.
pub proof fn lemma_block_call_shown(
    e: Evaluator,
    name: Seq<char>,
    positional: Seq<ValueView>,
    named: Seq<NamedArgView>,
    lambda: Option<Seq<ParameterView>>,
    body: Option<Seq<NodeView>>,
    span: SourceSpan,
    f: nat,
    w: World,
)
    ensures
        ({
            let node = NodeView::FunctionCall {
                name,
                positional_args: positional,
                named_args: named,
                lambda_parameters: lambda,
                body,
                span,
            };
            let call = semantics::eval_call(
                e,
                laws_calls::block_call(name, positional, named, lambda, body, span),
                f,
                w,
            );
            let shown = semantics::eval_node(e, node, f, w);
            match call.out {
                OutcomeView::Value(ValueView::String(text)) => shown.w == call.w && shown.out
                    == seq![
                    NodeView::Paragraph {
                        content: seq![InlineView::Text { content: text, span }],
                        span,
                    },
                ],
                OutcomeView::Value(ValueView::Content(nodes)) => shown.w == call.w && shown.out
                    == nodes,
                OutcomeView::Value(value) => {
                    let nodes = materialize::content_nodes(value, span, call.w.s);
                    &&& shown.w.c == call.w.c && shown.w.s == nodes.1
                    &&& nodes.0 is Some ==> shown.out == nodes.0->0
                    &&& nodes.0 is None ==> shown.out.len() == 0
                },
                OutcomeView::Unresolved => true,
                OutcomeView::NoValue => shown.w == call.w && shown.out.len() == 0,
                OutcomeView::Failed => shown.w == call.w && shown.out.len() == 0,
            }
        }),
{
    reveal(semantics::block_only);
    reveal(semantics::eval_inline);
    reveal(semantics::eval_inlines);
    reveal(semantics::inline_outcome);
    reveal(semantics::eval_node);
    reveal(semantics::block_outcome);
}

/// A call that stands in a line is evaluated with its name, arguments and body. A text that it
/// gives stands in the line, one paragraph as its line, and any other value as what it is shown as
/// in a line; where it gives nothing or fails, nothing is left.
pub proof fn lemma_line_call_shown(
    e: Evaluator,
    name: Seq<char>,
    positional: Seq<ValueView>,
    named: Seq<NamedArgView>,
    body: Option<Seq<InlineView>>,
    span: SourceSpan,
    f: nat,
    w: World,
)
    requires
        !natives::owns(NativeDispatchOwner::StackedLayout, name),
        !natives::owns(NativeDispatchOwner::Center, name),
        !natives::owns(NativeDispatchOwner::Align, name),
        !natives::owns(NativeDispatchOwner::Container, name),
        !natives::owns(NativeDispatchOwner::Landscape, name),
    ensures
        ({
            let inline = InlineView::DirectiveCall {
                name,
                positional_args: positional,
                named_args: named,
                body,
                span,
            };
            let call = semantics::eval_call(
                e,
                laws_calls::line_call(name, positional, named, body, span),
                f,
                w,
            );
            let shown = semantics::eval_inline(e, inline, f, w);
            match call.out {
                OutcomeView::Value(ValueView::String(text)) => shown.w == call.w && shown.out
                    == seq![InlineView::Text { content: text, span }],
                OutcomeView::Value(ValueView::Content(nodes)) => nodes.len() == 1
                    && nodes[0] is Paragraph ==> shown.w == call.w && shown.out
                    == nodes[0]->Paragraph_content,
                OutcomeView::Value(value) => {
                    let line = materialize::inline_content(value, span, call.w.s);
                    shown.w.c == call.w.c && shown.w.s == line.1 && shown.out == line.0
                },
                OutcomeView::Unresolved => true,
                OutcomeView::NoValue => shown.w == call.w && shown.out.len() == 0,
                OutcomeView::Failed => shown.w == call.w && shown.out.len() == 0,
            }
        }),
{
    reveal(semantics::eval_inlines);
    reveal(semantics::eval_inline);
    reveal(semantics::block_only);
    reveal(semantics::inline_outcome);
}

/// A variable that holds a text, called inside emphasis, is replaced by that text.
pub proof fn lemma_variable_in_emphasis(
    e: Evaluator,
    lead: Seq<char>,
    name: Seq<char>,
    text: Seq<char>,
    span: SourceSpan,
    f: nat,
    w: World,
)
    requires
        laws_calls::free_name(name),
        scope::visible_variable(w.c, name) == Some(
            VariableValueView::Scalar(ValueView::String(text)),
        ),
        f > 0,
    ensures
        ({
            let call = InlineView::DirectiveCall {
                name,
                positional_args: Seq::empty(),
                named_args: Seq::empty(),
                body: None,
                span,
            };
            let before = InlineView::Text { content: lead, span };
            let r = semantics::eval_inline(
                e,
                InlineView::Emphasis { content: seq![before, call], span },
                f,
                w,
            );
            &&& r.w == w
            &&& r.out == seq![
                InlineView::Emphasis {
                    content: seq![before, InlineView::Text { content: text, span }],
                    span,
                },
            ]
        }),
{
    let call = InlineView::DirectiveCall {
        name,
        positional_args: Seq::empty(),
        named_args: Seq::empty(),
        body: None,
        span,
    };
    let before = InlineView::Text { content: lead, span };
    let node = NodeView::ThematicBreak { span };
    assert(seq![before, call] =~= seq![before] + seq![call]);
    laws_document::lemma_inlines_in_order(e, seq![before], seq![call], f, w);
    laws_document::lemma_single_inline(e, before, f, w);
    laws_document::lemma_single_inline(e, call, f, w);
    laws_document::lemma_line_parts_evaluated(e, seq![before, call], lead, None, span, f, w);
    laws_leaves::lemma_leaves_kept(e, node, before, f, w);
    laws_calls::lemma_variable_called(
        e,
        name,
        VariableValueView::Scalar(ValueView::String(text)),
        None,
        span,
        f,
        w,
    );
    lemma_line_call_shown(e, name, Seq::empty(), Seq::empty(), None, span, f, w);
    let bare = laws_calls::block_call(name, Seq::empty(), Seq::empty(), None, None, span);
    assert(laws_calls::line_call(name, Seq::empty(), Seq::empty(), None, span) == bare);
    let shown = InlineView::Text { content: text, span };
    assert(seq![before] + seq![shown] =~= seq![before, shown]);
}

} // verus!
