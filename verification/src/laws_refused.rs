//! Laws of calls that are not shaped as they must be: they fail, and say so where it is wrong.

use vstd::prelude::*;

use crate::ir::{ComponentView, InlineView, NodeView, SourceSpan, ValueView};
use crate::laws_leaves;
use crate::outcome::OutcomeView;
use crate::semantics;
use crate::semantics::{CallView, Evaluator, World};

verus! {

/// Whether a call failed with one report.
pub open spec fn refused(
    w: World,
    r: crate::semantics::Ev<OutcomeView>,
    code: Seq<char>,
    span: SourceSpan,
) -> bool {
    &&& r.out is Failed
    &&& r.w.c == w.c
    &&& laws_leaves::reported(w.s, r.w.s, code, span)
}

/// Where an argument that is a call or a typed value is written; any other argument is where the
/// call is that it belongs to.
pub proof fn lemma_argument_place(value: ValueView, node: NodeView, call: SourceSpan)
    ensures
        value is String || value is Number || value is Boolean || value is Identifier
            || value is Nothing || value is Collection || value is Size || value is Color
            || value is Enum ==> crate::materialize::value_span(value, call) == call,
        value matches ValueView::Pair(pair) ==> crate::materialize::value_span(value, call)
            == pair.span,
        value matches ValueView::Dictionary(d) ==> crate::materialize::value_span(value, call)
            == d.span,
        value matches ValueView::Range(range) ==> crate::materialize::value_span(value, call)
            == range.span,
        value matches ValueView::Callable(c) ==> crate::materialize::value_span(value, call)
            == c.span,
        node matches NodeView::FunctionCall { span, .. } ==> crate::materialize::value_span(
            ValueView::Content(seq![node]),
            call,
        ) == span,
        node matches NodeView::ChainedFunctionCall { span, .. } ==> crate::materialize::value_span(
            ValueView::Content(seq![node]),
            call,
        ) == span,
        node matches NodeView::Paragraph { .. } ==> crate::materialize::value_span(
            ValueView::Content(seq![node]),
            call,
        ) == call,
{
}

/// A part of a line stands where it is written, and native content where it says.
pub proof fn lemma_inline_place(inline: InlineView)
    ensures
        crate::materialize::inline_span(inline) == (match inline {
            InlineView::Text { content: _, span } => span,
            InlineView::Whitespace { span, .. } => span,
            InlineView::Emphasis { content: _, span } => span,
            InlineView::Strong { content: _, span } => span,
            InlineView::Strikethrough { content: _, span } => span,
            InlineView::DirectiveCall { span, .. } => span,
            InlineView::ChainedDirectiveCall { span, .. } => span,
            InlineView::Link { span, .. } => span,
            InlineView::Image { span, .. } => span,
            InlineView::Code { content: _, span } => span,
            InlineView::SoftBreak { span } => span,
            InlineView::HardBreak { span } => span,
            InlineView::RawHtml { content: _, span } => span,
            InlineView::TargetSpecificContent { content } => content.span,
        }),
{
}

/// A block stands where it is written: its place is its own, and that of native content and of a
/// component is the place of what it holds.
pub proof fn lemma_block_place(node: NodeView)
    ensures
        crate::materialize::node_span(node) == (match node {
            NodeView::Heading { level: _, content: _, span } => span,
            NodeView::Paragraph { content: _, span } => span,
            NodeView::Blockquote { content: _, span } => span,
            NodeView::UnorderedList { items: _, span } => span,
            NodeView::OrderedList { items: _, start: _, span } => span,
            NodeView::Table { header: _, rows: _, span } => span,
            NodeView::CodeBlock { language: _, content: _, span } => span,
            NodeView::RawHtml { source: _, span } => span,
            NodeView::FunctionCall { span, .. } => span,
            NodeView::ChainedFunctionCall { span, .. } => span,
            NodeView::FunctionDeclaration { span, .. } => span,
            NodeView::ThematicBreak { span } => span,
            NodeView::Math { content: _, span } => span,
            NodeView::TargetSpecificContent { content } => content.span,
            NodeView::Component { component } => match component {
                ComponentView::Stacked(c) => c.span,
                ComponentView::Container(c) => c.span,
                ComponentView::Landscape(c) => c.span,
            },
        }),
{
}

/// `.center`, `.landscape` and `.br` take no arguments and no parameters: a positional argument is
/// reported where it is written, then a named one, then a list of parameters at its first.
pub proof fn lemma_bare_calls_refused(e: Evaluator, call: CallView, f: nat, w: World)
    ensures
        ({
            let at = if call.positional.len() > 0 {
                Some(crate::materialize::value_span(call.positional[0], call.span))
            } else if call.named.len() > 0 {
                Some(call.named[0].span)
            } else if call.lambda is Some {
                Some(
                    if call.lambda->0.len() > 0 {
                        call.lambda->0[0].span
                    } else {
                        call.span
                    },
                )
            } else {
                None
            };
            at is Some ==> {
                &&& refused(w, semantics::eval_center(e, call, f, w), "E3003"@, at->0)
                &&& refused(w, semantics::eval_landscape(e, call, f, w), "E3003"@, at->0)
                &&& refused(w, semantics::eval_br(call, w), "E3003"@, at->0)
            }
        }),
        call.positional.len() == 0 && call.named.len() == 0 && call.lambda is None ==> {
            &&& call.body is Some ==> refused(w, semantics::eval_br(call, w), "E3003"@, call.span)
            &&& call.body is None || call.body->0 is Inline ==> {
                &&& refused(w, semantics::eval_center(e, call, f, w), "E3003"@, call.span)
                &&& refused(w, semantics::eval_landscape(e, call, f, w), "E3003"@, call.span)
            }
        },
{
    reveal(semantics::eval_center);
    reveal(semantics::eval_landscape);
    reveal(semantics::eval_br);
    reveal(semantics::children);
    reveal(semantics::bare_call_error);
    let n = w.s.diagnostics.len() as int;
    let center = semantics::eval_center(e, call, f, w);
    let landscape = semantics::eval_landscape(e, call, f, w);
    let br = semantics::eval_br(call, w);
    if center.w.s.diagnostics.len() == n + 1 && center.out is Failed && (call.positional.len() > 0
        || call.named.len() > 0 || call.lambda is Some || call.body is None
        || call.body->0 is Inline) {
        assert(center.w.s.diagnostics.take(n) =~= w.s.diagnostics);
        assert(landscape.w.s.diagnostics.take(n) =~= w.s.diagnostics);
    }
    if br.out is Failed {
        assert(br.w.s.diagnostics.take(n) =~= w.s.diagnostics);
    }
}

/// `.let`, `.foreach` and `.repeat` take one positional argument and a block body and no named
/// argument: anything else is reported, at the name of a named argument and else at the call.
pub proof fn lemma_lambda_calls_refused(e: Evaluator, call: CallView, f: nat, w: World)
    ensures
        ({
            let at = if call.positional.len() != 1 {
                Some(call.span)
            } else if call.named.len() > 0 {
                Some(call.named[0].name_span)
            } else if !(call.body is Some && call.body->0 is Block) {
                Some(call.span)
            } else {
                None
            };
            at is Some ==> {
                &&& refused(w, semantics::eval_let(e, call, f, w), "E3003"@, at->0)
                &&& refused(w, semantics::eval_foreach(e, call, f, w), "E3001"@, at->0)
                &&& refused(w, semantics::eval_repeat(e, call, f, w), "E3001"@, at->0)
            }
        }),
{
    reveal(semantics::eval_let);
    reveal(semantics::eval_foreach);
    reveal(semantics::eval_repeat);
    reveal(semantics::lambda_call_error);
    let n = w.s.diagnostics.len() as int;
    if call.positional.len() != 1 || call.named.len() > 0 || !(call.body is Some
        && call.body->0 is Block) {
        assert(semantics::eval_let(e, call, f, w).w.s.diagnostics.take(n) =~= w.s.diagnostics);
        assert(semantics::eval_foreach(e, call, f, w).w.s.diagnostics.take(n)
            =~= w.s.diagnostics);
        assert(semantics::eval_repeat(e, call, f, w).w.s.diagnostics.take(n) =~= w.s.diagnostics);
    }
}

/// The body of `.let` and of `.repeat` has one parameter if any, and that of `.foreach` one or two:
/// any other number is reported.
pub proof fn lemma_parameter_counts(e: Evaluator, call: CallView, f: nat, w: World)
    requires
        call.positional.len() == 1,
        call.named.len() == 0,
        call.body is Some,
        call.body->0 is Block,
        call.lambda is Some,
    ensures
        call.lambda->0.len() != 1 ==> {
            &&& semantics::eval_let(e, call, f, w).out is Failed
            &&& semantics::eval_let(e, call, f, w).w.s.diagnostics.len() == w.s.diagnostics.len()
                + 1
            &&& semantics::eval_repeat(e, call, f, w).out is Failed
            &&& semantics::eval_repeat(e, call, f, w).w.s.diagnostics.len()
                == w.s.diagnostics.len() + 1
        },
        call.lambda->0.len() == 0 || call.lambda->0.len() > 2 ==> {
            &&& semantics::eval_foreach(e, call, f, w).out is Failed
            &&& semantics::eval_foreach(e, call, f, w).w.s.diagnostics.len()
                == w.s.diagnostics.len() + 1
        },
{
    reveal(semantics::eval_let);
    reveal(semantics::eval_foreach);
    reveal(semantics::eval_repeat);
    reveal(semantics::lambda_call_error);
}

/// `.pair` takes two positional arguments and nothing else.
pub proof fn lemma_pair_refused(e: Evaluator, call: CallView, f: nat, w: World)
    ensures
        call.positional.len() != 2 ==> refused(
            w,
            semantics::eval_pair(e, call, f, w),
            "E3001"@,
            call.span,
        ),
        call.positional.len() == 2 && call.named.len() > 0 ==> refused(
            w,
            semantics::eval_pair(e, call, f, w),
            "E3001"@,
            call.named[0].name_span,
        ),
        call.positional.len() == 2 && call.named.len() == 0 && call.body is Some ==> refused(
            w,
            semantics::eval_pair(e, call, f, w),
            "E3001"@,
            call.span,
        ),
{
    reveal(semantics::eval_pair);
    let n = w.s.diagnostics.len() as int;
    if call.positional.len() != 2 || call.named.len() > 0 || call.body is Some {
        assert(semantics::eval_pair(e, call, f, w).w.s.diagnostics.take(n) =~= w.s.diagnostics);
    }
}

} // verus!
