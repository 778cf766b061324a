//! Laws of blocks and parts of lines that hold nothing to evaluate.

use vstd::prelude::*;

use crate::diagnostic::Severity;
use crate::host::SessionView;
use crate::ir::{InlineView, NodeView, SourceSpan};
use crate::semantics;
use crate::semantics::{Evaluator, World};

verus! {

/// Whether a session is another one with one more report: an error of that code, at that place.
pub open spec fn reported(
    before: SessionView,
    after: SessionView,
    code: Seq<char>,
    span: SourceSpan,
) -> bool {
    let n = before.diagnostics.len();
    &&& after.diagnostics.len() == n + 1
    &&& after.diagnostics.take(n as int) == before.diagnostics
    &&& after.diagnostics[n as int].code == code
    &&& after.diagnostics[n as int].severity == Severity::Error
    &&& after.diagnostics[n as int].primary == Some(span)
    &&& after == SessionView { diagnostics: after.diagnostics, ..before }
}

/// Whether a block holds nothing that could be evaluated.
pub open spec fn leaf_block(node: NodeView) -> bool {
    node is CodeBlock || node is ThematicBreak || node is Math || node is TargetSpecificContent
        || node is Component
}

/// Whether a part of a line holds nothing that could be evaluated.
pub open spec fn leaf_inline(inline: InlineView) -> bool {
    inline is Text || inline is Whitespace || inline is Image || inline is Code
        || inline is SoftBreak || inline is HardBreak || inline is TargetSpecificContent
}

/// Code, breaks, formulas, images, native content and components are kept, and change nothing.
pub proof fn lemma_leaves_kept(
    e: Evaluator,
    node: NodeView,
    inline: InlineView,
    f: nat,
    w: World,
)
    ensures
        leaf_block(node) ==> semantics::eval_node(e, node, f, w).out == seq![node]
            && semantics::eval_node(e, node, f, w).w == w,
        leaf_inline(inline) ==> semantics::eval_inline(e, inline, f, w).out == seq![inline]
            && semantics::eval_inline(e, inline, f, w).w == w,
{
    reveal(semantics::eval_node);
    reveal(semantics::eval_inline);
}

/// Raw HTML leaves nothing, and is reported where it stands.
pub proof fn lemma_raw_html_refused(
    e: Evaluator,
    source: Seq<char>,
    span: SourceSpan,
    f: nat,
    w: World,
)
    ensures
        ({
            let block = semantics::eval_node(e, NodeView::RawHtml { source, span }, f, w);
            &&& block.out.len() == 0
            &&& reported(w.s, block.w.s, "E8001"@, span)
            &&& block.w.c == w.c
        }),
        ({
            let inline = semantics::eval_inline(
                e,
                InlineView::RawHtml { content: source, span },
                f,
                w,
            );
            &&& inline.out.len() == 0
            &&& reported(w.s, inline.w.s, "E8001"@, span)
            &&& inline.w.c == w.c
        }),
{
    reveal(semantics::eval_node);
    reveal(semantics::eval_inline);
    let n = w.s.diagnostics.len() as int;
    let block = semantics::eval_node(e, NodeView::RawHtml { source, span }, f, w);
    assert(block.w.s.diagnostics.take(n) =~= w.s.diagnostics);
    let inline = semantics::eval_inline(e, InlineView::RawHtml { content: source, span }, f, w);
    assert(inline.w.s.diagnostics.take(n) =~= w.s.diagnostics);
}

} // verus!
