//! Laws of inlines that hold nothing to evaluate.

use vstd::prelude::*;

use crate::ir::InlineView;
use crate::semantics;
use crate::semantics::{Ev, Evaluator, World};

verus! {

/// Whether an inline holds no call and no raw HTML. The label of an image is never evaluated.
pub open spec fn plain_inline(inline: InlineView) -> bool
    decreases inline,
{
    match inline {
        InlineView::Emphasis { content, .. } => plain_inlines(content),
        InlineView::Strong { content, .. } => plain_inlines(content),
        InlineView::Strikethrough { content, .. } => plain_inlines(content),
        InlineView::Link { content, .. } => plain_inlines(content),
        InlineView::DirectiveCall { .. } => false,
        InlineView::ChainedDirectiveCall { .. } => false,
        InlineView::RawHtml { .. } => false,
        _ => true,
    }
}

/// Whether inlines hold no call and no raw HTML.
pub open spec fn plain_inlines(inlines: Seq<InlineView>) -> bool
    decreases inlines,
{
    if inlines.len() == 0 {
        true
    } else {
        plain_inlines(inlines.drop_last()) && plain_inline(inlines.last())
    }
}

/// Inlines that hold nothing to evaluate stay as they are.
pub proof fn lemma_plain_inlines_stay(e: Evaluator, inlines: Seq<InlineView>, f: nat, w: World)
    requires
        plain_inlines(inlines),
    ensures
        semantics::eval_inlines(e, inlines, f, w) == (Ev { out: inlines, w }),
    decreases inlines, 0int,
{
    reveal(semantics::eval_inlines);
    reveal(semantics::eval_inline);
    if inlines.len() == 0 {
        assert(Seq::<InlineView>::empty() =~= inlines);
    } else {
        lemma_plain_inlines_stay(e, inlines.drop_last(), f, w);
        lemma_plain_inline_stays(e, inlines.last(), f, w);
        assert(inlines.drop_last() + seq![inlines.last()] =~= inlines);
    }
}

proof fn lemma_plain_inline_stays(e: Evaluator, inline: InlineView, f: nat, w: World)
    requires
        plain_inline(inline),
    ensures
        semantics::eval_inline(e, inline, f, w) == (Ev { out: seq![inline], w }),
    decreases inline, 1int,
{
    reveal(semantics::eval_inline);
    reveal(semantics::eval_inlines);
    match inline {
        InlineView::Emphasis { content, .. } => lemma_plain_inlines_stay(e, content, f, w),
        InlineView::Strong { content, .. } => lemma_plain_inlines_stay(e, content, f, w),
        InlineView::Strikethrough { content, .. } => lemma_plain_inlines_stay(e, content, f, w),
        InlineView::Link { content, .. } => lemma_plain_inlines_stay(e, content, f, w),
        _ => {},
    }
}

} // verus!
