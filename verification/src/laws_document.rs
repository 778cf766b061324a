//! Laws of documents: blocks and lines are evaluated in order, calls in them are replaced by what
//! they give, and everything else is kept.

use vstd::prelude::*;

use crate::ir::{InlineView, ListItemView, NodeView, SourceSpan};
use crate::semantics;
use crate::semantics::{Evaluator, World};

verus! {

/// Blocks are evaluated in order: first those in front, then, in the world that they leave, those
/// behind; what they give stands in the same order.
pub proof fn lemma_blocks_in_order(
    e: Evaluator,
    a: Seq<NodeView>,
    b: Seq<NodeView>,
    f: nat,
    w: World,
)
    ensures
        ({
            let first = semantics::eval_nodes(e, a, f, w);
            let second = semantics::eval_nodes(e, b, f, first.w);
            let both = semantics::eval_nodes(e, a + b, f, w);
            both.out == first.out + second.out && both.w == second.w
        }),
    decreases b.len(),
{
    reveal(semantics::eval_inline);
    reveal(semantics::eval_inlines);
    reveal(semantics::eval_items);
    reveal(semantics::eval_nodes);
    reveal(semantics::eval_node);
    if b.len() == 0 {
        assert(a + b =~= a);
    } else {
        lemma_blocks_in_order(e, a, b.drop_last(), f, w);
        assert((a + b).drop_last() =~= a + b.drop_last());
        assert((a + b).last() == b.last());
    }
}

/// One block alone gives what it gives, and no block gives nothing and changes nothing.
pub proof fn lemma_single_block(e: Evaluator, node: NodeView, f: nat, w: World)
    ensures
        ({
            let alone = semantics::eval_nodes(e, seq![node], f, w);
            let itself = semantics::eval_node(e, node, f, w);
            alone.out == itself.out && alone.w == itself.w
        }),
        semantics::eval_nodes(e, Seq::empty(), f, w).out.len() == 0,
        semantics::eval_nodes(e, Seq::empty(), f, w).w == w,
{
    reveal(semantics::eval_inline);
    reveal(semantics::eval_inlines);
    reveal(semantics::eval_items);
    reveal(semantics::eval_nodes);
    reveal(semantics::eval_node);
    reveal_with_fuel(semantics::eval_nodes, 2);
    assert(seq![node].drop_last() =~= Seq::<NodeView>::empty());
    assert(Seq::<NodeView>::empty() + semantics::eval_node(e, node, f, w).out
        =~= semantics::eval_node(e, node, f, w).out);
}

/// The parts of a line are evaluated in order, each in the world that those before it leave.
pub proof fn lemma_inlines_in_order(
    e: Evaluator,
    a: Seq<InlineView>,
    b: Seq<InlineView>,
    f: nat,
    w: World,
)
    ensures
        ({
            let first = semantics::eval_inlines(e, a, f, w);
            let second = semantics::eval_inlines(e, b, f, first.w);
            let both = semantics::eval_inlines(e, a + b, f, w);
            both.out == first.out + second.out && both.w == second.w
        }),
    decreases b.len(),
{
    reveal(semantics::eval_inlines);
    reveal(semantics::eval_inline);
    if b.len() == 0 {
        assert(a + b =~= a);
    } else {
        lemma_inlines_in_order(e, a, b.drop_last(), f, w);
        assert((a + b).drop_last() =~= a + b.drop_last());
        assert((a + b).last() == b.last());
    }
}

/// One part of a line alone gives what it gives, and an empty line gives nothing.
pub proof fn lemma_single_inline(e: Evaluator, inline: InlineView, f: nat, w: World)
    ensures
        ({
            let alone = semantics::eval_inlines(e, seq![inline], f, w);
            let itself = semantics::eval_inline(e, inline, f, w);
            alone.out == itself.out && alone.w == itself.w
        }),
        semantics::eval_inlines(e, Seq::empty(), f, w).out.len() == 0,
        semantics::eval_inlines(e, Seq::empty(), f, w).w == w,
{
    reveal(semantics::eval_inlines);
    reveal(semantics::eval_inline);
    reveal_with_fuel(semantics::eval_inlines, 2);
    assert(seq![inline].drop_last() =~= Seq::<InlineView>::empty());
    assert(Seq::<InlineView>::empty() + semantics::eval_inline(e, inline, f, w).out
        =~= semantics::eval_inline(e, inline, f, w).out);
}

/// What stands in emphasis, in strong or struck text and in a link is evaluated as a line; the
/// emphasis, the link and its target stay around what that gives.
pub proof fn lemma_line_parts_evaluated(
    e: Evaluator,
    content: Seq<InlineView>,
    destination: Seq<char>,
    title: Option<Seq<char>>,
    span: SourceSpan,
    f: nat,
    w: World,
)
    ensures
        ({
            let line = semantics::eval_inlines(e, content, f, w);
            let emphasis = semantics::eval_inline(e, InlineView::Emphasis { content, span }, f, w);
            &&& emphasis.out.len() == 1 && emphasis.w == line.w
            &&& emphasis.out[0] == InlineView::Emphasis { content: line.out, span }
        }),
        ({
            let line = semantics::eval_inlines(e, content, f, w);
            let strong = semantics::eval_inline(e, InlineView::Strong { content, span }, f, w);
            &&& strong.out.len() == 1 && strong.w == line.w
            &&& strong.out[0] == InlineView::Strong { content: line.out, span }
        }),
        ({
            let line = semantics::eval_inlines(e, content, f, w);
            let struck = semantics::eval_inline(
                e,
                InlineView::Strikethrough { content, span },
                f,
                w,
            );
            &&& struck.out.len() == 1 && struck.w == line.w
            &&& struck.out[0] == InlineView::Strikethrough { content: line.out, span }
        }),
        ({
            let line = semantics::eval_inlines(e, content, f, w);
            let link = semantics::eval_inline(
                e,
                InlineView::Link { content, destination, title, span },
                f,
                w,
            );
            &&& link.out.len() == 1 && link.w == line.w
            &&& link.out[0] == InlineView::Link { content: line.out, destination, title, span }
        }),
{
    reveal(semantics::eval_inlines);
    reveal(semantics::eval_inline);
}

/// What stands in a heading, a paragraph or a quotation is evaluated, and they stay around it.
pub proof fn lemma_block_parts_evaluated(
    e: Evaluator,
    level: u8,
    content: Seq<InlineView>,
    nodes: Seq<NodeView>,
    span: SourceSpan,
    f: nat,
    w: World,
)
    ensures
        ({
            let line = semantics::eval_inlines(e, content, f, w);
            let heading = semantics::eval_node(e, NodeView::Heading { level, content, span }, f, w);
            &&& heading.out.len() == 1 && heading.w == line.w
            &&& heading.out[0] == NodeView::Heading { level, content: line.out, span }
        }),
        ({
            let line = semantics::eval_inlines(e, content, f, w);
            let paragraph = semantics::eval_node(e, NodeView::Paragraph { content, span }, f, w);
            &&& paragraph.out.len() == 1 && paragraph.w == line.w
            &&& paragraph.out[0] == NodeView::Paragraph { content: line.out, span }
        }),
        ({
            let inner = semantics::eval_nodes(e, nodes, f, w);
            let quote = semantics::eval_node(
                e,
                NodeView::Blockquote { content: nodes, span },
                f,
                w,
            );
            &&& quote.out.len() == 1 && quote.w == inner.w
            &&& quote.out[0] == NodeView::Blockquote { content: inner.out, span }
        }),
{
    reveal(semantics::eval_inline);
    reveal(semantics::eval_inlines);
    reveal(semantics::eval_items);
    reveal(semantics::eval_nodes);
    reveal(semantics::eval_node);
}

/// Every item of a list stays an item of it, in its place and with its task mark; its blocks are
/// replaced by what they give, in the world that the items before it leave.
pub proof fn lemma_list_items_evaluated(
    e: Evaluator,
    items: Seq<ListItemView>,
    start: u64,
    span: SourceSpan,
    f: nat,
    w: World,
)
    ensures
        ({
            let evaluated = semantics::eval_items(e, items, f, w);
            &&& evaluated.out.len() == items.len()
            &&& forall|i: int|
                0 <= i < items.len() ==> {
                    let before = semantics::eval_items(e, items.take(i), f, w).w;
                    &&& (#[trigger] evaluated.out[i]).nodes == semantics::eval_nodes(
                        e,
                        items[i].nodes,
                        f,
                        before,
                    ).out
                    &&& evaluated.out[i].task == items[i].task
                    &&& evaluated.out[i].span == items[i].span
                }
            &&& semantics::eval_node(e, NodeView::UnorderedList { items, span }, f, w).out
                == seq![NodeView::UnorderedList { items: evaluated.out, span }]
            &&& semantics::eval_node(e, NodeView::UnorderedList { items, span }, f, w).w
                == evaluated.w
            &&& semantics::eval_node(e, NodeView::OrderedList { items, start, span }, f, w).out
                == seq![NodeView::OrderedList { items: evaluated.out, start, span }]
            &&& semantics::eval_node(e, NodeView::OrderedList { items, start, span }, f, w).w
                == evaluated.w
        }),
    decreases items.len(),
{
    reveal(semantics::eval_inline);
    reveal(semantics::eval_inlines);
    reveal(semantics::eval_nodes);
    reveal(semantics::eval_items);
    reveal(semantics::eval_node);
    if items.len() > 0 {
        let front = items.drop_last();
        lemma_list_items_evaluated(e, front, start, span, f, w);
        let evaluated = semantics::eval_items(e, items, f, w);
        assert forall|i: int| 0 <= i < items.len() implies {
            let before = semantics::eval_items(e, items.take(i), f, w).w;
            &&& (#[trigger] evaluated.out[i]).nodes == semantics::eval_nodes(
                e,
                items[i].nodes,
                f,
                before,
            ).out
            &&& evaluated.out[i].task == items[i].task
            &&& evaluated.out[i].span == items[i].span
        } by {
            if i < front.len() {
                assert(items.take(i) =~= front.take(i));
                assert(evaluated.out[i] == semantics::eval_items(e, front, f, w).out[i]);
            } else {
                assert(items.take(i) =~= front);
            }
        }
    }
}

/// The world that the items of a list leave is that of their blocks, one item after the other.
pub proof fn lemma_list_items_in_order(
    e: Evaluator,
    items: Seq<ListItemView>,
    item: ListItemView,
    f: nat,
    w: World,
)
    ensures
        semantics::eval_items(e, Seq::empty(), f, w).w == w,
        semantics::eval_items(e, items.push(item), f, w).w == semantics::eval_nodes(
            e,
            item.nodes,
            f,
            semantics::eval_items(e, items, f, w).w,
        ).w,
{
    reveal(semantics::eval_inline);
    reveal(semantics::eval_inlines);
    reveal(semantics::eval_node);
    reveal(semantics::eval_nodes);
    reveal(semantics::eval_items);
    assert(items.push(item).drop_last() =~= items);
}

} // verus!
