//! Laws of content that holds nothing to evaluate.

use vstd::prelude::*;

use crate::host::SessionView;
use crate::ir::{ListItemView, NodeView};
use crate::laws_plain_inlines;
use crate::laws_plain_tables;
use crate::metadata::DocumentView;
use crate::scope::ContextView;
use crate::semantics;
use crate::semantics::{Ev, Evaluator, World};

verus! {

/// Whether list items hold no call, no declaration and no raw HTML.
pub open spec fn plain_items(items: Seq<ListItemView>) -> bool
    decreases items,
{
    if items.len() == 0 {
        true
    } else {
        plain_items(items.drop_last()) && plain_nodes(items.last().nodes)
    }
}

/// Whether a block holds no call, no declaration and no raw HTML.
pub open spec fn plain_node(node: NodeView) -> bool
    decreases node,
{
    match node {
        NodeView::Heading { content, .. } => laws_plain_inlines::plain_inlines(content),
        NodeView::Paragraph { content, .. } => laws_plain_inlines::plain_inlines(content),
        NodeView::Blockquote { content, .. } => plain_nodes(content),
        NodeView::UnorderedList { items, .. } => plain_items(items),
        NodeView::OrderedList { items, .. } => plain_items(items),
        NodeView::Table { header, rows, .. } => laws_plain_tables::plain_cells(header.cells)
            && laws_plain_tables::plain_rows(rows),
        NodeView::RawHtml { .. } => false,
        NodeView::FunctionCall { .. } => false,
        NodeView::ChainedFunctionCall { .. } => false,
        NodeView::FunctionDeclaration { .. } => false,
        _ => true,
    }
}

/// Whether blocks hold no call, no declaration and no raw HTML.
pub open spec fn plain_nodes(nodes: Seq<NodeView>) -> bool
    decreases nodes,
{
    if nodes.len() == 0 {
        true
    } else {
        plain_nodes(nodes.drop_last()) && plain_node(nodes.last())
    }
}

proof fn lemma_plain_items_stay(e: Evaluator, items: Seq<ListItemView>, f: nat, w: World)
    requires
        plain_items(items),
    ensures
        semantics::eval_items(e, items, f, w) == (Ev { out: items, w }),
    decreases items, 0int,
{
    reveal(semantics::eval_items);
    reveal(semantics::eval_nodes);
    if items.len() == 0 {
        assert(Seq::<ListItemView>::empty() =~= items);
    } else {
        lemma_plain_items_stay(e, items.drop_last(), f, w);
        lemma_plain_nodes_stay(e, items.last().nodes, f, w);
        assert(items.drop_last().push(items.last()) =~= items);
    }
}

proof fn lemma_plain_node_stays(e: Evaluator, node: NodeView, f: nat, w: World)
    requires
        plain_node(node),
    ensures
        semantics::eval_node(e, node, f, w) == (Ev { out: seq![node], w }),
    decreases node, 1int,
{
    reveal(semantics::eval_node);
    reveal(semantics::eval_nodes);
    reveal(semantics::eval_items);
    match node {
        NodeView::Heading { content, .. } => laws_plain_inlines::lemma_plain_inlines_stay(
            e,
            content,
            f,
            w,
        ),
        NodeView::Paragraph { content, .. } => laws_plain_inlines::lemma_plain_inlines_stay(
            e,
            content,
            f,
            w,
        ),
        NodeView::Blockquote { content, .. } => lemma_plain_nodes_stay(e, content, f, w),
        NodeView::UnorderedList { items, .. } => lemma_plain_items_stay(e, items, f, w),
        NodeView::OrderedList { items, .. } => lemma_plain_items_stay(e, items, f, w),
        NodeView::Table { header, rows, .. } => {
            laws_plain_tables::lemma_plain_row_stays(e, header, f, w);
            laws_plain_tables::lemma_plain_rows_stay(e, rows, f, w);
        },
        _ => {},
    }
}

/// Blocks that hold nothing to evaluate stay as they are: nothing is asked, nothing is
/// reported, and the scope does not change.
pub proof fn lemma_plain_nodes_stay(e: Evaluator, nodes: Seq<NodeView>, f: nat, w: World)
    requires
        plain_nodes(nodes),
    ensures
        semantics::eval_nodes(e, nodes, f, w) == (Ev { out: nodes, w }),
    decreases nodes, 0int,
{
    reveal(semantics::eval_nodes);
    reveal(semantics::eval_node);
    if nodes.len() == 0 {
        assert(Seq::<NodeView>::empty() =~= nodes);
    } else {
        lemma_plain_nodes_stay(e, nodes.drop_last(), f, w);
        lemma_plain_node_stays(e, nodes.last(), f, w);
        assert(nodes.drop_last() + seq![nodes.last()] =~= nodes);
    }
}

/// A document that holds nothing to evaluate stays as it is.
pub proof fn lemma_plain_document_stays(
    e: Evaluator,
    document: DocumentView,
    s: SessionView,
    c: ContextView,
)
    requires
        plain_nodes(document.nodes),
    ensures
        semantics::eval_document(e, document, s, c) == (
            document,
            SessionView { document_state: document.metadata.document_state, ..s },
        ),
{
    reveal(semantics::eval_document);
    reveal(semantics::eval_nodes);
    lemma_plain_nodes_stay(
        e,
        document.nodes,
        e.limits.max_evaluation_depth as nat,
        World {
            s: SessionView { document_state: document.metadata.document_state, ..s },
            c,
        },
    );
}

} // verus!
