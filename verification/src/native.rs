//! Bodies of target-specific content that are raw HTML.

use vstd::prelude::*;

use crate::ir;
use crate::ir::{
    InlineView, IrInline, IrListItem, IrNode, IrTableRow, ListItemView, NodeView, TableRowView,
};
use crate::sequences;

verus! {

broadcast use ir::group_ir_views;

/// Whether some of the inlines is raw HTML itself.
pub open spec fn any_raw(inlines: Seq<InlineView>) -> bool {
    exists|i: int| 0 <= i < inlines.len() && (#[trigger] inlines[i]) is RawHtml
}

/// Whether an inline is raw HTML or wraps some directly.
pub open spec fn inline_raw(inline: InlineView) -> bool {
    match inline {
        InlineView::RawHtml { .. } => true,
        InlineView::Emphasis { content, .. } => any_raw(content),
        InlineView::Strong { content, .. } => any_raw(content),
        InlineView::Strikethrough { content, .. } => any_raw(content),
        InlineView::Link { content, .. } => any_raw(content),
        InlineView::Image { content, .. } => any_raw(content),
        _ => false,
    }
}

/// Whether some of the inlines is raw HTML or wraps some directly.
pub open spec fn any_inline_raw(inlines: Seq<InlineView>) -> bool {
    exists|i: int| 0 <= i < inlines.len() && inline_raw(#[trigger] inlines[i])
}

/// Whether some cell of a row holds raw HTML.
pub open spec fn row_raw(row: TableRowView) -> bool {
    exists|i: int| 0 <= i < row.cells.len() && any_raw((#[trigger] row.cells[i]).content)
}

/// Whether a block holds raw HTML.
pub open spec fn node_raw(node: NodeView) -> bool
    decreases node,
{
    match node {
        NodeView::RawHtml { .. } => true,
        NodeView::Paragraph { content, .. } => any_inline_raw(content),
        NodeView::Heading { content, .. } => any_inline_raw(content),
        NodeView::Blockquote { content, .. } => contains_raw(content),
        NodeView::UnorderedList { items, .. } => items_raw(items),
        NodeView::OrderedList { items, .. } => items_raw(items),
        NodeView::Table { header, rows, .. } => {
            ||| row_raw(header)
            ||| exists|i: int| 0 <= i < rows.len() && row_raw(#[trigger] rows[i])
        },
        _ => false,
    }
}

/// Whether some of the blocks holds raw HTML.
pub open spec fn contains_raw(nodes: Seq<NodeView>) -> bool
    decreases nodes,
{
    nodes.len() > 0 && (contains_raw(nodes.drop_last()) || node_raw(nodes.last()))
}

/// Whether some of the list items holds raw HTML.
pub open spec fn items_raw(items: Seq<ListItemView>) -> bool
    decreases items,
{
    items.len() > 0 && (items_raw(items.drop_last()) || contains_raw(items.last().nodes))
}

/// Whether some of the inlines is raw HTML itself.
fn has_raw(inlines: &Vec<IrInline>) -> (r: bool)
    ensures
        r == any_raw(ir::inlines_view(inlines@)),
{
    let mut i: usize = 0;
    while i < inlines.len()
        invariant
            0 <= i <= inlines@.len(),
            forall|j: int| 0 <= j < i ==> !((#[trigger] ir::inlines_view(inlines@)[j]) is RawHtml),
        decreases inlines@.len() - i,
    {
        let ghost shown = ir::inlines_view(inlines@)[i as int];
        assert(shown == inlines@[i as int]@);
        if let IrInline::RawHtml { .. } = &inlines[i] {
            assert(shown is RawHtml);
            return true;
        }
        i += 1;
    }
    false
}

/// Whether some of the inlines is raw HTML or wraps some directly.
fn has_inline_raw(inlines: &Vec<IrInline>) -> (r: bool)
    ensures
        r == any_inline_raw(ir::inlines_view(inlines@)),
{
    let mut i: usize = 0;
    while i < inlines.len()
        invariant
            0 <= i <= inlines@.len(),
            forall|j: int| 0 <= j < i ==> !inline_raw(#[trigger] ir::inlines_view(inlines@)[j]),
        decreases inlines@.len() - i,
    {
        let ghost shown = ir::inlines_view(inlines@)[i as int];
        assert(shown == inlines@[i as int]@);
        let raw = match &inlines[i] {
            IrInline::RawHtml { .. } => true,
            IrInline::Emphasis { content, .. } => has_raw(content),
            IrInline::Strong { content, .. } => has_raw(content),
            IrInline::Strikethrough { content, .. } => has_raw(content),
            IrInline::Link { content, .. } => has_raw(content),
            IrInline::Image { content, .. } => has_raw(content),
            _ => false,
        };
        assert(raw == inline_raw(shown));
        if raw {
            return true;
        }
        i += 1;
    }
    false
}

/// Whether some cell of a row holds raw HTML.
fn row_has_raw(row: &IrTableRow) -> (r: bool)
    ensures
        r == row_raw(row@),
{
    assert(row@.cells == ir::cells_view(row.cells@));
    let mut i: usize = 0;
    while i < row.cells.len()
        invariant
            0 <= i <= row.cells@.len(),
            row@.cells == ir::cells_view(row.cells@),
            forall|j: int| 0 <= j < i ==> !any_raw((#[trigger] row@.cells[j]).content),
        decreases row.cells@.len() - i,
    {
        let ghost shown = row@.cells[i as int];
        assert(shown == row.cells@[i as int]@);
        assert(shown.content == ir::inlines_view(row.cells@[i as int].content@));
        if has_raw(&row.cells[i].content) {
            assert(any_raw(shown.content));
            return true;
        }
        i += 1;
    }
    false
}

/// Whether a block holds raw HTML.
fn node_has_raw(node: &IrNode) -> (r: bool)
    ensures
        r == node_raw(node@),
    decreases node,
{
    match node {
        IrNode::RawHtml { .. } => true,
        IrNode::Paragraph { content, .. } => has_inline_raw(content),
        IrNode::Heading { content, .. } => has_inline_raw(content),
        IrNode::Blockquote { content, .. } => body_contains_raw_html(content),
        IrNode::UnorderedList { items, .. } => items_have_raw(items),
        IrNode::OrderedList { items, .. } => items_have_raw(items),
        IrNode::Table { header, rows, .. } => {
            assert(ir::row_view(*header) == header@);
            if row_has_raw(header) {
                return true;
            }
            let ghost all = ir::rows_view(rows@);
            let mut i: usize = 0;
            while i < rows.len()
                invariant
                    0 <= i <= rows@.len(),
                    all == ir::rows_view(rows@),
                    forall|j: int| 0 <= j < i ==> !row_raw(#[trigger] all[j]),
                    node@ matches NodeView::Table {
                        header: h,
                        rows: r,
                        ..
                    } && r == all && !row_raw(
                        h,
                    ),
                decreases rows@.len() - i,
            {
                assert(all[i as int] == rows@[i as int]@);
                if row_has_raw(&rows[i]) {
                    assert(row_raw(all[i as int]));
                    return true;
                }
                i += 1;
            }
            false
        },
        _ => false,
    }
}

/// Whether some of the blocks holds raw HTML.
pub fn body_contains_raw_html(nodes: &Vec<IrNode>) -> (r: bool)
    ensures
        r == contains_raw(ir::nodes_view(nodes@)),
    decreases nodes,
{
    let ghost all = ir::nodes_view(nodes@);
    let mut found = false;
    let mut i: usize = 0;
    assert(all.take(0) =~= Seq::empty());
    while i < nodes.len()
        invariant
            0 <= i <= nodes@.len(),
            all == ir::nodes_view(nodes@),
            found == contains_raw(all.take(i as int)),
        decreases nodes@.len() - i,
    {
        proof {
            sequences::lemma_take_step(all, i as int);
        }
        if node_has_raw(&nodes[i]) {
            found = true;
        }
        i += 1;
    }
    proof {
        sequences::lemma_take_all(all);
    }
    found
}

/// Whether some of the list items holds raw HTML.
fn items_have_raw(items: &Vec<IrListItem>) -> (r: bool)
    ensures
        r == items_raw(ir::items_view(items@)),
    decreases items,
{
    let ghost all = ir::items_view(items@);
    let mut found = false;
    let mut i: usize = 0;
    assert(all.take(0) =~= Seq::empty());
    while i < items.len()
        invariant
            0 <= i <= items@.len(),
            all == ir::items_view(items@),
            found == items_raw(all.take(i as int)),
        decreases items@.len() - i,
    {
        proof {
            sequences::lemma_take_step(all, i as int);
            assert(all[i as int] == items@[i as int]@);
            assert(all[i as int].nodes == ir::nodes_view(items@[i as int].nodes@));
            assert(decreases_to!(items => items[i as int]));
        }
        if body_contains_raw_html(&items[i].nodes) {
            found = true;
        }
        i += 1;
    }
    proof {
        sequences::lemma_take_all(all);
    }
    found
}

/// The text of an inline of a raw body; nothing where it has structure.
pub open spec fn inline_source(inline: InlineView) -> Option<Seq<char>> {
    match inline {
        InlineView::Text { content, .. } => Some(content),
        InlineView::RawHtml { content, .. } => Some(content),
        InlineView::SoftBreak { .. } => Some("\n"@),
        InlineView::HardBreak { .. } => Some("\n"@),
        _ => None,
    }
}

/// The text of the inlines of a raw body; nothing where one has structure.
pub open spec fn inlines_source(inlines: Seq<InlineView>) -> Option<Seq<char>>
    decreases inlines.len(),
{
    if inlines.len() == 0 {
        Some(Seq::empty())
    } else {
        match (inlines_source(inlines.drop_last()), inline_source(inlines.last())) {
            (Some(before), Some(last)) => Some(before + last),
            _ => None,
        }
    }
}

/// The text of a block of a raw body; nothing where it has structure.
pub open spec fn node_source(node: NodeView) -> Option<Seq<char>> {
    match node {
        NodeView::RawHtml { source, .. } => Some(source),
        NodeView::Paragraph { content, .. } => inlines_source(content),
        NodeView::Heading { content, .. } => inlines_source(content),
        _ => None,
    }
}

/// The text of a raw body; nothing where it has structure.
pub open spec fn body_source(nodes: Seq<NodeView>) -> Option<Seq<char>>
    decreases nodes.len(),
{
    if nodes.len() == 0 {
        Some(Seq::empty())
    } else {
        match (body_source(nodes.drop_last()), node_source(nodes.last())) {
            (Some(before), Some(last)) => Some(before + last),
            _ => None,
        }
    }
}

proof fn lemma_inlines_source_stops(inlines: Seq<InlineView>, i: int)
    requires
        0 <= i <= inlines.len(),
        inlines_source(inlines.take(i)) is None,
    ensures
        inlines_source(inlines) is None,
    decreases inlines.len() - i,
{
    if i < inlines.len() {
        sequences::lemma_take_step(inlines, i);
        lemma_inlines_source_stops(inlines, i + 1);
    } else {
        sequences::lemma_take_all(inlines);
    }
}

proof fn lemma_body_source_stops(nodes: Seq<NodeView>, i: int)
    requires
        0 <= i <= nodes.len(),
        body_source(nodes.take(i)) is None,
    ensures
        body_source(nodes) is None,
    decreases nodes.len() - i,
{
    if i < nodes.len() {
        sequences::lemma_take_step(nodes, i);
        lemma_body_source_stops(nodes, i + 1);
    } else {
        sequences::lemma_take_all(nodes);
    }
}

/// The text of the inlines of a raw body; nothing where one has structure.
fn opaque_inlines_string(inlines: &Vec<IrInline>) -> (r: Option<String>)
    ensures
        (match r {
            Some(content) => Some(content@),
            None => None,
        }) == inlines_source(ir::inlines_view(inlines@)),
{
    let ghost all = ir::inlines_view(inlines@);
    let mut output: String = String::new();
    let mut i: usize = 0;
    assert(all.take(0) =~= Seq::empty());
    while i < inlines.len()
        invariant
            0 <= i <= inlines@.len(),
            all == ir::inlines_view(inlines@),
            inlines_source(all.take(i as int)) == Some(output@),
        decreases inlines@.len() - i,
    {
        proof {
            sequences::lemma_take_step(all, i as int);
            assert(all[i as int] == inlines@[i as int]@);
        }
        match &inlines[i] {
            IrInline::Text { content, .. } => {
                output.append(content.as_str());
            },
            IrInline::RawHtml { content, .. } => {
                output.append(content.as_str());
            },
            IrInline::SoftBreak { .. } => {
                output.append("\n");
            },
            IrInline::HardBreak { .. } => {
                output.append("\n");
            },
            _ => {
                proof {
                    lemma_inlines_source_stops(all, i + 1);
                }
                return None;
            },
        }
        i += 1;
    }
    proof {
        sequences::lemma_take_all(all);
    }
    Some(output)
}

/// The text of a raw body; nothing where it has structure.
pub fn opaque_html_body_string(nodes: &Vec<IrNode>) -> (r: Option<String>)
    ensures
        (match r {
            Some(content) => Some(content@),
            None => None,
        }) == body_source(ir::nodes_view(nodes@)),
{
    let ghost all = ir::nodes_view(nodes@);
    let mut output: String = String::new();
    let mut i: usize = 0;
    assert(all.take(0) =~= Seq::empty());
    while i < nodes.len()
        invariant
            0 <= i <= nodes@.len(),
            all == ir::nodes_view(nodes@),
            body_source(all.take(i as int)) == Some(output@),
        decreases nodes@.len() - i,
    {
        proof {
            sequences::lemma_take_step(all, i as int);
            assert(all[i as int] == nodes@[i as int]@);
        }
        let part = match &nodes[i] {
            IrNode::RawHtml { source, .. } => Some(source.clone()),
            IrNode::Paragraph { content, .. } => opaque_inlines_string(content),
            IrNode::Heading { content, .. } => opaque_inlines_string(content),
            _ => None,
        };
        match part {
            Some(content) => {
                output.append(content.as_str());
            },
            None => {
                proof {
                    lemma_body_source_stops(all, i + 1);
                }
                return None;
            },
        }
        i += 1;
    }
    proof {
        sequences::lemma_take_all(all);
    }
    Some(output)
}

} // verus!
