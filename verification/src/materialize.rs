//! Values as document content.

use vstd::prelude::*;

use crate::diagnostic::Fault;
use crate::host;
use crate::host::{Query, QueryView, Session, SessionView};
use crate::ir;
use crate::ir::{
    ComponentView, InlineView, IrComponent, IrDictionary, IrInline, IrListItem, IrNode, IrPair,
    IrTableAlignment, IrTableCell, IrTableRow, IrValue, ListItemView, NodeView, PairView,
    SourceSpan, TableCellView, TableRowView, ValueView,
};
use crate::ir_copy::{copy_component, copy_inlines, copy_nodes, copy_target_content};
use crate::sequences;

verus! {

broadcast use {
    ir::group_ir_views,
    host::group_follows,
    host::group_halts,
};

/// Where a component was written.
pub open spec fn component_span(c: ComponentView) -> SourceSpan {
    match c {
        ComponentView::Stacked(c) => c.span,
        ComponentView::Container(c) => c.span,
        ComponentView::Landscape(c) => c.span,
    }
}

/// Where a component was written.
pub fn span_of_component(c: &IrComponent) -> (r: SourceSpan)
    ensures
        r == component_span(c@),
{
    reveal_with_fuel(ir::component_view, 2);
    match c {
        IrComponent::Stacked(c) => c.span,
        IrComponent::Container(c) => c.span,
        IrComponent::Landscape(c) => c.span,
    }
}

/// Where a block was written.
pub open spec fn node_span(node: NodeView) -> SourceSpan {
    match node {
        NodeView::Heading { span, .. } => span,
        NodeView::Paragraph { span, .. } => span,
        NodeView::Blockquote { span, .. } => span,
        NodeView::UnorderedList { span, .. } => span,
        NodeView::OrderedList { span, .. } => span,
        NodeView::Table { span, .. } => span,
        NodeView::CodeBlock { span, .. } => span,
        NodeView::RawHtml { span, .. } => span,
        NodeView::FunctionCall { span, .. } => span,
        NodeView::ChainedFunctionCall { span, .. } => span,
        NodeView::FunctionDeclaration { span, .. } => span,
        NodeView::ThematicBreak { span } => span,
        NodeView::Math { span, .. } => span,
        NodeView::TargetSpecificContent { content } => content.span,
        NodeView::Component { component } => component_span(component),
    }
}

/// Where a block was written.
pub fn ir_node_source_span(node: &IrNode) -> (r: SourceSpan)
    ensures
        r == node_span(node@),
{
    reveal_with_fuel(ir::node_view, 3);
    match node {
        IrNode::Heading { span, .. } => *span,
        IrNode::Paragraph { span, .. } => *span,
        IrNode::Blockquote { span, .. } => *span,
        IrNode::UnorderedList { span, .. } => *span,
        IrNode::OrderedList { span, .. } => *span,
        IrNode::Table { span, .. } => *span,
        IrNode::CodeBlock { span, .. } => *span,
        IrNode::RawHtml { span, .. } => *span,
        IrNode::FunctionCall { span, .. } => *span,
        IrNode::ChainedFunctionCall { span, .. } => *span,
        IrNode::FunctionDeclaration { span, .. } => *span,
        IrNode::ThematicBreak { span } => *span,
        IrNode::Math { span, .. } => *span,
        IrNode::TargetSpecificContent { content } => content.span,
        IrNode::Component { component } => span_of_component(component),
    }
}

/// Where inline content was written.
pub open spec fn inline_span(inline: InlineView) -> SourceSpan {
    match inline {
        InlineView::Text { span, .. } => span,
        InlineView::Whitespace { span, .. } => span,
        InlineView::Emphasis { span, .. } => span,
        InlineView::Strong { span, .. } => span,
        InlineView::Strikethrough { span, .. } => span,
        InlineView::DirectiveCall { span, .. } => span,
        InlineView::ChainedDirectiveCall { span, .. } => span,
        InlineView::Link { span, .. } => span,
        InlineView::Image { span, .. } => span,
        InlineView::Code { span, .. } => span,
        InlineView::SoftBreak { span } => span,
        InlineView::HardBreak { span } => span,
        InlineView::RawHtml { span, .. } => span,
        InlineView::TargetSpecificContent { content } => content.span,
    }
}

/// Where inline content was written.
pub fn inline_source_span(inline: &IrInline) -> (r: SourceSpan)
    ensures
        r == inline_span(inline@),
{
    reveal_with_fuel(ir::inline_view, 2);
    match inline {
        IrInline::Text { span, .. } => *span,
        IrInline::Whitespace { span, .. } => *span,
        IrInline::Emphasis { span, .. } => *span,
        IrInline::Strong { span, .. } => *span,
        IrInline::Strikethrough { span, .. } => *span,
        IrInline::DirectiveCall { span, .. } => *span,
        IrInline::ChainedDirectiveCall { span, .. } => *span,
        IrInline::Link { span, .. } => *span,
        IrInline::Image { span, .. } => *span,
        IrInline::Code { span, .. } => *span,
        IrInline::SoftBreak { span } => *span,
        IrInline::HardBreak { span } => *span,
        IrInline::RawHtml { span, .. } => *span,
        IrInline::TargetSpecificContent { content } => content.span,
    }
}

/// Where a value was written, where it says so.
pub open spec fn value_span(value: ValueView, fallback: SourceSpan) -> SourceSpan {
    match value {
        ValueView::Pair(pair) => pair.span,
        ValueView::Dictionary(dictionary) => dictionary.span,
        ValueView::Range(range) => range.span,
        ValueView::Callable(callable) => callable.span,
        ValueView::Component(component) => component_span(component),
        ValueView::Content(nodes) => if nodes.len() == 1 {
            match nodes[0] {
                NodeView::FunctionCall { span, .. } => span,
                NodeView::ChainedFunctionCall { span, .. } => span,
                NodeView::FunctionDeclaration { span, .. } => span,
                _ => fallback,
            }
        } else {
            fallback
        },
        _ => fallback,
    }
}

/// Where a value was written, where it says so.
pub fn value_source_span(value: &IrValue, fallback: SourceSpan) -> (r: SourceSpan)
    ensures
        r == value_span(value@, fallback),
{
    reveal_with_fuel(ir::value_view, 4);
    match value {
        IrValue::Pair(pair) => pair.span,
        IrValue::Dictionary(dictionary) => dictionary.span,
        IrValue::Range(range) => range.span,
        IrValue::Callable(callable) => callable.span,
        IrValue::Component(component) => span_of_component(component),
        IrValue::Content(nodes) => {
            if nodes.len() == 1 {
                match &nodes[0] {
                    IrNode::FunctionCall { span, .. } => *span,
                    IrNode::ChainedFunctionCall { span, .. } => *span,
                    IrNode::FunctionDeclaration { span, .. } => *span,
                    _ => fallback,
                }
            } else {
                fallback
            }
        },
        _ => fallback,
    }
}

/// A paragraph of one text.
pub open spec fn text_paragraph(content: Seq<char>, span: SourceSpan) -> NodeView {
    NodeView::Paragraph { content: seq![InlineView::Text { content, span }], span }
}

/// A sequence of one block.
pub fn one_node(node: IrNode) -> (r: Vec<IrNode>)
    ensures
        ir::nodes_view(r@) == seq![node@],
{
    let mut r: Vec<IrNode> = Vec::new();
    r.push(node);
    r
}

/// A sequence of one inline.
pub fn one_inline(inline: IrInline) -> (r: Vec<IrInline>)
    ensures
        ir::inlines_view(r@) == seq![inline@],
{
    let mut r: Vec<IrInline> = Vec::new();
    r.push(inline);
    r
}

/// The blocks of one paragraph of one text.
pub fn paragraph_of(content: String, span: SourceSpan) -> (r: Vec<IrNode>)
    ensures
        ir::nodes_view(r@) == seq![text_paragraph(content@, span)],
{
    one_node(IrNode::Paragraph { content: one_inline(IrInline::Text { content, span }), span })
}

/// What is said of a range where content is needed.
pub open spec fn range_is_deferred() -> Seq<char> {
    "Direct Range materialization is deferred; consume the typed Range through iteration first"@
}

/// The text of a scalar; nothing where the value has no text.
pub open spec fn scalar_text(value: ValueView, span: SourceSpan, s: SessionView) -> (
    Option<Seq<char>>,
    SessionView,
) {
    match value {
        ValueView::String(content) => (Some(content), s),
        ValueView::Number(number) => s.need_text(QueryView::NumberText { number }),
        ValueView::Boolean(boolean) => (
            Some(
                if boolean {
                    "true"@
                } else {
                    "false"@
                },
            ),
            s,
        ),
        ValueView::Identifier(name) => (Some(name), s),
        ValueView::Nothing => (Some("None"@), s),
        ValueView::Content(_) => (
            None,
            s.fault(Fault::Iteration, "Rich content cannot be rendered as scalar text"@, span),
        ),
        ValueView::Range(range) => (
            None,
            s.fault(Fault::Iteration, range_is_deferred(), range.span),
        ),
        ValueView::Collection(_) => (
            None,
            s.fault(
                Fault::Iteration,
                "Collection, Pair, or Dictionary cannot be rendered as scalar text"@,
                span,
            ),
        ),
        ValueView::Pair(_) => (
            None,
            s.fault(
                Fault::Iteration,
                "Collection, Pair, or Dictionary cannot be rendered as scalar text"@,
                span,
            ),
        ),
        ValueView::Dictionary(_) => (
            None,
            s.fault(
                Fault::Iteration,
                "Collection, Pair, or Dictionary cannot be rendered as scalar text"@,
                span,
            ),
        ),
        ValueView::Component(component) => (
            None,
            s.fault(
                Fault::Iteration,
                "A semantic component cannot be rendered as scalar text"@,
                component_span(component),
            ),
        ),
        ValueView::Callable(_) => (
            None,
            s.fault(Fault::Iteration, "A callable cannot be rendered as scalar text"@, span),
        ),
        _ => (
            None,
            s.fault(
                Fault::Iteration,
                "Domain values cannot be rendered as scalar text without a domain consumer"@,
                span,
            ),
        ),
    }
}

/// The text of a scalar; nothing where the value has no text.
pub fn scalar_to_text(value: &IrValue, span: SourceSpan, session: &mut Session) -> (r: Option<
    String,
>)
    ensures
        (match r {
            Some(content) => Some(content@),
            None => None,
        }, final(session)@) == scalar_text(value@, span, old(session)@),
        host::follows(old(session)@, final(session)@),
        r is None ==> host::halts(old(session)@, final(session)@),
{
    match value {
        IrValue::String(content) => Some(content.clone()),
        IrValue::Number(number) => session.need_text(Query::NumberText { number: *number }),
        IrValue::Boolean(boolean) => Some(
            if *boolean {
                "true".to_owned()
            } else {
                "false".to_owned()
            },
        ),
        IrValue::Identifier(name) => Some(name.clone()),
        IrValue::Nothing => Some("None".to_owned()),
        IrValue::Content(_) => {
            session.fault(
                Fault::Iteration,
                "Rich content cannot be rendered as scalar text".to_owned(),
                span,
            );
            None
        },
        IrValue::Range(range) => {
            session.fault(
                Fault::Iteration,
                "Direct Range materialization is deferred; consume the typed Range through iteration first".to_owned(),
                range.span,
            );
            None
        },
        IrValue::Collection(_) => {
            session.fault(
                Fault::Iteration,
                "Collection, Pair, or Dictionary cannot be rendered as scalar text".to_owned(),
                span,
            );
            None
        },
        IrValue::Pair(_) => {
            session.fault(
                Fault::Iteration,
                "Collection, Pair, or Dictionary cannot be rendered as scalar text".to_owned(),
                span,
            );
            None
        },
        IrValue::Dictionary(_) => {
            session.fault(
                Fault::Iteration,
                "Collection, Pair, or Dictionary cannot be rendered as scalar text".to_owned(),
                span,
            );
            None
        },
        IrValue::Component(component) => {
            session.fault(
                Fault::Iteration,
                "A semantic component cannot be rendered as scalar text".to_owned(),
                span_of_component(component),
            );
            None
        },
        IrValue::Callable(_) => {
            session.fault(
                Fault::Iteration,
                "A callable cannot be rendered as scalar text".to_owned(),
                span,
            );
            None
        },
        _ => {
            session.fault(
                Fault::Iteration,
                "Domain values cannot be rendered as scalar text without a domain consumer".to_owned(),
                span,
            );
            None
        },
    }
}

/// A value as blocks.
pub open spec fn content_nodes(value: ValueView, span: SourceSpan, s: SessionView) -> (
    Option<Seq<NodeView>>,
    SessionView,
)
    decreases value, 0int,
{
    match value {
        ValueView::Content(nodes) => (Some(nodes), s),
        ValueView::Collection(values) => collection_nodes(values, span, s),
        ValueView::Pair(pair) => pair_nodes(pair, s),
        ValueView::Dictionary(dictionary) => match table_rows(dictionary.entries, s) {
            (Some(rows), t) => (
                Some(
                    seq![
                        NodeView::Table {
                            header: TableRowView {
                                cells: seq![
                                    text_cell("Key"@, dictionary.span),
                                    text_cell("Value"@, dictionary.span),
                                ],
                                span: dictionary.span,
                            },
                            rows,
                            span: dictionary.span,
                        },
                    ],
                ),
                t,
            ),
            (None, t) => (None, t),
        },
        ValueView::Component(component) => (Some(seq![NodeView::Component { component }]), s),
        ValueView::Range(range) => (
            None,
            s.fault(Fault::Iteration, range_is_deferred(), range.span),
        ),
        _ => match scalar_text(value, span, s) {
            (Some(content), t) => (Some(seq![text_paragraph(content, span)]), t),
            (None, t) => (None, t),
        },
    }
}

/// The blocks of values, one after the other; nothing where one has none.
pub open spec fn collection_nodes(values: Seq<ValueView>, span: SourceSpan, s: SessionView) -> (
    Option<Seq<NodeView>>,
    SessionView,
)
    decreases values, 0int,
{
    if values.len() == 0 {
        (Some(Seq::empty()), s)
    } else {
        match collection_nodes(values.drop_last(), span, s) {
            (None, t) => (None, t),
            (Some(nodes), t) => match content_nodes(values.last(), span, t) {
                (Some(more), u) => (Some(nodes + more), u),
                (None, u) => (None, u),
            },
        }
    }
}

/// A pair as a list of two items.
pub open spec fn pair_nodes(pair: PairView, s: SessionView) -> (
    Option<Seq<NodeView>>,
    SessionView,
)
    decreases pair, 0int,
{
    match content_nodes(*pair.first, pair.span, s) {
        (None, t) => (None, t),
        (Some(first), t) => match content_nodes(*pair.second, pair.span, t) {
            (None, u) => (None, u),
            (Some(second), u) => (
                Some(
                    seq![
                        NodeView::OrderedList {
                            items: seq![
                                ListItemView { nodes: first, task: None, span: pair.span },
                                ListItemView { nodes: second, task: None, span: pair.span },
                            ],
                            start: 1,
                            span: pair.span,
                        },
                    ],
                ),
                u,
            ),
        },
    }
}

/// A table cell of one text.
pub open spec fn text_cell(content: Seq<char>, span: SourceSpan) -> TableCellView {
    TableCellView {
        content: seq![InlineView::Text { content, span }],
        alignment: IrTableAlignment::Unaligned,
        span,
    }
}

/// The entries of a dictionary as table rows.
pub open spec fn table_rows(entries: Seq<PairView>, s: SessionView) -> (
    Option<Seq<TableRowView>>,
    SessionView,
)
    decreases entries, 0int,
{
    if entries.len() == 0 {
        (Some(Seq::empty()), s)
    } else {
        match table_rows(entries.drop_last(), s) {
            (None, t) => (None, t),
            (Some(rows), t) => match *entries.last().first {
                ValueView::String(key) => match table_cell(
                    *entries.last().second,
                    entries.last().span,
                    t,
                ) {
                    (None, u) => (None, u),
                    (Some(content), u) => (
                        Some(
                            rows.push(
                                TableRowView {
                                    cells: seq![
                                        text_cell(key, entries.last().span),
                                        TableCellView {
                                            content,
                                            alignment: IrTableAlignment::Unaligned,
                                            span: entries.last().span,
                                        },
                                    ],
                                    span: entries.last().span,
                                },
                            ),
                        ),
                        u,
                    ),
                },
                _ => (
                    None,
                    t.fault(
                        Fault::Iteration,
                        "Dictionary keys must remain typed strings"@,
                        entries.last().span,
                    ),
                ),
            },
        }
    }
}

/// A value as the content of one table cell.
pub open spec fn table_cell(value: ValueView, span: SourceSpan, s: SessionView) -> (
    Option<Seq<InlineView>>,
    SessionView,
)
    decreases value, 1int,
{
    match value {
        ValueView::Content(nodes) => match only_paragraph(nodes) {
            Some(content) => (Some(content), s),
            None => (
                None,
                s.fault(
                    Fault::Iteration,
                    "Dictionary values must be scalar or exactly one paragraph when rendered as a table cell"@,
                    span,
                ),
            ),
        },
        ValueView::Collection(_) => match content_nodes(value, span, s) {
            (None, t) => (None, t),
            (Some(nodes), t) => match only_paragraph(nodes) {
                Some(content) => (Some(content), t),
                None => (
                    None,
                    t.fault(
                        Fault::Iteration,
                        "A multi-value Collection cannot be rendered as one Dictionary table cell"@,
                        span,
                    ),
                ),
            },
        },
        ValueView::Pair(_) => (None, nested_cell(span, s)),
        ValueView::Dictionary(_) => (None, nested_cell(span, s)),
        ValueView::Range(_) => (None, nested_cell(span, s)),
        _ => match scalar_text(value, span, s) {
            (Some(content), t) => (Some(seq![InlineView::Text { content, span }]), t),
            (None, t) => (None, t),
        },
    }
}

/// The session once a value turned out to be no table cell.
pub open spec fn nested_cell(span: SourceSpan, s: SessionView) -> SessionView {
    s.fault(
        Fault::Iteration,
        "Nested Pair, Dictionary, or Range values cannot be rendered as one Dictionary table cell"@,
        span,
    )
}

/// The content of the one paragraph that the blocks are.
pub open spec fn only_paragraph(nodes: Seq<NodeView>) -> Option<Seq<InlineView>> {
    if nodes.len() == 1 {
        match nodes[0] {
            NodeView::Paragraph { content, .. } => Some(content),
            _ => None,
        }
    } else {
        None
    }
}

/// The content of the one paragraph that the blocks are.
fn single_paragraph(nodes: &Vec<IrNode>) -> (r: Option<Vec<IrInline>>)
    ensures
        (match r {
            Some(content) => Some(ir::inlines_view(content@)),
            None => None,
        }) == only_paragraph(ir::nodes_view(nodes@)),
{
    if nodes.len() == 1 {
        if let IrNode::Paragraph { content, .. } = &nodes[0] {
            return Some(copy_inlines(content));
        }
    }
    None
}

/// A value as blocks; nothing where it has none, and then the reason is reported.
pub fn value_into_content_nodes(value: &IrValue, span: SourceSpan, session: &mut Session) -> (r:
    Option<Vec<IrNode>>)
    ensures
        (match r {
            Some(nodes) => Some(ir::nodes_view(nodes@)),
            None => None,
        }, final(session)@) == content_nodes(value@, span, old(session)@),
        host::follows(old(session)@, final(session)@),
        r is None ==> host::halts(old(session)@, final(session)@),
    decreases value, 0int,
{
    match value {
        IrValue::Content(nodes) => Some(copy_nodes(nodes)),
        IrValue::Collection(values) => {
            let mut nodes: Vec<IrNode> = Vec::new();
            let mut i: usize = 0;
            let ghost all = ir::values_view(values@);
            assert(all.take(0) =~= Seq::empty());
            while i < values.len()
                invariant
                    host::follows(old(session)@, session@),
                    0 <= i <= values@.len(),
                    all == ir::values_view(values@),
                    (Some(ir::nodes_view(nodes@)), session@) == collection_nodes(
                        all.take(i as int),
                        span,
                        old(session)@,
                    ),
                    value@ == ValueView::Collection(all),
                    decreases_to!(value => values),
                decreases values@.len() - i,
            {
                proof {
                    sequences::lemma_take_step(all, i as int);
                }
                match value_into_content_nodes(&values[i], span, session) {
                    Some(mut more) => {
                        nodes.append(&mut more);
                    },
                    None => {
                        proof {
                            lemma_collection_nodes_stops(all, span, old(session)@, i + 1);
                        }
                        return None;
                    },
                }
                i += 1;
            }
            proof {
                sequences::lemma_take_all(all);
            }
            Some(nodes)
        },
        IrValue::Pair(pair) => pair_into_content_nodes(pair, session),
        IrValue::Dictionary(dictionary) => match dictionary_into_table(dictionary, session) {
            Some(table) => Some(one_node(table)),
            None => None,
        },
        IrValue::Component(component) => Some(
            one_node(IrNode::Component { component: copy_component(component) }),
        ),
        IrValue::Range(range) => {
            session.fault(
                Fault::Iteration,
                "Direct Range materialization is deferred; consume the typed Range through iteration first".to_owned(),
                range.span,
            );
            None
        },
        _ => match scalar_to_text(value, span, session) {
            Some(content) => Some(paragraph_of(content, span)),
            None => None,
        },
    }
}

/// Where the blocks of some first values fail, so do those of all.
proof fn lemma_collection_nodes_stops(
    values: Seq<ValueView>,
    span: SourceSpan,
    s: SessionView,
    i: int,
)
    requires
        0 <= i <= values.len(),
        collection_nodes(values.take(i), span, s).0 is None,
    ensures
        collection_nodes(values, span, s) == collection_nodes(values.take(i), span, s),
    decreases values.len() - i,
{
    if i < values.len() {
        sequences::lemma_take_step(values, i);
        lemma_collection_nodes_stops(values, span, s, i + 1);
    } else {
        sequences::lemma_take_all(values);
    }
}

/// A pair as a list of two items.
fn pair_into_content_nodes(pair: &IrPair, session: &mut Session) -> (r: Option<Vec<IrNode>>)
    ensures
        (match r {
            Some(nodes) => Some(ir::nodes_view(nodes@)),
            None => None,
        }, final(session)@) == pair_nodes(pair@, old(session)@),
        host::follows(old(session)@, final(session)@),
        r is None ==> host::halts(old(session)@, final(session)@),
    decreases pair, 0int,
{
    let first = match value_into_content_nodes(&pair.first, pair.span, session) {
        Some(nodes) => nodes,
        None => {
            return None;
        },
    };
    let second = match value_into_content_nodes(&pair.second, pair.span, session) {
        Some(nodes) => nodes,
        None => {
            return None;
        },
    };
    let mut items: Vec<IrListItem> = Vec::new();
    items.push(IrListItem { nodes: first, task: None, span: pair.span });
    items.push(IrListItem { nodes: second, task: None, span: pair.span });
    proof {
        reveal_with_fuel(ir::item_view, 2);
        assert(ir::items_view(items@) =~= seq![
            ListItemView { nodes: ir::nodes_view(first@), task: None, span: pair.span },
            ListItemView { nodes: ir::nodes_view(second@), task: None, span: pair.span },
        ]);
    }
    Some(one_node(IrNode::OrderedList { items, start: 1, span: pair.span }))
}

/// A table cell of one text.
fn table_text_cell(content: &str, span: SourceSpan) -> (r: IrTableCell)
    ensures
        r@ == text_cell(content@, span),
{
    IrTableCell {
        content: one_inline(IrInline::Text { content: content.to_owned(), span }),
        alignment: IrTableAlignment::Unaligned,
        span,
    }
}

/// A row of two cells.
fn row_of(first: IrTableCell, second: IrTableCell, span: SourceSpan) -> (r: IrTableRow)
    ensures
        r@ == (TableRowView { cells: seq![first@, second@], span }),
{
    let mut cells: Vec<IrTableCell> = Vec::new();
    cells.push(first);
    cells.push(second);
    assert(ir::cells_view(cells@) =~= seq![first@, second@]);
    IrTableRow { cells, span }
}

/// A dictionary as a table of keys and values.
fn dictionary_into_table(dictionary: &IrDictionary, session: &mut Session) -> (r: Option<IrNode>)
    ensures
        (match r {
            Some(table) => Some(seq![table@]),
            None => None,
        }, final(session)@) == content_nodes(ValueView::Dictionary(dictionary@), dictionary.span, old(session)@),
        host::follows(old(session)@, final(session)@),
        r is None ==> host::halts(old(session)@, final(session)@),
    decreases dictionary, 0int,
{
    let span = dictionary.span;
    let header = row_of(table_text_cell("Key", span), table_text_cell("Value", span), span);
    let mut rows: Vec<IrTableRow> = Vec::new();
    let mut i: usize = 0;
    let ghost all = ir::pairs_view(dictionary.entries@);
    assert(all.take(0) =~= Seq::empty());
    while i < dictionary.entries.len()
        invariant
            host::follows(old(session)@, session@),
            0 <= i <= dictionary.entries@.len(),
            all == ir::pairs_view(dictionary.entries@),
            all == dictionary@.entries,
            (Some(ir::rows_view(rows@)), session@) == table_rows(all.take(i as int), old(session)@),
        decreases dictionary.entries@.len() - i,
    {
        proof {
            sequences::lemma_take_step(all, i as int);
        }
        let pair = &dictionary.entries[i];
        assert(pair@ == all[i as int]);
        assert(pair.first@ == *pair@.first);
        assert(pair.second@ == *pair@.second);
        let key = match &*pair.first {
            IrValue::String(key) => key,
            _ => {
                session.fault(
                    Fault::Iteration,
                    "Dictionary keys must remain typed strings".to_owned(),
                    pair.span,
                );
                proof {
                    lemma_table_rows_stops(all, old(session)@, i + 1);
                }
                return None;
            },
        };
        let content = match value_into_table_cell(&pair.second, pair.span, session) {
            Some(content) => content,
            None => {
                proof {
                    lemma_table_rows_stops(all, old(session)@, i + 1);
                }
                return None;
            },
        };
        rows.push(
            row_of(
                table_text_cell(key.as_str(), pair.span),
                IrTableCell { content, alignment: IrTableAlignment::Unaligned, span: pair.span },
                pair.span,
            ),
        );
        i += 1;
    }
    proof {
        sequences::lemma_take_all(all);
    }
    Some(IrNode::Table { header, rows, span })
}

/// Where some first entries have no rows, all have none.
proof fn lemma_table_rows_stops(entries: Seq<PairView>, s: SessionView, i: int)
    requires
        0 <= i <= entries.len(),
        table_rows(entries.take(i), s).0 is None,
    ensures
        table_rows(entries, s) == table_rows(entries.take(i), s),
    decreases entries.len() - i,
{
    if i < entries.len() {
        sequences::lemma_take_step(entries, i);
        lemma_table_rows_stops(entries, s, i + 1);
    } else {
        sequences::lemma_take_all(entries);
    }
}

/// A value as the content of one table cell.
fn value_into_table_cell(value: &IrValue, span: SourceSpan, session: &mut Session) -> (r: Option<
    Vec<IrInline>,
>)
    ensures
        (match r {
            Some(content) => Some(ir::inlines_view(content@)),
            None => None,
        }, final(session)@) == table_cell(value@, span, old(session)@),
        host::follows(old(session)@, final(session)@),
        r is None ==> host::halts(old(session)@, final(session)@),
    decreases value, 1int,
{
    match value {
        IrValue::Content(nodes) => match single_paragraph(nodes) {
            Some(content) => Some(content),
            None => {
                session.fault(
                    Fault::Iteration,
                    "Dictionary values must be scalar or exactly one paragraph when rendered as a table cell".to_owned(),
                    span,
                );
                None
            },
        },
        IrValue::Collection(_) => match value_into_content_nodes(value, span, session) {
            None => None,
            Some(nodes) => match single_paragraph(&nodes) {
                Some(content) => Some(content),
                None => {
                    session.fault(
                        Fault::Iteration,
                        "A multi-value Collection cannot be rendered as one Dictionary table cell".to_owned(),
                        span,
                    );
                    None
                },
            },
        },
        IrValue::Pair(_) | IrValue::Dictionary(_) | IrValue::Range(_) => {
            session.fault(
                Fault::Iteration,
                "Nested Pair, Dictionary, or Range values cannot be rendered as one Dictionary table cell".to_owned(),
                span,
            );
            None
        },
        _ => match scalar_to_text(value, span, session) {
            Some(content) => Some(one_inline(IrInline::Text { content, span })),
            None => None,
        },
    }
}

/// A value as inline content: nothing where it has none.
pub open spec fn inline_content(value: ValueView, span: SourceSpan, s: SessionView) -> (
    Seq<InlineView>,
    SessionView,
)
    decreases value,
{
    match value {
        ValueView::Content(nodes) => if nodes.len() == 0 {
            (Seq::empty(), s)
        } else if nodes.len() > 1 {
            (Seq::empty(), s.fault(Fault::Function, rich_inline(), span))
        } else {
            match nodes[0] {
                NodeView::Paragraph { content, .. } => (content, s),
                NodeView::TargetSpecificContent { content } => (
                    seq![InlineView::TargetSpecificContent { content }],
                    s,
                ),
                _ => (Seq::empty(), s.fault(Fault::Function, rich_inline(), span)),
            }
        },
        ValueView::Collection(values) => if values.len() != 1 {
            (
                Seq::empty(),
                s.fault(
                    Fault::Function,
                    "A Collection cannot be flattened into inline content unless it has exactly one element"@,
                    span,
                ),
            )
        } else {
            inline_content(values[0], span, s)
        },
        ValueView::Component(component) => (
            Seq::empty(),
            s.fault(
                Fault::ComponentInline,
                "Semantic component is block-only"@,
                component_span(component),
            ),
        ),
        ValueView::Range(range) => (
            Seq::empty(),
            s.fault(Fault::Iteration, range_is_deferred(), range.span),
        ),
        _ => match scalar_text(value, span, s) {
            (Some(content), t) => (seq![InlineView::Text { content, span }], t),
            (None, t) => (Seq::empty(), t),
        },
    }
}

/// What is said of blocks where inlines are needed.
pub open spec fn rich_inline() -> Seq<char> {
    "Rich block content cannot be inserted into an inline context unless it is exactly one paragraph"@
}

/// A value as inline content: nothing where it has none, and then the reason is
/// reported.
pub fn materialize_inline_value(value: &IrValue, span: SourceSpan, session: &mut Session) -> (r: Vec<
    IrInline,
>)
    ensures
        (ir::inlines_view(r@), final(session)@) == inline_content(value@, span, old(session)@),
        host::follows(old(session)@, final(session)@),
    decreases value,
{
    match value {
        IrValue::Content(nodes) => materialize_inline_content(nodes, span, session),
        IrValue::Collection(values) => {
            if values.len() != 1 {
                session.fault(
                    Fault::Function,
                    "A Collection cannot be flattened into inline content unless it has exactly one element".to_owned(),
                    span,
                );
                Vec::new()
            } else {
                materialize_inline_value(&values[0], span, session)
            }
        },
        IrValue::Component(component) => {
            session.fault(
                Fault::ComponentInline,
                "Semantic component is block-only".to_owned(),
                span_of_component(component),
            );
            Vec::new()
        },
        IrValue::Range(range) => {
            session.fault(
                Fault::Iteration,
                "Direct Range materialization is deferred; consume the typed Range through iteration first".to_owned(),
                range.span,
            );
            Vec::new()
        },
        _ => match scalar_to_text(value, span, session) {
            Some(content) => one_inline(IrInline::Text { content, span }),
            None => Vec::new(),
        },
    }
}

/// Blocks as inline content: one paragraph, or one piece of target-specific content.
fn materialize_inline_content(nodes: &Vec<IrNode>, span: SourceSpan, session: &mut Session) -> (r:
    Vec<IrInline>)
    ensures
        (ir::inlines_view(r@), final(session)@) == inline_content(
            ValueView::Content(ir::nodes_view(nodes@)),
            span,
            old(session)@,
        ),
        host::follows(old(session)@, final(session)@),
{
    if nodes.len() == 0 {
        return Vec::new();
    }
    if nodes.len() == 1 {
        match &nodes[0] {
            IrNode::Paragraph { content, .. } => {
                return copy_inlines(content);
            },
            IrNode::TargetSpecificContent { content } => {
                return one_inline(
                    IrInline::TargetSpecificContent { content: copy_target_content(content) },
                );
            },
            _ => {},
        }
    }
    session.fault(
        Fault::Function,
        "Rich block content cannot be inserted into an inline context unless it is exactly one paragraph".to_owned(),
        span,
    );
    Vec::new()
}

/// Whether a value can stand as an argument of a call that is kept as it is.
pub open spec fn preservable(value: ValueView, s: SessionView) -> (bool, SessionView)
    decreases value,
{
    match value {
        ValueView::Range(range) => (
            false,
            s.fault(
                Fault::Iteration,
                "A typed Range cannot be preserved as an unresolved call argument; consume it through iteration first"@,
                range.span,
            ),
        ),
        ValueView::Collection(values) => all_preservable(values, s),
        ValueView::Pair(pair) => pair_preservable(pair, s),
        ValueView::Dictionary(dictionary) => entries_preservable(dictionary.entries, s),
        ValueView::Callable(callable) => (
            false,
            s.fault(
                Fault::Iteration,
                "A callable cannot be preserved as an unresolved call argument"@,
                callable.span,
            ),
        ),
        _ => (true, s),
    }
}

/// Whether all of some values can stand as arguments of a kept call.
pub open spec fn all_preservable(values: Seq<ValueView>, s: SessionView) -> (bool, SessionView)
    decreases values,
{
    if values.len() == 0 {
        (true, s)
    } else {
        match all_preservable(values.drop_last(), s) {
            (true, t) => preservable(values.last(), t),
            (false, t) => (false, t),
        }
    }
}

/// Whether both values of a pair can stand as arguments of a kept call.
pub open spec fn pair_preservable(pair: PairView, s: SessionView) -> (bool, SessionView)
    decreases pair,
{
    match preservable(*pair.first, s) {
        (true, t) => preservable(*pair.second, t),
        (false, t) => (false, t),
    }
}

/// Whether all entries of a dictionary can stand as arguments of a kept call.
pub open spec fn entries_preservable(entries: Seq<PairView>, s: SessionView) -> (bool, SessionView)
    decreases entries,
{
    if entries.len() == 0 {
        (true, s)
    } else {
        match entries_preservable(entries.drop_last(), s) {
            (true, t) => pair_preservable(entries.last(), t),
            (false, t) => (false, t),
        }
    }
}

/// Whether a value can stand as an argument of a call that is kept as it is; if not,
/// the reason is reported.
pub fn validate_preserved_value(value: &IrValue, session: &mut Session) -> (r: bool)
    ensures
        (r, final(session)@) == preservable(value@, old(session)@),
        host::follows(old(session)@, final(session)@),
        !r ==> host::halts(old(session)@, final(session)@),
    decreases value,
{
    match value {
        IrValue::Range(range) => {
            session.fault(
                Fault::Iteration,
                "A typed Range cannot be preserved as an unresolved call argument; consume it through iteration first".to_owned(),
                range.span,
            );
            false
        },
        IrValue::Collection(values) => {
            let ghost all = ir::values_view(values@);
            let mut i: usize = 0;
            assert(all.take(0) =~= Seq::empty());
            while i < values.len()
                invariant
                    host::follows(old(session)@, session@),
                    0 <= i <= values@.len(),
                    all == ir::values_view(values@),
                    (true, session@) == all_preservable(all.take(i as int), old(session)@),
                    decreases_to!(value => values),
                    value@ == ValueView::Collection(all),
                decreases values@.len() - i,
            {
                proof {
                    sequences::lemma_take_step(all, i as int);
                }
                if !validate_preserved_value(&values[i], session) {
                    proof {
                        lemma_all_preservable_stops(all, old(session)@, i + 1);
                    }
                    return false;
                }
                i += 1;
            }
            proof {
                sequences::lemma_take_all(all);
            }
            true
        },
        IrValue::Pair(pair) => validate_preserved_pair(pair, session),
        IrValue::Dictionary(dictionary) => {
            let entries = &dictionary.entries;
            let ghost all = ir::pairs_view(entries@);
            assert(dictionary@.entries == all);
            let mut i: usize = 0;
            assert(all.take(0) =~= Seq::empty());
            while i < entries.len()
                invariant
                    host::follows(old(session)@, session@),
                    0 <= i <= entries@.len(),
                    all == ir::pairs_view(entries@),
                    (true, session@) == entries_preservable(all.take(i as int), old(session)@),
                    decreases_to!(value => entries),
                    value@ == ValueView::Dictionary(dictionary@),
                    dictionary@.entries == all,
                decreases entries@.len() - i,
            {
                proof {
                    sequences::lemma_take_step(all, i as int);
                }
                if !validate_preserved_pair(&entries[i], session) {
                    proof {
                        lemma_entries_preservable_stops(all, old(session)@, i + 1);
                    }
                    return false;
                }
                i += 1;
            }
            proof {
                sequences::lemma_take_all(all);
            }
            true
        },
        IrValue::Callable(callable) => {
            session.fault(
                Fault::Iteration,
                "A callable cannot be preserved as an unresolved call argument".to_owned(),
                callable.span,
            );
            false
        },
        _ => true,
    }
}

/// Whether both values of a pair can stand as arguments of a kept call.
fn validate_preserved_pair(pair: &IrPair, session: &mut Session) -> (r: bool)
    ensures
        (r, final(session)@) == pair_preservable(pair@, old(session)@),
        host::follows(old(session)@, final(session)@),
        !r ==> host::halts(old(session)@, final(session)@),
    decreases pair,
{
    assert(pair.first@ == *pair@.first);
    assert(pair.second@ == *pair@.second);
    validate_preserved_value(&pair.first, session) && validate_preserved_value(
        &pair.second,
        session,
    )
}

proof fn lemma_all_preservable_stops(values: Seq<ValueView>, s: SessionView, i: int)
    requires
        0 <= i <= values.len(),
        !all_preservable(values.take(i), s).0,
    ensures
        all_preservable(values, s) == all_preservable(values.take(i), s),
    decreases values.len() - i,
{
    if i < values.len() {
        sequences::lemma_take_step(values, i);
        lemma_all_preservable_stops(values, s, i + 1);
    } else {
        sequences::lemma_take_all(values);
    }
}

proof fn lemma_entries_preservable_stops(entries: Seq<PairView>, s: SessionView, i: int)
    requires
        0 <= i <= entries.len(),
        !entries_preservable(entries.take(i), s).0,
    ensures
        entries_preservable(entries, s) == entries_preservable(entries.take(i), s),
    decreases entries.len() - i,
{
    if i < entries.len() {
        sequences::lemma_take_step(entries, i);
        lemma_entries_preservable_stops(entries, s, i + 1);
    } else {
        sequences::lemma_take_all(entries);
    }
}

} // verus!
