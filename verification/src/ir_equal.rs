//! Structural equality of document values: numbers compare as numbers, so that
//! no NaN equals anything and the two zeros are equal.

use vstd::prelude::*;

use crate::ir;
use crate::ir::{
    CallSegmentView, CallableView, CaptureView, CapturedFunctionView, CapturedVariableView,
    ComponentView, ContainerView, DictionaryView, InlineView, IrCallSegment, IrCallable,
    IrCallableCapture, IrCapturedFunction, IrCapturedVariable, IrComponent, IrContainerComponent,
    IrDictionary, IrInline, IrLandscapeComponent, IrListItem, IrNamedArg, IrNode, IrPair,
    IrParameter, IrSize, IrStackedComponent, IrTableCell, IrTableRow, IrValue, LandscapeView,
    ListItemView, NamedArgView, NodeView, PairView, ParameterView, StackedView, TableCellView,
    TableRowView, TargetContentView, TargetSpecificContent, ValueView,
};
use crate::number;

verus! {

/// Whether two sizes are equal.
pub open spec fn size_equal(a: IrSize, b: IrSize) -> bool {
    number::number_equal(a.value, b.value) && a.unit == b.unit
}

/// Whether two sizes are equal.
pub fn same_size(a: &IrSize, b: &IrSize) -> (r: bool)
    ensures
        r == size_equal(*a, *b),
{
    a.value.ieee_equal(b.value) && a.unit == b.unit
}

/// Whether two values of [`TargetSpecificContent`] are structurally equal.
pub open spec fn target_content_equal(a: TargetContentView, b: TargetContentView) -> bool
    decreases a,
{
    &&& a.target == b.target
    &&& a.content == b.content
    &&& a.span == b.span
}

/// Whether two values of [`TargetSpecificContent`] are structurally equal.
pub fn same_target_content(a: &TargetSpecificContent, b: &TargetSpecificContent) -> (r: bool)
    ensures
        r == target_content_equal(ir::target_content_view(*a), ir::target_content_view(*b)),
    decreases a,
{
    a.target == b.target
        && a.content == b.content
        && a.span == b.span
}

/// Whether two values of [`IrNode`] are structurally equal.
pub open spec fn node_equal(a: NodeView, b: NodeView) -> bool
    decreases a,
{
    match (a, b) {
        (
            NodeView::Heading { level: level_a, content: content_a, span: span_a },
            NodeView::Heading { level: level_b, content: content_b, span: span_b },
        ) => {
            &&& level_a == level_b
            &&& inlines_equal(content_a, content_b)
            &&& span_a == span_b
        },
        (
            NodeView::Paragraph { content: content_a, span: span_a },
            NodeView::Paragraph { content: content_b, span: span_b },
        ) => {
            &&& inlines_equal(content_a, content_b)
            &&& span_a == span_b
        },
        (
            NodeView::Blockquote { content: content_a, span: span_a },
            NodeView::Blockquote { content: content_b, span: span_b },
        ) => {
            &&& nodes_equal(content_a, content_b)
            &&& span_a == span_b
        },
        (
            NodeView::UnorderedList { items: items_a, span: span_a },
            NodeView::UnorderedList { items: items_b, span: span_b },
        ) => {
            &&& items_equal(items_a, items_b)
            &&& span_a == span_b
        },
        (
            NodeView::OrderedList { items: items_a, start: start_a, span: span_a },
            NodeView::OrderedList { items: items_b, start: start_b, span: span_b },
        ) => {
            &&& items_equal(items_a, items_b)
            &&& start_a == start_b
            &&& span_a == span_b
        },
        (
            NodeView::Table { header: header_a, rows: rows_a, span: span_a },
            NodeView::Table { header: header_b, rows: rows_b, span: span_b },
        ) => {
            &&& row_equal(header_a, header_b)
            &&& rows_equal(rows_a, rows_b)
            &&& span_a == span_b
        },
        (
            NodeView::CodeBlock { language: language_a, content: content_a, span: span_a },
            NodeView::CodeBlock { language: language_b, content: content_b, span: span_b },
        ) => {
            &&& language_a == language_b
            &&& content_a == content_b
            &&& span_a == span_b
        },
        (
            NodeView::RawHtml { source: source_a, span: span_a },
            NodeView::RawHtml { source: source_b, span: span_b },
        ) => {
            &&& source_a == source_b
            &&& span_a == span_b
        },
        (
            NodeView::FunctionCall {
                name: name_a,
                positional_args: positional_args_a,
                named_args: named_args_a,
                lambda_parameters: lambda_parameters_a,
                body: body_a,
                span: span_a,
            },
            NodeView::FunctionCall {
                name: name_b,
                positional_args: positional_args_b,
                named_args: named_args_b,
                lambda_parameters: lambda_parameters_b,
                body: body_b,
                span: span_b,
            },
        ) => {
            &&& name_a == name_b
            &&& values_equal(positional_args_a, positional_args_b)
            &&& named_args_equal(named_args_a, named_args_b)
            &&& (match (lambda_parameters_a, lambda_parameters_b) {
                (Some(l), Some(r)) => parameters_equal(l, r),
                (None, None) => true,
                _ => false,
            })
            &&& (match (body_a, body_b) {
                (Some(l), Some(r)) => nodes_equal(l, r),
                (None, None) => true,
                _ => false,
            })
            &&& span_a == span_b
        },
        (
            NodeView::ChainedFunctionCall {
                head: head_a,
                chain: chain_a,
                body: body_a,
                span: span_a,
            },
            NodeView::ChainedFunctionCall {
                head: head_b,
                chain: chain_b,
                body: body_b,
                span: span_b,
            },
        ) => {
            &&& segment_equal(head_a, head_b)
            &&& segments_equal(chain_a, chain_b)
            &&& (match (body_a, body_b) {
                (Some(l), Some(r)) => nodes_equal(l, r),
                (None, None) => true,
                _ => false,
            })
            &&& span_a == span_b
        },
        (
            NodeView::FunctionDeclaration {
                name: name_a,
                parameters: parameters_a,
                body: body_a,
                span: span_a,
            },
            NodeView::FunctionDeclaration {
                name: name_b,
                parameters: parameters_b,
                body: body_b,
                span: span_b,
            },
        ) => {
            &&& value_equal(name_a, name_b)
            &&& parameters_equal(parameters_a, parameters_b)
            &&& nodes_equal(body_a, body_b)
            &&& span_a == span_b
        },
        (NodeView::ThematicBreak { span: span_a }, NodeView::ThematicBreak { span: span_b }) => {
            &&& span_a == span_b
        },
        (
            NodeView::Math { content: content_a, span: span_a },
            NodeView::Math { content: content_b, span: span_b },
        ) => {
            &&& content_a == content_b
            &&& span_a == span_b
        },
        (
            NodeView::TargetSpecificContent { content: content_a },
            NodeView::TargetSpecificContent { content: content_b },
        ) => {
            &&& target_content_equal(content_a, content_b)
        },
        (
            NodeView::Component { component: component_a },
            NodeView::Component { component: component_b },
        ) => {
            &&& component_equal(component_a, component_b)
        },
        _ => false,
    }
}

/// Whether two values of [`IrNode`] are structurally equal.
pub fn same_node(a: &IrNode, b: &IrNode) -> (r: bool)
    ensures
        r == node_equal(ir::node_view(*a), ir::node_view(*b)),
    decreases a,
{
    match (a, b) {
        (
            IrNode::Heading { level: level_a, content: content_a, span: span_a },
            IrNode::Heading { level: level_b, content: content_b, span: span_b },
        ) => {
            *level_a == *level_b
                && same_inlines(content_a, content_b)
                && *span_a == *span_b
        },
        (
            IrNode::Paragraph { content: content_a, span: span_a },
            IrNode::Paragraph { content: content_b, span: span_b },
        ) => {
            same_inlines(content_a, content_b)
                && *span_a == *span_b
        },
        (
            IrNode::Blockquote { content: content_a, span: span_a },
            IrNode::Blockquote { content: content_b, span: span_b },
        ) => {
            same_nodes(content_a, content_b)
                && *span_a == *span_b
        },
        (
            IrNode::UnorderedList { items: items_a, span: span_a },
            IrNode::UnorderedList { items: items_b, span: span_b },
        ) => {
            same_items(items_a, items_b)
                && *span_a == *span_b
        },
        (
            IrNode::OrderedList { items: items_a, start: start_a, span: span_a },
            IrNode::OrderedList { items: items_b, start: start_b, span: span_b },
        ) => {
            same_items(items_a, items_b)
                && *start_a == *start_b
                && *span_a == *span_b
        },
        (
            IrNode::Table { header: header_a, rows: rows_a, span: span_a },
            IrNode::Table { header: header_b, rows: rows_b, span: span_b },
        ) => {
            same_row(header_a, header_b)
                && same_rows(rows_a, rows_b)
                && *span_a == *span_b
        },
        (
            IrNode::CodeBlock { language: language_a, content: content_a, span: span_a },
            IrNode::CodeBlock { language: language_b, content: content_b, span: span_b },
        ) => {
            (match (language_a, language_b) {
                (Some(l), Some(r)) => *l == *r,
                (None, None) => true,
                _ => false,
            })
                && *content_a == *content_b
                && *span_a == *span_b
        },
        (
            IrNode::RawHtml { source: source_a, span: span_a },
            IrNode::RawHtml { source: source_b, span: span_b },
        ) => {
            *source_a == *source_b
                && *span_a == *span_b
        },
        (
            IrNode::FunctionCall {
                name: name_a,
                positional_args: positional_args_a,
                named_args: named_args_a,
                lambda_parameters: lambda_parameters_a,
                body: body_a,
                span: span_a,
            },
            IrNode::FunctionCall {
                name: name_b,
                positional_args: positional_args_b,
                named_args: named_args_b,
                lambda_parameters: lambda_parameters_b,
                body: body_b,
                span: span_b,
            },
        ) => {
            *name_a == *name_b
                && same_values(positional_args_a, positional_args_b)
                && same_named_args(named_args_a, named_args_b)
                && (match (lambda_parameters_a, lambda_parameters_b) {
                    (Some(l), Some(r)) => same_parameters(l, r),
                    (None, None) => true,
                    _ => false,
                })
                && (match (body_a, body_b) {
                    (Some(l), Some(r)) => same_nodes(l, r),
                    (None, None) => true,
                    _ => false,
                })
                && *span_a == *span_b
        },
        (
            IrNode::ChainedFunctionCall {
                head: head_a,
                chain: chain_a,
                body: body_a,
                span: span_a,
            },
            IrNode::ChainedFunctionCall {
                head: head_b,
                chain: chain_b,
                body: body_b,
                span: span_b,
            },
        ) => {
            same_segment(head_a, head_b)
                && same_segments(chain_a, chain_b)
                && (match (body_a, body_b) {
                    (Some(l), Some(r)) => same_nodes(l, r),
                    (None, None) => true,
                    _ => false,
                })
                && *span_a == *span_b
        },
        (
            IrNode::FunctionDeclaration {
                name: name_a,
                parameters: parameters_a,
                body: body_a,
                span: span_a,
            },
            IrNode::FunctionDeclaration {
                name: name_b,
                parameters: parameters_b,
                body: body_b,
                span: span_b,
            },
        ) => {
            same_value(name_a, name_b)
                && same_parameters(parameters_a, parameters_b)
                && same_nodes(body_a, body_b)
                && *span_a == *span_b
        },
        (IrNode::ThematicBreak { span: span_a }, IrNode::ThematicBreak { span: span_b }) => {
            *span_a == *span_b
        },
        (
            IrNode::Math { content: content_a, span: span_a },
            IrNode::Math { content: content_b, span: span_b },
        ) => {
            *content_a == *content_b
                && *span_a == *span_b
        },
        (
            IrNode::TargetSpecificContent { content: content_a },
            IrNode::TargetSpecificContent { content: content_b },
        ) => {
            same_target_content(content_a, content_b)
        },
        (
            IrNode::Component { component: component_a },
            IrNode::Component { component: component_b },
        ) => {
            same_component(component_a, component_b)
        },
        _ => false,
    }
}

/// Whether two sequences of [`IrNode`] are structurally equal, element by element.
pub open spec fn nodes_equal(a: Seq<NodeView>, b: Seq<NodeView>) -> bool
    decreases a,
{
    &&& a.len() == b.len()
    &&& forall|i: int| 0 <= i < a.len() ==> node_equal(#[trigger] a[i], b[i])
}

/// Whether two sequences of [`IrNode`] are structurally equal, element by element.
pub fn same_nodes(a: &Vec<IrNode>, b: &Vec<IrNode>) -> (r: bool)
    ensures
        r == nodes_equal(ir::nodes_view(a@), ir::nodes_view(b@)),
    decreases a,
{
    if a.len() != b.len() {
        return false;
    }
    let mut i: usize = 0;
    while i < a.len()
        invariant
            0 <= i <= a@.len(),
            a@.len() == b@.len(),
            forall|j: int| 0 <= j < i ==> node_equal(
                #[trigger] ir::nodes_view(a@)[j],
                ir::nodes_view(b@)[j],
            ),
        decreases a@.len() - i,
    {
        if !same_node(&a[i], &b[i]) {
            assert(!node_equal(ir::nodes_view(a@)[i as int], ir::nodes_view(b@)[i as int]));
            return false;
        }
        i += 1;
    }
    true
}

/// Whether two values of [`IrInline`] are structurally equal.
pub open spec fn inline_equal(a: InlineView, b: InlineView) -> bool
    decreases a,
{
    match (a, b) {
        (
            InlineView::Text { content: content_a, span: span_a },
            InlineView::Text { content: content_b, span: span_b },
        ) => {
            &&& content_a == content_b
            &&& span_a == span_b
        },
        (
            InlineView::Whitespace { width: width_a, height: height_a, span: span_a },
            InlineView::Whitespace { width: width_b, height: height_b, span: span_b },
        ) => {
            &&& (match (width_a, width_b) {
                (Some(l), Some(r)) => size_equal(l, r),
                (None, None) => true,
                _ => false,
            })
            &&& (match (height_a, height_b) {
                (Some(l), Some(r)) => size_equal(l, r),
                (None, None) => true,
                _ => false,
            })
            &&& span_a == span_b
        },
        (
            InlineView::Emphasis { content: content_a, span: span_a },
            InlineView::Emphasis { content: content_b, span: span_b },
        ) => {
            &&& inlines_equal(content_a, content_b)
            &&& span_a == span_b
        },
        (
            InlineView::Strong { content: content_a, span: span_a },
            InlineView::Strong { content: content_b, span: span_b },
        ) => {
            &&& inlines_equal(content_a, content_b)
            &&& span_a == span_b
        },
        (
            InlineView::Strikethrough { content: content_a, span: span_a },
            InlineView::Strikethrough { content: content_b, span: span_b },
        ) => {
            &&& inlines_equal(content_a, content_b)
            &&& span_a == span_b
        },
        (
            InlineView::DirectiveCall {
                name: name_a,
                positional_args: positional_args_a,
                named_args: named_args_a,
                body: body_a,
                span: span_a,
            },
            InlineView::DirectiveCall {
                name: name_b,
                positional_args: positional_args_b,
                named_args: named_args_b,
                body: body_b,
                span: span_b,
            },
        ) => {
            &&& name_a == name_b
            &&& values_equal(positional_args_a, positional_args_b)
            &&& named_args_equal(named_args_a, named_args_b)
            &&& (match (body_a, body_b) {
                (Some(l), Some(r)) => inlines_equal(l, r),
                (None, None) => true,
                _ => false,
            })
            &&& span_a == span_b
        },
        (
            InlineView::ChainedDirectiveCall {
                head: head_a,
                chain: chain_a,
                body: body_a,
                span: span_a,
            },
            InlineView::ChainedDirectiveCall {
                head: head_b,
                chain: chain_b,
                body: body_b,
                span: span_b,
            },
        ) => {
            &&& segment_equal(head_a, head_b)
            &&& segments_equal(chain_a, chain_b)
            &&& (match (body_a, body_b) {
                (Some(l), Some(r)) => inlines_equal(l, r),
                (None, None) => true,
                _ => false,
            })
            &&& span_a == span_b
        },
        (
            InlineView::Link {
                content: content_a,
                destination: destination_a,
                title: title_a,
                span: span_a,
            },
            InlineView::Link {
                content: content_b,
                destination: destination_b,
                title: title_b,
                span: span_b,
            },
        ) => {
            &&& inlines_equal(content_a, content_b)
            &&& destination_a == destination_b
            &&& title_a == title_b
            &&& span_a == span_b
        },
        (
            InlineView::Image {
                content: content_a,
                destination: destination_a,
                title: title_a,
                span: span_a,
            },
            InlineView::Image {
                content: content_b,
                destination: destination_b,
                title: title_b,
                span: span_b,
            },
        ) => {
            &&& inlines_equal(content_a, content_b)
            &&& destination_a == destination_b
            &&& title_a == title_b
            &&& span_a == span_b
        },
        (
            InlineView::Code { content: content_a, span: span_a },
            InlineView::Code { content: content_b, span: span_b },
        ) => {
            &&& content_a == content_b
            &&& span_a == span_b
        },
        (InlineView::SoftBreak { span: span_a }, InlineView::SoftBreak { span: span_b }) => {
            &&& span_a == span_b
        },
        (InlineView::HardBreak { span: span_a }, InlineView::HardBreak { span: span_b }) => {
            &&& span_a == span_b
        },
        (
            InlineView::RawHtml { content: content_a, span: span_a },
            InlineView::RawHtml { content: content_b, span: span_b },
        ) => {
            &&& content_a == content_b
            &&& span_a == span_b
        },
        (
            InlineView::TargetSpecificContent { content: content_a },
            InlineView::TargetSpecificContent { content: content_b },
        ) => {
            &&& target_content_equal(content_a, content_b)
        },
        _ => false,
    }
}

/// Whether two values of [`IrInline`] are structurally equal.
pub fn same_inline(a: &IrInline, b: &IrInline) -> (r: bool)
    ensures
        r == inline_equal(ir::inline_view(*a), ir::inline_view(*b)),
    decreases a,
{
    match (a, b) {
        (
            IrInline::Text { content: content_a, span: span_a },
            IrInline::Text { content: content_b, span: span_b },
        ) => {
            *content_a == *content_b
                && *span_a == *span_b
        },
        (
            IrInline::Whitespace { width: width_a, height: height_a, span: span_a },
            IrInline::Whitespace { width: width_b, height: height_b, span: span_b },
        ) => {
            (match (width_a, width_b) {
                (Some(l), Some(r)) => same_size(l, r),
                (None, None) => true,
                _ => false,
            })
                && (match (height_a, height_b) {
                    (Some(l), Some(r)) => same_size(l, r),
                    (None, None) => true,
                    _ => false,
                })
                && *span_a == *span_b
        },
        (
            IrInline::Emphasis { content: content_a, span: span_a },
            IrInline::Emphasis { content: content_b, span: span_b },
        ) => {
            same_inlines(content_a, content_b)
                && *span_a == *span_b
        },
        (
            IrInline::Strong { content: content_a, span: span_a },
            IrInline::Strong { content: content_b, span: span_b },
        ) => {
            same_inlines(content_a, content_b)
                && *span_a == *span_b
        },
        (
            IrInline::Strikethrough { content: content_a, span: span_a },
            IrInline::Strikethrough { content: content_b, span: span_b },
        ) => {
            same_inlines(content_a, content_b)
                && *span_a == *span_b
        },
        (
            IrInline::DirectiveCall {
                name: name_a,
                positional_args: positional_args_a,
                named_args: named_args_a,
                body: body_a,
                span: span_a,
            },
            IrInline::DirectiveCall {
                name: name_b,
                positional_args: positional_args_b,
                named_args: named_args_b,
                body: body_b,
                span: span_b,
            },
        ) => {
            *name_a == *name_b
                && same_values(positional_args_a, positional_args_b)
                && same_named_args(named_args_a, named_args_b)
                && (match (body_a, body_b) {
                    (Some(l), Some(r)) => same_inlines(l, r),
                    (None, None) => true,
                    _ => false,
                })
                && *span_a == *span_b
        },
        (
            IrInline::ChainedDirectiveCall {
                head: head_a,
                chain: chain_a,
                body: body_a,
                span: span_a,
            },
            IrInline::ChainedDirectiveCall {
                head: head_b,
                chain: chain_b,
                body: body_b,
                span: span_b,
            },
        ) => {
            same_segment(head_a, head_b)
                && same_segments(chain_a, chain_b)
                && (match (body_a, body_b) {
                    (Some(l), Some(r)) => same_inlines(l, r),
                    (None, None) => true,
                    _ => false,
                })
                && *span_a == *span_b
        },
        (
            IrInline::Link {
                content: content_a,
                destination: destination_a,
                title: title_a,
                span: span_a,
            },
            IrInline::Link {
                content: content_b,
                destination: destination_b,
                title: title_b,
                span: span_b,
            },
        ) => {
            same_inlines(content_a, content_b)
                && *destination_a == *destination_b
                && (match (title_a, title_b) {
                    (Some(l), Some(r)) => *l == *r,
                    (None, None) => true,
                    _ => false,
                })
                && *span_a == *span_b
        },
        (
            IrInline::Image {
                content: content_a,
                destination: destination_a,
                title: title_a,
                span: span_a,
            },
            IrInline::Image {
                content: content_b,
                destination: destination_b,
                title: title_b,
                span: span_b,
            },
        ) => {
            same_inlines(content_a, content_b)
                && *destination_a == *destination_b
                && (match (title_a, title_b) {
                    (Some(l), Some(r)) => *l == *r,
                    (None, None) => true,
                    _ => false,
                })
                && *span_a == *span_b
        },
        (
            IrInline::Code { content: content_a, span: span_a },
            IrInline::Code { content: content_b, span: span_b },
        ) => {
            *content_a == *content_b
                && *span_a == *span_b
        },
        (IrInline::SoftBreak { span: span_a }, IrInline::SoftBreak { span: span_b }) => {
            *span_a == *span_b
        },
        (IrInline::HardBreak { span: span_a }, IrInline::HardBreak { span: span_b }) => {
            *span_a == *span_b
        },
        (
            IrInline::RawHtml { content: content_a, span: span_a },
            IrInline::RawHtml { content: content_b, span: span_b },
        ) => {
            *content_a == *content_b
                && *span_a == *span_b
        },
        (
            IrInline::TargetSpecificContent { content: content_a },
            IrInline::TargetSpecificContent { content: content_b },
        ) => {
            same_target_content(content_a, content_b)
        },
        _ => false,
    }
}

/// Whether two sequences of [`IrInline`] are structurally equal, element by element.
pub open spec fn inlines_equal(a: Seq<InlineView>, b: Seq<InlineView>) -> bool
    decreases a,
{
    &&& a.len() == b.len()
    &&& forall|i: int| 0 <= i < a.len() ==> inline_equal(#[trigger] a[i], b[i])
}

/// Whether two sequences of [`IrInline`] are structurally equal, element by element.
pub fn same_inlines(a: &Vec<IrInline>, b: &Vec<IrInline>) -> (r: bool)
    ensures
        r == inlines_equal(ir::inlines_view(a@), ir::inlines_view(b@)),
    decreases a,
{
    if a.len() != b.len() {
        return false;
    }
    let mut i: usize = 0;
    while i < a.len()
        invariant
            0 <= i <= a@.len(),
            a@.len() == b@.len(),
            forall|j: int| 0 <= j < i ==> inline_equal(
                #[trigger] ir::inlines_view(a@)[j],
                ir::inlines_view(b@)[j],
            ),
        decreases a@.len() - i,
    {
        if !same_inline(&a[i], &b[i]) {
            assert(!inline_equal(ir::inlines_view(a@)[i as int], ir::inlines_view(b@)[i as int]));
            return false;
        }
        i += 1;
    }
    true
}

/// Whether two values of [`IrValue`] are structurally equal.
pub open spec fn value_equal(a: ValueView, b: ValueView) -> bool
    decreases a,
{
    match (a, b) {
        (ValueView::String(x), ValueView::String(y)) => x == y,
        (ValueView::Number(x), ValueView::Number(y)) => number::number_equal(x, y),
        (ValueView::Boolean(x), ValueView::Boolean(y)) => x == y,
        (ValueView::Identifier(x), ValueView::Identifier(y)) => x == y,
        (ValueView::Nothing, ValueView::Nothing) => true,
        (ValueView::Content(x), ValueView::Content(y)) => nodes_equal(x, y),
        (ValueView::Range(x), ValueView::Range(y)) => x == y,
        (ValueView::Collection(x), ValueView::Collection(y)) => values_equal(x, y),
        (ValueView::Pair(x), ValueView::Pair(y)) => pair_equal(x, y),
        (ValueView::Dictionary(x), ValueView::Dictionary(y)) => dictionary_equal(x, y),
        (ValueView::Size(x), ValueView::Size(y)) => size_equal(x, y),
        (ValueView::Color(x), ValueView::Color(y)) => x == y,
        (ValueView::Enum(x), ValueView::Enum(y)) => x == y,
        (ValueView::Component(x), ValueView::Component(y)) => component_equal(x, y),
        (ValueView::Callable(x), ValueView::Callable(y)) => callable_equal(x, y),
        _ => false,
    }
}

/// Whether two values of [`IrValue`] are structurally equal.
pub fn same_value(a: &IrValue, b: &IrValue) -> (r: bool)
    ensures
        r == value_equal(ir::value_view(*a), ir::value_view(*b)),
    decreases a,
{
    match (a, b) {
        (IrValue::String(x), IrValue::String(y)) => *x == *y,
        (IrValue::Number(x), IrValue::Number(y)) => x.ieee_equal(*y),
        (IrValue::Boolean(x), IrValue::Boolean(y)) => *x == *y,
        (IrValue::Identifier(x), IrValue::Identifier(y)) => *x == *y,
        (IrValue::Nothing, IrValue::Nothing) => true,
        (IrValue::Content(x), IrValue::Content(y)) => same_nodes(x, y),
        (IrValue::Range(x), IrValue::Range(y)) => *x == *y,
        (IrValue::Collection(x), IrValue::Collection(y)) => same_values(x, y),
        (IrValue::Pair(x), IrValue::Pair(y)) => same_pair(x, y),
        (IrValue::Dictionary(x), IrValue::Dictionary(y)) => same_dictionary(x, y),
        (IrValue::Size(x), IrValue::Size(y)) => same_size(x, y),
        (IrValue::Color(x), IrValue::Color(y)) => *x == *y,
        (IrValue::Enum(x), IrValue::Enum(y)) => *x == *y,
        (IrValue::Component(x), IrValue::Component(y)) => same_component(x, y),
        (IrValue::Callable(x), IrValue::Callable(y)) => same_callable(x, y),
        _ => false,
    }
}

/// Whether two sequences of [`IrValue`] are structurally equal, element by element.
pub open spec fn values_equal(a: Seq<ValueView>, b: Seq<ValueView>) -> bool
    decreases a,
{
    &&& a.len() == b.len()
    &&& forall|i: int| 0 <= i < a.len() ==> value_equal(#[trigger] a[i], b[i])
}

/// Whether two sequences of [`IrValue`] are structurally equal, element by element.
pub fn same_values(a: &Vec<IrValue>, b: &Vec<IrValue>) -> (r: bool)
    ensures
        r == values_equal(ir::values_view(a@), ir::values_view(b@)),
    decreases a,
{
    if a.len() != b.len() {
        return false;
    }
    let mut i: usize = 0;
    while i < a.len()
        invariant
            0 <= i <= a@.len(),
            a@.len() == b@.len(),
            forall|j: int| 0 <= j < i ==> value_equal(
                #[trigger] ir::values_view(a@)[j],
                ir::values_view(b@)[j],
            ),
        decreases a@.len() - i,
    {
        if !same_value(&a[i], &b[i]) {
            assert(!value_equal(ir::values_view(a@)[i as int], ir::values_view(b@)[i as int]));
            return false;
        }
        i += 1;
    }
    true
}

/// Whether two values of [`IrPair`] are structurally equal.
pub open spec fn pair_equal(a: PairView, b: PairView) -> bool
    decreases a,
{
    &&& value_equal(*a.first, *b.first)
    &&& value_equal(*a.second, *b.second)
    &&& a.span == b.span
}

/// Whether two values of [`IrPair`] are structurally equal.
pub fn same_pair(a: &IrPair, b: &IrPair) -> (r: bool)
    ensures
        r == pair_equal(ir::pair_view(*a), ir::pair_view(*b)),
    decreases a,
{
    same_value(&a.first, &b.first)
        && same_value(&a.second, &b.second)
        && a.span == b.span
}

/// Whether two sequences of [`IrPair`] are structurally equal, element by element.
pub open spec fn pairs_equal(a: Seq<PairView>, b: Seq<PairView>) -> bool
    decreases a,
{
    &&& a.len() == b.len()
    &&& forall|i: int| 0 <= i < a.len() ==> pair_equal(#[trigger] a[i], b[i])
}

/// Whether two sequences of [`IrPair`] are structurally equal, element by element.
pub fn same_pairs(a: &Vec<IrPair>, b: &Vec<IrPair>) -> (r: bool)
    ensures
        r == pairs_equal(ir::pairs_view(a@), ir::pairs_view(b@)),
    decreases a,
{
    if a.len() != b.len() {
        return false;
    }
    let mut i: usize = 0;
    while i < a.len()
        invariant
            0 <= i <= a@.len(),
            a@.len() == b@.len(),
            forall|j: int| 0 <= j < i ==> pair_equal(
                #[trigger] ir::pairs_view(a@)[j],
                ir::pairs_view(b@)[j],
            ),
        decreases a@.len() - i,
    {
        if !same_pair(&a[i], &b[i]) {
            assert(!pair_equal(ir::pairs_view(a@)[i as int], ir::pairs_view(b@)[i as int]));
            return false;
        }
        i += 1;
    }
    true
}

/// Whether two values of [`IrDictionary`] are structurally equal.
pub open spec fn dictionary_equal(a: DictionaryView, b: DictionaryView) -> bool
    decreases a,
{
    &&& pairs_equal(a.entries, b.entries)
    &&& a.span == b.span
}

/// Whether two values of [`IrDictionary`] are structurally equal.
pub fn same_dictionary(a: &IrDictionary, b: &IrDictionary) -> (r: bool)
    ensures
        r == dictionary_equal(ir::dictionary_view(*a), ir::dictionary_view(*b)),
    decreases a,
{
    same_pairs(&a.entries, &b.entries)
        && a.span == b.span
}

/// Whether two values of [`IrCallable`] are structurally equal.
pub open spec fn callable_equal(a: CallableView, b: CallableView) -> bool
    decreases a,
{
    &&& (match (a.parameters, b.parameters) {
        (Some(l), Some(r)) => parameters_equal(l, r),
        (None, None) => true,
        _ => false,
    })
    &&& nodes_equal(a.body, b.body)
    &&& a.span == b.span
    &&& (match (a.capture, b.capture) {
        (Some(l), Some(r)) => capture_equal(*l, *r),
        (None, None) => true,
        _ => false,
    })
}

/// Whether two values of [`IrCallable`] are structurally equal.
pub fn same_callable(a: &IrCallable, b: &IrCallable) -> (r: bool)
    ensures
        r == callable_equal(ir::callable_view(*a), ir::callable_view(*b)),
    decreases a,
{
    (match (&a.parameters, &b.parameters) {
        (Some(l), Some(r)) => same_parameters(l, r),
        (None, None) => true,
        _ => false,
    })
        && same_nodes(&a.body, &b.body)
        && a.span == b.span
        && (match (&a.capture, &b.capture) {
            (Some(l), Some(r)) => same_capture(l, r),
            (None, None) => true,
            _ => false,
        })
}

/// Whether two values of [`IrCallableCapture`] are structurally equal.
pub open spec fn capture_equal(a: CaptureView, b: CaptureView) -> bool
    decreases a,
{
    &&& captured_variables_equal(a.variables, b.variables)
    &&& captured_functions_equal(a.functions, b.functions)
}

/// Whether two values of [`IrCallableCapture`] are structurally equal.
pub fn same_capture(a: &IrCallableCapture, b: &IrCallableCapture) -> (r: bool)
    ensures
        r == capture_equal(ir::capture_view(*a), ir::capture_view(*b)),
    decreases a,
{
    same_captured_variables(&a.variables, &b.variables)
        && same_captured_functions(&a.functions, &b.functions)
}

/// Whether two values of [`IrCapturedVariable`] are structurally equal.
pub open spec fn captured_variable_equal(a: CapturedVariableView, b: CapturedVariableView) -> bool
    decreases a,
{
    &&& a.name == b.name
    &&& value_equal(a.value, b.value)
}

/// Whether two values of [`IrCapturedVariable`] are structurally equal.
pub fn same_captured_variable(a: &IrCapturedVariable, b: &IrCapturedVariable) -> (r: bool)
    ensures
        r == captured_variable_equal(
            ir::captured_variable_view(*a),
            ir::captured_variable_view(*b),
        ),
    decreases a,
{
    a.name == b.name
        && same_value(&a.value, &b.value)
}

/// Whether two sequences of [`IrCapturedVariable`] are structurally equal, element by element.
pub open spec fn captured_variables_equal(
    a: Seq<CapturedVariableView>,
    b: Seq<CapturedVariableView>,
) -> bool
    decreases a,
{
    &&& a.len() == b.len()
    &&& forall|i: int| 0 <= i < a.len() ==> captured_variable_equal(#[trigger] a[i], b[i])
}

/// Whether two sequences of [`IrCapturedVariable`] are structurally equal, element by element.
pub fn same_captured_variables(
    a: &Vec<IrCapturedVariable>,
    b: &Vec<IrCapturedVariable>,
) -> (r: bool)
    ensures
        r == captured_variables_equal(
            ir::captured_variables_view(a@),
            ir::captured_variables_view(b@),
        ),
    decreases a,
{
    if a.len() != b.len() {
        return false;
    }
    let mut i: usize = 0;
    while i < a.len()
        invariant
            0 <= i <= a@.len(),
            a@.len() == b@.len(),
            forall|j: int| 0 <= j < i ==> captured_variable_equal(
                #[trigger] ir::captured_variables_view(a@)[j],
                ir::captured_variables_view(b@)[j],
            ),
        decreases a@.len() - i,
    {
        if !same_captured_variable(&a[i], &b[i]) {
            assert(!captured_variable_equal(
                ir::captured_variables_view(a@)[i as int],
                ir::captured_variables_view(b@)[i as int],
            ));
            return false;
        }
        i += 1;
    }
    true
}

/// Whether two values of [`IrCapturedFunction`] are structurally equal.
pub open spec fn captured_function_equal(a: CapturedFunctionView, b: CapturedFunctionView) -> bool
    decreases a,
{
    &&& a.name == b.name
    &&& callable_equal(a.callable, b.callable)
}

/// Whether two values of [`IrCapturedFunction`] are structurally equal.
pub fn same_captured_function(a: &IrCapturedFunction, b: &IrCapturedFunction) -> (r: bool)
    ensures
        r == captured_function_equal(
            ir::captured_function_view(*a),
            ir::captured_function_view(*b),
        ),
    decreases a,
{
    a.name == b.name
        && same_callable(&a.callable, &b.callable)
}

/// Whether two sequences of [`IrCapturedFunction`] are structurally equal, element by element.
pub open spec fn captured_functions_equal(
    a: Seq<CapturedFunctionView>,
    b: Seq<CapturedFunctionView>,
) -> bool
    decreases a,
{
    &&& a.len() == b.len()
    &&& forall|i: int| 0 <= i < a.len() ==> captured_function_equal(#[trigger] a[i], b[i])
}

/// Whether two sequences of [`IrCapturedFunction`] are structurally equal, element by element.
pub fn same_captured_functions(
    a: &Vec<IrCapturedFunction>,
    b: &Vec<IrCapturedFunction>,
) -> (r: bool)
    ensures
        r == captured_functions_equal(
            ir::captured_functions_view(a@),
            ir::captured_functions_view(b@),
        ),
    decreases a,
{
    if a.len() != b.len() {
        return false;
    }
    let mut i: usize = 0;
    while i < a.len()
        invariant
            0 <= i <= a@.len(),
            a@.len() == b@.len(),
            forall|j: int| 0 <= j < i ==> captured_function_equal(
                #[trigger] ir::captured_functions_view(a@)[j],
                ir::captured_functions_view(b@)[j],
            ),
        decreases a@.len() - i,
    {
        if !same_captured_function(&a[i], &b[i]) {
            assert(!captured_function_equal(
                ir::captured_functions_view(a@)[i as int],
                ir::captured_functions_view(b@)[i as int],
            ));
            return false;
        }
        i += 1;
    }
    true
}

/// Whether two values of [`IrParameter`] are structurally equal.
pub open spec fn parameter_equal(a: ParameterView, b: ParameterView) -> bool
    decreases a,
{
    &&& a.name == b.name
    &&& a.name_span == b.name_span
    &&& a.span == b.span
    &&& a.optional == b.optional
}

/// Whether two values of [`IrParameter`] are structurally equal.
pub fn same_parameter(a: &IrParameter, b: &IrParameter) -> (r: bool)
    ensures
        r == parameter_equal(ir::parameter_view(*a), ir::parameter_view(*b)),
    decreases a,
{
    a.name == b.name
        && a.name_span == b.name_span
        && a.span == b.span
        && a.optional == b.optional
}

/// Whether two sequences of [`IrParameter`] are structurally equal, element by element.
pub open spec fn parameters_equal(a: Seq<ParameterView>, b: Seq<ParameterView>) -> bool
    decreases a,
{
    &&& a.len() == b.len()
    &&& forall|i: int| 0 <= i < a.len() ==> parameter_equal(#[trigger] a[i], b[i])
}

/// Whether two sequences of [`IrParameter`] are structurally equal, element by element.
pub fn same_parameters(a: &Vec<IrParameter>, b: &Vec<IrParameter>) -> (r: bool)
    ensures
        r == parameters_equal(ir::parameters_view(a@), ir::parameters_view(b@)),
    decreases a,
{
    if a.len() != b.len() {
        return false;
    }
    let mut i: usize = 0;
    while i < a.len()
        invariant
            0 <= i <= a@.len(),
            a@.len() == b@.len(),
            forall|j: int| 0 <= j < i ==> parameter_equal(
                #[trigger] ir::parameters_view(a@)[j],
                ir::parameters_view(b@)[j],
            ),
        decreases a@.len() - i,
    {
        if !same_parameter(&a[i], &b[i]) {
            assert(!parameter_equal(
                ir::parameters_view(a@)[i as int],
                ir::parameters_view(b@)[i as int],
            ));
            return false;
        }
        i += 1;
    }
    true
}

/// Whether two values of [`IrNamedArg`] are structurally equal.
pub open spec fn named_arg_equal(a: NamedArgView, b: NamedArgView) -> bool
    decreases a,
{
    &&& a.name == b.name
    &&& a.name_span == b.name_span
    &&& value_equal(a.value, b.value)
    &&& a.span == b.span
}

/// Whether two values of [`IrNamedArg`] are structurally equal.
pub fn same_named_arg(a: &IrNamedArg, b: &IrNamedArg) -> (r: bool)
    ensures
        r == named_arg_equal(ir::named_arg_view(*a), ir::named_arg_view(*b)),
    decreases a,
{
    a.name == b.name
        && a.name_span == b.name_span
        && same_value(&a.value, &b.value)
        && a.span == b.span
}

/// Whether two sequences of [`IrNamedArg`] are structurally equal, element by element.
pub open spec fn named_args_equal(a: Seq<NamedArgView>, b: Seq<NamedArgView>) -> bool
    decreases a,
{
    &&& a.len() == b.len()
    &&& forall|i: int| 0 <= i < a.len() ==> named_arg_equal(#[trigger] a[i], b[i])
}

/// Whether two sequences of [`IrNamedArg`] are structurally equal, element by element.
pub fn same_named_args(a: &Vec<IrNamedArg>, b: &Vec<IrNamedArg>) -> (r: bool)
    ensures
        r == named_args_equal(ir::named_args_view(a@), ir::named_args_view(b@)),
    decreases a,
{
    if a.len() != b.len() {
        return false;
    }
    let mut i: usize = 0;
    while i < a.len()
        invariant
            0 <= i <= a@.len(),
            a@.len() == b@.len(),
            forall|j: int| 0 <= j < i ==> named_arg_equal(
                #[trigger] ir::named_args_view(a@)[j],
                ir::named_args_view(b@)[j],
            ),
        decreases a@.len() - i,
    {
        if !same_named_arg(&a[i], &b[i]) {
            assert(!named_arg_equal(
                ir::named_args_view(a@)[i as int],
                ir::named_args_view(b@)[i as int],
            ));
            return false;
        }
        i += 1;
    }
    true
}

/// Whether two values of [`IrCallSegment`] are structurally equal.
pub open spec fn segment_equal(a: CallSegmentView, b: CallSegmentView) -> bool
    decreases a,
{
    &&& a.name == b.name
    &&& a.name_span == b.name_span
    &&& values_equal(a.positional_args, b.positional_args)
    &&& named_args_equal(a.named_args, b.named_args)
    &&& a.span == b.span
}

/// Whether two values of [`IrCallSegment`] are structurally equal.
pub fn same_segment(a: &IrCallSegment, b: &IrCallSegment) -> (r: bool)
    ensures
        r == segment_equal(ir::segment_view(*a), ir::segment_view(*b)),
    decreases a,
{
    a.name == b.name
        && a.name_span == b.name_span
        && same_values(&a.positional_args, &b.positional_args)
        && same_named_args(&a.named_args, &b.named_args)
        && a.span == b.span
}

/// Whether two sequences of [`IrCallSegment`] are structurally equal, element by element.
pub open spec fn segments_equal(a: Seq<CallSegmentView>, b: Seq<CallSegmentView>) -> bool
    decreases a,
{
    &&& a.len() == b.len()
    &&& forall|i: int| 0 <= i < a.len() ==> segment_equal(#[trigger] a[i], b[i])
}

/// Whether two sequences of [`IrCallSegment`] are structurally equal, element by element.
pub fn same_segments(a: &Vec<IrCallSegment>, b: &Vec<IrCallSegment>) -> (r: bool)
    ensures
        r == segments_equal(ir::segments_view(a@), ir::segments_view(b@)),
    decreases a,
{
    if a.len() != b.len() {
        return false;
    }
    let mut i: usize = 0;
    while i < a.len()
        invariant
            0 <= i <= a@.len(),
            a@.len() == b@.len(),
            forall|j: int| 0 <= j < i ==> segment_equal(
                #[trigger] ir::segments_view(a@)[j],
                ir::segments_view(b@)[j],
            ),
        decreases a@.len() - i,
    {
        if !same_segment(&a[i], &b[i]) {
            assert(!segment_equal(
                ir::segments_view(a@)[i as int],
                ir::segments_view(b@)[i as int],
            ));
            return false;
        }
        i += 1;
    }
    true
}

/// Whether two values of [`IrListItem`] are structurally equal.
pub open spec fn item_equal(a: ListItemView, b: ListItemView) -> bool
    decreases a,
{
    &&& nodes_equal(a.nodes, b.nodes)
    &&& a.task == b.task
    &&& a.span == b.span
}

/// Whether two values of [`IrListItem`] are structurally equal.
pub fn same_item(a: &IrListItem, b: &IrListItem) -> (r: bool)
    ensures
        r == item_equal(ir::item_view(*a), ir::item_view(*b)),
    decreases a,
{
    same_nodes(&a.nodes, &b.nodes)
        && a.task == b.task
        && a.span == b.span
}

/// Whether two sequences of [`IrListItem`] are structurally equal, element by element.
pub open spec fn items_equal(a: Seq<ListItemView>, b: Seq<ListItemView>) -> bool
    decreases a,
{
    &&& a.len() == b.len()
    &&& forall|i: int| 0 <= i < a.len() ==> item_equal(#[trigger] a[i], b[i])
}

/// Whether two sequences of [`IrListItem`] are structurally equal, element by element.
pub fn same_items(a: &Vec<IrListItem>, b: &Vec<IrListItem>) -> (r: bool)
    ensures
        r == items_equal(ir::items_view(a@), ir::items_view(b@)),
    decreases a,
{
    if a.len() != b.len() {
        return false;
    }
    let mut i: usize = 0;
    while i < a.len()
        invariant
            0 <= i <= a@.len(),
            a@.len() == b@.len(),
            forall|j: int| 0 <= j < i ==> item_equal(
                #[trigger] ir::items_view(a@)[j],
                ir::items_view(b@)[j],
            ),
        decreases a@.len() - i,
    {
        if !same_item(&a[i], &b[i]) {
            assert(!item_equal(ir::items_view(a@)[i as int], ir::items_view(b@)[i as int]));
            return false;
        }
        i += 1;
    }
    true
}

/// Whether two values of [`IrTableRow`] are structurally equal.
pub open spec fn row_equal(a: TableRowView, b: TableRowView) -> bool
    decreases a,
{
    &&& cells_equal(a.cells, b.cells)
    &&& a.span == b.span
}

/// Whether two values of [`IrTableRow`] are structurally equal.
pub fn same_row(a: &IrTableRow, b: &IrTableRow) -> (r: bool)
    ensures
        r == row_equal(ir::row_view(*a), ir::row_view(*b)),
    decreases a,
{
    same_cells(&a.cells, &b.cells)
        && a.span == b.span
}

/// Whether two sequences of [`IrTableRow`] are structurally equal, element by element.
pub open spec fn rows_equal(a: Seq<TableRowView>, b: Seq<TableRowView>) -> bool
    decreases a,
{
    &&& a.len() == b.len()
    &&& forall|i: int| 0 <= i < a.len() ==> row_equal(#[trigger] a[i], b[i])
}

/// Whether two sequences of [`IrTableRow`] are structurally equal, element by element.
pub fn same_rows(a: &Vec<IrTableRow>, b: &Vec<IrTableRow>) -> (r: bool)
    ensures
        r == rows_equal(ir::rows_view(a@), ir::rows_view(b@)),
    decreases a,
{
    if a.len() != b.len() {
        return false;
    }
    let mut i: usize = 0;
    while i < a.len()
        invariant
            0 <= i <= a@.len(),
            a@.len() == b@.len(),
            forall|j: int| 0 <= j < i ==> row_equal(
                #[trigger] ir::rows_view(a@)[j],
                ir::rows_view(b@)[j],
            ),
        decreases a@.len() - i,
    {
        if !same_row(&a[i], &b[i]) {
            assert(!row_equal(ir::rows_view(a@)[i as int], ir::rows_view(b@)[i as int]));
            return false;
        }
        i += 1;
    }
    true
}

/// Whether two values of [`IrTableCell`] are structurally equal.
pub open spec fn cell_equal(a: TableCellView, b: TableCellView) -> bool
    decreases a,
{
    &&& inlines_equal(a.content, b.content)
    &&& a.alignment == b.alignment
    &&& a.span == b.span
}

/// Whether two values of [`IrTableCell`] are structurally equal.
pub fn same_cell(a: &IrTableCell, b: &IrTableCell) -> (r: bool)
    ensures
        r == cell_equal(ir::cell_view(*a), ir::cell_view(*b)),
    decreases a,
{
    same_inlines(&a.content, &b.content)
        && a.alignment == b.alignment
        && a.span == b.span
}

/// Whether two sequences of [`IrTableCell`] are structurally equal, element by element.
pub open spec fn cells_equal(a: Seq<TableCellView>, b: Seq<TableCellView>) -> bool
    decreases a,
{
    &&& a.len() == b.len()
    &&& forall|i: int| 0 <= i < a.len() ==> cell_equal(#[trigger] a[i], b[i])
}

/// Whether two sequences of [`IrTableCell`] are structurally equal, element by element.
pub fn same_cells(a: &Vec<IrTableCell>, b: &Vec<IrTableCell>) -> (r: bool)
    ensures
        r == cells_equal(ir::cells_view(a@), ir::cells_view(b@)),
    decreases a,
{
    if a.len() != b.len() {
        return false;
    }
    let mut i: usize = 0;
    while i < a.len()
        invariant
            0 <= i <= a@.len(),
            a@.len() == b@.len(),
            forall|j: int| 0 <= j < i ==> cell_equal(
                #[trigger] ir::cells_view(a@)[j],
                ir::cells_view(b@)[j],
            ),
        decreases a@.len() - i,
    {
        if !same_cell(&a[i], &b[i]) {
            assert(!cell_equal(ir::cells_view(a@)[i as int], ir::cells_view(b@)[i as int]));
            return false;
        }
        i += 1;
    }
    true
}

/// Whether two values of [`IrComponent`] are structurally equal.
pub open spec fn component_equal(a: ComponentView, b: ComponentView) -> bool
    decreases a,
{
    match (a, b) {
        (ComponentView::Stacked(x), ComponentView::Stacked(y)) => stacked_equal(x, y),
        (ComponentView::Container(x), ComponentView::Container(y)) => container_equal(x, y),
        (ComponentView::Landscape(x), ComponentView::Landscape(y)) => landscape_equal(x, y),
        _ => false,
    }
}

/// Whether two values of [`IrComponent`] are structurally equal.
pub fn same_component(a: &IrComponent, b: &IrComponent) -> (r: bool)
    ensures
        r == component_equal(ir::component_view(*a), ir::component_view(*b)),
    decreases a,
{
    match (a, b) {
        (IrComponent::Stacked(x), IrComponent::Stacked(y)) => same_stacked(x, y),
        (IrComponent::Container(x), IrComponent::Container(y)) => same_container(x, y),
        (IrComponent::Landscape(x), IrComponent::Landscape(y)) => same_landscape(x, y),
        _ => false,
    }
}

/// Whether two values of [`IrStackedComponent`] are structurally equal.
pub open spec fn stacked_equal(a: StackedView, b: StackedView) -> bool
    decreases a,
{
    &&& a.layout == b.layout
    &&& a.main_axis_alignment == b.main_axis_alignment
    &&& a.cross_axis_alignment == b.cross_axis_alignment
    &&& (match (a.row_gap, b.row_gap) {
        (Some(l), Some(r)) => size_equal(l, r),
        (None, None) => true,
        _ => false,
    })
    &&& (match (a.column_gap, b.column_gap) {
        (Some(l), Some(r)) => size_equal(l, r),
        (None, None) => true,
        _ => false,
    })
    &&& nodes_equal(a.children, b.children)
    &&& a.span == b.span
}

/// Whether two values of [`IrStackedComponent`] are structurally equal.
pub fn same_stacked(a: &IrStackedComponent, b: &IrStackedComponent) -> (r: bool)
    ensures
        r == stacked_equal(ir::stacked_view(*a), ir::stacked_view(*b)),
    decreases a,
{
    a.layout == b.layout
        && a.main_axis_alignment == b.main_axis_alignment
        && a.cross_axis_alignment == b.cross_axis_alignment
        && (match (&a.row_gap, &b.row_gap) {
            (Some(l), Some(r)) => same_size(l, r),
            (None, None) => true,
            _ => false,
        })
        && (match (&a.column_gap, &b.column_gap) {
            (Some(l), Some(r)) => same_size(l, r),
            (None, None) => true,
            _ => false,
        })
        && same_nodes(&a.children, &b.children)
        && a.span == b.span
}

/// Whether two values of [`IrContainerComponent`] are structurally equal.
pub open spec fn container_equal(a: ContainerView, b: ContainerView) -> bool
    decreases a,
{
    &&& (match (a.width, b.width) {
        (Some(l), Some(r)) => size_equal(l, r),
        (None, None) => true,
        _ => false,
    })
    &&& (match (a.height, b.height) {
        (Some(l), Some(r)) => size_equal(l, r),
        (None, None) => true,
        _ => false,
    })
    &&& a.full_width == b.full_width
    &&& a.alignment == b.alignment
    &&& nodes_equal(a.children, b.children)
    &&& a.span == b.span
}

/// Whether two values of [`IrContainerComponent`] are structurally equal.
pub fn same_container(a: &IrContainerComponent, b: &IrContainerComponent) -> (r: bool)
    ensures
        r == container_equal(ir::container_view(*a), ir::container_view(*b)),
    decreases a,
{
    (match (&a.width, &b.width) {
        (Some(l), Some(r)) => same_size(l, r),
        (None, None) => true,
        _ => false,
    })
        && (match (&a.height, &b.height) {
            (Some(l), Some(r)) => same_size(l, r),
            (None, None) => true,
            _ => false,
        })
        && a.full_width == b.full_width
        && a.alignment == b.alignment
        && same_nodes(&a.children, &b.children)
        && a.span == b.span
}

/// Whether two values of [`IrLandscapeComponent`] are structurally equal.
pub open spec fn landscape_equal(a: LandscapeView, b: LandscapeView) -> bool
    decreases a,
{
    &&& nodes_equal(a.children, b.children)
    &&& a.span == b.span
}

/// Whether two values of [`IrLandscapeComponent`] are structurally equal.
pub fn same_landscape(a: &IrLandscapeComponent, b: &IrLandscapeComponent) -> (r: bool)
    ensures
        r == landscape_equal(ir::landscape_view(*a), ir::landscape_view(*b)),
    decreases a,
{
    same_nodes(&a.children, &b.children)
        && a.span == b.span
}

} // verus!
