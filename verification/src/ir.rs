//! Documents as the evaluator sees them.
//!
//! Each type that owns text or sequences has a view: the same shape over
//! mathematical sequences. Types that are plain data are their own view.

use vstd::prelude::*;

use crate::number::Number;

verus! {

/// Identifies a source text.
#[derive(Debug, Clone, Copy, PartialEq, Eq, Structural)]
pub struct SourceId(pub u32);

/// A range of bytes of a source text.
#[derive(Debug, Clone, Copy, PartialEq, Eq, Structural)]
pub struct SourceSpan {
    pub source_id: SourceId,
    pub start: usize,
    pub end: usize,
}

impl SourceSpan {
    /// The range `start..end` of the source.
    pub fn new(source_id: SourceId, start: usize, end: usize) -> (r: SourceSpan)
        ensures
            r == (SourceSpan { source_id, start, end }),
    {
        SourceSpan { source_id, start, end }
    }
}

/// The output that target-specific content is written for.
#[derive(Debug, Clone, Copy, PartialEq, Eq, Structural)]
pub enum NativeTarget {
    Html,
    Markdown,
}

/// The state of a task list item.
#[derive(Debug, Clone, Copy, PartialEq, Eq, Structural)]
pub enum IrTaskStatus {
    Pending,
    Completed,
}

/// The alignment of a table cell.
#[derive(Debug, Clone, Copy, PartialEq, Eq, Structural)]
pub enum IrTableAlignment {
    Unaligned,
    Left,
    Center,
    Right,
}

/// The unit of a size.
#[derive(Debug, Clone, Copy, PartialEq, Eq, Structural)]
pub enum IrSizeUnit {
    Px,
    Pt,
    Cm,
    Mm,
    In,
    Percentage,
}

/// A length with its unit.
#[derive(Debug, Clone, Copy, PartialEq, Eq, Structural)]
pub struct IrSize {
    pub value: Number,
    pub unit: IrSizeUnit,
}

/// A colour.
#[derive(Debug, Clone, Copy, PartialEq, Eq, Structural)]
pub struct IrColor {
    pub red: u8,
    pub green: u8,
    pub blue: u8,
    pub alpha: u8,
}

/// How children are placed along the main axis.
#[derive(Debug, Clone, Copy, PartialEq, Eq, Structural)]
pub enum IrMainAxisAlignment {
    Start,
    Center,
    End,
    SpaceBetween,
    SpaceAround,
    SpaceEvenly,
}

/// How children are placed along the cross axis.
#[derive(Debug, Clone, Copy, PartialEq, Eq, Structural)]
pub enum IrCrossAxisAlignment {
    Start,
    Center,
    End,
    Stretch,
}

/// How a container places its content.
#[derive(Debug, Clone, Copy, PartialEq, Eq, Structural)]
pub enum IrContainerAlignment {
    Start,
    Center,
    End,
}

/// The kind of document that is written.
#[derive(Debug, Clone, Copy, PartialEq, Eq, Structural)]
pub enum IrDocumentType {
    Plain,
    Paged,
    Slides,
    Docs,
}

/// A value of a closed enumeration.
#[derive(Debug, Clone, Copy, PartialEq, Eq, Structural)]
pub enum IrEnumValue {
    StackedMainAxisAlignment(IrMainAxisAlignment),
    StackedCrossAxisAlignment(IrCrossAxisAlignment),
    ContainerAlignment(IrContainerAlignment),
    DocumentType(IrDocumentType),
}

/// How a stacked component places its children. A grid has at least one column.
#[derive(Debug, Clone, Copy, PartialEq, Eq, Structural)]
pub enum IrStackedLayout {
    Row,
    Column,
    Grid { columns: u32 },
}

/// An integer range, closed where it has an endpoint.
#[derive(Debug, Clone, Copy, PartialEq, Eq, Structural)]
pub struct IrRange {
    pub start: Option<i32>,
    pub end: Option<i32>,
    pub span: SourceSpan,
}

/// Content that only one output target understands.
#[derive(Debug, PartialEq)]
pub struct TargetSpecificContent {
    pub target: NativeTarget,
    pub content: String,
    pub span: SourceSpan,
}

/// The mathematical value of [`TargetSpecificContent`].
#[verifier::ext_equal]
pub struct TargetContentView {
    pub target: NativeTarget,
    pub content: Seq<char>,
    pub span: SourceSpan,
}

/// A block of a document.
#[derive(Debug, PartialEq)]
#[allow(inconsistent_fields)]
pub enum IrNode {
    Heading { level: u8, content: Vec<IrInline>, span: SourceSpan },
    Paragraph { content: Vec<IrInline>, span: SourceSpan },
    Blockquote { content: Vec<IrNode>, span: SourceSpan },
    UnorderedList { items: Vec<IrListItem>, span: SourceSpan },
    OrderedList { items: Vec<IrListItem>, start: u64, span: SourceSpan },
    Table { header: IrTableRow, rows: Vec<IrTableRow>, span: SourceSpan },
    CodeBlock { language: Option<String>, content: String, span: SourceSpan },
    RawHtml { source: String, span: SourceSpan },
    FunctionCall {
        name: String,
        positional_args: Vec<IrValue>,
        named_args: Vec<IrNamedArg>,
        lambda_parameters: Option<Vec<IrParameter>>,
        body: Option<Vec<IrNode>>,
        span: SourceSpan,
    },
    ChainedFunctionCall {
        head: IrCallSegment,
        chain: Vec<IrCallSegment>,
        body: Option<Vec<IrNode>>,
        span: SourceSpan,
    },
    FunctionDeclaration {
        name: IrValue,
        parameters: Vec<IrParameter>,
        body: Vec<IrNode>,
        span: SourceSpan,
    },
    ThematicBreak { span: SourceSpan },
    Math { content: String, span: SourceSpan },
    TargetSpecificContent { content: TargetSpecificContent },
    Component { component: IrComponent },
}

/// The mathematical value of [`IrNode`].
#[verifier::ext_equal]
#[allow(inconsistent_fields)]
pub enum NodeView {
    Heading { level: u8, content: Seq<InlineView>, span: SourceSpan },
    Paragraph { content: Seq<InlineView>, span: SourceSpan },
    Blockquote { content: Seq<NodeView>, span: SourceSpan },
    UnorderedList { items: Seq<ListItemView>, span: SourceSpan },
    OrderedList { items: Seq<ListItemView>, start: u64, span: SourceSpan },
    Table { header: TableRowView, rows: Seq<TableRowView>, span: SourceSpan },
    CodeBlock { language: Option<Seq<char>>, content: Seq<char>, span: SourceSpan },
    RawHtml { source: Seq<char>, span: SourceSpan },
    FunctionCall {
        name: Seq<char>,
        positional_args: Seq<ValueView>,
        named_args: Seq<NamedArgView>,
        lambda_parameters: Option<Seq<ParameterView>>,
        body: Option<Seq<NodeView>>,
        span: SourceSpan,
    },
    ChainedFunctionCall {
        head: CallSegmentView,
        chain: Seq<CallSegmentView>,
        body: Option<Seq<NodeView>>,
        span: SourceSpan,
    },
    FunctionDeclaration {
        name: ValueView,
        parameters: Seq<ParameterView>,
        body: Seq<NodeView>,
        span: SourceSpan,
    },
    ThematicBreak { span: SourceSpan },
    Math { content: Seq<char>, span: SourceSpan },
    TargetSpecificContent { content: TargetContentView },
    Component { component: ComponentView },
}

/// A run of inline content.
#[derive(Debug, PartialEq)]
#[allow(inconsistent_fields)]
pub enum IrInline {
    Text { content: String, span: SourceSpan },
    Whitespace { width: Option<IrSize>, height: Option<IrSize>, span: SourceSpan },
    Emphasis { content: Vec<IrInline>, span: SourceSpan },
    Strong { content: Vec<IrInline>, span: SourceSpan },
    Strikethrough { content: Vec<IrInline>, span: SourceSpan },
    DirectiveCall {
        name: String,
        positional_args: Vec<IrValue>,
        named_args: Vec<IrNamedArg>,
        body: Option<Vec<IrInline>>,
        span: SourceSpan,
    },
    ChainedDirectiveCall {
        head: IrCallSegment,
        chain: Vec<IrCallSegment>,
        body: Option<Vec<IrInline>>,
        span: SourceSpan,
    },
    Link { content: Vec<IrInline>, destination: String, title: Option<String>, span: SourceSpan },
    Image { content: Vec<IrInline>, destination: String, title: Option<String>, span: SourceSpan },
    Code { content: String, span: SourceSpan },
    SoftBreak { span: SourceSpan },
    HardBreak { span: SourceSpan },
    RawHtml { content: String, span: SourceSpan },
    TargetSpecificContent { content: TargetSpecificContent },
}

/// The mathematical value of [`IrInline`].
#[verifier::ext_equal]
#[allow(inconsistent_fields)]
pub enum InlineView {
    Text { content: Seq<char>, span: SourceSpan },
    Whitespace { width: Option<IrSize>, height: Option<IrSize>, span: SourceSpan },
    Emphasis { content: Seq<InlineView>, span: SourceSpan },
    Strong { content: Seq<InlineView>, span: SourceSpan },
    Strikethrough { content: Seq<InlineView>, span: SourceSpan },
    DirectiveCall {
        name: Seq<char>,
        positional_args: Seq<ValueView>,
        named_args: Seq<NamedArgView>,
        body: Option<Seq<InlineView>>,
        span: SourceSpan,
    },
    ChainedDirectiveCall {
        head: CallSegmentView,
        chain: Seq<CallSegmentView>,
        body: Option<Seq<InlineView>>,
        span: SourceSpan,
    },
    Link {
        content: Seq<InlineView>,
        destination: Seq<char>,
        title: Option<Seq<char>>,
        span: SourceSpan,
    },
    Image {
        content: Seq<InlineView>,
        destination: Seq<char>,
        title: Option<Seq<char>>,
        span: SourceSpan,
    },
    Code { content: Seq<char>, span: SourceSpan },
    SoftBreak { span: SourceSpan },
    HardBreak { span: SourceSpan },
    RawHtml { content: Seq<char>, span: SourceSpan },
    TargetSpecificContent { content: TargetContentView },
}

/// A typed value of the evaluator.
#[derive(Debug, PartialEq)]
#[allow(inconsistent_fields)]
pub enum IrValue {
    String(String),
    Number(Number),
    Boolean(bool),
    Identifier(String),
    Nothing,
    Content(Vec<IrNode>),
    Range(IrRange),
    Collection(Vec<IrValue>),
    Pair(IrPair),
    Dictionary(IrDictionary),
    Size(IrSize),
    Color(IrColor),
    Enum(IrEnumValue),
    Component(IrComponent),
    Callable(IrCallable),
}

/// The mathematical value of [`IrValue`].
#[verifier::ext_equal]
#[allow(inconsistent_fields)]
pub enum ValueView {
    String(Seq<char>),
    Number(Number),
    Boolean(bool),
    Identifier(Seq<char>),
    Nothing,
    Content(Seq<NodeView>),
    Range(IrRange),
    Collection(Seq<ValueView>),
    Pair(PairView),
    Dictionary(DictionaryView),
    Size(IrSize),
    Color(IrColor),
    Enum(IrEnumValue),
    Component(ComponentView),
    Callable(CallableView),
}

/// Two values, of any types, in order.
#[derive(Debug, PartialEq)]
pub struct IrPair {
    pub first: Box<IrValue>,
    pub second: Box<IrValue>,
    pub span: SourceSpan,
}

/// The mathematical value of [`IrPair`].
#[verifier::ext_equal]
pub struct PairView {
    pub first: Box<ValueView>,
    pub second: Box<ValueView>,
    pub span: SourceSpan,
}

/// Entries in the order in which their keys first appeared.
#[derive(Debug, PartialEq)]
pub struct IrDictionary {
    pub entries: Vec<IrPair>,
    pub span: SourceSpan,
}

/// The mathematical value of [`IrDictionary`].
#[verifier::ext_equal]
pub struct DictionaryView {
    pub entries: Seq<PairView>,
    pub span: SourceSpan,
}

/// A lambda together with the bindings of the scope that made it.
#[derive(Debug, PartialEq)]
pub struct IrCallable {
    pub parameters: Option<Vec<IrParameter>>,
    pub body: Vec<IrNode>,
    pub span: SourceSpan,
    pub capture: Option<Box<IrCallableCapture>>,
}

/// The mathematical value of [`IrCallable`].
#[verifier::ext_equal]
pub struct CallableView {
    pub parameters: Option<Seq<ParameterView>>,
    pub body: Seq<NodeView>,
    pub span: SourceSpan,
    pub capture: Option<Box<CaptureView>>,
}

/// The bindings a callable was made with, each list ordered by name.
#[derive(Debug, PartialEq)]
pub struct IrCallableCapture {
    pub variables: Vec<IrCapturedVariable>,
    pub functions: Vec<IrCapturedFunction>,
}

/// The mathematical value of [`IrCallableCapture`].
#[verifier::ext_equal]
pub struct CaptureView {
    pub variables: Seq<CapturedVariableView>,
    pub functions: Seq<CapturedFunctionView>,
}

/// A captured variable.
#[derive(Debug, PartialEq)]
pub struct IrCapturedVariable {
    pub name: String,
    pub value: IrValue,
}

/// The mathematical value of [`IrCapturedVariable`].
#[verifier::ext_equal]
pub struct CapturedVariableView {
    pub name: Seq<char>,
    pub value: ValueView,
}

/// A captured function.
#[derive(Debug, PartialEq)]
pub struct IrCapturedFunction {
    pub name: String,
    pub callable: IrCallable,
}

/// The mathematical value of [`IrCapturedFunction`].
#[verifier::ext_equal]
pub struct CapturedFunctionView {
    pub name: Seq<char>,
    pub callable: CallableView,
}

/// A declared parameter.
#[derive(Debug, PartialEq)]
pub struct IrParameter {
    pub name: String,
    pub name_span: SourceSpan,
    pub span: SourceSpan,
    pub optional: bool,
}

/// The mathematical value of [`IrParameter`].
#[verifier::ext_equal]
pub struct ParameterView {
    pub name: Seq<char>,
    pub name_span: SourceSpan,
    pub span: SourceSpan,
    pub optional: bool,
}

/// An argument passed by name.
#[derive(Debug, PartialEq)]
pub struct IrNamedArg {
    pub name: String,
    pub name_span: SourceSpan,
    pub value: IrValue,
    pub span: SourceSpan,
}

/// The mathematical value of [`IrNamedArg`].
#[verifier::ext_equal]
pub struct NamedArgView {
    pub name: Seq<char>,
    pub name_span: SourceSpan,
    pub value: ValueView,
    pub span: SourceSpan,
}

/// One call of a chain.
#[derive(Debug, PartialEq)]
pub struct IrCallSegment {
    pub name: String,
    pub name_span: SourceSpan,
    pub positional_args: Vec<IrValue>,
    pub named_args: Vec<IrNamedArg>,
    pub span: SourceSpan,
}

/// The mathematical value of [`IrCallSegment`].
#[verifier::ext_equal]
pub struct CallSegmentView {
    pub name: Seq<char>,
    pub name_span: SourceSpan,
    pub positional_args: Seq<ValueView>,
    pub named_args: Seq<NamedArgView>,
    pub span: SourceSpan,
}

/// An item of a list.
#[derive(Debug, PartialEq)]
pub struct IrListItem {
    pub nodes: Vec<IrNode>,
    pub task: Option<IrTaskStatus>,
    pub span: SourceSpan,
}

/// The mathematical value of [`IrListItem`].
#[verifier::ext_equal]
pub struct ListItemView {
    pub nodes: Seq<NodeView>,
    pub task: Option<IrTaskStatus>,
    pub span: SourceSpan,
}

/// A row of a table.
#[derive(Debug, PartialEq)]
pub struct IrTableRow {
    pub cells: Vec<IrTableCell>,
    pub span: SourceSpan,
}

/// The mathematical value of [`IrTableRow`].
#[verifier::ext_equal]
pub struct TableRowView {
    pub cells: Seq<TableCellView>,
    pub span: SourceSpan,
}

/// A cell of a table.
#[derive(Debug, PartialEq)]
pub struct IrTableCell {
    pub content: Vec<IrInline>,
    pub alignment: IrTableAlignment,
    pub span: SourceSpan,
}

/// The mathematical value of [`IrTableCell`].
#[verifier::ext_equal]
pub struct TableCellView {
    pub content: Seq<InlineView>,
    pub alignment: IrTableAlignment,
    pub span: SourceSpan,
}

/// A semantic layout component.
#[derive(Debug, PartialEq)]
#[allow(inconsistent_fields)]
pub enum IrComponent {
    Stacked(IrStackedComponent),
    Container(IrContainerComponent),
    Landscape(IrLandscapeComponent),
}

/// The mathematical value of [`IrComponent`].
#[verifier::ext_equal]
#[allow(inconsistent_fields)]
pub enum ComponentView {
    Stacked(StackedView),
    Container(ContainerView),
    Landscape(LandscapeView),
}

/// A row, column or grid of blocks.
#[derive(Debug, PartialEq)]
pub struct IrStackedComponent {
    pub layout: IrStackedLayout,
    pub main_axis_alignment: IrMainAxisAlignment,
    pub cross_axis_alignment: IrCrossAxisAlignment,
    pub row_gap: Option<IrSize>,
    pub column_gap: Option<IrSize>,
    pub children: Vec<IrNode>,
    pub span: SourceSpan,
}

/// The mathematical value of [`IrStackedComponent`].
#[verifier::ext_equal]
pub struct StackedView {
    pub layout: IrStackedLayout,
    pub main_axis_alignment: IrMainAxisAlignment,
    pub cross_axis_alignment: IrCrossAxisAlignment,
    pub row_gap: Option<IrSize>,
    pub column_gap: Option<IrSize>,
    pub children: Seq<NodeView>,
    pub span: SourceSpan,
}

/// A block container.
#[derive(Debug, PartialEq)]
pub struct IrContainerComponent {
    pub width: Option<IrSize>,
    pub height: Option<IrSize>,
    pub full_width: bool,
    pub alignment: Option<IrContainerAlignment>,
    pub children: Vec<IrNode>,
    pub span: SourceSpan,
}

/// The mathematical value of [`IrContainerComponent`].
#[verifier::ext_equal]
pub struct ContainerView {
    pub width: Option<IrSize>,
    pub height: Option<IrSize>,
    pub full_width: bool,
    pub alignment: Option<IrContainerAlignment>,
    pub children: Seq<NodeView>,
    pub span: SourceSpan,
}

/// Blocks laid out in landscape.
#[derive(Debug, PartialEq)]
pub struct IrLandscapeComponent {
    pub children: Vec<IrNode>,
    pub span: SourceSpan,
}

/// The mathematical value of [`IrLandscapeComponent`].
#[verifier::ext_equal]
pub struct LandscapeView {
    pub children: Seq<NodeView>,
    pub span: SourceSpan,
}

/// The value of a [`TargetSpecificContent`].
pub open spec fn target_content_view(x: TargetSpecificContent) -> TargetContentView
    decreases x,
{
    TargetContentView {
        target: x.target,
        content: x.content@,
        span: x.span,
    }
}

impl View for TargetSpecificContent {
    type V = TargetContentView;

    open spec fn view(&self) -> TargetContentView {
        target_content_view(*self)
    }
}

/// The value of a [`IrNode`].
pub open spec fn node_view(x: IrNode) -> NodeView
    decreases x,
{
    match x {
        IrNode::Heading { level, content, span } => NodeView::Heading {
            level: level,
            content: inlines_view(content@),
            span: span,
        },
        IrNode::Paragraph { content, span } => NodeView::Paragraph {
            content: inlines_view(content@),
            span: span,
        },
        IrNode::Blockquote { content, span } => NodeView::Blockquote {
            content: nodes_view(content@),
            span: span,
        },
        IrNode::UnorderedList { items, span } => NodeView::UnorderedList {
            items: items_view(items@),
            span: span,
        },
        IrNode::OrderedList { items, start, span } => NodeView::OrderedList {
            items: items_view(items@),
            start: start,
            span: span,
        },
        IrNode::Table { header, rows, span } => NodeView::Table {
            header: row_view(header),
            rows: rows_view(rows@),
            span: span,
        },
        IrNode::CodeBlock { language, content, span } => NodeView::CodeBlock {
            language: match language { Some(inner) => Some(inner@), None => None },
            content: content@,
            span: span,
        },
        IrNode::RawHtml { source, span } => NodeView::RawHtml {
            source: source@,
            span: span,
        },
        IrNode::FunctionCall {
            name,
            positional_args,
            named_args,
            lambda_parameters,
            body,
            span,
        } => NodeView::FunctionCall {
            name: name@,
            positional_args: values_view(positional_args@),
            named_args: named_args_view(named_args@),
            lambda_parameters: match lambda_parameters {
                Some(inner) => Some(parameters_view(inner@)),
                None => None,
            },
            body: match body { Some(inner) => Some(nodes_view(inner@)), None => None },
            span: span,
        },
        IrNode::ChainedFunctionCall { head, chain, body, span } => NodeView::ChainedFunctionCall {
            head: segment_view(head),
            chain: segments_view(chain@),
            body: match body { Some(inner) => Some(nodes_view(inner@)), None => None },
            span: span,
        },
        IrNode::FunctionDeclaration {
            name,
            parameters,
            body,
            span,
        } => NodeView::FunctionDeclaration {
            name: value_view(name),
            parameters: parameters_view(parameters@),
            body: nodes_view(body@),
            span: span,
        },
        IrNode::ThematicBreak { span } => NodeView::ThematicBreak {
            span: span,
        },
        IrNode::Math { content, span } => NodeView::Math {
            content: content@,
            span: span,
        },
        IrNode::TargetSpecificContent { content } => NodeView::TargetSpecificContent {
            content: target_content_view(content),
        },
        IrNode::Component { component } => NodeView::Component {
            component: component_view(component),
        },
    }
}

/// The values of a sequence of [`IrNode`].
pub open spec fn nodes_view(s: Seq<IrNode>) -> Seq<NodeView>
    decreases s,
{
    Seq::new(s.len(), |i: int| if 0 <= i < s.len() { node_view(s[i]) } else { arbitrary() })
}

impl View for IrNode {
    type V = NodeView;

    open spec fn view(&self) -> NodeView {
        node_view(*self)
    }
}

/// The value of a [`IrInline`].
pub open spec fn inline_view(x: IrInline) -> InlineView
    decreases x,
{
    match x {
        IrInline::Text { content, span } => InlineView::Text {
            content: content@,
            span: span,
        },
        IrInline::Whitespace { width, height, span } => InlineView::Whitespace {
            width: width,
            height: height,
            span: span,
        },
        IrInline::Emphasis { content, span } => InlineView::Emphasis {
            content: inlines_view(content@),
            span: span,
        },
        IrInline::Strong { content, span } => InlineView::Strong {
            content: inlines_view(content@),
            span: span,
        },
        IrInline::Strikethrough { content, span } => InlineView::Strikethrough {
            content: inlines_view(content@),
            span: span,
        },
        IrInline::DirectiveCall {
            name,
            positional_args,
            named_args,
            body,
            span,
        } => InlineView::DirectiveCall {
            name: name@,
            positional_args: values_view(positional_args@),
            named_args: named_args_view(named_args@),
            body: match body { Some(inner) => Some(inlines_view(inner@)), None => None },
            span: span,
        },
        IrInline::ChainedDirectiveCall {
            head,
            chain,
            body,
            span,
        } => InlineView::ChainedDirectiveCall {
            head: segment_view(head),
            chain: segments_view(chain@),
            body: match body { Some(inner) => Some(inlines_view(inner@)), None => None },
            span: span,
        },
        IrInline::Link { content, destination, title, span } => InlineView::Link {
            content: inlines_view(content@),
            destination: destination@,
            title: match title { Some(inner) => Some(inner@), None => None },
            span: span,
        },
        IrInline::Image { content, destination, title, span } => InlineView::Image {
            content: inlines_view(content@),
            destination: destination@,
            title: match title { Some(inner) => Some(inner@), None => None },
            span: span,
        },
        IrInline::Code { content, span } => InlineView::Code {
            content: content@,
            span: span,
        },
        IrInline::SoftBreak { span } => InlineView::SoftBreak {
            span: span,
        },
        IrInline::HardBreak { span } => InlineView::HardBreak {
            span: span,
        },
        IrInline::RawHtml { content, span } => InlineView::RawHtml {
            content: content@,
            span: span,
        },
        IrInline::TargetSpecificContent { content } => InlineView::TargetSpecificContent {
            content: target_content_view(content),
        },
    }
}

/// The values of a sequence of [`IrInline`].
pub open spec fn inlines_view(s: Seq<IrInline>) -> Seq<InlineView>
    decreases s,
{
    Seq::new(s.len(), |i: int| if 0 <= i < s.len() { inline_view(s[i]) } else { arbitrary() })
}

impl View for IrInline {
    type V = InlineView;

    open spec fn view(&self) -> InlineView {
        inline_view(*self)
    }
}

/// The value of a [`IrValue`].
pub open spec fn value_view(x: IrValue) -> ValueView
    decreases x,
{
    match x {
        IrValue::String(v) => ValueView::String(v@),
        IrValue::Number(v) => ValueView::Number(v),
        IrValue::Boolean(v) => ValueView::Boolean(v),
        IrValue::Identifier(v) => ValueView::Identifier(v@),
        IrValue::Nothing => ValueView::Nothing,
        IrValue::Content(v) => ValueView::Content(nodes_view(v@)),
        IrValue::Range(v) => ValueView::Range(v),
        IrValue::Collection(v) => ValueView::Collection(values_view(v@)),
        IrValue::Pair(v) => ValueView::Pair(pair_view(v)),
        IrValue::Dictionary(v) => ValueView::Dictionary(dictionary_view(v)),
        IrValue::Size(v) => ValueView::Size(v),
        IrValue::Color(v) => ValueView::Color(v),
        IrValue::Enum(v) => ValueView::Enum(v),
        IrValue::Component(v) => ValueView::Component(component_view(v)),
        IrValue::Callable(v) => ValueView::Callable(callable_view(v)),
    }
}

/// The values of a sequence of [`IrValue`].
pub open spec fn values_view(s: Seq<IrValue>) -> Seq<ValueView>
    decreases s,
{
    Seq::new(s.len(), |i: int| if 0 <= i < s.len() { value_view(s[i]) } else { arbitrary() })
}

impl View for IrValue {
    type V = ValueView;

    open spec fn view(&self) -> ValueView {
        value_view(*self)
    }
}

/// The value of a [`IrPair`].
pub open spec fn pair_view(x: IrPair) -> PairView
    decreases x,
{
    PairView {
        first: Box::new(value_view(*x.first)),
        second: Box::new(value_view(*x.second)),
        span: x.span,
    }
}

/// The values of a sequence of [`IrPair`].
pub open spec fn pairs_view(s: Seq<IrPair>) -> Seq<PairView>
    decreases s,
{
    Seq::new(s.len(), |i: int| if 0 <= i < s.len() { pair_view(s[i]) } else { arbitrary() })
}

impl View for IrPair {
    type V = PairView;

    open spec fn view(&self) -> PairView {
        pair_view(*self)
    }
}

/// The value of a [`IrDictionary`].
pub open spec fn dictionary_view(x: IrDictionary) -> DictionaryView
    decreases x,
{
    DictionaryView {
        entries: pairs_view(x.entries@),
        span: x.span,
    }
}

impl View for IrDictionary {
    type V = DictionaryView;

    open spec fn view(&self) -> DictionaryView {
        dictionary_view(*self)
    }
}

/// The value of a [`IrCallable`].
pub open spec fn callable_view(x: IrCallable) -> CallableView
    decreases x,
{
    CallableView {
        parameters: match x.parameters {
            Some(inner) => Some(parameters_view(inner@)),
            None => None,
        },
        body: nodes_view(x.body@),
        span: x.span,
        capture: match x.capture {
            Some(inner) => Some(Box::new(capture_view(*inner))),
            None => None,
        },
    }
}

impl View for IrCallable {
    type V = CallableView;

    open spec fn view(&self) -> CallableView {
        callable_view(*self)
    }
}

/// The value of a [`IrCallableCapture`].
pub open spec fn capture_view(x: IrCallableCapture) -> CaptureView
    decreases x,
{
    CaptureView {
        variables: captured_variables_view(x.variables@),
        functions: captured_functions_view(x.functions@),
    }
}

impl View for IrCallableCapture {
    type V = CaptureView;

    open spec fn view(&self) -> CaptureView {
        capture_view(*self)
    }
}

/// The value of a [`IrCapturedVariable`].
pub open spec fn captured_variable_view(x: IrCapturedVariable) -> CapturedVariableView
    decreases x,
{
    CapturedVariableView {
        name: x.name@,
        value: value_view(x.value),
    }
}

/// The values of a sequence of [`IrCapturedVariable`].
pub open spec fn captured_variables_view(s: Seq<IrCapturedVariable>) -> Seq<CapturedVariableView>
    decreases s,
{
    Seq::new(
        s.len(),
        |i: int| if 0 <= i < s.len() { captured_variable_view(s[i]) } else { arbitrary() },
    )
}

impl View for IrCapturedVariable {
    type V = CapturedVariableView;

    open spec fn view(&self) -> CapturedVariableView {
        captured_variable_view(*self)
    }
}

/// The value of a [`IrCapturedFunction`].
pub open spec fn captured_function_view(x: IrCapturedFunction) -> CapturedFunctionView
    decreases x,
{
    CapturedFunctionView {
        name: x.name@,
        callable: callable_view(x.callable),
    }
}

/// The values of a sequence of [`IrCapturedFunction`].
pub open spec fn captured_functions_view(s: Seq<IrCapturedFunction>) -> Seq<CapturedFunctionView>
    decreases s,
{
    Seq::new(
        s.len(),
        |i: int| if 0 <= i < s.len() { captured_function_view(s[i]) } else { arbitrary() },
    )
}

impl View for IrCapturedFunction {
    type V = CapturedFunctionView;

    open spec fn view(&self) -> CapturedFunctionView {
        captured_function_view(*self)
    }
}

/// The value of a [`IrParameter`].
pub open spec fn parameter_view(x: IrParameter) -> ParameterView
    decreases x,
{
    ParameterView {
        name: x.name@,
        name_span: x.name_span,
        span: x.span,
        optional: x.optional,
    }
}

/// The values of a sequence of [`IrParameter`].
pub open spec fn parameters_view(s: Seq<IrParameter>) -> Seq<ParameterView>
    decreases s,
{
    Seq::new(s.len(), |i: int| if 0 <= i < s.len() { parameter_view(s[i]) } else { arbitrary() })
}

impl View for IrParameter {
    type V = ParameterView;

    open spec fn view(&self) -> ParameterView {
        parameter_view(*self)
    }
}

/// The value of a [`IrNamedArg`].
pub open spec fn named_arg_view(x: IrNamedArg) -> NamedArgView
    decreases x,
{
    NamedArgView {
        name: x.name@,
        name_span: x.name_span,
        value: value_view(x.value),
        span: x.span,
    }
}

/// The values of a sequence of [`IrNamedArg`].
pub open spec fn named_args_view(s: Seq<IrNamedArg>) -> Seq<NamedArgView>
    decreases s,
{
    Seq::new(s.len(), |i: int| if 0 <= i < s.len() { named_arg_view(s[i]) } else { arbitrary() })
}

impl View for IrNamedArg {
    type V = NamedArgView;

    open spec fn view(&self) -> NamedArgView {
        named_arg_view(*self)
    }
}

/// The value of a [`IrCallSegment`].
pub open spec fn segment_view(x: IrCallSegment) -> CallSegmentView
    decreases x,
{
    CallSegmentView {
        name: x.name@,
        name_span: x.name_span,
        positional_args: values_view(x.positional_args@),
        named_args: named_args_view(x.named_args@),
        span: x.span,
    }
}

/// The values of a sequence of [`IrCallSegment`].
pub open spec fn segments_view(s: Seq<IrCallSegment>) -> Seq<CallSegmentView>
    decreases s,
{
    Seq::new(s.len(), |i: int| if 0 <= i < s.len() { segment_view(s[i]) } else { arbitrary() })
}

impl View for IrCallSegment {
    type V = CallSegmentView;

    open spec fn view(&self) -> CallSegmentView {
        segment_view(*self)
    }
}

/// The value of a [`IrListItem`].
pub open spec fn item_view(x: IrListItem) -> ListItemView
    decreases x,
{
    ListItemView {
        nodes: nodes_view(x.nodes@),
        task: x.task,
        span: x.span,
    }
}

/// The values of a sequence of [`IrListItem`].
pub open spec fn items_view(s: Seq<IrListItem>) -> Seq<ListItemView>
    decreases s,
{
    Seq::new(s.len(), |i: int| if 0 <= i < s.len() { item_view(s[i]) } else { arbitrary() })
}

impl View for IrListItem {
    type V = ListItemView;

    open spec fn view(&self) -> ListItemView {
        item_view(*self)
    }
}

/// The value of a [`IrTableRow`].
pub open spec fn row_view(x: IrTableRow) -> TableRowView
    decreases x,
{
    TableRowView {
        cells: cells_view(x.cells@),
        span: x.span,
    }
}

/// The values of a sequence of [`IrTableRow`].
pub open spec fn rows_view(s: Seq<IrTableRow>) -> Seq<TableRowView>
    decreases s,
{
    Seq::new(s.len(), |i: int| if 0 <= i < s.len() { row_view(s[i]) } else { arbitrary() })
}

impl View for IrTableRow {
    type V = TableRowView;

    open spec fn view(&self) -> TableRowView {
        row_view(*self)
    }
}

/// The value of a [`IrTableCell`].
pub open spec fn cell_view(x: IrTableCell) -> TableCellView
    decreases x,
{
    TableCellView {
        content: inlines_view(x.content@),
        alignment: x.alignment,
        span: x.span,
    }
}

/// The values of a sequence of [`IrTableCell`].
pub open spec fn cells_view(s: Seq<IrTableCell>) -> Seq<TableCellView>
    decreases s,
{
    Seq::new(s.len(), |i: int| if 0 <= i < s.len() { cell_view(s[i]) } else { arbitrary() })
}

impl View for IrTableCell {
    type V = TableCellView;

    open spec fn view(&self) -> TableCellView {
        cell_view(*self)
    }
}

/// The value of a [`IrComponent`].
pub open spec fn component_view(x: IrComponent) -> ComponentView
    decreases x,
{
    match x {
        IrComponent::Stacked(v) => ComponentView::Stacked(stacked_view(v)),
        IrComponent::Container(v) => ComponentView::Container(container_view(v)),
        IrComponent::Landscape(v) => ComponentView::Landscape(landscape_view(v)),
    }
}

impl View for IrComponent {
    type V = ComponentView;

    open spec fn view(&self) -> ComponentView {
        component_view(*self)
    }
}

/// The value of a [`IrStackedComponent`].
pub open spec fn stacked_view(x: IrStackedComponent) -> StackedView
    decreases x,
{
    StackedView {
        layout: x.layout,
        main_axis_alignment: x.main_axis_alignment,
        cross_axis_alignment: x.cross_axis_alignment,
        row_gap: x.row_gap,
        column_gap: x.column_gap,
        children: nodes_view(x.children@),
        span: x.span,
    }
}

impl View for IrStackedComponent {
    type V = StackedView;

    open spec fn view(&self) -> StackedView {
        stacked_view(*self)
    }
}

/// The value of a [`IrContainerComponent`].
pub open spec fn container_view(x: IrContainerComponent) -> ContainerView
    decreases x,
{
    ContainerView {
        width: x.width,
        height: x.height,
        full_width: x.full_width,
        alignment: x.alignment,
        children: nodes_view(x.children@),
        span: x.span,
    }
}

impl View for IrContainerComponent {
    type V = ContainerView;

    open spec fn view(&self) -> ContainerView {
        container_view(*self)
    }
}

/// The value of a [`IrLandscapeComponent`].
pub open spec fn landscape_view(x: IrLandscapeComponent) -> LandscapeView
    decreases x,
{
    LandscapeView {
        children: nodes_view(x.children@),
        span: x.span,
    }
}

impl View for IrLandscapeComponent {
    type V = LandscapeView;

    open spec fn view(&self) -> LandscapeView {
        landscape_view(*self)
    }
}

pub broadcast proof fn nodes_view_len(s: Seq<IrNode>)
    ensures
        #[trigger] nodes_view(s).len() == s.len(),
{
}

pub broadcast proof fn nodes_view_index(s: Seq<IrNode>, i: int)
    requires
        0 <= i < s.len(),
    ensures
        #[trigger] nodes_view(s)[i] == node_view(s[i]),
{
}

pub broadcast proof fn nodes_view_empty()
    ensures
        #[trigger] nodes_view(Seq::<IrNode>::empty()) == Seq::<NodeView>::empty(),
{
    assert(nodes_view(Seq::<IrNode>::empty()) =~= Seq::<NodeView>::empty());
}

pub broadcast proof fn nodes_view_push(s: Seq<IrNode>, x: IrNode)
    ensures
        #[trigger] nodes_view(s.push(x)) == nodes_view(s).push(node_view(x)),
{
    assert(nodes_view(s.push(x)) =~= nodes_view(s).push(node_view(x)));
}

pub broadcast proof fn nodes_view_add(s: Seq<IrNode>, t: Seq<IrNode>)
    ensures
        #[trigger] nodes_view(s + t) == nodes_view(s) + nodes_view(t),
{
    assert(nodes_view(s + t) =~= nodes_view(s) + nodes_view(t));
}

pub broadcast proof fn inlines_view_len(s: Seq<IrInline>)
    ensures
        #[trigger] inlines_view(s).len() == s.len(),
{
}

pub broadcast proof fn inlines_view_index(s: Seq<IrInline>, i: int)
    requires
        0 <= i < s.len(),
    ensures
        #[trigger] inlines_view(s)[i] == inline_view(s[i]),
{
}

pub broadcast proof fn inlines_view_empty()
    ensures
        #[trigger] inlines_view(Seq::<IrInline>::empty()) == Seq::<InlineView>::empty(),
{
    assert(inlines_view(Seq::<IrInline>::empty()) =~= Seq::<InlineView>::empty());
}

pub broadcast proof fn inlines_view_push(s: Seq<IrInline>, x: IrInline)
    ensures
        #[trigger] inlines_view(s.push(x)) == inlines_view(s).push(inline_view(x)),
{
    assert(inlines_view(s.push(x)) =~= inlines_view(s).push(inline_view(x)));
}

pub broadcast proof fn inlines_view_add(s: Seq<IrInline>, t: Seq<IrInline>)
    ensures
        #[trigger] inlines_view(s + t) == inlines_view(s) + inlines_view(t),
{
    assert(inlines_view(s + t) =~= inlines_view(s) + inlines_view(t));
}

pub broadcast proof fn values_view_len(s: Seq<IrValue>)
    ensures
        #[trigger] values_view(s).len() == s.len(),
{
}

pub broadcast proof fn values_view_index(s: Seq<IrValue>, i: int)
    requires
        0 <= i < s.len(),
    ensures
        #[trigger] values_view(s)[i] == value_view(s[i]),
{
}

pub broadcast proof fn values_view_empty()
    ensures
        #[trigger] values_view(Seq::<IrValue>::empty()) == Seq::<ValueView>::empty(),
{
    assert(values_view(Seq::<IrValue>::empty()) =~= Seq::<ValueView>::empty());
}

pub broadcast proof fn values_view_push(s: Seq<IrValue>, x: IrValue)
    ensures
        #[trigger] values_view(s.push(x)) == values_view(s).push(value_view(x)),
{
    assert(values_view(s.push(x)) =~= values_view(s).push(value_view(x)));
}

pub broadcast proof fn values_view_add(s: Seq<IrValue>, t: Seq<IrValue>)
    ensures
        #[trigger] values_view(s + t) == values_view(s) + values_view(t),
{
    assert(values_view(s + t) =~= values_view(s) + values_view(t));
}

pub broadcast proof fn pairs_view_len(s: Seq<IrPair>)
    ensures
        #[trigger] pairs_view(s).len() == s.len(),
{
}

pub broadcast proof fn pairs_view_index(s: Seq<IrPair>, i: int)
    requires
        0 <= i < s.len(),
    ensures
        #[trigger] pairs_view(s)[i] == pair_view(s[i]),
{
}

pub broadcast proof fn pairs_view_empty()
    ensures
        #[trigger] pairs_view(Seq::<IrPair>::empty()) == Seq::<PairView>::empty(),
{
    assert(pairs_view(Seq::<IrPair>::empty()) =~= Seq::<PairView>::empty());
}

pub broadcast proof fn pairs_view_push(s: Seq<IrPair>, x: IrPair)
    ensures
        #[trigger] pairs_view(s.push(x)) == pairs_view(s).push(pair_view(x)),
{
    assert(pairs_view(s.push(x)) =~= pairs_view(s).push(pair_view(x)));
}

pub broadcast proof fn pairs_view_add(s: Seq<IrPair>, t: Seq<IrPair>)
    ensures
        #[trigger] pairs_view(s + t) == pairs_view(s) + pairs_view(t),
{
    assert(pairs_view(s + t) =~= pairs_view(s) + pairs_view(t));
}

pub broadcast proof fn captured_variables_view_len(s: Seq<IrCapturedVariable>)
    ensures
        #[trigger] captured_variables_view(s).len() == s.len(),
{
}

pub broadcast proof fn captured_variables_view_index(s: Seq<IrCapturedVariable>, i: int)
    requires
        0 <= i < s.len(),
    ensures
        #[trigger] captured_variables_view(s)[i] == captured_variable_view(s[i]),
{
}

pub broadcast proof fn captured_variables_view_empty()
    ensures
        #[trigger] captured_variables_view(Seq::<IrCapturedVariable>::empty())
            == Seq::<CapturedVariableView>::empty(),
{
    assert(captured_variables_view(Seq::<IrCapturedVariable>::empty())
        =~= Seq::<CapturedVariableView>::empty());
}

pub broadcast proof fn captured_variables_view_push(
    s: Seq<IrCapturedVariable>,
    x: IrCapturedVariable,
)
    ensures
        #[trigger] captured_variables_view(s.push(x))
            == captured_variables_view(s).push(captured_variable_view(x)),
{
    assert(captured_variables_view(s.push(x))
        =~= captured_variables_view(s).push(captured_variable_view(x)));
}

pub broadcast proof fn captured_variables_view_add(
    s: Seq<IrCapturedVariable>,
    t: Seq<IrCapturedVariable>,
)
    ensures
        #[trigger] captured_variables_view(s + t)
            == captured_variables_view(s) + captured_variables_view(t),
{
    assert(captured_variables_view(s + t)
        =~= captured_variables_view(s) + captured_variables_view(t));
}

pub broadcast proof fn captured_functions_view_len(s: Seq<IrCapturedFunction>)
    ensures
        #[trigger] captured_functions_view(s).len() == s.len(),
{
}

pub broadcast proof fn captured_functions_view_index(s: Seq<IrCapturedFunction>, i: int)
    requires
        0 <= i < s.len(),
    ensures
        #[trigger] captured_functions_view(s)[i] == captured_function_view(s[i]),
{
}

pub broadcast proof fn captured_functions_view_empty()
    ensures
        #[trigger] captured_functions_view(Seq::<IrCapturedFunction>::empty())
            == Seq::<CapturedFunctionView>::empty(),
{
    assert(captured_functions_view(Seq::<IrCapturedFunction>::empty())
        =~= Seq::<CapturedFunctionView>::empty());
}

pub broadcast proof fn captured_functions_view_push(
    s: Seq<IrCapturedFunction>,
    x: IrCapturedFunction,
)
    ensures
        #[trigger] captured_functions_view(s.push(x))
            == captured_functions_view(s).push(captured_function_view(x)),
{
    assert(captured_functions_view(s.push(x))
        =~= captured_functions_view(s).push(captured_function_view(x)));
}

pub broadcast proof fn captured_functions_view_add(
    s: Seq<IrCapturedFunction>,
    t: Seq<IrCapturedFunction>,
)
    ensures
        #[trigger] captured_functions_view(s + t)
            == captured_functions_view(s) + captured_functions_view(t),
{
    assert(captured_functions_view(s + t)
        =~= captured_functions_view(s) + captured_functions_view(t));
}

pub broadcast proof fn parameters_view_len(s: Seq<IrParameter>)
    ensures
        #[trigger] parameters_view(s).len() == s.len(),
{
}

pub broadcast proof fn parameters_view_index(s: Seq<IrParameter>, i: int)
    requires
        0 <= i < s.len(),
    ensures
        #[trigger] parameters_view(s)[i] == parameter_view(s[i]),
{
}

pub broadcast proof fn parameters_view_empty()
    ensures
        #[trigger] parameters_view(Seq::<IrParameter>::empty()) == Seq::<ParameterView>::empty(),
{
    assert(parameters_view(Seq::<IrParameter>::empty()) =~= Seq::<ParameterView>::empty());
}

pub broadcast proof fn parameters_view_push(s: Seq<IrParameter>, x: IrParameter)
    ensures
        #[trigger] parameters_view(s.push(x)) == parameters_view(s).push(parameter_view(x)),
{
    assert(parameters_view(s.push(x)) =~= parameters_view(s).push(parameter_view(x)));
}

pub broadcast proof fn parameters_view_add(s: Seq<IrParameter>, t: Seq<IrParameter>)
    ensures
        #[trigger] parameters_view(s + t) == parameters_view(s) + parameters_view(t),
{
    assert(parameters_view(s + t) =~= parameters_view(s) + parameters_view(t));
}

pub broadcast proof fn named_args_view_len(s: Seq<IrNamedArg>)
    ensures
        #[trigger] named_args_view(s).len() == s.len(),
{
}

pub broadcast proof fn named_args_view_index(s: Seq<IrNamedArg>, i: int)
    requires
        0 <= i < s.len(),
    ensures
        #[trigger] named_args_view(s)[i] == named_arg_view(s[i]),
{
}

pub broadcast proof fn named_args_view_empty()
    ensures
        #[trigger] named_args_view(Seq::<IrNamedArg>::empty()) == Seq::<NamedArgView>::empty(),
{
    assert(named_args_view(Seq::<IrNamedArg>::empty()) =~= Seq::<NamedArgView>::empty());
}

pub broadcast proof fn named_args_view_push(s: Seq<IrNamedArg>, x: IrNamedArg)
    ensures
        #[trigger] named_args_view(s.push(x)) == named_args_view(s).push(named_arg_view(x)),
{
    assert(named_args_view(s.push(x)) =~= named_args_view(s).push(named_arg_view(x)));
}

pub broadcast proof fn named_args_view_add(s: Seq<IrNamedArg>, t: Seq<IrNamedArg>)
    ensures
        #[trigger] named_args_view(s + t) == named_args_view(s) + named_args_view(t),
{
    assert(named_args_view(s + t) =~= named_args_view(s) + named_args_view(t));
}

pub broadcast proof fn segments_view_len(s: Seq<IrCallSegment>)
    ensures
        #[trigger] segments_view(s).len() == s.len(),
{
}

pub broadcast proof fn segments_view_index(s: Seq<IrCallSegment>, i: int)
    requires
        0 <= i < s.len(),
    ensures
        #[trigger] segments_view(s)[i] == segment_view(s[i]),
{
}

pub broadcast proof fn segments_view_empty()
    ensures
        #[trigger] segments_view(Seq::<IrCallSegment>::empty()) == Seq::<CallSegmentView>::empty(),
{
    assert(segments_view(Seq::<IrCallSegment>::empty()) =~= Seq::<CallSegmentView>::empty());
}

pub broadcast proof fn segments_view_push(s: Seq<IrCallSegment>, x: IrCallSegment)
    ensures
        #[trigger] segments_view(s.push(x)) == segments_view(s).push(segment_view(x)),
{
    assert(segments_view(s.push(x)) =~= segments_view(s).push(segment_view(x)));
}

pub broadcast proof fn segments_view_add(s: Seq<IrCallSegment>, t: Seq<IrCallSegment>)
    ensures
        #[trigger] segments_view(s + t) == segments_view(s) + segments_view(t),
{
    assert(segments_view(s + t) =~= segments_view(s) + segments_view(t));
}

pub broadcast proof fn items_view_len(s: Seq<IrListItem>)
    ensures
        #[trigger] items_view(s).len() == s.len(),
{
}

pub broadcast proof fn items_view_index(s: Seq<IrListItem>, i: int)
    requires
        0 <= i < s.len(),
    ensures
        #[trigger] items_view(s)[i] == item_view(s[i]),
{
}

pub broadcast proof fn items_view_empty()
    ensures
        #[trigger] items_view(Seq::<IrListItem>::empty()) == Seq::<ListItemView>::empty(),
{
    assert(items_view(Seq::<IrListItem>::empty()) =~= Seq::<ListItemView>::empty());
}

pub broadcast proof fn items_view_push(s: Seq<IrListItem>, x: IrListItem)
    ensures
        #[trigger] items_view(s.push(x)) == items_view(s).push(item_view(x)),
{
    assert(items_view(s.push(x)) =~= items_view(s).push(item_view(x)));
}

pub broadcast proof fn items_view_add(s: Seq<IrListItem>, t: Seq<IrListItem>)
    ensures
        #[trigger] items_view(s + t) == items_view(s) + items_view(t),
{
    assert(items_view(s + t) =~= items_view(s) + items_view(t));
}

pub broadcast proof fn rows_view_len(s: Seq<IrTableRow>)
    ensures
        #[trigger] rows_view(s).len() == s.len(),
{
}

pub broadcast proof fn rows_view_index(s: Seq<IrTableRow>, i: int)
    requires
        0 <= i < s.len(),
    ensures
        #[trigger] rows_view(s)[i] == row_view(s[i]),
{
}

pub broadcast proof fn rows_view_empty()
    ensures
        #[trigger] rows_view(Seq::<IrTableRow>::empty()) == Seq::<TableRowView>::empty(),
{
    assert(rows_view(Seq::<IrTableRow>::empty()) =~= Seq::<TableRowView>::empty());
}

pub broadcast proof fn rows_view_push(s: Seq<IrTableRow>, x: IrTableRow)
    ensures
        #[trigger] rows_view(s.push(x)) == rows_view(s).push(row_view(x)),
{
    assert(rows_view(s.push(x)) =~= rows_view(s).push(row_view(x)));
}

pub broadcast proof fn rows_view_add(s: Seq<IrTableRow>, t: Seq<IrTableRow>)
    ensures
        #[trigger] rows_view(s + t) == rows_view(s) + rows_view(t),
{
    assert(rows_view(s + t) =~= rows_view(s) + rows_view(t));
}

pub broadcast proof fn cells_view_len(s: Seq<IrTableCell>)
    ensures
        #[trigger] cells_view(s).len() == s.len(),
{
}

pub broadcast proof fn cells_view_index(s: Seq<IrTableCell>, i: int)
    requires
        0 <= i < s.len(),
    ensures
        #[trigger] cells_view(s)[i] == cell_view(s[i]),
{
}

pub broadcast proof fn cells_view_empty()
    ensures
        #[trigger] cells_view(Seq::<IrTableCell>::empty()) == Seq::<TableCellView>::empty(),
{
    assert(cells_view(Seq::<IrTableCell>::empty()) =~= Seq::<TableCellView>::empty());
}

pub broadcast proof fn cells_view_push(s: Seq<IrTableCell>, x: IrTableCell)
    ensures
        #[trigger] cells_view(s.push(x)) == cells_view(s).push(cell_view(x)),
{
    assert(cells_view(s.push(x)) =~= cells_view(s).push(cell_view(x)));
}

pub broadcast proof fn cells_view_add(s: Seq<IrTableCell>, t: Seq<IrTableCell>)
    ensures
        #[trigger] cells_view(s + t) == cells_view(s) + cells_view(t),
{
    assert(cells_view(s + t) =~= cells_view(s) + cells_view(t));
}

/// How views of sequences follow the sequences.
pub broadcast group group_ir_views {
    nodes_view_len,
    nodes_view_index,
    nodes_view_empty,
    nodes_view_push,
    nodes_view_add,
    inlines_view_len,
    inlines_view_index,
    inlines_view_empty,
    inlines_view_push,
    inlines_view_add,
    values_view_len,
    values_view_index,
    values_view_empty,
    values_view_push,
    values_view_add,
    pairs_view_len,
    pairs_view_index,
    pairs_view_empty,
    pairs_view_push,
    pairs_view_add,
    captured_variables_view_len,
    captured_variables_view_index,
    captured_variables_view_empty,
    captured_variables_view_push,
    captured_variables_view_add,
    captured_functions_view_len,
    captured_functions_view_index,
    captured_functions_view_empty,
    captured_functions_view_push,
    captured_functions_view_add,
    parameters_view_len,
    parameters_view_index,
    parameters_view_empty,
    parameters_view_push,
    parameters_view_add,
    named_args_view_len,
    named_args_view_index,
    named_args_view_empty,
    named_args_view_push,
    named_args_view_add,
    segments_view_len,
    segments_view_index,
    segments_view_empty,
    segments_view_push,
    segments_view_add,
    items_view_len,
    items_view_index,
    items_view_empty,
    items_view_push,
    items_view_add,
    rows_view_len,
    rows_view_index,
    rows_view_empty,
    rows_view_push,
    rows_view_add,
    cells_view_len,
    cells_view_index,
    cells_view_empty,
    cells_view_push,
    cells_view_add,
}

} // verus!
