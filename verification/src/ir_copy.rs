//! Copies of document values: each copy has the value of what it was made from.

use vstd::prelude::*;

use crate::ir;
use crate::ir::{
    IrCallSegment, IrCallable, IrCallableCapture, IrCapturedFunction, IrCapturedVariable,
    IrComponent, IrContainerComponent, IrDictionary, IrInline, IrLandscapeComponent, IrListItem,
    IrNamedArg, IrNode, IrPair, IrParameter, IrStackedComponent, IrTableCell, IrTableRow, IrValue,
    TargetSpecificContent,
};

verus! {

broadcast use ir::group_ir_views;

/// Copies a [`TargetSpecificContent`].
pub fn copy_target_content(x: &TargetSpecificContent) -> (r: TargetSpecificContent)
    ensures
        ir::target_content_view(r) == ir::target_content_view(*x),
    decreases x,
{
    TargetSpecificContent {
        target: x.target,
        content: x.content.clone(),
        span: x.span,
    }
}

impl Clone for TargetSpecificContent {
    fn clone(&self) -> (r: Self)
        ensures
            r@ == self@,
    {
        copy_target_content(self)
    }
}

/// Copies a [`IrNode`].
pub fn copy_node(x: &IrNode) -> (r: IrNode)
    ensures
        ir::node_view(r) == ir::node_view(*x),
    decreases x,
{
    match x {
        IrNode::Heading { level, content, span } => IrNode::Heading {
            level: *level,
            content: copy_inlines(content),
            span: *span,
        },
        IrNode::Paragraph { content, span } => IrNode::Paragraph {
            content: copy_inlines(content),
            span: *span,
        },
        IrNode::Blockquote { content, span } => IrNode::Blockquote {
            content: copy_nodes(content),
            span: *span,
        },
        IrNode::UnorderedList { items, span } => IrNode::UnorderedList {
            items: copy_items(items),
            span: *span,
        },
        IrNode::OrderedList { items, start, span } => IrNode::OrderedList {
            items: copy_items(items),
            start: *start,
            span: *span,
        },
        IrNode::Table { header, rows, span } => IrNode::Table {
            header: copy_row(header),
            rows: copy_rows(rows),
            span: *span,
        },
        IrNode::CodeBlock { language, content, span } => IrNode::CodeBlock {
            language: match language { Some(inner) => Some(inner.clone()), None => None },
            content: content.clone(),
            span: *span,
        },
        IrNode::RawHtml { source, span } => IrNode::RawHtml {
            source: source.clone(),
            span: *span,
        },
        IrNode::FunctionCall {
            name,
            positional_args,
            named_args,
            lambda_parameters,
            body,
            span,
        } => IrNode::FunctionCall {
            name: name.clone(),
            positional_args: copy_values(positional_args),
            named_args: copy_named_args(named_args),
            lambda_parameters: match lambda_parameters {
                Some(inner) => Some(copy_parameters(inner)),
                None => None,
            },
            body: match body { Some(inner) => Some(copy_nodes(inner)), None => None },
            span: *span,
        },
        IrNode::ChainedFunctionCall { head, chain, body, span } => IrNode::ChainedFunctionCall {
            head: copy_segment(head),
            chain: copy_segments(chain),
            body: match body { Some(inner) => Some(copy_nodes(inner)), None => None },
            span: *span,
        },
        IrNode::FunctionDeclaration {
            name,
            parameters,
            body,
            span,
        } => IrNode::FunctionDeclaration {
            name: copy_value(name),
            parameters: copy_parameters(parameters),
            body: copy_nodes(body),
            span: *span,
        },
        IrNode::ThematicBreak { span } => IrNode::ThematicBreak {
            span: *span,
        },
        IrNode::Math { content, span } => IrNode::Math {
            content: content.clone(),
            span: *span,
        },
        IrNode::TargetSpecificContent { content } => IrNode::TargetSpecificContent {
            content: copy_target_content(content),
        },
        IrNode::Component { component } => IrNode::Component {
            component: copy_component(component),
        },
    }
}

/// Copies a sequence of [`IrNode`].
pub fn copy_nodes(x: &Vec<IrNode>) -> (r: Vec<IrNode>)
    ensures
        ir::nodes_view(r@) == ir::nodes_view(x@),
    decreases x,
{
    let mut r: Vec<IrNode> = Vec::new();
    let mut i: usize = 0;
    while i < x.len()
        invariant
            0 <= i <= x@.len(),
            ir::nodes_view(r@) == ir::nodes_view(x@).take(i as int),
        decreases x@.len() - i,
    {
        r.push(copy_node(&x[i]));
        i += 1;
        assert(ir::nodes_view(x@).take(i as int)
            =~= ir::nodes_view(x@).take(i - 1).push(ir::nodes_view(x@)[i - 1]));
    }
    assert(ir::nodes_view(x@).take(i as int) =~= ir::nodes_view(x@));
    r
}

impl Clone for IrNode {
    fn clone(&self) -> (r: Self)
        ensures
            r@ == self@,
    {
        copy_node(self)
    }
}

/// Copies a [`IrInline`].
pub fn copy_inline(x: &IrInline) -> (r: IrInline)
    ensures
        ir::inline_view(r) == ir::inline_view(*x),
    decreases x,
{
    match x {
        IrInline::Text { content, span } => IrInline::Text {
            content: content.clone(),
            span: *span,
        },
        IrInline::Whitespace { width, height, span } => IrInline::Whitespace {
            width: *width,
            height: *height,
            span: *span,
        },
        IrInline::Emphasis { content, span } => IrInline::Emphasis {
            content: copy_inlines(content),
            span: *span,
        },
        IrInline::Strong { content, span } => IrInline::Strong {
            content: copy_inlines(content),
            span: *span,
        },
        IrInline::Strikethrough { content, span } => IrInline::Strikethrough {
            content: copy_inlines(content),
            span: *span,
        },
        IrInline::DirectiveCall {
            name,
            positional_args,
            named_args,
            body,
            span,
        } => IrInline::DirectiveCall {
            name: name.clone(),
            positional_args: copy_values(positional_args),
            named_args: copy_named_args(named_args),
            body: match body { Some(inner) => Some(copy_inlines(inner)), None => None },
            span: *span,
        },
        IrInline::ChainedDirectiveCall {
            head,
            chain,
            body,
            span,
        } => IrInline::ChainedDirectiveCall {
            head: copy_segment(head),
            chain: copy_segments(chain),
            body: match body { Some(inner) => Some(copy_inlines(inner)), None => None },
            span: *span,
        },
        IrInline::Link { content, destination, title, span } => IrInline::Link {
            content: copy_inlines(content),
            destination: destination.clone(),
            title: match title { Some(inner) => Some(inner.clone()), None => None },
            span: *span,
        },
        IrInline::Image { content, destination, title, span } => IrInline::Image {
            content: copy_inlines(content),
            destination: destination.clone(),
            title: match title { Some(inner) => Some(inner.clone()), None => None },
            span: *span,
        },
        IrInline::Code { content, span } => IrInline::Code {
            content: content.clone(),
            span: *span,
        },
        IrInline::SoftBreak { span } => IrInline::SoftBreak {
            span: *span,
        },
        IrInline::HardBreak { span } => IrInline::HardBreak {
            span: *span,
        },
        IrInline::RawHtml { content, span } => IrInline::RawHtml {
            content: content.clone(),
            span: *span,
        },
        IrInline::TargetSpecificContent { content } => IrInline::TargetSpecificContent {
            content: copy_target_content(content),
        },
    }
}

/// Copies a sequence of [`IrInline`].
pub fn copy_inlines(x: &Vec<IrInline>) -> (r: Vec<IrInline>)
    ensures
        ir::inlines_view(r@) == ir::inlines_view(x@),
    decreases x,
{
    let mut r: Vec<IrInline> = Vec::new();
    let mut i: usize = 0;
    while i < x.len()
        invariant
            0 <= i <= x@.len(),
            ir::inlines_view(r@) == ir::inlines_view(x@).take(i as int),
        decreases x@.len() - i,
    {
        r.push(copy_inline(&x[i]));
        i += 1;
        assert(ir::inlines_view(x@).take(i as int)
            =~= ir::inlines_view(x@).take(i - 1).push(ir::inlines_view(x@)[i - 1]));
    }
    assert(ir::inlines_view(x@).take(i as int) =~= ir::inlines_view(x@));
    r
}

impl Clone for IrInline {
    fn clone(&self) -> (r: Self)
        ensures
            r@ == self@,
    {
        copy_inline(self)
    }
}

/// Copies a [`IrValue`].
pub fn copy_value(x: &IrValue) -> (r: IrValue)
    ensures
        ir::value_view(r) == ir::value_view(*x),
    decreases x,
{
    match x {
        IrValue::String(v) => IrValue::String(v.clone()),
        IrValue::Number(v) => IrValue::Number(*v),
        IrValue::Boolean(v) => IrValue::Boolean(*v),
        IrValue::Identifier(v) => IrValue::Identifier(v.clone()),
        IrValue::Nothing => IrValue::Nothing,
        IrValue::Content(v) => IrValue::Content(copy_nodes(v)),
        IrValue::Range(v) => IrValue::Range(*v),
        IrValue::Collection(v) => IrValue::Collection(copy_values(v)),
        IrValue::Pair(v) => IrValue::Pair(copy_pair(v)),
        IrValue::Dictionary(v) => IrValue::Dictionary(copy_dictionary(v)),
        IrValue::Size(v) => IrValue::Size(*v),
        IrValue::Color(v) => IrValue::Color(*v),
        IrValue::Enum(v) => IrValue::Enum(*v),
        IrValue::Component(v) => IrValue::Component(copy_component(v)),
        IrValue::Callable(v) => IrValue::Callable(copy_callable(v)),
    }
}

/// Copies a sequence of [`IrValue`].
pub fn copy_values(x: &Vec<IrValue>) -> (r: Vec<IrValue>)
    ensures
        ir::values_view(r@) == ir::values_view(x@),
    decreases x,
{
    let mut r: Vec<IrValue> = Vec::new();
    let mut i: usize = 0;
    while i < x.len()
        invariant
            0 <= i <= x@.len(),
            ir::values_view(r@) == ir::values_view(x@).take(i as int),
        decreases x@.len() - i,
    {
        r.push(copy_value(&x[i]));
        i += 1;
        assert(ir::values_view(x@).take(i as int)
            =~= ir::values_view(x@).take(i - 1).push(ir::values_view(x@)[i - 1]));
    }
    assert(ir::values_view(x@).take(i as int) =~= ir::values_view(x@));
    r
}

impl Clone for IrValue {
    fn clone(&self) -> (r: Self)
        ensures
            r@ == self@,
    {
        copy_value(self)
    }
}

/// Copies a [`IrPair`].
pub fn copy_pair(x: &IrPair) -> (r: IrPair)
    ensures
        ir::pair_view(r) == ir::pair_view(*x),
    decreases x,
{
    IrPair {
        first: Box::new(copy_value(&x.first)),
        second: Box::new(copy_value(&x.second)),
        span: x.span,
    }
}

/// Copies a sequence of [`IrPair`].
pub fn copy_pairs(x: &Vec<IrPair>) -> (r: Vec<IrPair>)
    ensures
        ir::pairs_view(r@) == ir::pairs_view(x@),
    decreases x,
{
    let mut r: Vec<IrPair> = Vec::new();
    let mut i: usize = 0;
    while i < x.len()
        invariant
            0 <= i <= x@.len(),
            ir::pairs_view(r@) == ir::pairs_view(x@).take(i as int),
        decreases x@.len() - i,
    {
        r.push(copy_pair(&x[i]));
        i += 1;
        assert(ir::pairs_view(x@).take(i as int)
            =~= ir::pairs_view(x@).take(i - 1).push(ir::pairs_view(x@)[i - 1]));
    }
    assert(ir::pairs_view(x@).take(i as int) =~= ir::pairs_view(x@));
    r
}

impl Clone for IrPair {
    fn clone(&self) -> (r: Self)
        ensures
            r@ == self@,
    {
        copy_pair(self)
    }
}

/// Copies a [`IrDictionary`].
pub fn copy_dictionary(x: &IrDictionary) -> (r: IrDictionary)
    ensures
        ir::dictionary_view(r) == ir::dictionary_view(*x),
    decreases x,
{
    IrDictionary {
        entries: copy_pairs(&x.entries),
        span: x.span,
    }
}

impl Clone for IrDictionary {
    fn clone(&self) -> (r: Self)
        ensures
            r@ == self@,
    {
        copy_dictionary(self)
    }
}

/// Copies a [`IrCallable`].
pub fn copy_callable(x: &IrCallable) -> (r: IrCallable)
    ensures
        ir::callable_view(r) == ir::callable_view(*x),
    decreases x,
{
    IrCallable {
        parameters: match &x.parameters {
            Some(inner) => Some(copy_parameters(inner)),
            None => None,
        },
        body: copy_nodes(&x.body),
        span: x.span,
        capture: match &x.capture {
            Some(inner) => Some(Box::new(copy_capture(inner))),
            None => None,
        },
    }
}

impl Clone for IrCallable {
    fn clone(&self) -> (r: Self)
        ensures
            r@ == self@,
    {
        copy_callable(self)
    }
}

/// Copies a [`IrCallableCapture`].
pub fn copy_capture(x: &IrCallableCapture) -> (r: IrCallableCapture)
    ensures
        ir::capture_view(r) == ir::capture_view(*x),
    decreases x,
{
    IrCallableCapture {
        variables: copy_captured_variables(&x.variables),
        functions: copy_captured_functions(&x.functions),
    }
}

impl Clone for IrCallableCapture {
    fn clone(&self) -> (r: Self)
        ensures
            r@ == self@,
    {
        copy_capture(self)
    }
}

/// Copies a [`IrCapturedVariable`].
pub fn copy_captured_variable(x: &IrCapturedVariable) -> (r: IrCapturedVariable)
    ensures
        ir::captured_variable_view(r) == ir::captured_variable_view(*x),
    decreases x,
{
    IrCapturedVariable {
        name: x.name.clone(),
        value: copy_value(&x.value),
    }
}

/// Copies a sequence of [`IrCapturedVariable`].
pub fn copy_captured_variables(x: &Vec<IrCapturedVariable>) -> (r: Vec<IrCapturedVariable>)
    ensures
        ir::captured_variables_view(r@) == ir::captured_variables_view(x@),
    decreases x,
{
    let mut r: Vec<IrCapturedVariable> = Vec::new();
    let mut i: usize = 0;
    while i < x.len()
        invariant
            0 <= i <= x@.len(),
            ir::captured_variables_view(r@) == ir::captured_variables_view(x@).take(i as int),
        decreases x@.len() - i,
    {
        r.push(copy_captured_variable(&x[i]));
        i += 1;
        assert(ir::captured_variables_view(x@).take(i as int)
            =~= ir::captured_variables_view(x@).take(i - 1).push(ir::captured_variables_view(x@)[i - 1]));
    }
    assert(ir::captured_variables_view(x@).take(i as int) =~= ir::captured_variables_view(x@));
    r
}

impl Clone for IrCapturedVariable {
    fn clone(&self) -> (r: Self)
        ensures
            r@ == self@,
    {
        copy_captured_variable(self)
    }
}

/// Copies a [`IrCapturedFunction`].
pub fn copy_captured_function(x: &IrCapturedFunction) -> (r: IrCapturedFunction)
    ensures
        ir::captured_function_view(r) == ir::captured_function_view(*x),
    decreases x,
{
    IrCapturedFunction {
        name: x.name.clone(),
        callable: copy_callable(&x.callable),
    }
}

/// Copies a sequence of [`IrCapturedFunction`].
pub fn copy_captured_functions(x: &Vec<IrCapturedFunction>) -> (r: Vec<IrCapturedFunction>)
    ensures
        ir::captured_functions_view(r@) == ir::captured_functions_view(x@),
    decreases x,
{
    let mut r: Vec<IrCapturedFunction> = Vec::new();
    let mut i: usize = 0;
    while i < x.len()
        invariant
            0 <= i <= x@.len(),
            ir::captured_functions_view(r@) == ir::captured_functions_view(x@).take(i as int),
        decreases x@.len() - i,
    {
        r.push(copy_captured_function(&x[i]));
        i += 1;
        assert(ir::captured_functions_view(x@).take(i as int)
            =~= ir::captured_functions_view(x@).take(i - 1).push(ir::captured_functions_view(x@)[i - 1]));
    }
    assert(ir::captured_functions_view(x@).take(i as int) =~= ir::captured_functions_view(x@));
    r
}

impl Clone for IrCapturedFunction {
    fn clone(&self) -> (r: Self)
        ensures
            r@ == self@,
    {
        copy_captured_function(self)
    }
}

/// Copies a [`IrParameter`].
pub fn copy_parameter(x: &IrParameter) -> (r: IrParameter)
    ensures
        ir::parameter_view(r) == ir::parameter_view(*x),
    decreases x,
{
    IrParameter {
        name: x.name.clone(),
        name_span: x.name_span,
        span: x.span,
        optional: x.optional,
    }
}

/// Copies a sequence of [`IrParameter`].
pub fn copy_parameters(x: &Vec<IrParameter>) -> (r: Vec<IrParameter>)
    ensures
        ir::parameters_view(r@) == ir::parameters_view(x@),
    decreases x,
{
    let mut r: Vec<IrParameter> = Vec::new();
    let mut i: usize = 0;
    while i < x.len()
        invariant
            0 <= i <= x@.len(),
            ir::parameters_view(r@) == ir::parameters_view(x@).take(i as int),
        decreases x@.len() - i,
    {
        r.push(copy_parameter(&x[i]));
        i += 1;
        assert(ir::parameters_view(x@).take(i as int)
            =~= ir::parameters_view(x@).take(i - 1).push(ir::parameters_view(x@)[i - 1]));
    }
    assert(ir::parameters_view(x@).take(i as int) =~= ir::parameters_view(x@));
    r
}

impl Clone for IrParameter {
    fn clone(&self) -> (r: Self)
        ensures
            r@ == self@,
    {
        copy_parameter(self)
    }
}

/// Copies a [`IrNamedArg`].
pub fn copy_named_arg(x: &IrNamedArg) -> (r: IrNamedArg)
    ensures
        ir::named_arg_view(r) == ir::named_arg_view(*x),
    decreases x,
{
    IrNamedArg {
        name: x.name.clone(),
        name_span: x.name_span,
        value: copy_value(&x.value),
        span: x.span,
    }
}

/// Copies a sequence of [`IrNamedArg`].
pub fn copy_named_args(x: &Vec<IrNamedArg>) -> (r: Vec<IrNamedArg>)
    ensures
        ir::named_args_view(r@) == ir::named_args_view(x@),
    decreases x,
{
    let mut r: Vec<IrNamedArg> = Vec::new();
    let mut i: usize = 0;
    while i < x.len()
        invariant
            0 <= i <= x@.len(),
            ir::named_args_view(r@) == ir::named_args_view(x@).take(i as int),
        decreases x@.len() - i,
    {
        r.push(copy_named_arg(&x[i]));
        i += 1;
        assert(ir::named_args_view(x@).take(i as int)
            =~= ir::named_args_view(x@).take(i - 1).push(ir::named_args_view(x@)[i - 1]));
    }
    assert(ir::named_args_view(x@).take(i as int) =~= ir::named_args_view(x@));
    r
}

impl Clone for IrNamedArg {
    fn clone(&self) -> (r: Self)
        ensures
            r@ == self@,
    {
        copy_named_arg(self)
    }
}

/// Copies a [`IrCallSegment`].
pub fn copy_segment(x: &IrCallSegment) -> (r: IrCallSegment)
    ensures
        ir::segment_view(r) == ir::segment_view(*x),
    decreases x,
{
    IrCallSegment {
        name: x.name.clone(),
        name_span: x.name_span,
        positional_args: copy_values(&x.positional_args),
        named_args: copy_named_args(&x.named_args),
        span: x.span,
    }
}

/// Copies a sequence of [`IrCallSegment`].
pub fn copy_segments(x: &Vec<IrCallSegment>) -> (r: Vec<IrCallSegment>)
    ensures
        ir::segments_view(r@) == ir::segments_view(x@),
    decreases x,
{
    let mut r: Vec<IrCallSegment> = Vec::new();
    let mut i: usize = 0;
    while i < x.len()
        invariant
            0 <= i <= x@.len(),
            ir::segments_view(r@) == ir::segments_view(x@).take(i as int),
        decreases x@.len() - i,
    {
        r.push(copy_segment(&x[i]));
        i += 1;
        assert(ir::segments_view(x@).take(i as int)
            =~= ir::segments_view(x@).take(i - 1).push(ir::segments_view(x@)[i - 1]));
    }
    assert(ir::segments_view(x@).take(i as int) =~= ir::segments_view(x@));
    r
}

impl Clone for IrCallSegment {
    fn clone(&self) -> (r: Self)
        ensures
            r@ == self@,
    {
        copy_segment(self)
    }
}

/// Copies a [`IrListItem`].
pub fn copy_item(x: &IrListItem) -> (r: IrListItem)
    ensures
        ir::item_view(r) == ir::item_view(*x),
    decreases x,
{
    IrListItem {
        nodes: copy_nodes(&x.nodes),
        task: x.task,
        span: x.span,
    }
}

/// Copies a sequence of [`IrListItem`].
pub fn copy_items(x: &Vec<IrListItem>) -> (r: Vec<IrListItem>)
    ensures
        ir::items_view(r@) == ir::items_view(x@),
    decreases x,
{
    let mut r: Vec<IrListItem> = Vec::new();
    let mut i: usize = 0;
    while i < x.len()
        invariant
            0 <= i <= x@.len(),
            ir::items_view(r@) == ir::items_view(x@).take(i as int),
        decreases x@.len() - i,
    {
        r.push(copy_item(&x[i]));
        i += 1;
        assert(ir::items_view(x@).take(i as int)
            =~= ir::items_view(x@).take(i - 1).push(ir::items_view(x@)[i - 1]));
    }
    assert(ir::items_view(x@).take(i as int) =~= ir::items_view(x@));
    r
}

impl Clone for IrListItem {
    fn clone(&self) -> (r: Self)
        ensures
            r@ == self@,
    {
        copy_item(self)
    }
}

/// Copies a [`IrTableRow`].
pub fn copy_row(x: &IrTableRow) -> (r: IrTableRow)
    ensures
        ir::row_view(r) == ir::row_view(*x),
    decreases x,
{
    IrTableRow {
        cells: copy_cells(&x.cells),
        span: x.span,
    }
}

/// Copies a sequence of [`IrTableRow`].
pub fn copy_rows(x: &Vec<IrTableRow>) -> (r: Vec<IrTableRow>)
    ensures
        ir::rows_view(r@) == ir::rows_view(x@),
    decreases x,
{
    let mut r: Vec<IrTableRow> = Vec::new();
    let mut i: usize = 0;
    while i < x.len()
        invariant
            0 <= i <= x@.len(),
            ir::rows_view(r@) == ir::rows_view(x@).take(i as int),
        decreases x@.len() - i,
    {
        r.push(copy_row(&x[i]));
        i += 1;
        assert(ir::rows_view(x@).take(i as int)
            =~= ir::rows_view(x@).take(i - 1).push(ir::rows_view(x@)[i - 1]));
    }
    assert(ir::rows_view(x@).take(i as int) =~= ir::rows_view(x@));
    r
}

impl Clone for IrTableRow {
    fn clone(&self) -> (r: Self)
        ensures
            r@ == self@,
    {
        copy_row(self)
    }
}

/// Copies a [`IrTableCell`].
pub fn copy_cell(x: &IrTableCell) -> (r: IrTableCell)
    ensures
        ir::cell_view(r) == ir::cell_view(*x),
    decreases x,
{
    IrTableCell {
        content: copy_inlines(&x.content),
        alignment: x.alignment,
        span: x.span,
    }
}

/// Copies a sequence of [`IrTableCell`].
pub fn copy_cells(x: &Vec<IrTableCell>) -> (r: Vec<IrTableCell>)
    ensures
        ir::cells_view(r@) == ir::cells_view(x@),
    decreases x,
{
    let mut r: Vec<IrTableCell> = Vec::new();
    let mut i: usize = 0;
    while i < x.len()
        invariant
            0 <= i <= x@.len(),
            ir::cells_view(r@) == ir::cells_view(x@).take(i as int),
        decreases x@.len() - i,
    {
        r.push(copy_cell(&x[i]));
        i += 1;
        assert(ir::cells_view(x@).take(i as int)
            =~= ir::cells_view(x@).take(i - 1).push(ir::cells_view(x@)[i - 1]));
    }
    assert(ir::cells_view(x@).take(i as int) =~= ir::cells_view(x@));
    r
}

impl Clone for IrTableCell {
    fn clone(&self) -> (r: Self)
        ensures
            r@ == self@,
    {
        copy_cell(self)
    }
}

/// Copies a [`IrComponent`].
pub fn copy_component(x: &IrComponent) -> (r: IrComponent)
    ensures
        ir::component_view(r) == ir::component_view(*x),
    decreases x,
{
    match x {
        IrComponent::Stacked(v) => IrComponent::Stacked(copy_stacked(v)),
        IrComponent::Container(v) => IrComponent::Container(copy_container(v)),
        IrComponent::Landscape(v) => IrComponent::Landscape(copy_landscape(v)),
    }
}

impl Clone for IrComponent {
    fn clone(&self) -> (r: Self)
        ensures
            r@ == self@,
    {
        copy_component(self)
    }
}

/// Copies a [`IrStackedComponent`].
pub fn copy_stacked(x: &IrStackedComponent) -> (r: IrStackedComponent)
    ensures
        ir::stacked_view(r) == ir::stacked_view(*x),
    decreases x,
{
    IrStackedComponent {
        layout: x.layout,
        main_axis_alignment: x.main_axis_alignment,
        cross_axis_alignment: x.cross_axis_alignment,
        row_gap: x.row_gap,
        column_gap: x.column_gap,
        children: copy_nodes(&x.children),
        span: x.span,
    }
}

impl Clone for IrStackedComponent {
    fn clone(&self) -> (r: Self)
        ensures
            r@ == self@,
    {
        copy_stacked(self)
    }
}

/// Copies a [`IrContainerComponent`].
pub fn copy_container(x: &IrContainerComponent) -> (r: IrContainerComponent)
    ensures
        ir::container_view(r) == ir::container_view(*x),
    decreases x,
{
    IrContainerComponent {
        width: x.width,
        height: x.height,
        full_width: x.full_width,
        alignment: x.alignment,
        children: copy_nodes(&x.children),
        span: x.span,
    }
}

impl Clone for IrContainerComponent {
    fn clone(&self) -> (r: Self)
        ensures
            r@ == self@,
    {
        copy_container(self)
    }
}

/// Copies a [`IrLandscapeComponent`].
pub fn copy_landscape(x: &IrLandscapeComponent) -> (r: IrLandscapeComponent)
    ensures
        ir::landscape_view(r) == ir::landscape_view(*x),
    decreases x,
{
    IrLandscapeComponent {
        children: copy_nodes(&x.children),
        span: x.span,
    }
}

impl Clone for IrLandscapeComponent {
    fn clone(&self) -> (r: Self)
        ensures
            r@ == self@,
    {
        copy_landscape(self)
    }
}

} // verus!
