//! Laws of equality: equal blocks, parts of lines and values have the same kind, the same place and
//! the same texts, and what stands in them is equal.

use vstd::prelude::*;

use crate::ir::{
    CallSegmentView, CallableView, ComponentView, InlineView, ListItemView, NamedArgView, NodeView,
    TableCellView, TableRowView, ValueView,
};
use crate::ir_equal;
use crate::number;
use crate::number::Number;

verus! {

/// Equal blocks are of one kind and stand at one place.
pub proof fn lemma_equal_blocks(a: NodeView, b: NodeView)
    requires
        ir_equal::node_equal(a, b),
    ensures
        match a {
            NodeView::Heading { level, content, span } => b is Heading && b->Heading_level == level
                && b->Heading_span == span && ir_equal::inlines_equal(content, b->Heading_content),
            NodeView::Paragraph { content, span } => b is Paragraph && b->Paragraph_span == span
                && ir_equal::inlines_equal(content, b->Paragraph_content),
            NodeView::Blockquote { content, span } => b is Blockquote && b->Blockquote_span == span
                && ir_equal::nodes_equal(content, b->Blockquote_content),
            NodeView::UnorderedList { items, span } => b is UnorderedList && b->UnorderedList_span
                == span && ir_equal::items_equal(items, b->UnorderedList_items),
            NodeView::OrderedList { items, start, span } => b is OrderedList
                && b->OrderedList_span == span && b->OrderedList_start == start
                && ir_equal::items_equal(items, b->OrderedList_items),
            NodeView::Table { header, rows, span } => b is Table && b->Table_span == span
                && ir_equal::row_equal(header, b->Table_header) && ir_equal::rows_equal(
                rows,
                b->Table_rows,
            ),
            NodeView::FunctionCall {
                name,
                positional_args,
                named_args,
                lambda_parameters,
                body,
                span,
            } => {
                &&& b is FunctionCall && b->FunctionCall_span == span
                &&& b->FunctionCall_name == name
                &&& ir_equal::values_equal(positional_args, b->FunctionCall_positional_args)
                &&& ir_equal::named_args_equal(named_args, b->FunctionCall_named_args)
                &&& lambda_parameters is Some <==> b->FunctionCall_lambda_parameters is Some
                &&& body is Some <==> b->FunctionCall_body is Some
                &&& body is Some ==> ir_equal::nodes_equal(body->0, b->FunctionCall_body->0)
            },
            NodeView::ChainedFunctionCall { head, chain, body, span } => {
                &&& b is ChainedFunctionCall && b->ChainedFunctionCall_span == span
                &&& ir_equal::segment_equal(head, b->ChainedFunctionCall_head)
                &&& ir_equal::segments_equal(chain, b->ChainedFunctionCall_chain)
                &&& body is Some <==> b->ChainedFunctionCall_body is Some
                &&& body is Some ==> ir_equal::nodes_equal(
                    body->0,
                    b->ChainedFunctionCall_body->0,
                )
            },
            NodeView::FunctionDeclaration { name, parameters, body, span } => {
                &&& b is FunctionDeclaration && b->FunctionDeclaration_span == span
                &&& ir_equal::value_equal(name, b->FunctionDeclaration_name)
                &&& ir_equal::parameters_equal(parameters, b->FunctionDeclaration_parameters)
                &&& ir_equal::nodes_equal(body, b->FunctionDeclaration_body)
            },
            NodeView::Component { component } => b is Component && ir_equal::component_equal(
                component,
                b->Component_component,
            ),
            _ => b == a,
        },
{
}

/// Equal parts of lines are of one kind and stand at one place.
pub proof fn lemma_equal_inlines(a: InlineView, b: InlineView)
    requires
        ir_equal::inline_equal(a, b),
    ensures
        match a {
            InlineView::Emphasis { content, span } => b is Emphasis && b->Emphasis_span == span
                && ir_equal::inlines_equal(content, b->Emphasis_content),
            InlineView::Strong { content, span } => b is Strong && b->Strong_span == span
                && ir_equal::inlines_equal(content, b->Strong_content),
            InlineView::Strikethrough { content, span } => b is Strikethrough
                && b->Strikethrough_span == span && ir_equal::inlines_equal(
                content,
                b->Strikethrough_content,
            ),
            InlineView::Link { content, destination, title, span } => b is Link && b->Link_span
                == span && b->Link_destination == destination && b->Link_title == title
                && ir_equal::inlines_equal(content, b->Link_content),
            InlineView::Image { content, destination, title, span } => b is Image && b->Image_span
                == span && b->Image_destination == destination && b->Image_title == title
                && ir_equal::inlines_equal(content, b->Image_content),
            InlineView::DirectiveCall { name, positional_args, named_args, body, span } => {
                &&& b is DirectiveCall && b->DirectiveCall_span == span
                &&& b->DirectiveCall_name == name
                &&& ir_equal::values_equal(positional_args, b->DirectiveCall_positional_args)
                &&& ir_equal::named_args_equal(named_args, b->DirectiveCall_named_args)
                &&& body is Some <==> b->DirectiveCall_body is Some
                &&& body is Some ==> ir_equal::inlines_equal(body->0, b->DirectiveCall_body->0)
            },
            InlineView::ChainedDirectiveCall { head, chain, body, span } => {
                &&& b is ChainedDirectiveCall && b->ChainedDirectiveCall_span == span
                &&& ir_equal::segment_equal(head, b->ChainedDirectiveCall_head)
                &&& ir_equal::segments_equal(chain, b->ChainedDirectiveCall_chain)
                &&& body is Some <==> b->ChainedDirectiveCall_body is Some
                &&& body is Some ==> ir_equal::inlines_equal(
                    body->0,
                    b->ChainedDirectiveCall_body->0,
                )
            },
            InlineView::Whitespace { width, height, span } => {
                &&& b is Whitespace && b->Whitespace_span == span
                &&& width is Some <==> b->Whitespace_width is Some
                &&& height is Some <==> b->Whitespace_height is Some
                &&& width is Some ==> width->0.unit == b->Whitespace_width->0.unit
                    && number::number_equal(width->0.value, b->Whitespace_width->0.value)
                &&& height is Some ==> height->0.unit == b->Whitespace_height->0.unit
                    && number::number_equal(height->0.value, b->Whitespace_height->0.value)
            },
            _ => b == a,
        },
{
}

/// Equal values are of one type: equal texts, words, truth values, ranges, colors and words of
/// closed sets are the same, and the parts of larger values are equal one by one.
pub proof fn lemma_equal_values(a: ValueView, b: ValueView)
    requires
        ir_equal::value_equal(a, b),
    ensures
        match a {
            ValueView::Number(n) => b is Number && number::number_equal(n, b->Number_0),
            ValueView::Content(nodes) => b is Content && ir_equal::nodes_equal(
                nodes,
                b->Content_0,
            ),
            ValueView::Collection(values) => b is Collection && ir_equal::values_equal(
                values,
                b->Collection_0,
            ),
            ValueView::Pair(pair) => b is Pair && pair.span == b->Pair_0.span
                && ir_equal::value_equal(*pair.first, *b->Pair_0.first) && ir_equal::value_equal(
                *pair.second,
                *b->Pair_0.second,
            ),
            ValueView::Dictionary(d) => {
                &&& b is Dictionary && d.span == b->Dictionary_0.span
                &&& d.entries.len() == b->Dictionary_0.entries.len()
                &&& forall|i: int|
                    0 <= i < d.entries.len() ==> {
                        let other = b->Dictionary_0.entries[i];
                        &&& (#[trigger] d.entries[i]).span == other.span
                        &&& ir_equal::value_equal(*d.entries[i].first, *other.first)
                        &&& ir_equal::value_equal(*d.entries[i].second, *other.second)
                    }
            },
            ValueView::Size(size) => b is Size && size.unit == b->Size_0.unit
                && number::number_equal(size.value, b->Size_0.value),
            ValueView::Component(component) => b is Component && ir_equal::component_equal(
                component,
                b->Component_0,
            ),
            ValueView::Callable(callable) => {
                &&& b is Callable && callable.span == b->Callable_0.span
                &&& ir_equal::nodes_equal(callable.body, b->Callable_0.body)
                &&& callable.parameters is Some <==> b->Callable_0.parameters is Some
                &&& callable.capture is Some <==> b->Callable_0.capture is Some
            },
            _ => b == a,
        },
{
    reveal_with_fuel(ir_equal::dictionary_equal, 2);
    reveal_with_fuel(ir_equal::pairs_equal, 2);
    reveal_with_fuel(ir_equal::pair_equal, 2);
    if a is Dictionary && b is Dictionary {
        let x = a->Dictionary_0;
        let y = b->Dictionary_0;
        assert(ir_equal::dictionary_equal(x, y));
        assert(ir_equal::pairs_equal(x.entries, y.entries));
        assert forall|i: int| 0 <= i < x.entries.len() implies {
            &&& (#[trigger] x.entries[i]).span == y.entries[i].span
            &&& ir_equal::value_equal(*x.entries[i].first, *y.entries[i].first)
            &&& ir_equal::value_equal(*x.entries[i].second, *y.entries[i].second)
        } by {
            assert(ir_equal::pair_equal(x.entries[i], y.entries[i]));
        }
    }
    if a is Callable && b is Callable {
        assert(ir_equal::callable_equal(a->Callable_0, b->Callable_0));
    }
    if a is Size && b is Size {
        assert(ir_equal::size_equal(a->Size_0, b->Size_0));
    }
}

/// Equal numbers are the same number or two zeros; what is not a number equals nothing, itself
/// included.
pub proof fn lemma_equal_numbers(a: Number, b: Number)
    ensures
        number::number_equal(a, b) <==> a.bits % 0x8000_0000_0000_0000 <= 0x7ff0_0000_0000_0000
            && b.bits % 0x8000_0000_0000_0000 <= 0x7ff0_0000_0000_0000 && (a == b || (a.bits
            % 0x8000_0000_0000_0000 == 0 && b.bits % 0x8000_0000_0000_0000 == 0)),
{
}

/// Equal items, rows, cells and components have the same marks, and what stands in them is equal.
pub proof fn lemma_equal_parts(
    item: ListItemView,
    other_item: ListItemView,
    row: TableRowView,
    other_row: TableRowView,
    cell: TableCellView,
    other_cell: TableCellView,
    component: ComponentView,
    other: ComponentView,
)
    ensures
        ir_equal::item_equal(item, other_item) ==> item.task == other_item.task && item.span
            == other_item.span && ir_equal::nodes_equal(item.nodes, other_item.nodes),
        ir_equal::row_equal(row, other_row) ==> row.span == other_row.span && ir_equal::cells_equal(
            row.cells,
            other_row.cells,
        ),
        ir_equal::cell_equal(cell, other_cell) ==> cell.alignment == other_cell.alignment
            && cell.span == other_cell.span && ir_equal::inlines_equal(
            cell.content,
            other_cell.content,
        ),
        ir_equal::component_equal(component, other) ==> match component {
            ComponentView::Stacked(c) => {
                &&& other is Stacked
                &&& c.layout == other->Stacked_0.layout
                &&& c.main_axis_alignment == other->Stacked_0.main_axis_alignment
                &&& c.cross_axis_alignment == other->Stacked_0.cross_axis_alignment
                &&& c.row_gap is Some <==> other->Stacked_0.row_gap is Some
                &&& c.column_gap is Some <==> other->Stacked_0.column_gap is Some
                &&& c.span == other->Stacked_0.span
                &&& ir_equal::nodes_equal(c.children, other->Stacked_0.children)
            },
            ComponentView::Container(c) => {
                &&& other is Container
                &&& c.full_width == other->Container_0.full_width
                &&& c.alignment == other->Container_0.alignment
                &&& c.width is Some <==> other->Container_0.width is Some
                &&& c.height is Some <==> other->Container_0.height is Some
                &&& c.span == other->Container_0.span
                &&& ir_equal::nodes_equal(c.children, other->Container_0.children)
            },
            ComponentView::Landscape(c) => {
                &&& other is Landscape
                &&& c.span == other->Landscape_0.span
                &&& ir_equal::nodes_equal(c.children, other->Landscape_0.children)
            },
        },
{
    reveal_with_fuel(ir_equal::component_equal, 2);
    reveal_with_fuel(ir_equal::stacked_equal, 2);
    reveal_with_fuel(ir_equal::container_equal, 2);
    reveal_with_fuel(ir_equal::landscape_equal, 2);
}

/// Equal callables have the same parameters, and have captured equal values and functions under
/// the same names.
pub proof fn lemma_equal_callables(a: CallableView, b: CallableView, i: int)
    requires
        ir_equal::callable_equal(a, b),
    ensures
        a.parameters == b.parameters,
        a.capture is Some <==> b.capture is Some,
        a.capture is Some ==> {
            let x = *a.capture->0;
            let y = *b.capture->0;
            &&& x.variables.len() == y.variables.len()
            &&& x.functions.len() == y.functions.len()
            &&& 0 <= i < x.variables.len() ==> x.variables[i].name == y.variables[i].name
                && ir_equal::value_equal(x.variables[i].value, y.variables[i].value)
            &&& 0 <= i < x.functions.len() ==> x.functions[i].name == y.functions[i].name
                && ir_equal::callable_equal(x.functions[i].callable, y.functions[i].callable)
        },
{
    if a.parameters is Some && b.parameters is Some {
        let p = a.parameters->0;
        let q = b.parameters->0;
        assert(ir_equal::parameters_equal(p, q));
        assert forall|k: int| 0 <= k < p.len() implies #[trigger] p[k] == q[k] by {
            assert(ir_equal::parameter_equal(p[k], q[k]));
        }
        assert(p =~= q);
    }
    if a.capture is Some && b.capture is Some {
        let x = *a.capture->0;
        let y = *b.capture->0;
        assert(ir_equal::capture_equal(x, y));
        assert(ir_equal::captured_variables_equal(x.variables, y.variables));
        assert(ir_equal::captured_functions_equal(x.functions, y.functions));
        if 0 <= i < x.variables.len() {
            assert(ir_equal::captured_variable_equal(x.variables[i], y.variables[i]));
        }
        if 0 <= i < x.functions.len() {
            assert(ir_equal::captured_function_equal(x.functions[i], y.functions[i]));
        }
    }
}

/// Equal named arguments have the same names at the same places and equal values, one by one; so
/// have the calls of equal chains.
pub proof fn lemma_equal_arguments(
    a: Seq<NamedArgView>,
    b: Seq<NamedArgView>,
    x: Seq<CallSegmentView>,
    y: Seq<CallSegmentView>,
    i: int,
)
    ensures
        ir_equal::named_args_equal(a, b) ==> a.len() == b.len(),
        ir_equal::named_args_equal(a, b) && 0 <= i < a.len() ==> a[i].name == b[i].name
            && a[i].name_span == b[i].name_span && a[i].span == b[i].span && ir_equal::value_equal(
            a[i].value,
            b[i].value,
        ),
        ir_equal::segments_equal(x, y) ==> x.len() == y.len(),
        ir_equal::segments_equal(x, y) && 0 <= i < x.len() ==> x[i].name == y[i].name
            && x[i].name_span == y[i].name_span && x[i].span == y[i].span
            && ir_equal::values_equal(x[i].positional_args, y[i].positional_args)
            && ir_equal::named_args_equal(x[i].named_args, y[i].named_args),
{
    if ir_equal::named_args_equal(a, b) && 0 <= i < a.len() {
        assert(ir_equal::named_arg_equal(a[i], b[i]));
    }
    if ir_equal::segments_equal(x, y) && 0 <= i < x.len() {
        assert(ir_equal::segment_equal(x[i], y[i]));
    }
}

/// Values that are equal one by one are as many.
pub proof fn lemma_equal_sequences(a: Seq<ValueView>, b: Seq<ValueView>, i: int)
    ensures
        ir_equal::values_equal(a, b) ==> a.len() == b.len(),
        ir_equal::values_equal(a, b) && 0 <= i < a.len() ==> ir_equal::value_equal(a[i], b[i]),
{
}

} // verus!
