//! More answers and higher limits keep what is settled: the functions beside the evaluator.

use vstd::prelude::*;

use crate::binding;
use crate::binding::{ArgumentView, Style};
use crate::calls;
use crate::collection;
use crate::dictionary;
use crate::growth;
use crate::growth::Growth;
use crate::host::{
    ClosedEnumTarget, DomainTarget, InvocationNamedView, InvocationValueView, QueryView,
    SessionView,
};
use crate::ir::{
    IrRange, ListItemView, NamedArgView, NodeView, PairView, ParameterView, SourceSpan,
    ValueView,
};
use crate::materialize;
use crate::natives;
use crate::natives::NativeDispatchOwner;
use crate::number::Number;
use crate::resources;
use crate::scope::ContextView;
use crate::text;

verus! {

broadcast use growth::group_within;

/// What `convert_domain` comes to is kept.
pub(crate) proof fn lemma_convert_domain(
    argument: InvocationValueView,
    target: DomainTarget,
    s: SessionView,
    grow: Growth,
)
    ensures
        growth::kept_answer(
            s,
            calls::convert_domain(argument, target, s),
            calls::convert_domain(argument, target, growth::session(s, grow)),
            grow,
        ),
{

}

/// What `optional_size` comes to is kept.
pub(crate) proof fn lemma_optional_size(argument: InvocationValueView, s: SessionView, grow: Growth)
    ensures
        growth::kept_answer(
            s,
            calls::optional_size(argument, s),
            calls::optional_size(argument, growth::session(s, grow)),
            grow,
        ),
{
    if argument.value is Nothing {
    } else {
        lemma_convert_domain(argument, DomainTarget::Size, s, grow);
    }
}

/// What `closed_enum` comes to is kept.
pub(crate) proof fn lemma_closed_enum(
    argument: InvocationValueView,
    target: ClosedEnumTarget,
    s: SessionView,
    grow: Growth,
)
    ensures
        growth::kept_answer(
            s,
            calls::closed_enum(argument, target, s),
            calls::closed_enum(argument, target, growth::session(s, grow)),
            grow,
        ),
{
    lemma_convert_domain(argument, DomainTarget::ClosedEnum(target), s, grow);
}

/// What `main_axis` comes to is kept.
pub(crate) proof fn lemma_main_axis(argument: InvocationValueView, s: SessionView, grow: Growth)
    ensures
        growth::kept_answer(
            s,
            calls::main_axis(argument, s),
            calls::main_axis(argument, growth::session(s, grow)),
            grow,
        ),
{
    lemma_closed_enum(argument, ClosedEnumTarget::StackedMainAxisAlignment, s, grow);
}

/// What `cross_axis` comes to is kept.
pub(crate) proof fn lemma_cross_axis(argument: InvocationValueView, s: SessionView, grow: Growth)
    ensures
        growth::kept_answer(
            s,
            calls::cross_axis(argument, s),
            calls::cross_axis(argument, growth::session(s, grow)),
            grow,
        ),
{
    lemma_closed_enum(argument, ClosedEnumTarget::StackedCrossAxisAlignment, s, grow);
}

/// What `container_alignment` comes to is kept.
pub(crate) proof fn lemma_container_alignment(
    argument: InvocationValueView,
    s: SessionView,
    grow: Growth,
)
    ensures
        growth::kept_answer(
            s,
            calls::container_alignment(argument, s),
            calls::container_alignment(argument, growth::session(s, grow)),
            grow,
        ),
{
    lemma_closed_enum(argument, ClosedEnumTarget::ContainerAlignment, s, grow);
}

/// What `boolean_argument` comes to is kept.
pub(crate) proof fn lemma_boolean_argument(
    argument: InvocationValueView,
    s: SessionView,
    grow: Growth,
)
    ensures
        growth::kept_answer(
            s,
            calls::boolean_argument(argument, s),
            calls::boolean_argument(argument, growth::session(s, grow)),
            grow,
        ),
{

}

/// What `condition_value` comes to is kept.
pub(crate) proof fn lemma_condition_value(
    argument: InvocationValueView,
    s: SessionView,
    grow: Growth,
)
    ensures
        growth::kept_answer(
            s,
            calls::condition_value(argument, s),
            calls::condition_value(argument, growth::session(s, grow)),
            grow,
        ),
{
    lemma_boolean_argument(argument, s, grow);
}

/// What `range_endpoint` comes to is kept.
pub(crate) proof fn lemma_range_endpoint(
    argument: InvocationValueView,
    s: SessionView,
    grow: Growth,
)
    ensures
        growth::kept_answer(
            s,
            calls::range_endpoint(argument, s),
            calls::range_endpoint(argument, growth::session(s, grow)),
            grow,
        ),
{

}

/// What `access_operand` comes to is kept.
pub(crate) proof fn lemma_access_operand(
    name: Seq<char>,
    parameter: Seq<char>,
    positional: Seq<InvocationValueView>,
    named: Seq<InvocationNamedView>,
    span: SourceSpan,
    s: SessionView,
    grow: Growth,
)
    ensures
        growth::kept_answer(
            s,
            calls::access_operand(name, parameter, positional, named, span, s),
            calls::access_operand(
                name,
                parameter,
                positional,
                named,
                span,
                growth::session(s, grow),
            ),
            grow,
        ),
{

}

/// What `iteration_lambda` comes to is kept.
pub(crate) proof fn lemma_iteration_lambda(
    parameters: Option<Seq<ParameterView>>,
    name: Seq<char>,
    destructuring: bool,
    span: SourceSpan,
    s: SessionView,
    grow: Growth,
)
    ensures
        growth::kept_answer(
            s,
            calls::iteration_lambda(parameters, name, destructuring, span, s),
            calls::iteration_lambda(
                parameters,
                name,
                destructuring,
                span,
                growth::session(s, grow),
            ),
            grow,
        ),
{

}

/// What `destructured` comes to is kept.
pub(crate) proof fn lemma_destructured(
    value: ValueView,
    parameters: Seq<ParameterView>,
    span: SourceSpan,
    s: SessionView,
    grow: Growth,
)
    ensures
        growth::kept_answer(
            s,
            calls::destructured(value, parameters, span, s),
            calls::destructured(value, parameters, span, growth::session(s, grow)),
            grow,
        ),
{

}

/// What `fill_missing` comes to is kept.
pub(crate) proof fn lemma_fill_missing(
    parameters: Seq<ParameterView>,
    values: Seq<ValueView>,
    s: SessionView,
    grow: Growth,
)
    ensures
        growth::kept_answer(
            s,
            calls::fill_missing(parameters, values, s),
            calls::fill_missing(parameters, values, growth::session(s, grow)),
            grow,
        ),
    decreases parameters.len() - values.len(),
{
    if values.len() >= parameters.len() {
    } else {
        let parameter = parameters[values.len() as int];
        if parameter.optional {
            lemma_fill_missing(parameters, values.push(ValueView::Nothing), s, grow);
        }
    }
}

/// What `bind_invocation` comes to is kept.
pub(crate) proof fn lemma_bind_invocation(
    parameters: Option<Seq<ParameterView>>,
    arguments: Seq<ValueView>,
    destructuring: bool,
    span: SourceSpan,
    s: SessionView,
    grow: Growth,
)
    ensures
        growth::kept_answer(
            s,
            calls::bind_invocation(parameters, arguments, destructuring, span, s),
            calls::bind_invocation(
                parameters,
                arguments,
                destructuring,
                span,
                growth::session(s, grow),
            ),
            grow,
        ),
{
    match parameters {
        None => {},
        Some(list) => {
            if destructuring && list.len() > 1 && arguments.len() == 1 {
                lemma_destructured(arguments[0], list, span, s, grow);
            } else {
                if arguments.len() > list.len() {
                } else {
                    lemma_fill_missing(list, arguments, s, grow);
                }
            }
        },
    }
}

/// What `bind_named` comes to is kept.
pub(crate) proof fn lemma_bind_named(
    style: Style,
    call: Seq<char>,
    names: Seq<Seq<char>>,
    slots: Seq<Option<ArgumentView>>,
    named: Seq<InvocationNamedView>,
    s: SessionView,
    grow: Growth,
)
    ensures
        growth::kept_answer(
            s,
            binding::bind_named(style, call, names, slots, named, s),
            binding::bind_named(style, call, names, slots, named, growth::session(s, grow)),
            grow,
        ),
    decreases named.len(),
{
    if named.len() == 0 {
    } else {
        lemma_bind_named(style, call, names, slots, named.drop_last(), s, grow);
    }
}

/// What `bind_arguments` comes to is kept.
pub(crate) proof fn lemma_bind_arguments(
    style: Style,
    call: Seq<char>,
    names: Seq<Seq<char>>,
    too_many: Seq<char>,
    positional: Seq<ArgumentView>,
    named: Seq<InvocationNamedView>,
    span: SourceSpan,
    s: SessionView,
    grow: Growth,
)
    ensures
        growth::kept_answer(
            s,
            binding::bind_arguments(style, call, names, too_many, positional, named, span, s),
            binding::bind_arguments(
                style,
                call,
                names,
                too_many,
                positional,
                named,
                span,
                growth::session(s, grow),
            ),
            grow,
        ),
{
    if positional.len() > names.len() {
    } else {
        lemma_bind_named(
            style,
            call,
            names,
            binding::bind_positional(names.len(), positional),
            named,
            s,
            grow,
        );
    }
}

/// What `bind_align` comes to is kept.
pub(crate) proof fn lemma_bind_align(
    positional: Seq<ArgumentView>,
    named: Seq<InvocationNamedView>,
    span: SourceSpan,
    s: SessionView,
    grow: Growth,
)
    ensures
        growth::kept_answer(
            s,
            binding::bind_align(positional, named, span, s),
            binding::bind_align(positional, named, span, growth::session(s, grow)),
            grow,
        ),
{
    lemma_bind_arguments(
        Style::Align,
        "align"@,
        seq!["alignment"@],
        "`.align` accepts exactly one `alignment` argument"@,
        positional,
        named,
        span,
        s,
        grow,
    );
}

/// What `stacked_parts` comes to is kept.
pub(crate) proof fn lemma_stacked_parts(
    name: Seq<char>,
    positional: Seq<ArgumentView>,
    named: Seq<InvocationNamedView>,
    span: SourceSpan,
    s: SessionView,
    grow: Growth,
)
    ensures
        growth::kept_answer(
            s,
            binding::stacked_parts(name, positional, named, span, s),
            binding::stacked_parts(name, positional, named, span, growth::session(s, grow)),
            grow,
        ),
{
    if !natives::owns(NativeDispatchOwner::StackedLayout, name) {
    } else {
        lemma_bind_arguments(
            Style::Stacked,
            name,
            binding::stacked_names(name == "grid"@),
            "`."@ + name + "` parameter `positional`: too many positional arguments"@,
            positional,
            named,
            span,
            s,
            grow,
        );
    }
}

/// What `transform_parts` comes to is kept.
pub(crate) proof fn lemma_transform_parts(
    name: Seq<char>,
    positional: Seq<ValueView>,
    named: Seq<NamedArgView>,
    has_body: bool,
    span: SourceSpan,
    s: SessionView,
    grow: Growth,
)
    ensures
        growth::kept_answer(
            s,
            binding::transform_parts(name, positional, named, has_body, span, s),
            binding::transform_parts(
                name,
                positional,
                named,
                has_body,
                span,
                growth::session(s, grow),
            ),
            grow,
        ),
{
    lemma_bind_arguments(
        Style::Transform,
        name,
        binding::transform_names(name),
        "`."@ + name + "` accepts an iterable and at most one callback"@,
        binding::static_arguments(positional, span),
        binding::static_named(named),
        span,
        s,
        grow,
    );
}

/// What `optionality_parts` comes to is kept.
pub(crate) proof fn lemma_optionality_parts(
    name: Seq<char>,
    positional: Seq<ValueView>,
    named: Seq<NamedArgView>,
    has_body: bool,
    span: SourceSpan,
    s: SessionView,
    grow: Growth,
)
    ensures
        growth::kept_answer(
            s,
            binding::optionality_parts(name, positional, named, has_body, span, s),
            binding::optionality_parts(
                name,
                positional,
                named,
                has_body,
                span,
                growth::session(s, grow),
            ),
            grow,
        ),
{
    lemma_bind_arguments(
        Style::Parameters,
        name,
        seq!["value"@, binding::callback_name(name)],
        "`."@ + name + "` accepts a value and one callback"@,
        binding::static_arguments(positional, span),
        binding::static_named(named),
        span,
        s,
        grow,
    );
}

/// What `range_parts` comes to is kept.
pub(crate) proof fn lemma_range_parts(
    positional: Seq<ValueView>,
    named: Seq<NamedArgView>,
    span: SourceSpan,
    s: SessionView,
    grow: Growth,
)
    ensures
        growth::kept_answer(
            s,
            binding::range_parts(positional, named, span, s),
            binding::range_parts(positional, named, span, growth::session(s, grow)),
            grow,
        ),
{
    lemma_bind_arguments(
        Style::Range,
        "range"@,
        seq!["from"@, "to"@],
        "`.range` accepts at most two positional bounds (received "@ + text::decimal_text(
            positional.len()
        ) + ")"@,
        binding::static_arguments(positional, span),
        binding::static_named(named),
        span,
        s,
        grow,
    );
}

/// What `getat_parts` comes to is kept.
pub(crate) proof fn lemma_getat_parts(
    positional: Seq<InvocationValueView>,
    named: Seq<InvocationNamedView>,
    span: SourceSpan,
    s: SessionView,
    grow: Growth,
)
    ensures
        growth::kept_answer(
            s,
            binding::getat_parts(positional, named, span, s),
            binding::getat_parts(positional, named, span, growth::session(s, grow)),
            grow,
        ),
{
    if positional.len() > 2 {
    } else {
        lemma_bind_arguments(
            Style::GetAt,
            "getat"@,
            seq!["from"@, "index"@, "orelse"@],
            ""@,
            binding::placed(positional, span),
            named,
            span,
            s,
            grow,
        );
    }
}

/// What `check_elements` comes to is kept.
pub(crate) proof fn lemma_check_elements(
    limit: nat,
    requested: nat,
    span: SourceSpan,
    s: SessionView,
    grow: Growth,
)
    ensures
        growth::kept_answer(
            s,
            collection::check_elements(limit, requested, span, s),
            collection::check_elements(
                limit + grow.elements,
                requested,
                span,
                growth::session(s, grow),
            ),
            grow,
        ),
{

}

/// What `range_elements` comes to is kept.
pub(crate) proof fn lemma_range_elements(limit: nat, range: IrRange, s: SessionView, grow: Growth)
    ensures
        growth::kept_answer(
            s,
            collection::range_elements(limit, range, s),
            collection::range_elements(limit + grow.elements, range, growth::session(s, grow)),
            grow,
        ),
{
    match range.end {
        None => {},
        Some(end) => {
            let start: int = match range.start { Some(start) => start as int, None => 1, };
            if start > end {
            } else {
                lemma_check_elements(limit, (end - start + 1) as nat, range.span, s, grow);
            }
        },
    }
}

/// What `iterable_elements` comes to is kept.
pub(crate) proof fn lemma_iterable_elements(
    limit: nat,
    argument: InvocationValueView,
    span: SourceSpan,
    s: SessionView,
    grow: Growth,
)
    ensures
        growth::kept_answer(
            s,
            collection::iterable_elements(limit, argument, span, s),
            collection::iterable_elements(
                limit + grow.elements,
                argument,
                span,
                growth::session(s, grow),
            ),
            grow,
        ),
{
    match argument.value {
        ValueView::Collection(values) => {
            lemma_check_elements(limit, values.len(), span, s, grow);
        },
        ValueView::Pair(pair) => {
            lemma_check_elements(limit, 2, pair.span, s, grow);
        },
        ValueView::Dictionary(dictionary) => {
            lemma_check_elements(limit, dictionary.entries.len(), dictionary.span, s, grow);
        },
        ValueView::Range(range) => {
            lemma_range_elements(limit, range, s, grow);
        },
        ValueView::String(_) => {
            lemma_text_elements(limit, argument, span, s, grow);
        },
        ValueView::Identifier(_) => {
            lemma_text_elements(limit, argument, span, s, grow);
        },
        ValueView::Content(nodes) => {
            lemma_list_elements(limit, nodes, span, s, grow);
        },
        _ => {},
    }
}

/// What `text_elements` comes to is kept.
pub(crate) proof fn lemma_text_elements(
    limit: nat,
    argument: InvocationValueView,
    span: SourceSpan,
    s: SessionView,
    grow: Growth,
)
    ensures
        growth::kept_answer(
            s,
            collection::text_elements(limit, argument, span, s),
            collection::text_elements(
                limit + grow.elements,
                argument,
                span,
                growth::session(s, grow),
            ),
            grow,
        ),
{
    match s.ask_range(QueryView::Range { argument, span }) {
        (Some(Some(range)), t) => {
            lemma_range_elements(limit, range, t, grow);
        },
        (Some(None), t) => {},
        (None, t) => {},
    }
}

/// What `list_elements` comes to is kept.
pub(crate) proof fn lemma_list_elements(
    limit: nat,
    nodes: Seq<NodeView>,
    span: SourceSpan,
    s: SessionView,
    grow: Growth,
)
    ensures
        growth::kept_answer(
            s,
            collection::list_elements(limit, nodes, span, s),
            collection::list_elements(limit + grow.elements, nodes, span, growth::session(s, grow)),
            grow,
        ),
    decreases nodes, 0int,
{
    match collection::only_list(nodes) {
        Some(items) => {
            lemma_check_elements(limit, items.len(), span, s, grow);
            match collection::check_elements(limit, items.len(), span, s) {
                (true, t) => {
                    lemma_item_values(limit, items, span, t, grow);
                },
                (false, t) => {},
            }
        },
        None => {},
    }
}

/// What `item_values` comes to is kept.
pub(crate) proof fn lemma_item_values(
    limit: nat,
    items: Seq<ListItemView>,
    span: SourceSpan,
    s: SessionView,
    grow: Growth,
)
    ensures
        growth::kept_answer(
            s,
            collection::item_values(limit, items, span, s),
            collection::item_values(limit + grow.elements, items, span, growth::session(s, grow)),
            grow,
        ),
    decreases items, 0int,
{
    if items.len() == 0 {
    } else {
        lemma_item_values(limit, items.drop_last(), span, s, grow);
        match collection::item_values(limit, items.drop_last(), span, s) {
            (None, t) => {},
            (Some(values), t) => {
                lemma_item_value(limit, items.last(), span, t, grow);
            },
        }
    }
}

/// What `item_value` comes to is kept.
pub(crate) proof fn lemma_item_value(
    limit: nat,
    item: ListItemView,
    span: SourceSpan,
    s: SessionView,
    grow: Growth,
)
    ensures
        growth::kept_answer(
            s,
            collection::item_value(limit, item, span, s),
            collection::item_value(limit + grow.elements, item, span, growth::session(s, grow)),
            grow,
        ),
    decreases item, 0int,
{
    if collection::only_list(item.nodes) is Some {
        lemma_list_elements(limit, item.nodes, span, s, grow);
    }
}

/// What `length_number` comes to is kept.
pub(crate) proof fn lemma_length_number(length: nat, span: SourceSpan, s: SessionView, grow: Growth)
    ensures
        growth::kept_answer(
            s,
            collection::length_number(length, span, s),
            collection::length_number(length, span, growth::session(s, grow)),
            grow,
        ),
{

}

/// What `element_at` comes to is kept.
pub(crate) proof fn lemma_element_at(
    index: ValueView,
    length: nat,
    span: SourceSpan,
    s: SessionView,
    grow: Growth,
)
    ensures
        growth::kept_answer(
            s,
            collection::element_at(index, length, span, s),
            collection::element_at(index, length, span, growth::session(s, grow)),
            grow,
        ),
{

}

/// What `as_number` comes to is kept.
pub(crate) proof fn lemma_as_number(value: ValueView, s: SessionView, grow: Growth)
    ensures
        growth::kept_answer(
            s,
            collection::as_number(value, s),
            collection::as_number(value, growth::session(s, grow)),
            grow,
        ),
{
    match value {
        ValueView::Number(n) => {},
        ValueView::String(content) => {
            lemma_text_number(content, s, grow);
        },
        ValueView::Identifier(content) => {
            lemma_text_number(content, s, grow);
        },
        _ => {},
    }
}

/// What `text_number` comes to is kept.
pub(crate) proof fn lemma_text_number(content: Seq<char>, s: SessionView, grow: Growth)
    ensures
        growth::kept_answer(
            s,
            collection::text_number(content, s),
            collection::text_number(content, growth::session(s, grow)),
            grow,
        ),
{

}

/// What `as_numbers` comes to is kept.
pub(crate) proof fn lemma_as_numbers(values: Seq<ValueView>, s: SessionView, grow: Growth)
    ensures
        growth::kept_answer(
            s,
            collection::as_numbers(values, s),
            collection::as_numbers(values, growth::session(s, grow)),
            grow,
        ),
    decreases values.len(),
{
    if values.len() == 0 {
    } else {
        lemma_as_numbers(values.drop_last(), s, grow);
        match collection::as_numbers(values.drop_last(), s) {
            (None, t) => {},
            (Some(numbers), t) => {
                lemma_as_number(values.last(), t, grow);
            },
        }
    }
}

/// What `sum_of` comes to is kept.
pub(crate) proof fn lemma_sum_of(values: Seq<ValueView>, s: SessionView, grow: Growth)
    ensures
        growth::kept_answer(
            s,
            collection::sum_of(values, s),
            collection::sum_of(values, growth::session(s, grow)),
            grow,
        ),
{
    lemma_as_numbers(values, s, grow);
}

/// What `average_of` comes to is kept.
pub(crate) proof fn lemma_average_of(
    values: Seq<ValueView>,
    span: SourceSpan,
    s: SessionView,
    grow: Growth,
)
    ensures
        growth::kept_answer(
            s,
            collection::average_of(values, span, s),
            collection::average_of(values, span, growth::session(s, grow)),
            grow,
        ),
{
    lemma_length_number(values.len(), span, s, grow);
    match collection::length_number(values.len(), span, s) {
        (None, t) => {},
        (Some(length), t) => {
            if values.len() == 0 {
            } else {
                lemma_sum_of(values, t, grow);
            }
        },
    }
}

/// What `scalar_text` comes to is kept.
pub(crate) proof fn lemma_scalar_text(
    value: ValueView,
    span: SourceSpan,
    s: SessionView,
    grow: Growth,
)
    ensures
        growth::kept_answer(
            s,
            materialize::scalar_text(value, span, s),
            materialize::scalar_text(value, span, growth::session(s, grow)),
            grow,
        ),
{

}

/// What `content_nodes` comes to is kept.
pub(crate) proof fn lemma_content_nodes(
    value: ValueView,
    span: SourceSpan,
    s: SessionView,
    grow: Growth,
)
    ensures
        growth::kept_answer(
            s,
            materialize::content_nodes(value, span, s),
            materialize::content_nodes(value, span, growth::session(s, grow)),
            grow,
        ),
    decreases value, 0int,
{
    match value {
        ValueView::Content(nodes) => {},
        ValueView::Collection(values) => {
            lemma_collection_nodes(values, span, s, grow);
        },
        ValueView::Pair(pair) => {
            lemma_pair_nodes(pair, s, grow);
        },
        ValueView::Dictionary(dictionary) => {
            lemma_table_rows(dictionary.entries, s, grow);
        },
        ValueView::Component(component) => {},
        ValueView::Range(range) => {},
        _ => {
            lemma_scalar_text(value, span, s, grow);
        },
    }
}

/// What `collection_nodes` comes to is kept.
pub(crate) proof fn lemma_collection_nodes(
    values: Seq<ValueView>,
    span: SourceSpan,
    s: SessionView,
    grow: Growth,
)
    ensures
        growth::kept_answer(
            s,
            materialize::collection_nodes(values, span, s),
            materialize::collection_nodes(values, span, growth::session(s, grow)),
            grow,
        ),
    decreases values, 0int,
{
    if values.len() == 0 {
    } else {
        lemma_collection_nodes(values.drop_last(), span, s, grow);
        match materialize::collection_nodes(values.drop_last(), span, s) {
            (None, t) => {},
            (Some(nodes), t) => {
                lemma_content_nodes(values.last(), span, t, grow);
            },
        }
    }
}

/// What `pair_nodes` comes to is kept.
pub(crate) proof fn lemma_pair_nodes(pair: PairView, s: SessionView, grow: Growth)
    ensures
        growth::kept_answer(
            s,
            materialize::pair_nodes(pair, s),
            materialize::pair_nodes(pair, growth::session(s, grow)),
            grow,
        ),
    decreases pair, 0int,
{
    lemma_content_nodes(*pair.first, pair.span, s, grow);
    match materialize::content_nodes(*pair.first, pair.span, s) {
        (None, t) => {},
        (Some(first), t) => {
            lemma_content_nodes(*pair.second, pair.span, t, grow);
        },
    }
}

/// What `table_rows` comes to is kept.
pub(crate) proof fn lemma_table_rows(entries: Seq<PairView>, s: SessionView, grow: Growth)
    ensures
        growth::kept_answer(
            s,
            materialize::table_rows(entries, s),
            materialize::table_rows(entries, growth::session(s, grow)),
            grow,
        ),
    decreases entries, 0int,
{
    if entries.len() == 0 {
    } else {
        lemma_table_rows(entries.drop_last(), s, grow);
        match materialize::table_rows(entries.drop_last(), s) {
            (None, t) => {},
            (Some(rows), t) => {
                match *entries.last().first {
                    ValueView::String(key) => {
                        lemma_table_cell(*entries.last().second, entries.last().span, t, grow);
                    },
                    _ => {},
                }
            },
        }
    }
}

/// What `table_cell` comes to is kept.
pub(crate) proof fn lemma_table_cell(
    value: ValueView,
    span: SourceSpan,
    s: SessionView,
    grow: Growth,
)
    ensures
        growth::kept_answer(
            s,
            materialize::table_cell(value, span, s),
            materialize::table_cell(value, span, growth::session(s, grow)),
            grow,
        ),
    decreases value, 1int,
{
    match value {
        ValueView::Content(nodes) => {},
        ValueView::Collection(_) => {
            lemma_content_nodes(value, span, s, grow);
        },
        ValueView::Pair(_) => {},
        ValueView::Dictionary(_) => {},
        ValueView::Range(_) => {},
        _ => {
            lemma_scalar_text(value, span, s, grow);
        },
    }
}

/// What `inline_content` comes to is kept.
pub(crate) proof fn lemma_inline_content(
    value: ValueView,
    span: SourceSpan,
    s: SessionView,
    grow: Growth,
)
    ensures
        growth::kept_answer(
            s,
            materialize::inline_content(value, span, s),
            materialize::inline_content(value, span, growth::session(s, grow)),
            grow,
        ),
    decreases value,
{
    match value {
        ValueView::Content(nodes) => {},
        ValueView::Collection(values) => {
            if values.len() != 1 {
            } else {
                lemma_inline_content(values[0], span, s, grow);
            }
        },
        ValueView::Component(component) => {},
        ValueView::Range(range) => {},
        _ => {
            lemma_scalar_text(value, span, s, grow);
        },
    }
}

/// What `preservable` comes to is kept.
pub(crate) proof fn lemma_preservable(value: ValueView, s: SessionView, grow: Growth)
    ensures
        growth::kept_answer(
            s,
            materialize::preservable(value, s),
            materialize::preservable(value, growth::session(s, grow)),
            grow,
        ),
    decreases value,
{
    match value {
        ValueView::Range(range) => {},
        ValueView::Collection(values) => {
            lemma_all_preservable(values, s, grow);
        },
        ValueView::Pair(pair) => {
            lemma_pair_preservable(pair, s, grow);
        },
        ValueView::Dictionary(dictionary) => {
            lemma_entries_preservable(dictionary.entries, s, grow);
        },
        ValueView::Callable(callable) => {},
        _ => {},
    }
}

/// What `all_preservable` comes to is kept.
pub(crate) proof fn lemma_all_preservable(values: Seq<ValueView>, s: SessionView, grow: Growth)
    ensures
        growth::kept_answer(
            s,
            materialize::all_preservable(values, s),
            materialize::all_preservable(values, growth::session(s, grow)),
            grow,
        ),
    decreases values,
{
    if values.len() == 0 {
    } else {
        lemma_all_preservable(values.drop_last(), s, grow);
        match materialize::all_preservable(values.drop_last(), s) {
            (true, t) => {
                lemma_preservable(values.last(), t, grow);
            },
            (false, t) => {},
        }
    }
}

/// What `pair_preservable` comes to is kept.
pub(crate) proof fn lemma_pair_preservable(pair: PairView, s: SessionView, grow: Growth)
    ensures
        growth::kept_answer(
            s,
            materialize::pair_preservable(pair, s),
            materialize::pair_preservable(pair, growth::session(s, grow)),
            grow,
        ),
    decreases pair,
{
    lemma_preservable(*pair.first, s, grow);
    match materialize::preservable(*pair.first, s) {
        (true, t) => {
            lemma_preservable(*pair.second, t, grow);
        },
        (false, t) => {},
    }
}

/// What `entries_preservable` comes to is kept.
pub(crate) proof fn lemma_entries_preservable(entries: Seq<PairView>, s: SessionView, grow: Growth)
    ensures
        growth::kept_answer(
            s,
            materialize::entries_preservable(entries, s),
            materialize::entries_preservable(entries, growth::session(s, grow)),
            grow,
        ),
    decreases entries,
{
    if entries.len() == 0 {
    } else {
        lemma_entries_preservable(entries.drop_last(), s, grow);
        match materialize::entries_preservable(entries.drop_last(), s) {
            (true, t) => {
                lemma_pair_preservable(entries.last(), t, grow);
            },
            (false, t) => {},
        }
    }
}

/// What `scalar_entry` comes to is kept.
pub(crate) proof fn lemma_scalar_entry(content: Seq<char>, s: SessionView, grow: Growth)
    ensures
        growth::kept_answer(
            s,
            dictionary::scalar_entry(content, s),
            dictionary::scalar_entry(content, growth::session(s, grow)),
            grow,
        ),
{

}

/// What `named_path` comes to is kept.
pub(crate) proof fn lemma_named_path(
    builtin: Seq<char>,
    named: Seq<NamedArgView>,
    s: SessionView,
    grow: Growth,
)
    ensures
        growth::kept_answer(
            s,
            resources::named_path(builtin, named, s),
            resources::named_path(builtin, named, growth::session(s, grow)),
            grow,
        ),
    decreases named.len(),
{
    if named.len() == 0 {
    } else {
        lemma_named_path(builtin, named.drop_last(), s, grow);
    }
}

/// What `resource_path` comes to is kept.
pub(crate) proof fn lemma_resource_path(
    builtin: Seq<char>,
    positional: Seq<ValueView>,
    named: Seq<NamedArgView>,
    span: SourceSpan,
    s: SessionView,
    grow: Growth,
)
    ensures
        growth::kept_answer(
            s,
            resources::resource_path(builtin, positional, named, span, s),
            resources::resource_path(builtin, positional, named, span, growth::session(s, grow)),
            grow,
        ),
{
    if positional.len() > 1 {
    } else {
        lemma_named_path(builtin, named, s, grow);
        match resources::named_path(builtin, named, s) {
            (None, t) => {},
            (Some(path), t) => {
                if positional.len() == 1 && path is Some {
                } else {
                    if positional.len() == 1 {
                        lemma_adapted_path(builtin, positional[0], span, t, grow);
                    } else {
                        match path {
                            Some(value) => {
                                lemma_adapted_path(builtin, value, span, t, grow);
                            },
                            None => {},
                        }
                    }
                }
            },
        }
    }
}

/// What `adapted_path` comes to is kept.
pub(crate) proof fn lemma_adapted_path(
    builtin: Seq<char>,
    value: ValueView,
    span: SourceSpan,
    s: SessionView,
    grow: Growth,
)
    ensures
        growth::kept_answer(
            s,
            resources::adapted_path(builtin, value, span, s),
            resources::adapted_path(builtin, value, span, growth::session(s, grow)),
            grow,
        ),
{

}

/// What `lines_argument` comes to is kept.
pub(crate) proof fn lemma_lines_argument(named: Seq<NamedArgView>, s: SessionView, grow: Growth)
    ensures
        growth::kept_answer(
            s,
            resources::lines_argument(named, s),
            resources::lines_argument(named, growth::session(s, grow)),
            grow,
        ),
    decreases named.len(),
{
    if named.len() == 0 {
    } else {
        lemma_lines_argument(named.drop_last(), s, grow);
    }
}

/// What `sandbox_argument` comes to is kept.
pub(crate) proof fn lemma_sandbox_argument(named: Seq<NamedArgView>, s: SessionView, grow: Growth)
    ensures
        growth::kept_answer(
            s,
            resources::sandbox_argument(named, s),
            resources::sandbox_argument(named, growth::session(s, grow)),
            grow,
        ),
    decreases named.len(),
{
    if named.len() == 0 {
    } else {
        lemma_sandbox_argument(named.drop_last(), s, grow);
    }
}

/// What `calling_source` comes to is kept.
pub(crate) proof fn lemma_calling_source(
    c: ContextView,
    span: SourceSpan,
    s: SessionView,
    grow: Growth,
)
    ensures
        growth::kept_answer(
            s,
            resources::calling_source(c, span, s),
            resources::calling_source(c, span, growth::session(s, grow)),
            grow,
        ),
{

}

} // verus!
