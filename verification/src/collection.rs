//! Iterables and the operations on them.

use vstd::prelude::*;

use crate::diagnostic::Fault;
use crate::host;
use crate::host::{InvocationValue, InvocationValueView, Query, QueryView, Session, SessionView};
use crate::ir;
use crate::ir::{
    InlineView, IrInline, IrListItem, IrNode, IrPair, IrRange, IrValue, ListItemView, NodeView,
    PairView, SourceSpan, ValueView,
};
use crate::ir_copy::{copy_nodes, copy_pair, copy_value, copy_values};
use crate::ir_equal;
use crate::ir_equal::{same_callable, same_nodes};
use crate::number;
use crate::number::Number;
use crate::sequences;
use crate::text;
use crate::text::{decimal, join4, text_before, trimmed};

verus! {

broadcast use {
    ir::group_ir_views,
    host::group_follows,
    host::group_halts,
};

/// What is said where an operation asks for more elements than the limit allows.
pub open spec fn limit_message(requested: nat, limit: nat) -> Seq<char> {
    "materialized element limit exceeded: requested "@ + text::decimal_text(requested)
        + ", maximum is "@ + text::decimal_text(limit)
}

/// The session once a number of elements has been checked against the limit.
pub open spec fn check_elements(limit: nat, requested: nat, span: SourceSpan, s: SessionView) -> (
    bool,
    SessionView,
) {
    if requested > limit {
        (false, s.fault(Fault::MaterializedLimit, limit_message(requested, limit), span))
    } else {
        (true, s)
    }
}

/// Whether so many elements may be materialised; if not, that is reported.
pub fn check_materialized_elements(
    limit: usize,
    requested: u64,
    span: SourceSpan,
    session: &mut Session,
) -> (r: bool)
    ensures
        (r, final(session)@) == check_elements(limit as nat, requested as nat, span, old(session)@),
        host::follows(old(session)@, final(session)@),
        !r ==> host::halts(old(session)@, final(session)@),
{
    if requested > limit as u64 {
        session.fault(
            Fault::MaterializedLimit,
            join4(
                "materialized element limit exceeded: requested ",
                decimal(requested).as_str(),
                ", maximum is ",
                decimal(limit as u64).as_str(),
            ),
            span,
        );
        false
    } else {
        true
    }
}

/// The integers of a closed range as numbers.
pub open spec fn range_numbers(start: int, end: int) -> Seq<ValueView> {
    if start > end {
        Seq::empty()
    } else {
        Seq::new(
            (end - start + 1) as nat,
            |i: int| ValueView::Number(number::number_of(start + i)),
        )
    }
}

/// The elements of a range: those of its closed form, which starts at one where it
/// has no start.
pub open spec fn range_elements(limit: nat, range: IrRange, s: SessionView) -> (
    Option<Seq<ValueView>>,
    SessionView,
) {
    match range.end {
        None => (
            None,
            s.fault(Fault::Iteration, "Cannot iterate through an endless Range"@, range.span),
        ),
        Some(end) => {
            let start: int = match range.start {
                Some(start) => start as int,
                None => 1,
            };
            if start > end {
                (Some(Seq::empty()), s)
            } else {
                match check_elements(limit, (end - start + 1) as nat, range.span, s) {
                    (true, t) => (Some(range_numbers(start, end as int)), t),
                    (false, t) => (None, t),
                }
            }
        },
    }
}

/// The elements of a range; nothing where it has no end or too many, and then that is
/// reported. A descending range has no elements.
pub fn materialize_range(limit: usize, range: IrRange, session: &mut Session) -> (r: Option<
    Vec<IrValue>,
>)
    ensures
        (match r {
            Some(values) => Some(ir::values_view(values@)),
            None => None,
        }, final(session)@) == range_elements(limit as nat, range, old(session)@),
        host::follows(old(session)@, final(session)@),
        r is None ==> host::halts(old(session)@, final(session)@),
{
    let end: i32 = match range.end {
        Some(end) => end,
        None => {
            session.fault(
                Fault::Iteration,
                "Cannot iterate through an endless Range".to_owned(),
                range.span,
            );
            return None;
        },
    };
    let start: i32 = match range.start {
        Some(start) => start,
        None => 1,
    };
    let mut values: Vec<IrValue> = Vec::new();
    if start > end {
        return Some(values);
    }
    let count: u64 = (end as i64 - start as i64 + 1) as u64;
    if !check_materialized_elements(limit, count, range.span, session) {
        return None;
    }
    let ghost want = range_numbers(start as int, end as int);
    let mut i: u64 = 0;
    assert(want.take(0) =~= Seq::empty());
    while i < count
        invariant
            host::follows(old(session)@, session@),
            0 <= i <= count,
            count == end - start + 1,
            want == range_numbers(start as int, end as int),
            start <= end,
            ir::values_view(values@) == want.take(i as int),
        decreases count - i,
    {
        values.push(IrValue::Number(Number::from_integer(start as i64 + i as i64)));
        i += 1;
        assert(want.take(i as int) =~= want.take(i - 1).push(want[i - 1]));
    }
    assert(want.take(i as int) =~= want);
    Some(values)
}

/// What is said of a value that cannot be iterated over.
pub open spec fn not_iterable() -> Seq<char> {
    "Value is not an iterable Range, Collection, Pair, Dictionary, or exactly one Markdown list"@
}

/// The items of the one list that the blocks are.
pub open spec fn only_list(nodes: Seq<NodeView>) -> Option<Seq<ListItemView>> {
    if nodes.len() == 1 {
        match nodes[0] {
            NodeView::UnorderedList { items, .. } => Some(items),
            NodeView::OrderedList { items, .. } => Some(items),
            _ => None,
        }
    } else {
        None
    }
}

/// The elements of an iterable value.
pub open spec fn iterable_elements(
    limit: nat,
    argument: InvocationValueView,
    span: SourceSpan,
    s: SessionView,
) -> (Option<Seq<ValueView>>, SessionView) {
    match argument.value {
        ValueView::Collection(values) => match check_elements(limit, values.len(), span, s) {
            (true, t) => (Some(values), t),
            (false, t) => (None, t),
        },
        ValueView::Pair(pair) => match check_elements(limit, 2, pair.span, s) {
            (true, t) => (Some(seq![*pair.first, *pair.second]), t),
            (false, t) => (None, t),
        },
        ValueView::Dictionary(dictionary) => match check_elements(
            limit,
            dictionary.entries.len(),
            dictionary.span,
            s,
        ) {
            (true, t) => (
                Some(dictionary.entries.map_values(|entry: PairView| ValueView::Pair(entry))),
                t,
            ),
            (false, t) => (None, t),
        },
        ValueView::Range(range) => range_elements(limit, range, s),
        ValueView::String(_) => text_elements(limit, argument, span, s),
        ValueView::Identifier(_) => text_elements(limit, argument, span, s),
        ValueView::Content(nodes) => list_elements(limit, nodes, span, s),
        _ => (None, s.fault(Fault::Iteration, not_iterable(), span)),
    }
}

/// The elements of a text: those of the range that the host reads in it.
pub open spec fn text_elements(
    limit: nat,
    argument: InvocationValueView,
    span: SourceSpan,
    s: SessionView,
) -> (Option<Seq<ValueView>>, SessionView) {
    match s.ask_range(QueryView::Range { argument, span }) {
        (Some(Some(range)), t) => range_elements(limit, range, t),
        (Some(None), t) => (None, t.fault(Fault::Iteration, not_iterable(), span)),
        (None, t) => (None, t),
    }
}

/// The elements of blocks that are one list.
pub open spec fn list_elements(
    limit: nat,
    nodes: Seq<NodeView>,
    span: SourceSpan,
    s: SessionView,
) -> (Option<Seq<ValueView>>, SessionView)
    decreases nodes, 0int,
{
    match only_list(nodes) {
        Some(items) => match check_elements(limit, items.len(), span, s) {
            (true, t) => item_values(limit, items, span, t),
            (false, t) => (None, t),
        },
        None => (None, s.fault(Fault::Iteration, not_iterable(), span)),
    }
}

/// The values of list items.
pub open spec fn item_values(
    limit: nat,
    items: Seq<ListItemView>,
    span: SourceSpan,
    s: SessionView,
) -> (Option<Seq<ValueView>>, SessionView)
    decreases items, 0int,
{
    if items.len() == 0 {
        (Some(Seq::empty()), s)
    } else {
        match item_values(limit, items.drop_last(), span, s) {
            (None, t) => (None, t),
            (Some(values), t) => match item_value(limit, items.last(), span, t) {
                (Some(value), u) => (Some(values.push(value)), u),
                (None, u) => (None, u),
            },
        }
    }
}

/// The value of a list item: a collection where it is one list, its text where it is one
/// paragraph of one text, else its content.
pub open spec fn item_value(limit: nat, item: ListItemView, span: SourceSpan, s: SessionView) -> (
    Option<ValueView>,
    SessionView,
)
    decreases item, 0int,
{
    if only_list(item.nodes) is Some {
        match list_elements(limit, item.nodes, span, s) {
            (Some(values), t) => (Some(ValueView::Collection(values)), t),
            (None, t) => (None, t),
        }
    } else {
        (
            Some(
                match only_text(item.nodes) {
                    Some(content) => ValueView::String(content),
                    None => ValueView::Content(item.nodes),
                },
            ),
            s,
        )
    }
}

/// The one text of the one paragraph that the blocks are.
pub open spec fn only_text(nodes: Seq<NodeView>) -> Option<Seq<char>> {
    if nodes.len() == 1 {
        match nodes[0] {
            NodeView::Paragraph { content, .. } => if content.len() == 1 {
                match content[0] {
                    InlineView::Text { content, .. } => Some(content),
                    _ => None,
                }
            } else {
                None
            },
            _ => None,
        }
    } else {
        None
    }
}

/// The items of the one list that the blocks are.
fn list_items(nodes: &Vec<IrNode>) -> (r: Option<&Vec<IrListItem>>)
    ensures
        (match r {
            Some(items) => Some(ir::items_view(items@)),
            None => None,
        }) == only_list(ir::nodes_view(nodes@)),
        r matches Some(items) ==> decreases_to!(nodes => items),
{
    if nodes.len() == 1 {
        assert(decreases_to!(nodes => nodes[0]));
        match &nodes[0] {
            IrNode::UnorderedList { items, .. } => {
                return Some(items);
            },
            IrNode::OrderedList { items, .. } => {
                return Some(items);
            },
            _ => {},
        }
    }
    None
}

/// The elements of blocks that are one list.
fn coerce_list(limit: usize, nodes: &Vec<IrNode>, span: SourceSpan, session: &mut Session) -> (r:
    Option<Vec<IrValue>>)
    ensures
        (match r {
            Some(values) => Some(ir::values_view(values@)),
            None => None,
        }, final(session)@) == list_elements(
            limit as nat,
            ir::nodes_view(nodes@),
            span,
            old(session)@,
        ),
        host::follows(old(session)@, final(session)@),
        r is None ==> host::halts(old(session)@, final(session)@),
    decreases nodes, 0int,
{
    let items = match list_items(nodes) {
        Some(items) => items,
        None => {
            session.fault(
                Fault::Iteration,
                "Value is not an iterable Range, Collection, Pair, Dictionary, or exactly one Markdown list".to_owned(),
                span,
            );
            return None;
        },
    };
    if !check_materialized_elements(limit, items.len() as u64, span, session) {
        return None;
    }
    let ghost all = ir::items_view(items@);
    let ghost start = session@;
    let mut values: Vec<IrValue> = Vec::new();
    let mut i: usize = 0;
    assert(all.take(0) =~= Seq::empty());
    while i < items.len()
        invariant
            host::follows(old(session)@, session@),
            0 <= i <= items@.len(),
            all == ir::items_view(items@),
            decreases_to!(nodes => items),
            (Some(ir::values_view(values@)), session@) == item_values(
                limit as nat,
                all.take(i as int),
                span,
                start,
            ),
            list_elements(limit as nat, ir::nodes_view(nodes@), span, old(session)@) == item_values(
                limit as nat,
                all,
                span,
                start,
            ),
        decreases items@.len() - i,
    {
        proof {
            sequences::lemma_take_step(all, i as int);
        }
        match list_item_value(limit, &items[i], span, session) {
            Some(value) => {
                values.push(value);
            },
            None => {
                proof {
                    lemma_item_values_stops(limit as nat, all, span, start, i + 1);
                }
                return None;
            },
        }
        i += 1;
    }
    proof {
        sequences::lemma_take_all(all);
    }
    Some(values)
}

proof fn lemma_item_values_stops(
    limit: nat,
    items: Seq<ListItemView>,
    span: SourceSpan,
    s: SessionView,
    i: int,
)
    requires
        0 <= i <= items.len(),
        item_values(limit, items.take(i), span, s).0 is None,
    ensures
        item_values(limit, items, span, s) == item_values(limit, items.take(i), span, s),
    decreases items.len() - i,
{
    if i < items.len() {
        sequences::lemma_take_step(items, i);
        lemma_item_values_stops(limit, items, span, s, i + 1);
    } else {
        sequences::lemma_take_all(items);
    }
}

/// The value of a list item.
fn list_item_value(limit: usize, item: &IrListItem, span: SourceSpan, session: &mut Session) -> (r:
    Option<IrValue>)
    ensures
        (match r {
            Some(value) => Some(value@),
            None => None,
        }, final(session)@) == item_value(limit as nat, item@, span, old(session)@),
        host::follows(old(session)@, final(session)@),
        r is None ==> host::halts(old(session)@, final(session)@),
    decreases item, 0int,
{
    assert(item@.nodes == ir::nodes_view(item.nodes@));
    if list_items(&item.nodes).is_some() {
        return match coerce_list(limit, &item.nodes, span, session) {
            Some(values) => Some(IrValue::Collection(values)),
            None => None,
        };
    }
    if item.nodes.len() == 1 {
        if let IrNode::Paragraph { content, .. } = &item.nodes[0] {
            if content.len() == 1 {
                if let IrInline::Text { content: text, .. } = &content[0] {
                    assert(ir::inline_view(content@[0]) == ir::inlines_view(content@)[0]);
                    return Some(IrValue::String(text.clone()));
                }
                assert(ir::inline_view(content@[0]) == ir::inlines_view(content@)[0]);
            }
        }
    }
    Some(IrValue::Content(copy_nodes(&item.nodes)))
}

/// The elements of an iterable value; nothing where it has none or too many, and then that
/// is reported.
pub fn coerce_iterable(
    limit: usize,
    argument: &InvocationValue,
    span: SourceSpan,
    session: &mut Session,
) -> (r: Option<Vec<IrValue>>)
    ensures
        (match r {
            Some(values) => Some(ir::values_view(values@)),
            None => None,
        }, final(session)@) == iterable_elements(limit as nat, argument@, span, old(session)@),
        host::follows(old(session)@, final(session)@),
        r is None ==> host::halts(old(session)@, final(session)@),
{
    match &argument.value {
        IrValue::Collection(values) => {
            if !check_materialized_elements(limit, values.len() as u64, span, session) {
                return None;
            }
            Some(copy_values(values))
        },
        IrValue::Pair(pair) => {
            if !check_materialized_elements(limit, 2, pair.span, session) {
                return None;
            }
            let mut values: Vec<IrValue> = Vec::new();
            values.push(copy_value(&pair.first));
            values.push(copy_value(&pair.second));
            assert(ir::values_view(values@) =~= seq![*pair@.first, *pair@.second]);
            Some(values)
        },
        IrValue::Dictionary(dictionary) => {
            let entries = &dictionary.entries;
            assert(dictionary@.entries == ir::pairs_view(entries@));
            if !check_materialized_elements(limit, entries.len() as u64, dictionary.span, session) {
                return None;
            }
            let ghost want = ir::pairs_view(entries@).map_values(
                |entry: PairView| ValueView::Pair(entry),
            );
            let mut values: Vec<IrValue> = Vec::new();
            let mut i: usize = 0;
            assert(want.take(0) =~= Seq::empty());
            while i < entries.len()
                invariant
                    host::follows(old(session)@, session@),
                    0 <= i <= entries@.len(),
                    want == ir::pairs_view(entries@).map_values(
                        |entry: PairView| ValueView::Pair(entry),
                    ),
                    ir::values_view(values@) == want.take(i as int),
                decreases entries@.len() - i,
            {
                values.push(IrValue::Pair(copy_pair(&entries[i])));
                i += 1;
                assert(want.take(i as int) =~= want.take(i - 1).push(want[i - 1]));
            }
            assert(want.take(i as int) =~= want);
            Some(values)
        },
        IrValue::Range(range) => materialize_range(limit, *range, session),
        IrValue::String(_) | IrValue::Identifier(_) => {
            match session.ask_range(Query::Range { argument: argument.clone(), span }) {
                Some(Some(range)) => materialize_range(limit, range, session),
                Some(None) => {
                    session.fault(
                        Fault::Iteration,
                        "Value is not an iterable Range, Collection, Pair, Dictionary, or exactly one Markdown list".to_owned(),
                        span,
                    );
                    None
                },
                None => None,
            }
        },
        IrValue::Content(nodes) => coerce_list(limit, nodes, span, session),
        _ => {
            session.fault(
                Fault::Iteration,
                "Value is not an iterable Range, Collection, Pair, Dictionary, or exactly one Markdown list".to_owned(),
                span,
            );
            None
        },
    }
}

/// The largest length that a number holds exactly along with all smaller ones.
pub open spec fn max_exact_length() -> int {
    0x20_0000_0000_0000
}

/// A length as a number.
pub open spec fn length_number(length: nat, span: SourceSpan, s: SessionView) -> (
    Option<Number>,
    SessionView,
) {
    if length > max_exact_length() {
        (
            None,
            s.fault(
                Fault::Iteration,
                "Collection length cannot be represented exactly by the evaluator Number type"@,
                span,
            ),
        )
    } else {
        (Some(number::number_of(length as int)), s)
    }
}

/// A length as a number; nothing where no number holds it exactly, and then that is
/// reported.
pub fn exact_collection_length(length: usize, span: SourceSpan, session: &mut Session) -> (r: Option<
    Number,
>)
    ensures
        (r, final(session)@) == length_number(length as nat, span, old(session)@),
        host::follows(old(session)@, final(session)@),
        r is None ==> host::halts(old(session)@, final(session)@),
{
    if length as u64 > 0x20_0000_0000_0000 {
        session.fault(
            Fault::Iteration,
            "Collection length cannot be represented exactly by the evaluator Number type".to_owned(),
            span,
        );
        None
    } else {
        Some(Number::from_integer(length as i64))
    }
}

/// The element that a one-based index selects: nothing selects no element, and an index that
/// is no integer is an error.
pub open spec fn element_at(index: ValueView, length: nat, span: SourceSpan, s: SessionView) -> (
    Option<Option<int>>,
    SessionView,
) {
    match index {
        ValueView::Number(n) => if !number::is_finite(n) || !number::is_whole(n) {
            (
                None,
                s.fault(
                    Fault::Iteration,
                    "`.getat` requires a finite integer numeric index"@,
                    span,
                ),
            )
        } else if 1 <= number::truncated(n) <= length {
            (Some(Some(number::truncated(n) - 1)), s)
        } else {
            (Some(None), s)
        },
        _ => (
            None,
            s.fault(Fault::Iteration, "`.getat` requires an integer numeric index"@, span),
        ),
    }
}

/// The element that a one-based index selects.
pub fn collection_index(index: &IrValue, length: usize, span: SourceSpan, session: &mut Session) -> (r:
    Option<Option<usize>>)
    requires
        length <= max_exact_length(),
    ensures
        (match r {
            Some(Some(i)) => Some(Some(i as int)),
            Some(None) => Some(None),
            None => None,
        }, final(session)@) == element_at(index@, length as nat, span, old(session)@),
        r matches Some(Some(i)) ==> i < length,
        host::follows(old(session)@, final(session)@),
        r is None ==> host::halts(old(session)@, final(session)@),
{
    let n = match index {
        IrValue::Number(n) => *n,
        _ => {
            session.fault(
                Fault::Iteration,
                "`.getat` requires an integer numeric index".to_owned(),
                span,
            );
            return None;
        },
    };
    if n.is_finite() {
        match n.whole_part() {
            Some((k, true)) => {
                if 1 <= k && k as u64 <= length as u64 {
                    return Some(Some((k - 1) as usize));
                }
                return Some(None);
            },
            None => {
                return Some(None);
            },
            _ => {},
        }
    }
    session.fault(
        Fault::Iteration,
        "`.getat` requires a finite integer numeric index".to_owned(),
        span,
    );
    None
}

/// A value as a number: that of a number, the one that a text writes, else zero.
pub open spec fn as_number(value: ValueView, s: SessionView) -> (Option<Number>, SessionView) {
    match value {
        ValueView::Number(n) => (Some(n), s),
        ValueView::String(content) => text_number(content, s),
        ValueView::Identifier(content) => text_number(content, s),
        _ => (Some(Number { bits: 0 }), s),
    }
}

/// The number that a text writes, else zero.
pub open spec fn text_number(content: Seq<char>, s: SessionView) -> (Option<Number>, SessionView) {
    match s.ask_number(QueryView::ParseNumber { text: text::trim(content) }) {
        (Some(Some(n)), t) => (Some(n), t),
        (Some(None), t) => (Some(Number { bits: 0 }), t),
        (None, t) => (None, t),
    }
}

/// Values as numbers.
pub open spec fn as_numbers(values: Seq<ValueView>, s: SessionView) -> (
    Option<Seq<Number>>,
    SessionView,
)
    decreases values.len(),
{
    if values.len() == 0 {
        (Some(Seq::empty()), s)
    } else {
        match as_numbers(values.drop_last(), s) {
            (None, t) => (None, t),
            (Some(numbers), t) => match as_number(values.last(), t) {
                (Some(n), u) => (Some(numbers.push(n)), u),
                (None, u) => (None, u),
            },
        }
    }
}

/// The sum of values, taken as numbers and added from the first on.
pub open spec fn sum_of(values: Seq<ValueView>, s: SessionView) -> (Option<Number>, SessionView) {
    match as_numbers(values, s) {
        (None, t) => (None, t),
        (Some(numbers), t) => t.need_number(QueryView::Sum { numbers }),
    }
}

/// The average of values: their sum by their number, and NaN where there are none.
pub open spec fn average_of(values: Seq<ValueView>, span: SourceSpan, s: SessionView) -> (
    Option<Number>,
    SessionView,
) {
    match length_number(values.len(), span, s) {
        (None, t) => (None, t),
        (Some(length), t) => if values.len() == 0 {
            (Some(Number { bits: 0x7ff8_0000_0000_0000 }), t)
        } else {
            match sum_of(values, t) {
                (None, u) => (None, u),
                (Some(sum), u) => u.need_number(
                    QueryView::Divide { dividend: sum, divisor: length },
                ),
            }
        },
    }
}

/// The number that a text writes, else zero.
fn parse_text_number(content: &str, session: &mut Session) -> (r: Option<Number>)
    ensures
        (r, final(session)@) == text_number(content@, old(session)@),
        host::follows(old(session)@, final(session)@),
        r is None ==> host::halts(old(session)@, final(session)@),
{
    match session.ask_number(Query::ParseNumber { text: trimmed(content) }) {
        Some(Some(n)) => Some(n),
        Some(None) => Some(Number { bits: 0 }),
        None => None,
    }
}

/// A value as a number; nothing where the host has not answered yet.
pub fn collection_value_as_double(value: &IrValue, session: &mut Session) -> (r: Option<Number>)
    ensures
        (r, final(session)@) == as_number(value@, old(session)@),
        host::follows(old(session)@, final(session)@),
        r is None ==> host::halts(old(session)@, final(session)@),
{
    match value {
        IrValue::Number(n) => Some(*n),
        IrValue::String(content) => parse_text_number(content.as_str(), session),
        IrValue::Identifier(content) => parse_text_number(content.as_str(), session),
        _ => Some(Number { bits: 0 }),
    }
}

proof fn lemma_as_numbers_stops(values: Seq<ValueView>, s: SessionView, i: int)
    requires
        0 <= i <= values.len(),
        as_numbers(values.take(i), s).0 is None,
    ensures
        as_numbers(values, s) == as_numbers(values.take(i), s),
    decreases values.len() - i,
{
    if i < values.len() {
        sequences::lemma_take_step(values, i);
        lemma_as_numbers_stops(values, s, i + 1);
    } else {
        sequences::lemma_take_all(values);
    }
}

/// The sum of values; nothing where the host has not answered yet.
pub fn collection_sum_all(values: &Vec<IrValue>, session: &mut Session) -> (r: Option<Number>)
    ensures
        (r, final(session)@) == sum_of(ir::values_view(values@), old(session)@),
        host::follows(old(session)@, final(session)@),
        r is None ==> host::halts(old(session)@, final(session)@),
{
    let ghost all = ir::values_view(values@);
    let mut numbers: Vec<Number> = Vec::new();
    let mut i: usize = 0;
    assert(all.take(0) =~= Seq::empty());
    while i < values.len()
        invariant
            host::follows(old(session)@, session@),
            0 <= i <= values@.len(),
            all == ir::values_view(values@),
            (Some(numbers@), session@) == as_numbers(all.take(i as int), old(session)@),
        decreases values@.len() - i,
    {
        proof {
            sequences::lemma_take_step(all, i as int);
        }
        match collection_value_as_double(&values[i], session) {
            Some(n) => {
                numbers.push(n);
            },
            None => {
                proof {
                    lemma_as_numbers_stops(all, old(session)@, i + 1);
                }
                return None;
            },
        }
        i += 1;
    }
    proof {
        sequences::lemma_take_all(all);
    }
    session.need_number(Query::Sum { numbers })
}

/// The average of values; nothing where no number holds their number exactly, or where the
/// host has not answered yet.
pub fn collection_average(values: &Vec<IrValue>, span: SourceSpan, session: &mut Session) -> (r:
    Option<Number>)
    ensures
        (r, final(session)@) == average_of(ir::values_view(values@), span, old(session)@),
        host::follows(old(session)@, final(session)@),
        r is None ==> host::halts(old(session)@, final(session)@),
{
    let length = match exact_collection_length(values.len(), span, session) {
        Some(length) => length,
        None => {
            return None;
        },
    };
    if values.len() == 0 {
        return Some(Number { bits: 0x7ff8_0000_0000_0000 });
    }
    let sum = match collection_sum_all(values, session) {
        Some(sum) => sum,
        None => {
            return None;
        },
    };
    session.need_number(Query::Divide { dividend: sum, divisor: length })
}

/// Whether two values are the same element of a collection: numbers by their total order,
/// ranges by their bounds, dictionaries whatever the order of their entries.
pub open spec fn values_same(a: ValueView, b: ValueView) -> bool
    decreases a, 0nat,
{
    match (a, b) {
        (ValueView::String(x), ValueView::String(y)) => x == y,
        (ValueView::Identifier(x), ValueView::Identifier(y)) => x == y,
        (ValueView::Number(x), ValueView::Number(y)) => number::sort_rank(x) == number::sort_rank(
            y,
        ),
        (ValueView::Boolean(x), ValueView::Boolean(y)) => x == y,
        (ValueView::Nothing, ValueView::Nothing) => true,
        (ValueView::Range(x), ValueView::Range(y)) => x.start == y.start && x.end == y.end,
        (ValueView::Collection(x), ValueView::Collection(y)) => {
            &&& x.len() == y.len()
            &&& forall|i: int| 0 <= i < x.len() ==> values_same(#[trigger] x[i], y[i])
        },
        (ValueView::Pair(x), ValueView::Pair(y)) => pairs_same(x, y),
        (ValueView::Dictionary(x), ValueView::Dictionary(y)) => {
            &&& x.entries.len() == y.entries.len()
            &&& forall|i: int|
                0 <= i < x.entries.len() ==> has_same_entry(#[trigger] x.entries[i], y.entries)
        },
        (ValueView::Content(x), ValueView::Content(y)) => ir_equal::nodes_equal(x, y),
        (ValueView::Callable(x), ValueView::Callable(y)) => ir_equal::callable_equal(x, y),
        _ => false,
    }
}

/// Whether two pairs are the same element of a collection.
pub open spec fn pairs_same(x: PairView, y: PairView) -> bool
    decreases x, 0nat,
{
    values_same(*x.first, *y.first) && values_same(*x.second, *y.second)
}

/// Whether one of some entries is the same as the given one.
pub open spec fn has_same_entry(x: PairView, entries: Seq<PairView>) -> bool
    decreases x, entries.len(),
{
    if entries.len() == 0 {
        false
    } else {
        has_same_entry(x, entries.drop_last()) || pairs_same(x, entries.last())
    }
}

/// Whether two pairs are the same element of a collection.
fn pair_values_equal(x: &IrPair, y: &IrPair) -> (r: bool)
    ensures
        r == pairs_same(x@, y@),
    decreases x,
{
    assert(x.first@ == *x@.first && x.second@ == *x@.second);
    assert(y.first@ == *y@.first && y.second@ == *y@.second);
    collection_values_equal(&x.first, &y.first) && collection_values_equal(&x.second, &y.second)
}

/// Whether two values are the same element of a collection.
pub fn collection_values_equal(a: &IrValue, b: &IrValue) -> (r: bool)
    ensures
        r == values_same(a@, b@),
    decreases a,
{
    match (a, b) {
        (IrValue::String(x), IrValue::String(y)) => *x == *y,
        (IrValue::Identifier(x), IrValue::Identifier(y)) => *x == *y,
        (IrValue::Number(x), IrValue::Number(y)) => x.rank() == y.rank(),
        (IrValue::Boolean(x), IrValue::Boolean(y)) => *x == *y,
        (IrValue::Nothing, IrValue::Nothing) => true,
        (IrValue::Range(x), IrValue::Range(y)) => x.start == y.start && x.end == y.end,
        (IrValue::Collection(x), IrValue::Collection(y)) => {
            if x.len() != y.len() {
                return false;
            }
            let mut i: usize = 0;
            while i < x.len()
                invariant
                    0 <= i <= x@.len(),
                    x@.len() == y@.len(),
                    a@ == ValueView::Collection(ir::values_view(x@)),
                    b@ == ValueView::Collection(ir::values_view(y@)),
                    decreases_to!(a => x),
                    forall|j: int|
                        0 <= j < i ==> values_same(
                            #[trigger] ir::values_view(x@)[j],
                            ir::values_view(y@)[j],
                        ),
                decreases x@.len() - i,
            {
                if !collection_values_equal(&x[i], &y[i]) {
                    assert(!values_same(
                        ir::values_view(x@)[i as int],
                        ir::values_view(y@)[i as int],
                    ));
                    return false;
                }
                i += 1;
            }
            true
        },
        (IrValue::Pair(x), IrValue::Pair(y)) => pair_values_equal(x, y),
        (IrValue::Dictionary(x), IrValue::Dictionary(y)) => {
            let left = &x.entries;
            let right = &y.entries;
            assert(x@.entries == ir::pairs_view(left@));
            assert(y@.entries == ir::pairs_view(right@));
            if left.len() != right.len() {
                return false;
            }
            let mut i: usize = 0;
            while i < left.len()
                invariant
                    0 <= i <= left@.len(),
                    left@.len() == right@.len(),
                    a@ == ValueView::Dictionary(x@),
                    b@ == ValueView::Dictionary(y@),
                    x@.entries == ir::pairs_view(left@),
                    y@.entries == ir::pairs_view(right@),
                    decreases_to!(a => left),
                    forall|j: int|
                        0 <= j < i ==> has_same_entry(
                            #[trigger] ir::pairs_view(left@)[j],
                            ir::pairs_view(right@),
                        ),
                decreases left@.len() - i,
            {
                let ghost all = ir::pairs_view(right@);
                let mut found = false;
                let mut j: usize = 0;
                assert(all.take(0) =~= Seq::empty());
                while j < right.len()
                    invariant
                        0 <= i < left@.len(),
                        0 <= j <= right@.len(),
                        all == ir::pairs_view(right@),
                        decreases_to!(a => left),
                        found == has_same_entry(
                            ir::pairs_view(left@)[i as int],
                            all.take(j as int),
                        ),
                    decreases right@.len() - j,
                {
                    proof {
                        sequences::lemma_take_step(all, j as int);
                    }
                    if pair_values_equal(&left[i], &right[j]) {
                        found = true;
                    }
                    j += 1;
                }
                proof {
                    sequences::lemma_take_all(all);
                }
                if !found {
                    assert(!has_same_entry(
                        ir::pairs_view(left@)[i as int],
                        ir::pairs_view(right@),
                    ));
                    return false;
                }
                i += 1;
            }
            true
        },
        (IrValue::Content(x), IrValue::Content(y)) => same_nodes(x, y),
        (IrValue::Callable(x), IrValue::Callable(y)) => same_callable(x, y),
        _ => false,
    }
}

/// The first of each group of values that are the same, in order.
pub open spec fn distinct_values(values: Seq<ValueView>) -> Seq<ValueView>
    decreases values.len(),
{
    if values.len() == 0 {
        Seq::empty()
    } else {
        let kept = distinct_values(values.drop_last());
        if exists|i: int| 0 <= i < kept.len() && values_same(#[trigger] kept[i], values.last()) {
            kept
        } else {
            kept.push(values.last())
        }
    }
}

/// The first of each group of values that are the same, in order.
pub fn distinct_collection_values(values: &Vec<IrValue>) -> (r: Vec<IrValue>)
    ensures
        ir::values_view(r@) == distinct_values(ir::values_view(values@)),
{
    let ghost all = ir::values_view(values@);
    let mut kept: Vec<IrValue> = Vec::new();
    let mut i: usize = 0;
    assert(all.take(0) =~= Seq::empty());
    while i < values.len()
        invariant
            0 <= i <= values@.len(),
            all == ir::values_view(values@),
            ir::values_view(kept@) == distinct_values(all.take(i as int)),
        decreases values@.len() - i,
    {
        proof {
            sequences::lemma_take_step(all, i as int);
        }
        let mut found = false;
        let mut j: usize = 0;
        while j < kept.len()
            invariant
                0 <= j <= kept@.len(),
                0 <= i < values@.len(),
                all == ir::values_view(values@),
                found == (exists|k: int|
                    0 <= k < j && values_same(#[trigger] ir::values_view(kept@)[k], all[i as int])),
            decreases kept@.len() - j,
        {
            if collection_values_equal(&kept[j], &values[i]) {
                assert(values_same(ir::values_view(kept@)[j as int], all[i as int]));
                found = true;
            }
            j += 1;
        }
        if !found {
            kept.push(copy_value(&values[i]));
        }
        i += 1;
    }
    proof {
        sequences::lemma_take_all(all);
    }
    kept
}

/// The first group whose first value is the same as the given one.
pub open spec fn is_group_of(groups: Seq<Seq<ValueView>>, value: ValueView, i: int) -> bool {
    &&& 0 <= i < groups.len()
    &&& groups[i].len() > 0
    &&& values_same(groups[i][0], value)
    &&& forall|j: int|
        0 <= j < i ==> !((#[trigger] groups[j]).len() > 0 && values_same(groups[j][0], value))
}

/// Values grouped by sameness: groups in the order of their first values, values in order.
pub open spec fn grouped_values(values: Seq<ValueView>) -> Seq<Seq<ValueView>>
    decreases values.len(),
{
    if values.len() == 0 {
        Seq::empty()
    } else {
        let groups = grouped_values(values.drop_last());
        if exists|i: int| is_group_of(groups, values.last(), i) {
            let i = choose|i: int| is_group_of(groups, values.last(), i);
            groups.update(i, groups[i].push(values.last()))
        } else {
            groups.push(seq![values.last()])
        }
    }
}

/// Groups as collections.
pub open spec fn group_collections(groups: Seq<Seq<ValueView>>) -> Seq<ValueView> {
    groups.map_values(|group: Seq<ValueView>| ValueView::Collection(group))
}

/// The values of groups.
spec fn groups_view(groups: Seq<Vec<IrValue>>) -> Seq<Seq<ValueView>> {
    Seq::new(groups.len(), |i: int| ir::values_view(groups[i]@))
}

/// Values grouped by sameness, each group a collection.
pub fn group_collection_values(values: &Vec<IrValue>) -> (r: Vec<IrValue>)
    ensures
        ir::values_view(r@) == group_collections(grouped_values(ir::values_view(values@))),
{
    let ghost all = ir::values_view(values@);
    let mut groups: Vec<Vec<IrValue>> = Vec::new();
    let mut i: usize = 0;
    assert(all.take(0) =~= Seq::empty());
    assert(groups_view(groups@) =~= grouped_values(all.take(0)));
    while i < values.len()
        invariant
            0 <= i <= values@.len(),
            all == ir::values_view(values@),
            groups_view(groups@) == grouped_values(all.take(i as int)),
        decreases values@.len() - i,
    {
        let ghost before = groups_view(groups@);
        proof {
            sequences::lemma_take_step(all, i as int);
        }
        let mut j: usize = 0;
        let mut found = false;
        while j < groups.len() && !found
            invariant
                0 <= j <= groups@.len(),
                0 <= i < values@.len(),
                all == ir::values_view(values@),
                before == groups_view(groups@),
                forall|k: int|
                    0 <= k < j ==> !((#[trigger] before[k]).len() > 0 && values_same(
                        before[k][0],
                        all[i as int],
                    )),
                found ==> is_group_of(before, all[i as int], j as int),
            decreases (groups@.len() - j) * 2 + (if found { 0int } else { 1int }),
        {
            assert(before[j as int] == ir::values_view(groups@[j as int]@));
            if groups[j].len() > 0 && collection_values_equal(&groups[j][0], &values[i]) {
                found = true;
            } else {
                j += 1;
            }
        }
        if found {
            proof {
                let k = choose|k: int| is_group_of(before, all[i as int], k);
                assert(is_group_of(before, all[i as int], k));
                assert(k == j) by {
                    if k < j {
                        assert(!(before[k].len() > 0 && values_same(before[k][0], all[i as int])));
                    } else if j < k {
                        assert(!(before[j as int].len() > 0 && values_same(
                            before[j as int][0],
                            all[i as int],
                        )));
                    }
                }
            }
            let mut group: Vec<IrValue> = copy_values(&groups[j]);
            group.push(copy_value(&values[i]));
            groups.set(j, group);
            assert(groups_view(groups@) =~= before.update(
                j as int,
                before[j as int].push(all[i as int]),
            ));
        } else {
            assert(!exists|k: int| is_group_of(before, all[i as int], k));
            let mut group: Vec<IrValue> = Vec::new();
            group.push(copy_value(&values[i]));
            groups.push(group);
            assert(groups_view(groups@) =~= before.push(seq![all[i as int]]));
        }
        i += 1;
    }
    proof {
        sequences::lemma_take_all(all);
    }
    let ghost want = group_collections(grouped_values(all));
    let mut r: Vec<IrValue> = Vec::new();
    let mut j: usize = 0;
    assert(want.take(0) =~= Seq::empty());
    while j < groups.len()
        invariant
            0 <= j <= groups@.len(),
            want == group_collections(groups_view(groups@)),
            ir::values_view(r@) == want.take(j as int),
        decreases groups@.len() - j,
    {
        r.push(IrValue::Collection(copy_values(&groups[j])));
        j += 1;
        assert(want.take(j as int) =~= want.take(j - 1).push(want[j - 1]));
    }
    assert(want.take(j as int) =~= want);
    r
}

/// The values in reverse.
pub fn reversed_values(values: &Vec<IrValue>) -> (r: Vec<IrValue>)
    ensures
        ir::values_view(r@) == ir::values_view(values@).reverse(),
{
    let ghost want = ir::values_view(values@).reverse();
    let mut r: Vec<IrValue> = Vec::new();
    let mut i: usize = values.len();
    assert(want.take(0) =~= Seq::empty());
    while i > 0
        invariant
            0 <= i <= values@.len(),
            want == ir::values_view(values@).reverse(),
            ir::values_view(r@) == want.take(values@.len() - i),
        decreases i,
    {
        i -= 1;
        r.push(copy_value(&values[i]));
        assert(want.take(values@.len() - i) =~= want.take(values@.len() - i - 1).push(
            want[values@.len() - i - 1],
        ));
    }
    assert(want.take(values@.len() as int) =~= want);
    r
}

/// What elements are sorted by.
#[derive(Debug, PartialEq)]
pub enum SortKey {
    Number(Number),
    String(String),
    Boolean(bool),
}

/// The mathematical value of [`SortKey`].
#[verifier::ext_equal]
pub enum SortKeyView {
    Number(Number),
    String(Seq<char>),
    Boolean(bool),
}

impl View for SortKey {
    type V = SortKeyView;

    open spec fn view(&self) -> SortKeyView {
        match *self {
            SortKey::Number(n) => SortKeyView::Number(n),
            SortKey::String(s) => SortKeyView::String(s@),
            SortKey::Boolean(b) => SortKeyView::Boolean(b),
        }
    }
}

/// The key that a value sorts by, or why it has none.
pub open spec fn key_of(value: ValueView) -> Result<SortKeyView, Seq<char>> {
    match value {
        ValueView::Number(n) => Ok(SortKeyView::Number(n)),
        ValueView::String(s) => Ok(SortKeyView::String(s)),
        ValueView::Boolean(b) => Ok(SortKeyView::Boolean(b)),
        ValueView::Nothing => Err("`.sorted` cannot compare a None value"@),
        _ => Err("`.sorted` key has no supported natural ordering"@),
    }
}

/// Whether two keys can be compared.
pub open spec fn same_kind(a: SortKeyView, b: SortKeyView) -> bool {
    match (a, b) {
        (SortKeyView::Number(_), SortKeyView::Number(_)) => true,
        (SortKeyView::String(_), SortKeyView::String(_)) => true,
        (SortKeyView::Boolean(_), SortKeyView::Boolean(_)) => true,
        _ => false,
    }
}

/// Whether one key sorts before another.
pub open spec fn key_less(a: SortKeyView, b: SortKeyView) -> bool {
    match (a, b) {
        (SortKeyView::Number(x), SortKeyView::Number(y)) => number::sort_rank(x)
            < number::sort_rank(y),
        (SortKeyView::String(x), SortKeyView::String(y)) => text::text_less(x, y),
        (SortKeyView::Boolean(x), SortKeyView::Boolean(y)) => !x && y,
        _ => false,
    }
}

impl SortKey {
    /// The key that a value sorts by, or why it has none.
    pub fn try_from_value(value: &IrValue) -> (r: Result<SortKey, &'static str>)
        ensures
            (match r {
                Ok(key) => Ok(key@),
                Err(message) => Err(message@),
            }) == key_of(value@),
    {
        match value {
            IrValue::Number(n) => Ok(SortKey::Number(*n)),
            IrValue::String(s) => Ok(SortKey::String(s.clone())),
            IrValue::Boolean(b) => Ok(SortKey::Boolean(*b)),
            IrValue::Nothing => Err("`.sorted` cannot compare a None value"),
            _ => Err("`.sorted` key has no supported natural ordering"),
        }
    }

    /// Whether two keys can be compared.
    pub fn same_kind(&self, other: &SortKey) -> (r: bool)
        ensures
            r == same_kind(self@, other@),
    {
        match (self, other) {
            (SortKey::Number(_), SortKey::Number(_)) => true,
            (SortKey::String(_), SortKey::String(_)) => true,
            (SortKey::Boolean(_), SortKey::Boolean(_)) => true,
            _ => false,
        }
    }

    /// Whether this key sorts before another.
    pub fn before(&self, other: &SortKey) -> (r: bool)
        ensures
            r == key_less(self@, other@),
    {
        match (self, other) {
            (SortKey::Number(x), SortKey::Number(y)) => x.rank() < y.rank(),
            (SortKey::String(x), SortKey::String(y)) => text_before(x.as_str(), y.as_str()),
            (SortKey::Boolean(x), SortKey::Boolean(y)) => !*x && *y,
            _ => false,
        }
    }
}

/// A value with its key.
#[verifier::ext_equal]
pub struct KeyedView {
    pub value: ValueView,
    pub key: SortKeyView,
}

/// A value with its key.
pub struct Keyed {
    pub value: IrValue,
    pub key: SortKey,
}

impl View for Keyed {
    type V = KeyedView;

    open spec fn view(&self) -> KeyedView {
        KeyedView { value: self.value@, key: self.key@ }
    }
}

/// The values of a sequence of keyed values.
pub open spec fn keyed_view(s: Seq<Keyed>) -> Seq<KeyedView> {
    Seq::new(s.len(), |i: int| s[i]@)
}

/// A value put behind all that do not sort after it.
pub open spec fn insert_keyed(sorted: Seq<KeyedView>, x: KeyedView) -> Seq<KeyedView>
    decreases sorted.len(),
{
    if sorted.len() > 0 && key_less(x.key, sorted.last().key) {
        insert_keyed(sorted.drop_last(), x).push(sorted.last())
    } else {
        sorted.push(x)
    }
}

/// Keyed values in the order of their keys; equal keys keep their order.
pub open spec fn sort_keyed(s: Seq<KeyedView>) -> Seq<KeyedView>
    decreases s.len(),
{
    if s.len() == 0 {
        Seq::empty()
    } else {
        insert_keyed(sort_keyed(s.drop_last()), s.last())
    }
}

/// The values of keyed values.
pub open spec fn unkeyed(s: Seq<KeyedView>) -> Seq<ValueView> {
    s.map_values(|x: KeyedView| x.value)
}

/// Puts a value behind all that do not sort after it.
fn insert_in_order(sorted: &mut Vec<Keyed>, x: Keyed)
    ensures
        keyed_view(final(sorted)@) == insert_keyed(keyed_view(old(sorted)@), x@),
{
    let ghost all = keyed_view(sorted@);
    let mut i: usize = sorted.len();
    proof {
        sequences::lemma_take_all(all);
        assert(insert_keyed(all, x@) =~= insert_keyed(all.take(i as int), x@) + all.skip(i as int));
    }
    while i > 0 && x.key.before(&sorted[i - 1].key)
        invariant
            0 <= i <= sorted@.len(),
            all == keyed_view(sorted@),
            sorted@ == old(sorted)@,
            insert_keyed(all, x@) == insert_keyed(all.take(i as int), x@) + all.skip(i as int),
        decreases i,
    {
        proof {
            sequences::lemma_take_step(all, i - 1);
            assert(all.skip(i - 1) =~= seq![all[i - 1]] + all.skip(i as int));
            assert(insert_keyed(all, x@) =~= insert_keyed(all.take(i - 1), x@) + all.skip(i - 1));
        }
        i -= 1;
    }
    proof {
        if i > 0 {
            sequences::lemma_take_step(all, i - 1);
        }
    }
    sorted.insert(i, x);
    assert(keyed_view(sorted@) =~= all.take(i as int).push(x@) + all.skip(i as int));
}

/// The values of keyed values in the order of their keys; equal keys keep their order.
pub fn sorted_values(keyed: Vec<Keyed>) -> (r: Vec<IrValue>)
    ensures
        ir::values_view(r@) == unkeyed(sort_keyed(keyed_view(keyed@))),
{
    let ghost all = keyed_view(keyed@);
    let mut rest = keyed;
    let mut reversed: Vec<Keyed> = Vec::new();
    let ghost n = all.len();
    while rest.len() > 0
        invariant
            rest@.len() + reversed@.len() == n,
            n == all.len(),
            keyed_view(rest@) == all.take(rest@.len() as int),
            forall|i: int| 0 <= i < reversed@.len() ==> (#[trigger] reversed@[i])@ == all[
                n - 1 - i
            ],
        decreases rest@.len(),
    {
        let ghost before = keyed_view(rest@);
        if let Some(x) = rest.pop() {
            assert(before[before.len() - 1] == x@);
            assert(keyed_view(rest@) =~= before.drop_last());
            assert(before.drop_last() =~= all.take(rest@.len() as int));
            reversed.push(x);
        }
    }
    let mut sorted: Vec<Keyed> = Vec::new();
    assert(keyed_view(sorted@) =~= Seq::empty());
    assert(all.take(0) =~= Seq::empty());
    while reversed.len() > 0
        invariant
            reversed@.len() <= n,
            n == all.len(),
            forall|i: int| 0 <= i < reversed@.len() ==> (#[trigger] reversed@[i])@ == all[
                n - 1 - i
            ],
            keyed_view(sorted@) == sort_keyed(all.take(n - reversed@.len())),
        decreases reversed@.len(),
    {
        let ghost done = n - reversed@.len();
        proof {
            sequences::lemma_take_step(all, done);
        }
        let ghost last = reversed@[reversed@.len() - 1]@;
        if let Some(x) = reversed.pop() {
            assert(x@ == all[done]);
            insert_in_order(&mut sorted, x);
        }
    }
    proof {
        sequences::lemma_take_all(all);
    }
    let ghost want = unkeyed(sort_keyed(all));
    let mut r: Vec<IrValue> = Vec::new();
    let mut i: usize = 0;
    assert(want.take(0) =~= Seq::empty());
    while i < sorted.len()
        invariant
            0 <= i <= sorted@.len(),
            want == unkeyed(keyed_view(sorted@)),
            ir::values_view(r@) == want.take(i as int),
        decreases sorted@.len() - i,
    {
        r.push(copy_value(&sorted[i].value));
        i += 1;
        assert(want.take(i as int) =~= want.take(i - 1).push(want[i - 1]));
    }
    assert(want.take(i as int) =~= want);
    r
}

} // verus!
