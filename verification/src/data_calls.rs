//! Calls that make and read ranges, pairs, dictionaries and collections.

use vstd::prelude::*;

use crate::binding::{getat_operands, range_arguments};
use crate::calls::{collection_access_operand, number_to_range_endpoint};
use crate::collection;
use crate::collection::{
    coerce_iterable, collection_average, collection_index, collection_sum_all,
    distinct_collection_values, exact_collection_length, group_collection_values, reversed_values,
};
use crate::diagnostic::Fault;
use crate::dictionary;
use crate::dictionary::{
    dictionary_inline_value, dictionary_scalar_value, plain_dictionary_key,
    split_dictionary_paragraph, EntryParts,
};
use crate::evaluator::{Call, CallBody};
use crate::host;
use crate::host::{InvocationNamedArg, InvocationValue, Session, SessionView, ValueOrigin};
use crate::ir;
use crate::ir::{
    IrDictionary, IrListItem, IrNode, IrPair, IrRange, IrValue, PairView, SourceSpan, ValueView,
};
use crate::ir_copy::copy_value;
use crate::materialize::value_source_span;
use crate::natives;
use crate::natives::NativeDispatchOwner;
use crate::number::Number;
use crate::outcome::{CallOutcome, OutcomeView};
use crate::scope;
use crate::scope::EvaluationContext;
use crate::semantics;
use crate::semantics::{Ev, Evaluator, World};
use crate::sequences;
use crate::text::{decimal, join3, same_text};
use crate::views;

verus! {

broadcast use {
    crate::ir::group_ir_views,
    crate::host::group_host_views,
    host::group_follows,
    scope::group_stays,
};

/// The first entry with a key.
pub fn place_of_key(entries: &Vec<IrPair>, key: &str) -> (r: Option<usize>)
    ensures
        (match r {
            Some(i) => Some(i as int),
            None => None,
        }) == semantics::key_place(ir::pairs_view(entries@), key@),
        r matches Some(i) ==> i < entries@.len(),
{
    let ghost all = ir::pairs_view(entries@);
    let mut i: usize = 0;
    assert(all.take(0) =~= Seq::empty());
    while i < entries.len()
        invariant
            0 <= i <= entries@.len(),
            all == ir::pairs_view(entries@),
            semantics::key_place(all.take(i as int), key@) is None,
        decreases entries@.len() - i,
    {
        proof {
            sequences::lemma_take_step(all, i as int);
        }
        assert(all[i as int] == entries@[i as int]@);
        assert(all[i as int].first == Box::new(entries@[i as int].first@));
        if let IrValue::String(known) = &*entries[i].first {
            if same_text(known.as_str(), key) {
                proof {
                    lemma_key_place_stays(all, key@, i + 1);
                }
                return Some(i);
            }
        }
        i += 1;
    }
    proof {
        sequences::lemma_take_all(all);
    }
    None
}

/// The first place stays the first, however many entries follow.
proof fn lemma_key_place_stays(all: Seq<PairView>, key: Seq<char>, i: int)
    requires
        0 <= i <= all.len(),
        semantics::key_place(all.take(i), key) is Some,
    ensures
        semantics::key_place(all, key) == semantics::key_place(all.take(i), key),
    decreases all.len() - i,
{
    if i == all.len() {
        sequences::lemma_take_all(all);
    } else {
        sequences::lemma_take_step(all, i);
        lemma_key_place_stays(all, key, i + 1);
    }
}

/// Writes an entry: one with the same key is overwritten in place.
pub fn write_entry(entries: &mut Vec<IrPair>, key: String, value: IrValue, span: SourceSpan)
    ensures
        ir::pairs_view(final(entries)@) == semantics::put_entry(
            ir::pairs_view(old(entries)@),
            key@,
            value@,
            span,
        ),
{
    proof {
        reveal(semantics::put_entry);
    }
    let ghost before = entries@;
    let place = place_of_key(entries, key.as_str());
    let entry = IrPair {
        first: Box::new(IrValue::String(key)),
        second: Box::new(value),
        span,
    };
    match place {
        Some(i) => {
            entries.set(i, entry);
            assert(ir::pairs_view(entries@) =~= ir::pairs_view(before).update(i as int, entry@));
        },
        None => entries.push(entry),
    }
}

/// The parts of the paragraph that a dictionary item starts with, or what is wrong with it.
fn entry_parts_of(item: &IrListItem) -> (r: Result<EntryParts, &'static str>)
    ensures
        (match r {
            Ok(parts) => Ok(parts@),
            Err(message) => Err(message@),
        }) == semantics::entry_parts(item@),
        r is Ok ==> item.nodes@.len() > 0,
{
    proof {
        reveal(semantics::entry_parts);
    }
    assert(item@.nodes == ir::nodes_view(item.nodes@));
    if item.nodes.len() == 0 {
        return Err("Dictionary entries must start with a Markdown paragraph");
    }
    assert(item@.nodes[0] == item.nodes@[0]@);
    match &item.nodes[0] {
        IrNode::Paragraph { content, span } => {
            match split_dictionary_paragraph(content, *span) {
                Some(parts) => Ok(parts),
                None => {
                    if item.nodes.len() > 1 {
                        match plain_dictionary_key(content) {
                            Some(key) => {
                                let parts = EntryParts {
                                    key,
                                    inlines: Vec::new(),
                                    text: "".to_owned(),
                                    span: *span,
                                };
                                proof {
                                    reveal_strlit("");
                                    assert(parts@.text =~= Seq::empty());
                                }
                                Ok(parts)
                            },
                            None => Err("Dictionary entries require a string key"),
                        }
                    } else {
                        Err("Dictionary entries require a string key followed by `:`")
                    }
                },
            }
        },
        _ => Err("Dictionary entries must start with a Markdown paragraph"),
    }
}

/// An element, or nothing where there is none.
fn element_or_nothing(values: &Vec<IrValue>, i: usize) -> (r: CallOutcome)
    ensures
        r@ == OutcomeView::Value(
            semantics::element_or_none(ir::values_view(values@), i as int),
        ),
{
    if i < values.len() {
        assert(ir::values_view(values@)[i as int] == values@[i as int]@);
        CallOutcome::Value(copy_value(&values[i]))
    } else {
        CallOutcome::Value(IrValue::Nothing)
    }
}

/// A number as an outcome.
fn number_value(number: Option<Number>) -> (r: CallOutcome)
    ensures
        forall|s: SessionView| (r@, s) == #[trigger] semantics::number_outcome((number, s)),
{
    match number {
        Some(n) => CallOutcome::Value(IrValue::Number(n)),
        None => CallOutcome::Failed,
    }
}

/// What an operation that reads the elements of a collection comes to.
fn read_elements(name: &str, elements: &Vec<IrValue>, span: SourceSpan, session: &mut Session) -> (r:
    CallOutcome)
    ensures
        (r@, final(session)@) == semantics::elements_outcome(
            name@,
            ir::values_view(elements@),
            span,
            old(session)@,
        ),
        host::follows(old(session)@, final(session)@),
{
    proof {
        reveal(semantics::elements_outcome);
    }
    if same_text(name, "size") {
        let n = exact_collection_length(elements.len(), span, session);
        number_value(n)
    } else if same_text(name, "first") {
        element_or_nothing(elements, 0)
    } else if same_text(name, "second") {
        element_or_nothing(elements, 1)
    } else if same_text(name, "third") {
        element_or_nothing(elements, 2)
    } else if same_text(name, "last") {
        if elements.len() == 0 {
            CallOutcome::Value(IrValue::Nothing)
        } else {
            element_or_nothing(elements, elements.len() - 1)
        }
    } else if same_text(name, "sumall") {
        let n = collection_sum_all(elements, session);
        number_value(n)
    } else if same_text(name, "average") {
        let n = collection_average(elements, span, session);
        number_value(n)
    } else if same_text(name, "distinct") {
        CallOutcome::Value(IrValue::Collection(distinct_collection_values(elements)))
    } else if same_text(name, "reversed") {
        CallOutcome::Value(IrValue::Collection(reversed_values(elements)))
    } else {
        CallOutcome::Value(IrValue::Collection(group_collection_values(elements)))
    }
}

/// What an operation that reads a collection comes to.
pub fn read_collection(
    limit: usize,
    name: &str,
    positional: &Vec<InvocationValue>,
    named: &Vec<InvocationNamedArg>,
    span: SourceSpan,
    session: &mut Session,
) -> (r: CallOutcome)
    requires
        natives::owns(NativeDispatchOwner::CollectionAccess, name@),
    ensures
        (r@, final(session)@) == semantics::access_outcome(
            limit as nat,
            name@,
            host::invocation_values_view(positional@),
            host::invocation_named_args_view(named@),
            span,
            old(session)@,
        ),
        host::follows(old(session)@, final(session)@),
{
    proof {
        reveal(semantics::access_outcome);
    }
    if same_text(name, "getat") {
        let (argument, index, fallback) = match getat_operands(positional, named, span, session) {
            Some(operands) => operands,
            None => return CallOutcome::Failed,
        };
        let elements = match coerce_iterable(limit, &argument, span, session) {
            Some(elements) => elements,
            None => return CallOutcome::Failed,
        };
        if exact_collection_length(elements.len(), span, session).is_none() {
            return CallOutcome::Failed;
        }
        match collection_index(&index, elements.len(), span, session) {
            None => CallOutcome::Failed,
            Some(Some(i)) => {
                assert(ir::values_view(elements@)[i as int] == elements@[i as int]@);
                CallOutcome::Value(copy_value(&elements[i]))
            },
            Some(None) => CallOutcome::Value(fallback),
        }
    } else {
        let parameter = if same_text(name, "size") {
            "of"
        } else {
            "from"
        };
        let argument = match collection_access_operand(
            name,
            parameter,
            positional,
            named,
            span,
            session,
        ) {
            Some(argument) => argument,
            None => return CallOutcome::Failed,
        };
        match coerce_iterable(limit, &argument, span, session) {
            Some(elements) => read_elements(name, &elements, span, session),
            None => CallOutcome::Failed,
        }
    }
}

impl Evaluator {
    /// Evaluates `.range`.
    pub fn evaluate_range(
        &self,
        call: &Call,
        frames: usize,
        session: &mut Session,
        context: &mut EvaluationContext,
    ) -> (r: CallOutcome)
        ensures
            (Ev { out: r@, w: World { s: final(session)@, c: final(context)@ } })
                == semantics::eval_range(
                *self,
                call@,
                frames as nat,
                World { s: old(session)@, c: old(context)@ },
            ),
            host::follows(old(session)@, final(session)@),
            scope::stays(old(context)@, final(context)@),
        decreases frames, 6int, self, 0int,
    {
        proof {
            reveal(semantics::eval_range);
            reveal(semantics::range_bound);
        }
        if call.body.is_some() {
            return session.fail(
                Fault::Iteration,
                "`.range` does not accept a block body".to_owned(),
                call.span,
            );
        }
        let (from, to) = match range_arguments(call.positional, call.named, call.span, session) {
            Some(bounds) => bounds,
            None => return CallOutcome::Failed,
        };
        let start = match self.evaluate_range_endpoint(
            &from,
            call.span,
            call.first_origin,
            frames, session, context,
        ) {
            Some(start) => start,
            None => return CallOutcome::Failed,
        };
        let end = match self.evaluate_range_endpoint(
            &to,
            call.span,
            None,
            frames,
            session,
            context,
        ) {
            Some(end) => end,
            None => return CallOutcome::Failed,
        };
        CallOutcome::Value(IrValue::Range(IrRange { start, end, span: call.span }))
    }

    /// Evaluates a bound of `.range`, where it has one.
    fn evaluate_range_endpoint(
        &self,
        value: &Option<IrValue>,
        span: SourceSpan,
        origin: Option<ValueOrigin>,
        frames: usize,
        session: &mut Session,
        context: &mut EvaluationContext,
    ) -> (r: Option<Option<i32>>)
        ensures
            (Ev { out: r, w: World { s: final(session)@, c: final(context)@ } })
                == semantics::range_bound(
                *self,
                views::value(*value),
                span,
                origin,
                frames as nat,
                World { s: old(session)@, c: old(context)@ },
            ),
            host::follows(old(session)@, final(session)@),
            scope::stays(old(context)@, final(context)@),
        decreases frames, 5int, self, 0int,
    {
        proof {
            reveal(semantics::range_bound);
        }
        match value {
            None => Some(None),
            Some(value) => {
                let argument = match self.evaluate_invocation_value(
                    value,
                    span,
                    origin,
                    frames,
                    session,
                    context,
                ) {
                    Some(argument) => argument,
                    None => return None,
                };
                match number_to_range_endpoint(&argument, session) {
                    None => None,
                    Some(None) => {
                        session.fault(
                            Fault::Iteration,
                            "`.range` bounds must be numeric".to_owned(),
                            value_source_span(value, span),
                        );
                        None
                    },
                    Some(Some(k)) => Some(Some(k)),
                }
            },
        }
    }

    /// Evaluates `.pair`.
    pub fn evaluate_pair(
        &self,
        call: &Call,
        frames: usize,
        session: &mut Session,
        context: &mut EvaluationContext,
    ) -> (r: CallOutcome)
        ensures
            (Ev { out: r@, w: World { s: final(session)@, c: final(context)@ } })
                == semantics::eval_pair(
                *self,
                call@,
                frames as nat,
                World { s: old(session)@, c: old(context)@ },
            ),
            host::follows(old(session)@, final(session)@),
            scope::stays(old(context)@, final(context)@),
        decreases frames, 6int, self, 0int,
    {
        proof {
            reveal(semantics::eval_pair);
        }
        if call.positional.len() != 2 {
            let received = decimal(call.positional.len() as u64);
            return session.fail(
                Fault::Iteration,
                join3(
                    "`.pair` requires exactly two positional values (received ",
                    received.as_str(),
                    ")",
                ),
                call.span,
            );
        }
        if call.named.len() > 0 {
            assert(call@.named[0] == call.named@[0]@);
            return session.fail(
                Fault::Iteration,
                join3(
                    "Unknown named argument `",
                    call.named[0].name.as_str(),
                    "` for `.pair`",
                ),
                call.named[0].name_span,
            );
        }
        if call.body.is_some() {
            return session.fail(
                Fault::Iteration,
                "`.pair` does not accept a block body".to_owned(),
                call.span,
            );
        }
        let mut values = match self.evaluate_values(
            call.positional,
            call.span,
            frames,
            session,
            context,
        ) {
            Some(values) => values,
            None => return CallOutcome::Failed,
        };
        let ghost given = ir::values_view(values@);
        assert(given[0] == values@[0]@ && given[1] == values@[1]@);
        let second = values.pop();
        let first = values.pop();
        match (first, second) {
            (Some(first), Some(second)) => CallOutcome::Value(
                IrValue::Pair(
                    IrPair { first: Box::new(first), second: Box::new(second), span: call.span },
                ),
            ),
            _ => CallOutcome::Failed,
        }
    }

    /// Evaluates `.dictionary`.
    pub fn evaluate_dictionary(
        &self,
        call: &Call,
        frames: usize,
        session: &mut Session,
        context: &mut EvaluationContext,
    ) -> (r: CallOutcome)
        ensures
            (Ev { out: r@, w: World { s: final(session)@, c: final(context)@ } })
                == semantics::eval_dictionary(
                *self,
                call@,
                frames as nat,
                World { s: old(session)@, c: old(context)@ },
            ),
            host::follows(old(session)@, final(session)@),
            scope::stays(old(context)@, final(context)@),
        decreases frames, 6int, self, 0int,
    {
        proof {
            reveal(semantics::eval_dictionary);
            reveal(semantics::dictionary_entries);
        }
        if call.positional.len() > 0 {
            return session.fail(
                Fault::Iteration,
                "`.dictionary` accepts its entries as a block body".to_owned(),
                call.span,
            );
        }
        if call.named.len() > 0 {
            assert(call@.named[0] == call.named@[0]@);
            return session.fail(
                Fault::Iteration,
                join3(
                    "Unknown named argument `",
                    call.named[0].name.as_str(),
                    "` for `.dictionary`",
                ),
                call.named[0].name_span,
            );
        }
        let entries = match call.body {
            None => Some(Vec::new()),
            Some(CallBody::Block(nodes)) => {
                assert(ir::nodes_view(nodes@).skip(0) =~= ir::nodes_view(nodes@));
                self.evaluate_dictionary_entries(nodes, 0, call.span, frames, session, context)
            },
            Some(CallBody::Inline(_)) => {
                return session.fail(
                    Fault::Iteration,
                    "`.dictionary` requires a Markdown list block body".to_owned(),
                    call.span,
                );
            },
        };
        match entries {
            Some(entries) => CallOutcome::Value(
                IrValue::Dictionary(IrDictionary { entries, span: call.span }),
            ),
            None => CallOutcome::Failed,
        }
    }

    /// Evaluates the entries that the blocks of a dictionary are, from a place on.
    fn evaluate_dictionary_entries(
        &self,
        nodes: &Vec<IrNode>,
        from: usize,
        span: SourceSpan,
        frames: usize,
        session: &mut Session,
        context: &mut EvaluationContext,
    ) -> (r: Option<Vec<IrPair>>)
        requires
            from <= nodes@.len(),
        ensures
            (Ev { out: views::pairs(r), w: World { s: final(session)@, c: final(context)@ } })
                == semantics::dictionary_entries(
                *self,
                ir::nodes_view(nodes@).skip(from as int),
                span,
                frames as nat,
                World { s: old(session)@, c: old(context)@ },
            ),
            host::follows(old(session)@, final(session)@),
            scope::stays(old(context)@, final(context)@),
        decreases frames, 5int, nodes, 0int,
    {
        proof {
            reveal(semantics::dictionary_entries);
        }
        let ghost all = ir::nodes_view(nodes@).skip(from as int);
        if from == nodes.len() {
            return Some(Vec::new());
        }
        assert(all[0] == nodes@[from as int]@);
        if nodes.len() - from == 1 {
            assert(decreases_to!(nodes => nodes@[from as int]));
            match &nodes[from] {
                IrNode::UnorderedList { items, .. } => {
                    return self.evaluate_entry_list(items, span, frames, session, context);
                },
                IrNode::OrderedList { items, .. } => {
                    return self.evaluate_entry_list(items, span, frames, session, context);
                },
                _ => {},
            }
        }
        session.fault(
            Fault::Iteration,
            "`.dictionary` requires exactly one Markdown list body".to_owned(),
            span,
        );
        None
    }

    /// Evaluates the key and the value of a dictionary item.
    pub fn dictionary_item_parts(
        &self,
        item: &IrListItem,
        span: SourceSpan,
        frames: usize,
        session: &mut Session,
        context: &mut EvaluationContext,
    ) -> (r: Option<(String, IrValue)>)
        ensures
            (Ev { out: (match r {
                    Some((key, value)) => Some((key@, value@)),
                    None => None,
                }), w: World { s: final(session)@, c: final(context)@ } })
                == semantics::dictionary_entry(
                *self,
                item@,
                span,
                frames as nat,
                World { s: old(session)@, c: old(context)@ },
            ),
            host::follows(old(session)@, final(session)@),
            scope::stays(old(context)@, final(context)@),
        decreases frames, 5int, item, 0int,
    {
        proof {
            reveal(semantics::dictionary_entry);
            reveal(semantics::dictionary_entries);
        }
        let parts = match entry_parts_of(item) {
            Ok(parts) => parts,
            Err(message) => {
                session.fault(Fault::Iteration, message.to_owned(), item.span);
                return None;
            },
        };
        if parts.key.as_str().is_empty() {
            session.fault(
                Fault::Iteration,
                "Dictionary keys must not be empty".to_owned(),
                item.span,
            );
            return None;
        }
        if parts.inlines.len() > 0 {
            let value = dictionary_inline_value(&parts.inlines, parts.span);
            return match self.evaluate_required(&value, span, frames, session, context) {
                Some(value) => Some((parts.key, value)),
                None => None,
            };
        }
        if !parts.text.as_str().is_empty() {
            return match dictionary_scalar_value(parts.text.as_str(), session) {
                Some(value) => Some((parts.key, value)),
                None => None,
            };
        }
        if item.nodes.len() <= 1 {
            let value = IrValue::String("".to_owned());
            proof {
                reveal_strlit("");
                assert(value@ == ValueView::String(Seq::empty()));
            }
            return Some((parts.key, value));
        }
        match self.evaluate_dictionary_entries(
            &item.nodes,
            1,
            item.span,
            frames,
            session,
            context,
        ) {
            Some(entries) => Some(
                (parts.key, IrValue::Dictionary(IrDictionary { entries, span: item.span })),
            ),
            None => None,
        }
    }

    /// Evaluates an operation that reads a collection.
    pub fn evaluate_collection_access(
        &self,
        call: &Call,
        frames: usize,
        session: &mut Session,
        context: &mut EvaluationContext,
    ) -> (r: CallOutcome)
        requires
            natives::owns(NativeDispatchOwner::CollectionAccess, call.name@),
        ensures
            (Ev { out: r@, w: World { s: final(session)@, c: final(context)@ } })
                == semantics::eval_access(
                *self,
                call@,
                frames as nat,
                World { s: old(session)@, c: old(context)@ },
            ),
            host::follows(old(session)@, final(session)@),
            scope::stays(old(context)@, final(context)@),
        decreases frames, 6int, self, 0int,
    {
        proof {
            reveal(semantics::eval_access);
        }
        if call.body.is_some() {
            return session.fail(
                Fault::Iteration,
                join3("`.", call.name, "` does not accept a block body"),
                call.span,
            );
        }
        let (values, named) = match self.evaluate_arguments(call, frames, session, context) {
            Some(arguments) => arguments,
            None => return CallOutcome::Failed,
        };
        let limit = self.limits.max_materialized_elements;
        read_collection(limit, call.name, &values, &named, call.span, session)
    }
}

} // verus!
