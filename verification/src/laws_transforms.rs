//! Laws of `.map`, `.filter`, `.sorted`, `.ifpresent` and `.takeif` as whole calls.

use vstd::prelude::*;

use crate::binding;
use crate::collection;
use crate::collection::{KeyedView, SortKeyView};
use crate::ir::{CallableView, NodeView, ParameterView, SourceSpan, ValueView};
use crate::laws_arguments;
use crate::laws_binding;
use crate::laws_builtins;
use crate::laws_iteration;
use crate::outcome::OutcomeView;
use crate::semantics;
use crate::semantics::{Evaluator, World};

verus! {

/// The collection of a transform with a body is its one argument.
pub proof fn lemma_transform_operand(
    name: Seq<char>,
    value: ValueView,
    has_body: bool,
    span: SourceSpan,
    s: crate::host::SessionView,
)
    ensures
        binding::transform_parts(name, seq![value], Seq::empty(), has_body, span, s) == (
            Some((value, None::<ValueView>)),
            s,
        ),
{
    laws_binding::lemma_positional_bound(
        binding::Style::Transform,
        name,
        binding::transform_names(name),
        "`."@ + name + "` accepts an iterable and at most one callback"@,
        binding::static_arguments(seq![value], span),
        span,
        s,
    );
    assert(binding::static_named(Seq::empty()) =~= Seq::empty());
}

/// `.map` over a collection gives what its body gives for each element, in order; `.filter` gives
/// the elements for which its body is true.
pub proof fn lemma_transforms_applied(
    e: Evaluator,
    elements: Seq<ValueView>,
    lambda: Option<Seq<ParameterView>>,
    nodes: Seq<NodeView>,
    span: SourceSpan,
    f: nat,
    w: World,
)
    requires
        elements.len() <= e.limits.max_materialized_elements,
    ensures
        ({
            let value = ValueView::Collection(elements);
            let callable = laws_iteration::body_callable(lambda, nodes, span, w);
            &&& semantics::eval_transform(
                e,
                laws_iteration::body_call("map"@, value, lambda, nodes, span),
                f,
                w,
            ) == semantics::map_outcome(e, elements, callable, true, span, f, w)
            &&& semantics::eval_transform(
                e,
                laws_iteration::body_call("filter"@, value, lambda, nodes, span),
                f,
                w,
            ) == semantics::filter_outcome(e, elements, callable, span, f, w)
            &&& semantics::eval_transform(
                e,
                laws_iteration::body_call("sorted"@, value, lambda, nodes, span),
                f,
                w,
            ) == semantics::sort_outcome(e, elements, Some(callable), span, f, w)
            &&& semantics::eval_transform(
                e,
                laws_builtins::positional_call("sorted"@, seq![value], span),
                f,
                w,
            ) == semantics::sort_outcome(e, elements, None, span, f, w)
        }),
{
    reveal(semantics::key_values);
    reveal(semantics::sort_outcome);
    reveal(semantics::sort_value);
    reveal(semantics::eval_transform);
    reveal(semantics::transform_callback);
    reveal(semantics::transform_elements);
    let value = ValueView::Collection(elements);
    lemma_transform_operand("map"@, value, true, span, w.s);
    lemma_transform_operand("filter"@, value, true, span, w.s);
    lemma_transform_operand("sorted"@, value, true, span, w.s);
    lemma_transform_operand("sorted"@, value, false, span, w.s);
    laws_arguments::lemma_argument_alone(e, value, span, None, f, w);
    assert(w.on(w.s) == w);
    reveal_strlit("map");
    reveal_strlit("filter");
    reveal_strlit("sorted");
    assert("map"@.len() == 3 && "filter"@.len() == 6 && "sorted"@.len() == 6);
    assert("filter"@[0] == 'f' && "sorted"@[0] == 's');
}

/// A callback may be an argument: it means the same as a body, and keeps its capture.
pub proof fn lemma_callback_argument(
    e: Evaluator,
    elements: Seq<ValueView>,
    callable: CallableView,
    span: SourceSpan,
    f: nat,
    w: World,
)
    requires
        elements.len() <= e.limits.max_materialized_elements,
        callable.capture is Some,
    ensures
        ({
            let values = seq![ValueView::Collection(elements), ValueView::Callable(callable)];
            &&& semantics::eval_transform(
                e,
                laws_builtins::positional_call("map"@, values, span),
                f,
                w,
            ) == semantics::map_outcome(e, elements, callable, true, span, f, w)
            &&& semantics::eval_transform(
                e,
                laws_builtins::positional_call("filter"@, values, span),
                f,
                w,
            ) == semantics::filter_outcome(e, elements, callable, span, f, w)
        }),
{
    reveal(semantics::key_values);
    reveal(semantics::sort_outcome);
    reveal(semantics::sort_value);
    reveal(semantics::eval_transform);
    reveal(semantics::transform_callback);
    reveal(semantics::transform_elements);
    let value = ValueView::Collection(elements);
    let callback = ValueView::Callable(callable);
    lemma_transform_callback("map"@, value, callback, span, w.s);
    lemma_transform_callback("filter"@, value, callback, span, w.s);
    laws_arguments::lemma_argument_alone(e, value, span, None, f, w);
    laws_arguments::lemma_callable_captured(e, callable, span, f, w);
    assert(w.on(w.s) == w);
    reveal_strlit("map");
    reveal_strlit("filter");
    reveal_strlit("sorted");
    assert("map"@.len() == 3 && "filter"@.len() == 6 && "sorted"@.len() == 6);
    assert("filter"@[0] == 'f' && "sorted"@[0] == 's');
    let r = semantics::required(e, callback, span, f, w);
    assert(r.out->0->Callable_0 == callable);
}

proof fn lemma_transform_callback(
    name: Seq<char>,
    value: ValueView,
    callback: ValueView,
    span: SourceSpan,
    s: crate::host::SessionView,
)
    ensures
        binding::transform_parts(name, seq![value, callback], Seq::empty(), false, span, s) == (
            Some((value, Some(callback))),
            s,
        ),
{
    laws_binding::lemma_positional_bound(
        binding::Style::Transform,
        name,
        binding::transform_names(name),
        "`."@ + name + "` accepts an iterable and at most one callback"@,
        binding::static_arguments(seq![value, callback], span),
        span,
        s,
    );
    assert(binding::static_named(Seq::empty()) =~= Seq::empty());
}

/// `.sorted` without a callback puts numbers, texts or truth values into their order: the values
/// of the collection, each as often as before, none before a smaller one.
pub proof fn lemma_sorted_by_value(
    e: Evaluator,
    elements: Seq<ValueView>,
    span: SourceSpan,
    f: nat,
    w: World,
)
    requires
        elements.len() <= e.limits.max_materialized_elements,
        (forall|i: int| 0 <= i < elements.len() ==> (#[trigger] elements[i]) is Number) || (forall|
            i: int,
        |
            0 <= i < elements.len() ==> (#[trigger] elements[i]) is String) || (forall|i: int|
            0 <= i < elements.len() ==> (#[trigger] elements[i]) is Boolean),
    ensures
        ({
            let r = semantics::sort_outcome(e, elements, None, span, f, w);
            let sorted = r.out->Value_0->Collection_0;
            &&& r.w == w
            &&& r.out is Value && r.out->Value_0 is Collection
            &&& sorted.len() == elements.len()
            &&& sorted.to_multiset() == elements.to_multiset()
            &&& forall|i: int, j: int|
                0 <= i < j < sorted.len() ==> !collection::key_less(
                    collection::key_of(#[trigger] sorted[j])->Ok_0,
                    collection::key_of(#[trigger] sorted[i])->Ok_0,
                )
        }),
{
    reveal(semantics::key_values);
    reveal(semantics::sort_value);
    reveal(semantics::sort_outcome);
    assert(w.on(w.s) == w);
    lemma_own_keys(e, elements, span, f, w);
    let keyed = semantics::key_values(e, elements, None, span, f, w).out->Ok_0;
    assert forall|i: int| 1 <= i < keyed.len() implies collection::same_kind(
        keyed[0].key,
        (#[trigger] keyed[i]).key,
    ) by {
        assert(elements[0] == keyed[0].value && elements[i] == keyed[i].value);
    }
    crate::laws_collections::lemma_sorted(keyed);
    assert(semantics::comparable(keyed));
    let sorted = collection::sort_keyed(keyed);
    let values = collection::unkeyed(sorted);
    lemma_unkeyed_multiset(keyed, sorted);
    assert(collection::unkeyed(keyed) =~= elements);
    assert forall|i: int, j: int| 0 <= i < j < values.len() implies !collection::key_less(
        collection::key_of(#[trigger] values[j])->Ok_0,
        collection::key_of(#[trigger] values[i])->Ok_0,
    ) by {
        assert(sorted.to_multiset() == keyed.to_multiset());
        lemma_keys_match(keyed, sorted, i);
        lemma_keys_match(keyed, sorted, j);
    }
    let r = semantics::sort_outcome(e, elements, None, span, f, w);
    assert(r.out == OutcomeView::Value(ValueView::Collection(values)));
    assert(r.w == w);
    values.to_multiset_ensures();
    elements.to_multiset_ensures();
    assert(values.to_multiset() =~= elements.to_multiset());
    assert(values.len() == elements.len());
}

proof fn lemma_own_keys(
    e: Evaluator,
    elements: Seq<ValueView>,
    span: SourceSpan,
    f: nat,
    w: World,
)
    requires
        forall|i: int|
            0 <= i < elements.len() ==> (#[trigger] elements[i]) is Number || elements[i] is String
                || elements[i] is Boolean,
    ensures
        ({
            let r = semantics::key_values(e, elements, None, span, f, w);
            &&& r.w == w
            &&& r.out is Ok && r.out->Ok_0.len() == elements.len()
            &&& forall|i: int|
                0 <= i < elements.len() ==> (#[trigger] r.out->Ok_0[i]).value == elements[i]
                    && collection::key_of(elements[i]) == Ok::<SortKeyView, Seq<char>>(
                    r.out->Ok_0[i].key,
                )
        }),
    decreases elements.len(),
{
    reveal(semantics::key_values);
    reveal(semantics::sort_value);
    if elements.len() > 0 {
        let front = elements.drop_last();
        assert forall|i: int| 0 <= i < front.len() implies (#[trigger] front[i]) is Number
            || front[i] is String || front[i] is Boolean by {
            assert(front[i] == elements[i]);
        }
        lemma_own_keys(e, front, span, f, w);
        let last = elements[elements.len() - 1];
        assert(last is Number || last is String || last is Boolean);
        let own = semantics::sort_value(e, last, None, span, f, w);
        assert(own.out == OutcomeView::Value(last) && own.w == w);
        let r = semantics::key_values(e, elements, None, span, f, w);
        let before = semantics::key_values(e, front, None, span, f, w);
        assert forall|i: int| 0 <= i < elements.len() implies (#[trigger] r.out->Ok_0[i]).value
            == elements[i] && collection::key_of(elements[i]) == Ok::<SortKeyView, Seq<char>>(
            r.out->Ok_0[i].key,
        ) by {
            if i < front.len() {
                assert(r.out->Ok_0[i] == before.out->Ok_0[i]);
                assert(front[i] == elements[i]);
            }
        }
    }
}

proof fn lemma_keys_match(keyed: Seq<KeyedView>, sorted: Seq<KeyedView>, i: int)
    requires
        sorted.to_multiset() == keyed.to_multiset(),
        0 <= i < sorted.len(),
        forall|k: int|
            0 <= k < keyed.len() ==> collection::key_of((#[trigger] keyed[k]).value) == Ok::<
                SortKeyView,
                Seq<char>,
            >(keyed[k].key),
    ensures
        collection::key_of(sorted[i].value) == Ok::<SortKeyView, Seq<char>>(sorted[i].key),
{
    broadcast use vstd::seq_lib::group_to_multiset_ensures;

    assert(sorted.contains(sorted[i]));
    assert(sorted.to_multiset().count(sorted[i]) > 0);
    assert(keyed.contains(sorted[i]));
    let k = choose|k: int| 0 <= k < keyed.len() && keyed[k] == sorted[i];
    assert(keyed[k].value == sorted[i].value);
}

proof fn lemma_unkeyed_multiset(a: Seq<KeyedView>, b: Seq<KeyedView>)
    requires
        a.to_multiset() == b.to_multiset(),
    ensures
        collection::unkeyed(a).to_multiset() == collection::unkeyed(b).to_multiset(),
    decreases a.len(),
{
    broadcast use vstd::seq_lib::group_to_multiset_ensures;

    a.to_multiset_ensures();
    b.to_multiset_ensures();
    assert(a.len() == b.len());
    if a.len() > 0 {
        let last = a.last();
        assert(a.contains(last));
        assert(b.to_multiset().count(last) > 0);
        assert(b.contains(last));
        let i = choose|i: int| 0 <= i < b.len() && b[i] == last;
        let front = a.drop_last();
        let rest = b.remove(i);
        assert(front.push(last) =~= a);
        front.to_multiset_ensures();
        assert(a.to_multiset() =~= front.to_multiset().insert(last));
        assert(rest.to_multiset() =~= b.to_multiset().remove(last));
        assert(front.to_multiset() =~= a.to_multiset().remove(last));
        lemma_unkeyed_multiset(front, rest);
        let ua = collection::unkeyed(a);
        let ub = collection::unkeyed(b);
        assert(ua =~= collection::unkeyed(front).push(last.value));
        assert(collection::unkeyed(rest) =~= ub.remove(i));
        collection::unkeyed(front).to_multiset_ensures();
        ub.to_multiset_ensures();
        assert(ub[i] == last.value);
        assert(ub.remove(i).to_multiset() =~= ub.to_multiset().remove(last.value));
        assert(ub.contains(last.value));
        assert(ub.to_multiset().count(last.value) > 0);
        assert(ua.to_multiset() =~= ub.to_multiset());
    } else {
        assert(a =~= b);
    }
}

/// `.ifpresent` gives what its body gives for its value, and nothing for nothing; `.takeif` gives
/// its value back where its body is true, and nothing where it is false.
pub proof fn lemma_optionality_applied(
    e: Evaluator,
    value: ValueView,
    lambda: Option<Seq<ParameterView>>,
    nodes: Seq<NodeView>,
    span: SourceSpan,
    f: nat,
    w: World,
)
    requires
        !(value is Content),
        !(value is Callable),
    ensures
        ({
            let callable = laws_iteration::body_callable(lambda, nodes, span, w);
            let told = semantics::invoke(e, callable, seq![value], false, span, f, w);
            let present = semantics::eval_optionality(
                e,
                laws_iteration::body_call("ifpresent"@, value, lambda, nodes, span),
                f,
                w,
            );
            let taken = semantics::eval_optionality(
                e,
                laws_iteration::body_call("takeif"@, value, lambda, nodes, span),
                f,
                w,
            );
            &&& value is Nothing ==> present.out == OutcomeView::Value(ValueView::Nothing)
                && present.w == w
            &&& !(value is Nothing) && told.out is Value ==> present.out == told.out && present.w
                == told.w
            &&& told.out == OutcomeView::Value(ValueView::Boolean(true)) ==> taken.out
                == OutcomeView::Value(value) && taken.w == told.w
            &&& told.out == OutcomeView::Value(ValueView::Boolean(false)) ==> taken.out
                == OutcomeView::Value(ValueView::Nothing) && taken.w == told.w
            &&& told.out is Failed ==> taken.out is Failed && taken.w == told.w
            &&& told.out is NoValue ==> {
                &&& taken.out is Failed
                &&& taken.w.s.diagnostics.len() == told.w.s.diagnostics.len() + 1
                &&& !(value is Nothing) ==> present.out is Failed
                    && present.w.s.diagnostics.len() == told.w.s.diagnostics.len() + 1
            }
        }),
{
    reveal(semantics::eval_optionality);
    reveal(semantics::optionality_callback);
    reveal(semantics::optionality_outcome);
    reveal_strlit("ifpresent");
    reveal_strlit("takeif");
    assert("ifpresent"@.len() != "takeif"@.len());
    lemma_optionality_parts("ifpresent"@, value, span, w.s);
    lemma_optionality_parts("takeif"@, value, span, w.s);
    laws_arguments::lemma_literal_evaluated(e, value, span, f, w);
    assert(w.on(w.s) == w);
}

proof fn lemma_optionality_parts(
    name: Seq<char>,
    value: ValueView,
    span: SourceSpan,
    s: crate::host::SessionView,
)
    ensures
        binding::optionality_parts(name, seq![value], Seq::empty(), true, span, s) == (
            Some((value, None::<ValueView>)),
            s,
        ),
{
    laws_binding::lemma_positional_bound(
        binding::Style::Parameters,
        name,
        seq!["value"@, binding::callback_name(name)],
        "`."@ + name + "` accepts a value and one callback"@,
        binding::static_arguments(seq![value], span),
        span,
        s,
    );
    assert(binding::static_named(Seq::empty()) =~= Seq::empty());
}

} // verus!
