//! Laws of iterables, collections and dictionaries.

use vstd::prelude::*;

use crate::collection;
use crate::collection::{KeyedView, SortKeyView};
use crate::host::{InvocationValueView, SessionView};
use crate::ir::{IrRange, ListItemView, PairView, SourceSpan, ValueView};
use crate::number;
use crate::semantics;
use crate::text;

verus! {

/// A closed range has the whole numbers from its start to its end, each once and in order.
pub proof fn lemma_range_numbers(start: int, end: int)
    ensures
        collection::range_numbers(start, end).len() == (if start > end {
            0
        } else {
            end - start + 1
        }),
        forall|i: int|
            0 <= i < collection::range_numbers(start, end).len() ==> (
            #[trigger] collection::range_numbers(start, end)[i]) == ValueView::Number(
                number::number_of(start + i),
            ),
{
}

/// A range that ends before it starts is empty, whatever the limit is, and nothing is reported.
pub proof fn lemma_descending_range(
    limit: nat,
    start: i32,
    end: i32,
    span: SourceSpan,
    s: SessionView,
)
    requires
        start > end,
    ensures
        collection::range_elements(
            limit,
            IrRange { start: Some(start), end: Some(end), span },
            s,
        ) == (Some(Seq::<ValueView>::empty()), s),
{
}

/// No range gives more elements than the limit allows.
pub proof fn lemma_range_within_limit(limit: nat, range: IrRange, s: SessionView)
    ensures
        collection::range_elements(limit, range, s).0 matches Some(values) ==> values.len()
            <= limit,
{
}

proof fn lemma_item_values_length(
    limit: nat,
    items: Seq<ListItemView>,
    span: SourceSpan,
    s: SessionView,
)
    ensures
        collection::item_values(limit, items, span, s).0 matches Some(values) ==> values.len()
            == items.len(),
    decreases items.len(),
{
    if items.len() > 0 {
        lemma_item_values_length(limit, items.drop_last(), span, s);
    }
}

/// No iterable gives more elements than the limit allows.
pub proof fn lemma_iterable_within_limit(
    limit: nat,
    argument: InvocationValueView,
    span: SourceSpan,
    s: SessionView,
)
    ensures
        collection::iterable_elements(limit, argument, span, s).0 matches Some(values)
            ==> values.len() <= limit,
{
    match argument.value {
        ValueView::Content(nodes) => {
            if let Some(items) = collection::only_list(nodes) {
                lemma_item_values_length(
                    limit,
                    items,
                    span,
                    collection::check_elements(limit, items.len(), span, s).1,
                );
            }
        },
        _ => {},
    }
}

/// A collection with more elements than the limit allows is refused, and that is all that is
/// reported.
pub proof fn lemma_collection_over_limit(
    limit: nat,
    argument: InvocationValueView,
    span: SourceSpan,
    s: SessionView,
)
    requires
        argument.value matches ValueView::Collection(values) && values.len() > limit,
    ensures
        collection::iterable_elements(limit, argument, span, s).0 is None,
        collection::iterable_elements(limit, argument, span, s).1.diagnostics.len()
            == s.diagnostics.len() + 1,
{
}

/// Whether no value is the same as one before it.
pub open spec fn all_different(values: Seq<ValueView>) -> bool {
    forall|i: int, j: int|
        0 <= i < j < values.len() ==> !collection::values_same(
            #[trigger] values[i],
            #[trigger] values[j],
        )
}

/// No two of the distinct values are the same.
pub proof fn lemma_distinct_differ(values: Seq<ValueView>)
    ensures
        all_different(collection::distinct_values(values)),
    decreases values.len(),
{
    if values.len() > 0 {
        lemma_distinct_differ(values.drop_last());
    }
}

/// Every value is among the distinct ones or the same as one of them.
pub proof fn lemma_distinct_cover(values: Seq<ValueView>, i: int)
    requires
        0 <= i < values.len(),
    ensures
        collection::distinct_values(values).contains(values[i]) || exists|j: int|
            0 <= j < collection::distinct_values(values).len() && collection::values_same(
                #[trigger] collection::distinct_values(values)[j],
                values[i],
            ),
    decreases values.len(),
{
    let kept = collection::distinct_values(values.drop_last());
    let all = collection::distinct_values(values);
    if i < values.len() - 1 {
        lemma_distinct_cover(values.drop_last(), i);
        assert(values.drop_last()[i] == values[i]);
        assert(forall|k: int| 0 <= k < kept.len() ==> all[k] == kept[k]);
        if kept.contains(values[i]) {
            let k = choose|k: int| 0 <= k < kept.len() && kept[k] == values[i];
            assert(all[k] == values[i]);
        } else {
            let j = choose|j: int|
                0 <= j < kept.len() && collection::values_same(#[trigger] kept[j], values[i]);
            assert(collection::values_same(all[j], values[i]));
        }
    } else if !(exists|j: int|
        0 <= j < kept.len() && collection::values_same(#[trigger] kept[j], values.last())) {
        assert(all[kept.len() as int] == values[i]);
    }
}

/// The distinct values are values of the collection.
pub proof fn lemma_distinct_from(values: Seq<ValueView>, i: int)
    requires
        0 <= i < collection::distinct_values(values).len(),
    ensures
        values.contains(collection::distinct_values(values)[i]),
    decreases values.len(),
{
    if values.len() > 0 {
        let kept = collection::distinct_values(values.drop_last());
        if i < kept.len() {
            lemma_distinct_from(values.drop_last(), i);
            let k = choose|k: int|
                0 <= k < values.drop_last().len() && values.drop_last()[k] == kept[i];
            assert(values[k] == kept[i]);
        } else {
            assert(values[values.len() - 1] == values.last());
        }
    }
}

/// The distinct values keep the order of their first appearance: more values behind a
/// collection only add distinct values behind its own.
pub proof fn lemma_distinct_stable(values: Seq<ValueView>, n: int)
    requires
        0 <= n <= values.len(),
    ensures
        collection::distinct_values(values.take(n)).len() <= collection::distinct_values(
            values,
        ).len(),
        collection::distinct_values(values).take(
            collection::distinct_values(values.take(n)).len() as int,
        ) == collection::distinct_values(values.take(n)),
    decreases values.len(),
{
    let part = collection::distinct_values(values.take(n));
    let all = collection::distinct_values(values);
    if n == values.len() {
        assert(values.take(n) =~= values);
        assert(all.take(all.len() as int) =~= all);
    } else {
        lemma_distinct_stable(values.drop_last(), n);
        assert(values.drop_last().take(n) =~= values.take(n));
        let kept = collection::distinct_values(values.drop_last());
        assert(all.take(part.len() as int) =~= kept.take(part.len() as int));
    }
}

proof fn lemma_distinct_of_different(values: Seq<ValueView>)
    requires
        all_different(values),
    ensures
        collection::distinct_values(values) == values,
    decreases values.len(),
{
    if values.len() > 0 {
        let rest = values.drop_last();
        assert(all_different(rest)) by {
            assert forall|i: int, j: int| 0 <= i < j < rest.len() implies !collection::values_same(
                #[trigger] rest[i],
                #[trigger] rest[j],
            ) by {
                assert(rest[i] == values[i] && rest[j] == values[j]);
            }
        }
        lemma_distinct_of_different(rest);
        assert forall|i: int| 0 <= i < rest.len() implies !collection::values_same(
            #[trigger] rest[i],
            values.last(),
        ) by {
            assert(rest[i] == values[i]);
            assert(values.last() == values[values.len() - 1]);
        }
        assert(rest.push(values.last()) =~= values);
    } else {
        assert(collection::distinct_values(values) =~= values);
    }
}

/// To take the distinct values twice is to take them once.
pub proof fn lemma_distinct_idempotent(values: Seq<ValueView>)
    ensures
        collection::distinct_values(collection::distinct_values(values))
            == collection::distinct_values(values),
{
    lemma_distinct_differ(values);
    lemma_distinct_of_different(collection::distinct_values(values));
}

/// The first values of groups.
pub open spec fn first_values(groups: Seq<Seq<ValueView>>) -> Seq<ValueView> {
    groups.map_values(|group: Seq<ValueView>| group[0])
}

/// All values of groups.
pub open spec fn grouped_together(groups: Seq<Seq<ValueView>>) -> Seq<ValueView>
    decreases groups.len(),
{
    if groups.len() == 0 {
        Seq::empty()
    } else {
        grouped_together(groups.drop_last()) + groups.last()
    }
}

proof fn lemma_first_group(groups: Seq<Seq<ValueView>>, value: ValueView, k: int)
    requires
        0 <= k < groups.len(),
        groups[k].len() > 0,
        collection::values_same(groups[k][0], value),
    ensures
        exists|i: int| collection::is_group_of(groups, value, i),
    decreases k,
{
    if exists|j: int|
        0 <= j < k && (#[trigger] groups[j]).len() > 0 && collection::values_same(
            groups[j][0],
            value,
        ) {
        let j = choose|j: int|
            0 <= j < k && (#[trigger] groups[j]).len() > 0 && collection::values_same(
                groups[j][0],
                value,
            );
        lemma_first_group(groups, value, j);
    } else {
        assert(collection::is_group_of(groups, value, k));
    }
}

/// There is one group for each distinct value, and no group is empty.
pub proof fn lemma_groups_are_distinct(values: Seq<ValueView>)
    ensures
        first_values(collection::grouped_values(values)) == collection::distinct_values(values),
        forall|i: int|
            0 <= i < collection::grouped_values(values).len() ==> (
            #[trigger] collection::grouped_values(values)[i]).len() > 0,
    decreases values.len(),
{
    if values.len() > 0 {
        let rest = values.drop_last();
        let value = values.last();
        lemma_groups_are_distinct(rest);
        let groups = collection::grouped_values(rest);
        let kept = collection::distinct_values(rest);
        let all = collection::grouped_values(values);
        if exists|i: int| collection::is_group_of(groups, value, i) {
            let i = choose|i: int| collection::is_group_of(groups, value, i);
            assert(first_values(groups)[i] == groups[i][0]);
            assert(collection::values_same(kept[i], value));
            assert(first_values(all) =~= first_values(groups));
        } else {
            if exists|j: int|
                0 <= j < kept.len() && collection::values_same(#[trigger] kept[j], value) {
                let j = choose|j: int|
                    0 <= j < kept.len() && collection::values_same(#[trigger] kept[j], value);
                assert(first_values(groups)[j] == groups[j][0]);
                lemma_first_group(groups, value, j);
            }
            assert(first_values(all) =~= first_values(groups).push(value));
        }
    } else {
        assert(first_values(collection::grouped_values(values)) =~= collection::distinct_values(
            values,
        ));
    }
}

proof fn lemma_together_update(groups: Seq<Seq<ValueView>>, i: int, value: ValueView)
    requires
        0 <= i < groups.len(),
    ensures
        grouped_together(groups.update(i, groups[i].push(value))).to_multiset()
            == grouped_together(groups).to_multiset().insert(value),
    decreases groups.len(),
{
    broadcast use vstd::seq_lib::group_to_multiset_ensures;

    let updated = groups.update(i, groups[i].push(value));
    let front = grouped_together(groups.drop_last());
    if i == groups.len() - 1 {
        assert(updated.drop_last() =~= groups.drop_last());
        assert(front + groups[i].push(value) =~= (front + groups[i]).push(value));
    } else {
        lemma_together_update(groups.drop_last(), i, value);
        assert(updated.drop_last() =~= groups.drop_last().update(i, groups[i].push(value)));
        let longer = grouped_together(updated.drop_last());
        vstd::seq_lib::lemma_multiset_commutative(longer, groups.last());
        vstd::seq_lib::lemma_multiset_commutative(front, groups.last());
        assert((longer + groups.last()).to_multiset() =~= (front
            + groups.last()).to_multiset().insert(value));
    }
}

/// Grouping loses no value and adds none.
pub proof fn lemma_groups_keep_values(values: Seq<ValueView>)
    ensures
        grouped_together(collection::grouped_values(values)).to_multiset()
            == values.to_multiset(),
    decreases values.len(),
{
    broadcast use vstd::seq_lib::group_to_multiset_ensures;

    if values.len() > 0 {
        let rest = values.drop_last();
        let value = values.last();
        lemma_groups_keep_values(rest);
        let groups = collection::grouped_values(rest);
        assert(values =~= rest.push(value));
        if exists|i: int| collection::is_group_of(groups, value, i) {
            let i = choose|i: int| collection::is_group_of(groups, value, i);
            lemma_together_update(groups, i, value);
        } else {
            let all = groups.push(seq![value]);
            assert(all.drop_last() =~= groups);
            assert(grouped_together(all) =~= grouped_together(groups).push(value));
        }
    } else {
        assert(grouped_together(collection::grouped_values(values)) =~= values);
    }
}

/// Whether all values are of one kind of key.
pub open spec fn one_kind(s: Seq<KeyedView>) -> bool {
    forall|i: int, j: int|
        0 <= i < s.len() && 0 <= j < s.len() ==> collection::same_kind(
            (#[trigger] s[i]).key,
            (#[trigger] s[j]).key,
        )
}

/// Whether no value stands behind one that it sorts before.
pub open spec fn in_key_order(s: Seq<KeyedView>) -> bool {
    forall|i: int, j: int|
        0 <= i < j < s.len() ==> !collection::key_less(
            (#[trigger] s[j]).key,
            (#[trigger] s[i]).key,
        )
}

/// Whether neither of two keys sorts before the other.
pub open spec fn tied(a: SortKeyView, b: SortKeyView) -> bool {
    !collection::key_less(a, b) && !collection::key_less(b, a)
}

proof fn lemma_key_order(a: SortKeyView, b: SortKeyView, c: SortKeyView)
    requires
        collection::same_kind(a, b),
        collection::same_kind(b, c),
    ensures
        !collection::key_less(a, a),
        collection::key_less(a, b) && collection::key_less(b, c) ==> collection::key_less(a, c),
        collection::key_less(a, b) ==> !collection::key_less(b, a),
        !collection::key_less(b, a) && !collection::key_less(c, b) ==> !collection::key_less(
            c,
            a,
        ),
{
    match (a, b, c) {
        (SortKeyView::String(x), SortKeyView::String(y), SortKeyView::String(z)) => {
            text::lemma_text_less_irreflexive(x);
            if text::text_less(x, y) && text::text_less(y, z) {
                text::lemma_text_less_transitive(x, y, z);
            }
            if text::text_less(x, y) && text::text_less(y, x) {
                text::lemma_text_less_transitive(x, y, x);
            }
            text::lemma_text_less_total(x, y);
            text::lemma_text_less_total(y, z);
            if !text::text_less(y, x) && !text::text_less(z, y) && text::text_less(z, x) {
                if text::text_less(x, y) {
                    text::lemma_text_less_transitive(z, x, y);
                }
            }
        },
        _ => {},
    }
}

proof fn lemma_insert_keyed(sorted: Seq<KeyedView>, x: KeyedView)
    requires
        one_kind(sorted.push(x)),
        in_key_order(sorted),
    ensures
        in_key_order(collection::insert_keyed(sorted, x)),
        collection::insert_keyed(sorted, x).to_multiset() == sorted.to_multiset().insert(x),
        collection::insert_keyed(sorted, x).len() == sorted.len() + 1,
        forall|i: int|
            0 <= i < sorted.len() + 1 ==> (#[trigger] collection::insert_keyed(sorted, x)[i] == x
                || sorted.contains(collection::insert_keyed(sorted, x)[i])),
    decreases sorted.len(),
{
    broadcast use vstd::seq_lib::group_to_multiset_ensures;

    let whole = sorted.push(x);
    if sorted.len() > 0 && collection::key_less(x.key, sorted.last().key) {
        let rest = sorted.drop_last();
        let last = sorted.last();
        assert forall|i: int, j: int|
            0 <= i < rest.push(x).len() && 0 <= j < rest.push(
                x
            ).len() implies collection::same_kind(
            (#[trigger] rest.push(x)[i]).key,
            (#[trigger] rest.push(x)[j]).key,
        ) by {
            let a = if i < rest.len() {
                i
            } else {
                sorted.len() as int
            };
            let b = if j < rest.len() {
                j
            } else {
                sorted.len() as int
            };
            assert(whole[a] == rest.push(x)[i] && whole[b] == rest.push(x)[j]);
        }
        assert(in_key_order(rest)) by {
            assert forall|i: int, j: int| 0 <= i < j < rest.len() implies !collection::key_less(
                (#[trigger] rest[j]).key,
                (#[trigger] rest[i]).key,
            ) by {
                assert(rest[i] == sorted[i] && rest[j] == sorted[j]);
            }
        }
        lemma_insert_keyed(rest, x);
        let inner = collection::insert_keyed(rest, x);
        let out = inner.push(last);
        assert(sorted =~= rest.push(last));
        assert forall|i: int, j: int| 0 <= i < j < out.len() implies !collection::key_less(
            (#[trigger] out[j]).key,
            (#[trigger] out[i]).key,
        ) by {
            if j == inner.len() {
                if inner[i] == x {
                    assert(whole[sorted.len() as int] == x && whole[sorted.len() - 1] == last);
                    lemma_key_order(x.key, last.key, x.key);
                } else {
                    let k = choose|k: int| 0 <= k < rest.len() && rest[k] == inner[i];
                    assert(sorted[k] == inner[i]);
                    assert(sorted[sorted.len() - 1] == last);
                }
            }
        }
        assert(sorted.to_multiset() =~= rest.to_multiset().insert(last));
        assert(out.to_multiset() =~= sorted.to_multiset().insert(x));
        assert forall|i: int| 0 <= i < sorted.len() + 1 implies (#[trigger] out[i] == x
            || sorted.contains(out[i])) by {
            if i < inner.len() {
                if inner[i] != x {
                    let k = choose|k: int| 0 <= k < rest.len() && rest[k] == inner[i];
                    assert(sorted[k] == inner[i]);
                }
            } else {
                assert(sorted[sorted.len() - 1] == last);
            }
        }
    } else {
        assert forall|i: int, j: int| 0 <= i < j < whole.len() implies !collection::key_less(
            (#[trigger] whole[j]).key,
            (#[trigger] whole[i]).key,
        ) by {
            if j == sorted.len() {
                let last = sorted.len() - 1;
                assert(whole[last] == sorted.last());
                assert(collection::same_kind(whole[i].key, whole[last].key));
                assert(collection::same_kind(whole[last].key, whole[j].key));
                lemma_key_order(whole[i].key, whole[last].key, whole[j].key);
                if i < last {
                    assert(sorted[i] == whole[i] && sorted[last] == whole[last]);
                }
            }
        }
        assert forall|i: int| 0 <= i < sorted.len() + 1 implies (#[trigger] whole[i] == x
            || sorted.contains(whole[i])) by {
            if i < sorted.len() {
                assert(sorted[i] == whole[i]);
            }
        }
    }
}

/// Sorting loses no value and adds none, and leaves the values in the order of their keys.
pub proof fn lemma_sorted(s: Seq<KeyedView>)
    requires
        one_kind(s),
    ensures
        in_key_order(collection::sort_keyed(s)),
        collection::sort_keyed(s).to_multiset() == s.to_multiset(),
        forall|i: int|
            0 <= i < collection::sort_keyed(s).len() ==> s.contains(
                #[trigger] collection::sort_keyed(s)[i],
            ),
    decreases s.len(),
{
    broadcast use vstd::seq_lib::group_to_multiset_ensures;

    if s.len() == 0 {
        assert(collection::sort_keyed(s) =~= s);
    } else {
        let rest = s.drop_last();
        let x = s.last();
        assert forall|i: int, j: int|
            0 <= i < rest.len() && 0 <= j < rest.len() implies collection::same_kind(
            (#[trigger] rest[i]).key,
            (#[trigger] rest[j]).key,
        ) by {
            assert(rest[i] == s[i] && rest[j] == s[j]);
        }
        lemma_sorted(rest);
        let sorted = collection::sort_keyed(rest);
        let whole = sorted.push(x);
        assert forall|i: int, j: int|
            0 <= i < whole.len() && 0 <= j < whole.len() implies collection::same_kind(
            (#[trigger] whole[i]).key,
            (#[trigger] whole[j]).key,
        ) by {
            let a = if i < sorted.len() {
                let k = choose|k: int| 0 <= k < rest.len() && rest[k] == sorted[i];
                assert(rest.contains(sorted[i]));
                k
            } else {
                s.len() - 1
            };
            let b = if j < sorted.len() {
                let k = choose|k: int| 0 <= k < rest.len() && rest[k] == sorted[j];
                assert(rest.contains(sorted[j]));
                k
            } else {
                s.len() - 1
            };
            assert(s[a] == whole[i] && s[b] == whole[j]);
        }
        lemma_insert_keyed(sorted, x);
        assert(s =~= rest.push(x));
        let all = collection::sort_keyed(s);
        assert forall|i: int| 0 <= i < all.len() implies s.contains(#[trigger] all[i]) by {
            if all[i] == x {
                assert(s[s.len() - 1] == x);
            } else {
                let k = choose|k: int| 0 <= k < sorted.len() && sorted[k] == all[i];
                assert(rest.contains(sorted[k]));
                let m = choose|m: int| 0 <= m < rest.len() && rest[m] == sorted[k];
                assert(s[m] == all[i]);
            }
        }
    }
}

proof fn lemma_filter_push(s: Seq<KeyedView>, x: KeyedView, keep: spec_fn(KeyedView) -> bool)
    ensures
        s.push(x).filter(keep) == (if keep(x) {
            s.filter(keep).push(x)
        } else {
            s.filter(keep)
        }),
{
    reveal(Seq::filter);
    assert(s.push(x).drop_last() =~= s);
}

proof fn lemma_insert_stable(sorted: Seq<KeyedView>, x: KeyedView, key: SortKeyView)
    requires
        forall|i: int|
            0 <= i < sorted.len() ==> collection::same_kind((#[trigger] sorted[i]).key, x.key),
        collection::same_kind(key, x.key),
    ensures
        collection::insert_keyed(sorted, x).filter(|y: KeyedView| tied(y.key, key))
            == sorted.push(x).filter(|y: KeyedView| tied(y.key, key)),
    decreases sorted.len(),
{
    let keep = |y: KeyedView| tied(y.key, key);
    if sorted.len() > 0 && collection::key_less(x.key, sorted.last().key) {
        let rest = sorted.drop_last();
        let last = sorted.last();
        assert forall|i: int| 0 <= i < rest.len() implies collection::same_kind(
            (#[trigger] rest[i]).key,
            x.key,
        ) by {
            assert(rest[i] == sorted[i]);
        }
        lemma_insert_stable(rest, x, key);
        assert(sorted =~= rest.push(last));
        lemma_filter_push(collection::insert_keyed(rest, x), last, keep);
        lemma_filter_push(rest, x, keep);
        lemma_filter_push(rest, last, keep);
        lemma_filter_push(sorted, x, keep);
        assert(!(keep(x) && keep(last))) by {
            assert(sorted[sorted.len() - 1] == last);
            if keep(x) && keep(last) {
                lemma_key_order(last.key, key, x.key);
            }
        }
    }
}

/// Sorting is stable: values whose keys are tied keep their order.
pub proof fn lemma_sorted_stable(s: Seq<KeyedView>, key: SortKeyView)
    requires
        one_kind(s),
        forall|i: int|
            0 <= i < s.len() ==> collection::same_kind(key, (#[trigger] s[i]).key),
    ensures
        collection::sort_keyed(s).filter(|y: KeyedView| tied(y.key, key)) == s.filter(
            |y: KeyedView| tied(y.key, key),
        ),
    decreases s.len(),
{
    let keep = |y: KeyedView| tied(y.key, key);
    if s.len() == 0 {
        assert(collection::sort_keyed(s) =~= s);
    } else {
        let rest = s.drop_last();
        let x = s.last();
        assert forall|i: int, j: int|
            0 <= i < rest.len() && 0 <= j < rest.len() implies collection::same_kind(
            (#[trigger] rest[i]).key,
            (#[trigger] rest[j]).key,
        ) by {
            assert(rest[i] == s[i] && rest[j] == s[j]);
        }
        assert forall|i: int| 0 <= i < rest.len() implies collection::same_kind(
            key,
            (#[trigger] rest[i]).key,
        ) by {
            assert(rest[i] == s[i]);
        }
        lemma_sorted_stable(rest, key);
        lemma_sorted(rest);
        let sorted = collection::sort_keyed(rest);
        assert(s[s.len() - 1] == x);
        assert forall|i: int| 0 <= i < sorted.len() implies collection::same_kind(
            (#[trigger] sorted[i]).key,
            x.key,
        ) by {
            assert(rest.contains(sorted[i]));
            let k = choose|k: int| 0 <= k < rest.len() && rest[k] == sorted[i];
            assert(s[k] == sorted[i]);
        }
        lemma_insert_stable(sorted, x, key);
        lemma_filter_push(sorted, x, keep);
        lemma_filter_push(rest, x, keep);
        assert(s =~= rest.push(x));
    }
}

/// To reverse a collection twice is to leave it as it is, and the first of the reversed
/// elements is the last element.
pub proof fn lemma_reversed_twice(values: Seq<ValueView>)
    ensures
        values.reverse().reverse() == values,
        semantics::element_or_none(values.reverse(), 0) == semantics::element_or_none(
            values,
            values.len() - 1,
        ),
{
    assert(values.reverse().reverse() =~= values);
}

/// Whether every entry has a text for its key, and no two entries have the same.
pub open spec fn keys_differ(entries: Seq<PairView>) -> bool {
    &&& forall|i: int| 0 <= i < entries.len() ==> *(#[trigger] entries[i]).first is String
    &&& forall|i: int, j: int|
        0 <= i < j < entries.len() ==> (#[trigger] entries[i]).first != (
        #[trigger] entries[j]).first
}

proof fn lemma_key_place(entries: Seq<PairView>, key: Seq<char>)
    ensures
        match semantics::key_place(entries, key) {
            Some(i) => 0 <= i < entries.len() && *entries[i].first == ValueView::String(key),
            None => forall|i: int|
                0 <= i < entries.len() ==> *(#[trigger] entries[i]).first != ValueView::String(key),
        },
    decreases entries.len(),
{
    if entries.len() > 0 {
        lemma_key_place(entries.drop_last(), key);
        assert forall|i: int| 0 <= i < entries.len() - 1 implies entries.drop_last()[i]
            == #[trigger] entries[i] by {}
        if semantics::key_place(entries, key) is None {
            assert forall|i: int| 0 <= i < entries.len() implies *(#[trigger] entries[i]).first
                != ValueView::String(key) by {
                if i < entries.len() - 1 {
                    assert(entries.drop_last()[i] == entries[i]);
                }
            }
        }
    }
}

/// Writing an entry keeps the keys of a dictionary different: the last value written for a key
/// stands where the key first appeared.
pub proof fn lemma_written_entry(
    entries: Seq<PairView>,
    key: Seq<char>,
    value: ValueView,
    span: SourceSpan,
)
    requires
        keys_differ(entries),
    ensures
        keys_differ(semantics::put_entry(entries, key, value, span)),
        ({
            let written = semantics::put_entry(entries, key, value, span);
            match semantics::key_place(entries, key) {
                Some(i) => written.len() == entries.len() && *written[i].second == value,
                None => written.len() == entries.len() + 1 && *written.last().second == value,
            }
        }),
        forall|i: int|
            0 <= i < entries.len() && *entries[i].first != ValueView::String(key) ==> (
            #[trigger] semantics::put_entry(entries, key, value, span)[i]) == entries[i],
{
    reveal(semantics::put_entry);
    lemma_key_place(entries, key);
    let written = semantics::put_entry(entries, key, value, span);
    assert forall|i: int| 0 <= i < written.len() implies *(#[trigger] written[i]).first
        is String by {
        if i < entries.len() {
            assert(*entries[i].first is String);
        }
    }
    assert forall|i: int, j: int| 0 <= i < j < written.len() implies (#[trigger] written[i]).first
        != (#[trigger] written[j]).first by {
        if j < entries.len() {
            assert(entries[i].first != entries[j].first);
        }
        match semantics::key_place(entries, key) {
            Some(k) => {
                if i == k && j < entries.len() {
                    assert(entries[k].first != entries[j].first);
                }
            },
            None => {},
        }
    }
}

} // verus!
