//! Laws of sameness: which values `.distinct` and `.groupvalues` take for the same.

use vstd::prelude::*;

use crate::collection;
use crate::ir::{DictionaryView, IrRange, PairView, SourceSpan, ValueView};
use crate::number::Number;

verus! {

/// Values of different types are never the same; texts, words and truth values are the same where
/// they are equal, and nothing is the same as nothing.
pub proof fn lemma_scalars_same(x: Seq<char>, y: Seq<char>, p: bool, q: bool, n: Number)
    ensures
        collection::values_same(ValueView::String(x), ValueView::String(y)) == (x == y),
        collection::values_same(ValueView::Identifier(x), ValueView::Identifier(y)) == (x == y),
        collection::values_same(ValueView::Boolean(p), ValueView::Boolean(q)) == (p == q),
        collection::values_same(ValueView::Nothing, ValueView::Nothing),
        !collection::values_same(ValueView::String(x), ValueView::Identifier(y)),
        !collection::values_same(ValueView::Identifier(x), ValueView::String(y)),
        !collection::values_same(ValueView::String(x), ValueView::Number(n)),
        !collection::values_same(ValueView::Number(n), ValueView::String(x)),
        !collection::values_same(ValueView::Boolean(p), ValueView::Nothing),
        !collection::values_same(ValueView::Nothing, ValueView::Boolean(p)),
        collection::values_same(ValueView::Number(n), ValueView::Number(n)),
{
}

/// Numbers are the same where their bits are; two that are not numbers are the same too.
pub proof fn lemma_numbers_same(a: Number, b: Number)
    ensures
        a.bits % 0x8000_0000_0000_0000 <= 0x7ff0_0000_0000_0000 && b.bits % 0x8000_0000_0000_0000
            <= 0x7ff0_0000_0000_0000 ==> collection::values_same(
            ValueView::Number(a),
            ValueView::Number(b),
        ) == (a == b),
        a.bits % 0x8000_0000_0000_0000 > 0x7ff0_0000_0000_0000 && b.bits % 0x8000_0000_0000_0000
            > 0x7ff0_0000_0000_0000 ==> collection::values_same(
            ValueView::Number(a),
            ValueView::Number(b),
        ),
        a.bits % 0x8000_0000_0000_0000 > 0x7ff0_0000_0000_0000 && b.bits % 0x8000_0000_0000_0000
            <= 0x7ff0_0000_0000_0000 ==> !collection::values_same(
            ValueView::Number(a),
            ValueView::Number(b),
        ),
{
}

/// Ranges are the same where their ends are, wherever they are written.
pub proof fn lemma_ranges_same(a: IrRange, b: IrRange)
    ensures
        collection::values_same(ValueView::Range(a), ValueView::Range(b)) == (a.start == b.start
            && a.end == b.end),
{
}

/// Pairs are the same where their first and their second values are, wherever they are written;
/// collections are the same where they have as many elements and those are the same one by one.
pub proof fn lemma_compounds_same(
    a: PairView,
    b: PairView,
    x: Seq<ValueView>,
    y: Seq<ValueView>,
    i: int,
)
    ensures
        collection::values_same(ValueView::Pair(a), ValueView::Pair(b)) == (
        collection::values_same(*a.first, *b.first) && collection::values_same(
            *a.second,
            *b.second,
        )),
        x.len() != y.len() ==> !collection::values_same(
            ValueView::Collection(x),
            ValueView::Collection(y),
        ),
        0 <= i < x.len() && x.len() == y.len() && !collection::values_same(x[i], y[i])
            ==> !collection::values_same(ValueView::Collection(x), ValueView::Collection(y)),
        x.len() == y.len() && (forall|j: int|
            0 <= j < x.len() ==> collection::values_same(#[trigger] x[j], y[j]))
            ==> collection::values_same(ValueView::Collection(x), ValueView::Collection(y)),
{
    reveal_with_fuel(collection::pairs_same, 2);
    reveal_with_fuel(collection::values_same, 2);
}

proof fn lemma_same_entry(x: PairView, entries: Seq<PairView>)
    ensures
        collection::has_same_entry(x, entries) == (exists|j: int|
            0 <= j < entries.len() && collection::pairs_same(x, #[trigger] entries[j])),
    decreases entries.len(),
{
    if entries.len() > 0 {
        let front = entries.drop_last();
        lemma_same_entry(x, front);
        if collection::has_same_entry(x, front) {
            let j = choose|j: int|
                0 <= j < front.len() && collection::pairs_same(x, #[trigger] front[j]);
            assert(entries[j] == front[j]);
        }
        if collection::pairs_same(x, entries.last()) {
            assert(collection::pairs_same(x, entries[entries.len() - 1]));
        }
        if exists|j: int| 0 <= j < entries.len() && collection::pairs_same(x, #[trigger] entries[j])
            && !collection::has_same_entry(x, entries) {
            let j = choose|j: int|
                0 <= j < entries.len() && collection::pairs_same(x, #[trigger] entries[j]);
            if j < front.len() {
                assert(front[j] == entries[j]);
            }
        }
    }
}

/// Dictionaries are the same where they have as many entries and every entry of the one is the
/// same as some entry of the other, in whatever order.
pub proof fn lemma_dictionaries_same(
    a: Seq<PairView>,
    b: Seq<PairView>,
    at: SourceSpan,
    elsewhere: SourceSpan,
)
    ensures
        collection::values_same(
            ValueView::Dictionary(DictionaryView { entries: a, span: at }),
            ValueView::Dictionary(DictionaryView { entries: b, span: elsewhere }),
        ) == (a.len() == b.len() && forall|i: int|
            0 <= i < a.len() ==> exists|j: int|
                0 <= j < b.len() && collection::values_same(
                    *(#[trigger] a[i]).first,
                    *(#[trigger] b[j]).first,
                ) && collection::values_same(*a[i].second, *b[j].second)),
{
    reveal_with_fuel(collection::values_same, 2);
    reveal_with_fuel(collection::pairs_same, 2);
    assert forall|i: int| 0 <= i < a.len() implies collection::has_same_entry(#[trigger] a[i], b)
        == (exists|j: int|
        0 <= j < b.len() && collection::values_same(*a[i].first, *(#[trigger] b[j]).first)
            && collection::values_same(*a[i].second, *b[j].second)) by {
        lemma_same_entry(a[i], b);
        if collection::has_same_entry(a[i], b) {
            let j = choose|j: int|
                0 <= j < b.len() && collection::pairs_same(a[i], #[trigger] b[j]);
            assert(collection::values_same(*a[i].first, *b[j].first));
        }
        if exists|j: int|
            0 <= j < b.len() && collection::values_same(*a[i].first, *(#[trigger] b[j]).first)
                && collection::values_same(*a[i].second, *b[j].second) {
            let j = choose|j: int|
                0 <= j < b.len() && collection::values_same(*a[i].first, *(#[trigger] b[j]).first)
                    && collection::values_same(*a[i].second, *b[j].second);
            assert(collection::pairs_same(a[i], b[j]));
        }
    }
}

} // verus!
