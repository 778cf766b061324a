//! Laws of the operations that read a collection: how they speak of each other.

use vstd::prelude::*;

use crate::binding;
use crate::calls;
use crate::collection;
use crate::host::{InvocationNamedView, InvocationValueView, SessionView};
use crate::ir::{SourceSpan, ValueView};
use crate::laws_collections;
use crate::number;
use crate::outcome::OutcomeView;
use crate::semantics;

verus! {

/// What an operation comes to that is given an iterable and nothing else.
pub open spec fn access(
    limit: nat,
    name: Seq<char>,
    iterable: InvocationValueView,
    span: SourceSpan,
    s: SessionView,
) -> (OutcomeView, SessionView) {
    semantics::access_outcome(
        limit,
        name,
        seq![iterable],
        Seq::<InvocationNamedView>::empty(),
        span,
        s,
    )
}

/// What `.getat` comes to that is given an iterable and an index.
pub open spec fn access_at(
    limit: nat,
    iterable: InvocationValueView,
    index: InvocationValueView,
    span: SourceSpan,
    s: SessionView,
) -> (OutcomeView, SessionView) {
    semantics::access_outcome(
        limit,
        "getat"@,
        seq![iterable, index],
        Seq::<InvocationNamedView>::empty(),
        span,
        s,
    )
}

/// Whether a name is that of an operation that gives one element by its place.
pub open spec fn is_place(name: Seq<char>) -> bool {
    name == "first"@ || name == "second"@ || name == "third"@ || name == "last"@
}

proof fn lemma_names_differ()
    ensures
        is_place("first"@) && "first"@ != "getat"@ && "first"@ != "size"@,
        "second"@ != "getat"@ && "second"@ != "size"@ && "second"@ != "first"@,
        "third"@ != "getat"@ && "third"@ != "size"@ && "third"@ != "first"@,
        "third"@ != "second"@,
        "last"@ != "getat"@ && "last"@ != "size"@ && "last"@ != "first"@,
        "last"@ != "second"@ && "last"@ != "third"@,
        "size"@ != "getat"@,
        !is_place("reversed"@) && "reversed"@ != "getat"@ && "reversed"@ != "size"@,
        "reversed"@ != "sumall"@ && "reversed"@ != "average"@ && "reversed"@ != "distinct"@,
{
    reveal_strlit("size");
    reveal_strlit("first");
    reveal_strlit("second");
    reveal_strlit("third");
    reveal_strlit("last");
    reveal_strlit("getat");
    reveal_strlit("sumall");
    reveal_strlit("average");
    reveal_strlit("distinct");
    reveal_strlit("reversed");
    assert("size"@.len() == 4 && "last"@.len() == 4);
    assert("first"@.len() == 5 && "third"@.len() == 5 && "getat"@.len() == 5);
    assert("second"@.len() == 6 && "sumall"@.len() == 6 && "average"@.len() == 7);
    assert("distinct"@.len() == 8 && "reversed"@.len() == 8);
    assert("first"@[0] != "getat"@[0]);
    assert("third"@[0] != "getat"@[0]);
    assert("third"@[0] != "first"@[0]);
    assert("last"@[0] != "size"@[0]);
    assert("reversed"@[0] != "distinct"@[0]);
}

/// An operation that is given its iterable alone reads the elements of that.
proof fn lemma_access_reads(
    limit: nat,
    name: Seq<char>,
    iterable: InvocationValueView,
    span: SourceSpan,
    s: SessionView,
)
    requires
        name != "getat"@,
    ensures
        access(limit, name, iterable, span, s) == (match collection::iterable_elements(
            limit,
            iterable,
            span,
            s,
        ) {
            (None, t) => (OutcomeView::Failed, t),
            (Some(elements), t) => semantics::elements_outcome(name, elements, span, t),
        }),
{
    reveal(semantics::access_outcome);
    let none = Seq::<InvocationNamedView>::empty();
    let parameter = if name == "size"@ {
        "of"@
    } else {
        "from"@
    };
    assert(!exists|i: int| calls::is_stranger(none, parameter, i));
    assert(calls::access_operand(name, parameter, seq![iterable], none, span, s) == (
        Some(iterable),
        s,
    ));
}

/// `.getat` with a whole number gives the element at that place, counted from one, and nothing
/// where there is none.
pub proof fn lemma_access_at(
    limit: nat,
    iterable: InvocationValueView,
    index: InvocationValueView,
    k: int,
    span: SourceSpan,
    s: SessionView,
)
    requires
        -0x20_0000_0000_0000 < k <= 0x20_0000_0000_0000,
        index.value == ValueView::Number(number::number_of(k)),
    ensures
        access_at(limit, iterable, index, span, s) == (match collection::iterable_elements(
            limit,
            iterable,
            span,
            s,
        ) {
            (None, t) => (OutcomeView::Failed, t),
            (Some(elements), t) => match collection::length_number(elements.len(), span, t) {
                (None, u) => (OutcomeView::Failed, u),
                (Some(_), u) => (
                    OutcomeView::Value(semantics::element_or_none(elements, k - 1)),
                    u,
                ),
            },
        }),
{
    reveal(semantics::access_outcome);
    number::lemma_number_of_is_exact(k);
    let none = Seq::<InvocationNamedView>::empty();
    assert(binding::getat_parts(seq![iterable, index], none, span, s) == (
        Some((iterable, index.value, ValueView::Nothing)),
        s,
    ));
}

/// `.first`, `.second` and `.third` are `.getat` with one, two and three.
pub proof fn lemma_places_are_indices(
    limit: nat,
    name: Seq<char>,
    iterable: InvocationValueView,
    index: InvocationValueView,
    k: int,
    span: SourceSpan,
    s: SessionView,
)
    requires
        (name == "first"@ && k == 1) || (name == "second"@ && k == 2) || (name == "third"@ && k
            == 3),
        index.value == ValueView::Number(number::number_of(k)),
        collection::iterable_elements(limit, iterable, span, s).0 matches Some(elements)
            ==> elements.len() <= collection::max_exact_length(),
    ensures
        access(limit, name, iterable, span, s) == access_at(limit, iterable, index, span, s),
{
    reveal(semantics::elements_outcome);
    lemma_names_differ();
    lemma_access_reads(limit, name, iterable, span, s);
    lemma_access_at(limit, iterable, index, k, span, s);
}

/// `.last` is `.getat` with the number that `.size` gives.
pub proof fn lemma_last_is_at_size(
    limit: nat,
    iterable: InvocationValueView,
    index: InvocationValueView,
    span: SourceSpan,
    s: SessionView,
)
    requires
        access(limit, "size"@, iterable, span, s).0 == OutcomeView::Value(index.value),
    ensures
        access(limit, "last"@, iterable, span, s) == access_at(limit, iterable, index, span, s),
{
    reveal(semantics::elements_outcome);
    lemma_names_differ();
    lemma_access_reads(limit, "size"@, iterable, span, s);
    lemma_access_reads(limit, "last"@, iterable, span, s);
    if let (Some(elements), t) = collection::iterable_elements(limit, iterable, span, s) {
        lemma_access_at(limit, iterable, index, elements.len() as int, span, s);
    }
}

/// `.size` gives the number of elements; `.reversed` gives the elements in reverse, as many as
/// before, and given those it gives the elements again.
pub proof fn lemma_reversed_access(
    limit: nat,
    iterable: InvocationValueView,
    reversed: InvocationValueView,
    span: SourceSpan,
    s: SessionView,
)
    requires
        collection::iterable_elements(limit, iterable, span, s).0 is Some,
        access(limit, "reversed"@, iterable, span, s).0 == OutcomeView::Value(reversed.value),
    ensures
        ({
            let (elements, t) = collection::iterable_elements(limit, iterable, span, s);
            let size = access(limit, "size"@, iterable, span, s);
            &&& reversed.value == ValueView::Collection(elements->0.reverse())
            &&& access(limit, "reversed"@, iterable, span, s).1 == t
            &&& access(limit, "reversed"@, reversed, span, t) == (
                OutcomeView::Value(ValueView::Collection(elements->0)),
                t,
            )
            &&& access(limit, "size"@, reversed, span, t) == size
            &&& elements->0.len() <= collection::max_exact_length() ==> size == (
                OutcomeView::Value(
                    ValueView::Number(number::number_of(elements->0.len() as int)),
                ),
                t,
            )
        }),
{
    reveal(semantics::elements_outcome);
    lemma_names_differ();
    lemma_access_reads(limit, "reversed"@, iterable, span, s);
    lemma_access_reads(limit, "size"@, iterable, span, s);
    let (elements, t) = collection::iterable_elements(limit, iterable, span, s);
    lemma_access_reads(limit, "reversed"@, reversed, span, t);
    lemma_access_reads(limit, "size"@, reversed, span, t);
    laws_collections::lemma_iterable_within_limit(limit, iterable, span, s);
    laws_collections::lemma_reversed_twice(elements->0);
}

/// Every access to an element of an empty collection gives nothing.
pub proof fn lemma_empty_access(
    limit: nat,
    name: Seq<char>,
    iterable: InvocationValueView,
    index: InvocationValueView,
    k: int,
    span: SourceSpan,
    s: SessionView,
)
    requires
        is_place(name),
        -0x20_0000_0000_0000 < k <= 0x20_0000_0000_0000,
        index.value == ValueView::Number(number::number_of(k)),
        collection::iterable_elements(limit, iterable, span, s).0 == Some(
            Seq::<ValueView>::empty(),
        ),
    ensures
        access(limit, name, iterable, span, s).0 == OutcomeView::Value(ValueView::Nothing),
        access_at(limit, iterable, index, span, s).0 == OutcomeView::Value(ValueView::Nothing),
{
    reveal(semantics::elements_outcome);
    lemma_names_differ();
    lemma_access_reads(limit, name, iterable, span, s);
    lemma_access_at(limit, iterable, index, k, span, s);
}

} // verus!
