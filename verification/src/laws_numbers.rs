//! Laws of numbers: order, counts and bounds.

use vstd::prelude::*;

use crate::calls;
use crate::collection;
use crate::collection::SortKeyView;
use crate::host::{QueryView, ReplyView, SessionView};
use crate::ir::{SourceSpan, ValueView};
use crate::laws_leaves;
use crate::number;
use crate::number::Number;
use crate::text;

verus! {

/// The first bit of a number is its sign. A number whose exponent is as large as can be is infinite
/// or, with a fraction, not a number.
pub proof fn lemma_number_bits(n: Number)
    ensures
        number::is_negative(n) == (n.bits / 0x8000_0000_0000_0000 == 1),
        number::is_finite(n) == (n.bits % 0x8000_0000_0000_0000 / 0x10_0000_0000_0000 != 0x7ff),
        number::is_nan(n) == (n.bits % 0x8000_0000_0000_0000 / 0x10_0000_0000_0000 == 0x7ff
            && n.bits % 0x10_0000_0000_0000 != 0),
{
}

/// A bound of a range is the integer that a number has; beyond the integers of 32 bits it is the
/// nearest of them.
pub proof fn lemma_bounds_clamped(k: int)
    requires
        -0x20_0000_0000_0000 < k <= 0x20_0000_0000_0000,
    ensures
        calls::endpoint_of(number::number_of(k)) == (if k > 0x7fff_ffff {
            0x7fff_ffff
        } else if k < -0x8000_0000 {
            -0x8000_0000
        } else {
            k
        }),
{
    number::lemma_number_of_is_exact(k);
}

/// What is not a number is the bound zero, and an infinite number is the bound on its side.
pub proof fn lemma_bounds_of_no_number(n: Number)
    ensures
        n.bits == 0x7ff0_0000_0000_0000 ==> calls::endpoint_of(n) == 0x7fff_ffff,
        n.bits == 0xfff0_0000_0000_0000 ==> calls::endpoint_of(n) == -0x8000_0000,
        n.bits == 0x7ff8_0000_0000_0000 ==> calls::endpoint_of(n) == 0,
{
}

/// A count is a number that is whole, not negative, and no larger than the integers of 32 bits;
/// any other number is refused, and so is any other value.
pub proof fn lemma_counts(k: int, value: ValueView)
    requires
        -0x20_0000_0000_0000 < k <= 0x20_0000_0000_0000,
    ensures
        ({
            let count = calls::count_of(ValueView::Number(number::number_of(k)));
            if 0 <= k <= 0x7fff_ffff {
                count == Ok::<int, Seq<char>>(k)
            } else {
                count is Err
            }
        }),
        !(value is Number) ==> calls::count_of(value) is Err,
        calls::count_of(ValueView::Number(Number { bits: 0x3fe0_0000_0000_0000 })) is Err,
        calls::count_of(ValueView::Number(Number { bits: 0x7ff0_0000_0000_0000 })) is Err,
{
    number::lemma_number_of_is_exact(k);
    let n = number::number_of(k);
    if number::magnitude(n) == 0 {
        let p = number::pow2(1074);
        vstd::arithmetic::power2::lemma_pow2_pos(1074);
        assert(0nat / p == 0) by (nonlinear_arith)
            requires
                p > 0,
        ;
        assert(number::floor_magnitude(n) == 0);
    }
    let half = Number { bits: 0x3fe0_0000_0000_0000 };
    vstd::arithmetic::power2::lemma2_to64_rest();
    assert(number::magnitude(half) == 0x3fe0_0000_0000_0000);
    assert(number::exponent(half) == -53);
    assert(number::significand(half) == 0x10_0000_0000_0000);
    assert(number::pow2(53) == 0x20_0000_0000_0000);
    assert((-number::exponent(half)) as nat == 53);
    vstd::arithmetic::div_mod::lemma_small_mod(number::significand(half), number::pow2(53));
}

/// Numbers are sorted by size, texts by their characters, and false before true; keys of
/// different kinds cannot be compared.
pub proof fn lemma_key_order(a: Number, b: Number, x: Seq<char>, y: Seq<char>)
    ensures
        collection::key_less(SortKeyView::Boolean(false), SortKeyView::Boolean(true)),
        !collection::key_less(SortKeyView::Boolean(true), SortKeyView::Boolean(false)),
        !collection::key_less(SortKeyView::Boolean(true), SortKeyView::Boolean(true)),
        !collection::key_less(SortKeyView::Boolean(false), SortKeyView::Boolean(false)),
        collection::key_less(SortKeyView::String(x), SortKeyView::String(y)) == text::text_less(
            x,
            y,
        ),
        !collection::same_kind(SortKeyView::Number(a), SortKeyView::String(x)),
        !collection::same_kind(SortKeyView::Number(a), SortKeyView::Boolean(true)),
        !collection::same_kind(SortKeyView::String(x), SortKeyView::Boolean(true)),
        collection::same_kind(SortKeyView::Number(a), SortKeyView::Number(b)),
        collection::same_kind(SortKeyView::String(x), SortKeyView::String(y)),
        collection::same_kind(SortKeyView::Boolean(true), SortKeyView::Boolean(false)),
        a.bits < b.bits <= 0x7ff0_0000_0000_0000 ==> collection::key_less(
            SortKeyView::Number(a),
            SortKeyView::Number(b),
        ) && !collection::key_less(SortKeyView::Number(b), SortKeyView::Number(a)),
        0x8000_0000_0000_0000 <= a.bits < b.bits <= 0xfff0_0000_0000_0000 ==> collection::key_less(
            SortKeyView::Number(b),
            SortKeyView::Number(a),
        ) && !collection::key_less(SortKeyView::Number(a), SortKeyView::Number(b)),
        0x8000_0000_0000_0000 <= a.bits <= 0xfff0_0000_0000_0000 && b.bits <= 0x7ff0_0000_0000_0000
            ==> collection::key_less(SortKeyView::Number(a), SortKeyView::Number(b))
            && !collection::key_less(SortKeyView::Number(b), SortKeyView::Number(a)),
{
}

/// A value is sorted by itself: a number, a text and a truth value are keys, and no other value is
/// one.
pub proof fn lemma_keys(value: ValueView)
    ensures
        match value {
            ValueView::Number(n) => collection::key_of(value) == Ok::<SortKeyView, Seq<char>>(
                SortKeyView::Number(n),
            ),
            ValueView::String(s) => collection::key_of(value) == Ok::<SortKeyView, Seq<char>>(
                SortKeyView::String(s),
            ),
            ValueView::Boolean(b) => collection::key_of(value) == Ok::<SortKeyView, Seq<char>>(
                SortKeyView::Boolean(b),
            ),
            _ => collection::key_of(value) is Err,
        },
{
}

/// The sum of numbers is what the host gives for all of them in their order.
pub proof fn lemma_sum_asked(values: Seq<ValueView>, total: Number, s: SessionView)
    requires
        forall|i: int| 0 <= i < values.len() ==> (#[trigger] values[i]) is Number,
        s.pending is None,
    ensures
        s.used >= s.replies.len() ==> collection::sum_of(values, s).1.pending == Some(
            QueryView::Sum {
                numbers: Seq::new(values.len(), |i: int| values[i]->Number_0),
            },
        ),
        s.used < s.replies.len() && s.replies[s.used as int] == ReplyView::Number(Some(total))
            ==> collection::sum_of(values, s) == (
            Some(total),
            SessionView { used: s.used + 1, ..s },
        ),
{
    lemma_numbers_of(values, s);
}

proof fn lemma_numbers_of(values: Seq<ValueView>, s: SessionView)
    requires
        forall|i: int| 0 <= i < values.len() ==> (#[trigger] values[i]) is Number,
    ensures
        collection::as_numbers(values, s) == (
            Some(Seq::new(values.len(), |i: int| values[i]->Number_0)),
            s,
        ),
    decreases values.len(),
{
    let all = Seq::new(values.len(), |i: int| values[i]->Number_0);
    if values.len() > 0 {
        let front = values.drop_last();
        assert forall|i: int| 0 <= i < front.len() implies (#[trigger] front[i]) is Number by {
            assert(front[i] == values[i]);
        }
        lemma_numbers_of(front, s);
        assert(values[values.len() - 1] is Number);
        let before = Seq::new(front.len(), |i: int| front[i]->Number_0);
        assert(before.push(values.last()->Number_0) =~= all);
    } else {
        assert(all =~= Seq::empty());
    }
}

/// What is summed of a value: a number is itself, a text is the number that the host reads from it
/// without the white space around it, or zero where it is none, and any other value is zero.
pub proof fn lemma_summands(value: ValueView, content: Seq<char>, n: Number, s: SessionView)
    requires
        s.pending is None,
    ensures
        collection::as_number(ValueView::Number(n), s) == (Some(n), s),
        !(value is Number) && !(value is String) && !(value is Identifier)
            ==> collection::as_number(value, s) == (Some(Number { bits: 0 }), s),
        s.used >= s.replies.len() ==> collection::as_number(ValueView::String(content), s).1.pending
            == Some(QueryView::ParseNumber { text: text::trim(content) }),
        s.used < s.replies.len() && s.replies[s.used as int] == ReplyView::Number(Some(n))
            ==> collection::as_number(ValueView::String(content), s) == (
            Some(n),
            SessionView { used: s.used + 1, ..s },
        ),
        s.used < s.replies.len() && s.replies[s.used as int] == ReplyView::Number(None)
            ==> collection::as_number(ValueView::String(content), s) == (
            Some(Number { bits: 0 }),
            SessionView { used: s.used + 1, ..s },
        ),
{
}

/// The average of values is their sum divided by their count; without values it is not a number.
pub proof fn lemma_average_asked(
    values: Seq<ValueView>,
    total: Number,
    quotient: Number,
    span: SourceSpan,
    s: SessionView,
)
    requires
        forall|i: int| 0 <= i < values.len() ==> (#[trigger] values[i]) is Number,
        values.len() <= 0x20_0000_0000_0000,
        s.pending is None,
    ensures
        values.len() == 0 ==> ({
            let r = collection::average_of(values, span, s);
            r.0 is Some && number::is_nan(r.0->0) && r.1 == s
        }),
        values.len() > 0 && s.used + 1 == s.replies.len() && s.replies[s.used as int]
            == ReplyView::Number(Some(total)) ==> collection::average_of(
            values,
            span,
            s,
        ).1.pending == Some(
            QueryView::Divide {
                dividend: total,
                divisor: number::number_of(values.len() as int),
            },
        ),
        values.len() > 0 && s.used + 1 < s.replies.len() && s.replies[s.used as int]
            == ReplyView::Number(Some(total)) && s.replies[s.used as int + 1] == ReplyView::Number(
            Some(quotient),
        ) ==> collection::average_of(values, span, s).0 == Some(quotient),
{
    lemma_numbers_of(values, s);
}

/// More elements than the limit allows are refused where they are asked for, and no more are not.
pub proof fn lemma_limit(limit: nat, requested: nat, span: SourceSpan, s: SessionView)
    ensures
        requested <= limit ==> collection::check_elements(limit, requested, span, s) == (true, s),
        requested > limit ==> {
            let r = collection::check_elements(limit, requested, span, s);
            &&& !r.0 && laws_leaves::reported(s, r.1, "E3005"@, span)
            &&& r.1.diagnostics.last().message == "materialized element limit exceeded: requested "@
                + text::decimal_text(requested) + ", maximum is "@ + text::decimal_text(limit)
        },
{
    let r = collection::check_elements(limit, requested, span, s);
    if requested > limit {
        assert(r.1.diagnostics.take(s.diagnostics.len() as int) =~= s.diagnostics);
    }
}

} // verus!
