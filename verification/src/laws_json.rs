//! Laws of JSON: every literal becomes the value that it stands for, in its place.

use vstd::prelude::*;

use crate::ir::{DictionaryView, PairView, SourceSpan, ValueView};
use crate::json;
use crate::json::{JsonEntry, JsonEntryView, JsonNumber, JsonValue, JsonView};
use crate::number;
use crate::number::Number;

verus! {

/// `true` is the boolean true and `false` the boolean false, `null` is no value, and a string is
/// its text.
pub proof fn lemma_json_literals(content: Seq<char>, span: SourceSpan)
    ensures
        json::json_value(JsonView::Bool(true), span) == Ok::<ValueView, Seq<char>>(
            ValueView::Boolean(true),
        ),
        json::json_value(JsonView::Bool(false), span) == Ok::<ValueView, Seq<char>>(
            ValueView::Boolean(false),
        ),
        json::json_value(JsonView::Null, span) == Ok::<ValueView, Seq<char>>(ValueView::Nothing),
        json::json_value(JsonView::String(content), span) == Ok::<ValueView, Seq<char>>(
            ValueView::String(content),
        ),
{
}

/// Every integer of at most 53 bits becomes the number of the same value; any other is refused.
/// A number that is no integer keeps its bits where it is finite, and is refused where it is not.
pub proof fn lemma_json_numbers(n: JsonNumber, span: SourceSpan)
    ensures
        ({
            let value = json::json_value(JsonView::Number(n), span);
            let whole: Option<int> = match n.signed {
                Some(k) => Some(k as int),
                None => match n.unsigned {
                    Some(k) => Some(k as int),
                    None => None,
                },
            };
            match whole {
                Some(k) => if -0x20_0000_0000_0000 < k < 0x20_0000_0000_0000 {
                    &&& value is Ok && value->Ok_0 is Number
                    &&& number::is_finite(value->Ok_0->Number_0)
                    &&& number::is_whole(value->Ok_0->Number_0)
                    &&& number::truncated(value->Ok_0->Number_0) == k
                } else {
                    value is Err
                },
                None => match n.double {
                    Some(bits) => if bits % 0x8000_0000_0000_0000 < 0x7ff0_0000_0000_0000 {
                        value == Ok::<ValueView, Seq<char>>(ValueView::Number(Number { bits }))
                    } else {
                        value is Err
                    },
                    None => value is Err,
                },
            }
        }),
{
    if n.signed is Some && -0x20_0000_0000_0000 < n.signed->0 < 0x20_0000_0000_0000 {
        number::lemma_number_of_is_exact(n.signed->0 as int);
    } else if n.signed is None && n.unsigned is Some && n.unsigned->0 < 0x20_0000_0000_0000 {
        number::lemma_number_of_is_exact(n.unsigned->0 as int);
    }
}

/// An array becomes the collection of what its elements become, each in its place; where an
/// element is refused, so is the array.
pub proof fn lemma_json_array(elements: Seq<JsonView>, span: SourceSpan)
    ensures
        ({
            let all = forall|i: int|
                0 <= i < elements.len() ==> json::json_value(#[trigger] elements[i], span) is Ok;
            let value = json::json_value(JsonView::Array(elements), span);
            &&& value is Ok <==> all
            &&& all ==> value->Ok_0 is Collection && value->Ok_0->Collection_0.len()
                == elements.len()
            &&& all ==> forall|i: int|
                0 <= i < elements.len() ==> json::json_value(elements[i], span) == Ok::<
                    ValueView,
                    Seq<char>,
                >(#[trigger] value->Ok_0->Collection_0[i])
        }),
    decreases elements.len(),
{
    if elements.len() > 0 {
        let front = elements.drop_last();
        lemma_json_array(front, span);
        assert(forall|i: int| 0 <= i < front.len() ==> front[i] == elements[i]);
        let all = forall|i: int|
            0 <= i < elements.len() ==> json::json_value(#[trigger] elements[i], span) is Ok;
        if all {
            assert(forall|i: int|
                0 <= i < front.len() ==> json::json_value(#[trigger] front[i], span) is Ok);
            assert(json::json_value(elements[elements.len() - 1], span) is Ok);
        } else {
            if json::json_values(elements, span) is Ok {
                assert(json::json_values(front, span) is Ok);
                assert forall|i: int| 0 <= i < elements.len() implies json::json_value(
                    #[trigger] elements[i],
                    span,
                ) is Ok by {
                    if i < front.len() {
                        assert(json::json_value(front[i], span) is Ok);
                    }
                }
            }
        }
    }
}

/// An object becomes the dictionary of its members in their order: the name of a member is the
/// key of its entry, and what the value of the member becomes is the value of the entry. Where
/// the value of a member is refused, so is the object.
pub proof fn lemma_json_object(members: Seq<JsonEntryView>, span: SourceSpan)
    ensures
        ({
            let all = forall|i: int|
                0 <= i < members.len() ==> json::json_value(
                    (#[trigger] members[i]).value,
                    span,
                ) is Ok;
            let value = json::json_value(JsonView::Object(members), span);
            &&& value is Ok <==> all
            &&& all ==> value->Ok_0 is Dictionary && value->Ok_0->Dictionary_0.span == span
                && value->Ok_0->Dictionary_0.entries.len() == members.len()
            &&& all ==> forall|i: int|
                0 <= i < members.len() ==> {
                    let entry = #[trigger] value->Ok_0->Dictionary_0.entries[i];
                    &&& *entry.first == ValueView::String(members[i].name)
                    &&& json::json_value(members[i].value, span) == Ok::<ValueView, Seq<char>>(
                        *entry.second,
                    )
                    &&& entry.span == span
                }
        }),
    decreases members.len(),
{
    if members.len() > 0 {
        let front = members.drop_last();
        lemma_json_object(front, span);
        assert(forall|i: int| 0 <= i < front.len() ==> front[i] == members[i]);
        let all = forall|i: int|
            0 <= i < members.len() ==> json::json_value((#[trigger] members[i]).value, span) is Ok;
        if all {
            assert(forall|i: int|
                0 <= i < front.len() ==> json::json_value(
                    (#[trigger] front[i]).value,
                    span,
                ) is Ok);
            assert(json::json_value(members[members.len() - 1].value, span) is Ok);
        } else {
            if json::json_entries(members, span) is Ok {
                assert(json::json_entries(front, span) is Ok);
                assert forall|i: int| 0 <= i < members.len() implies json::json_value(
                    (#[trigger] members[i]).value,
                    span,
                ) is Ok by {
                    if i < front.len() {
                        assert(json::json_value(front[i].value, span) is Ok);
                    }
                }
            }
        }
    }
}

/// A boolean keeps its truth wherever it stands: at the top, as an element of an array, and as
/// the value of a member of an object.
pub proof fn lemma_json_booleans(truth: bool, name: Seq<char>, span: SourceSpan)
    ensures
        json::json_value(JsonView::Bool(truth), span) == Ok::<ValueView, Seq<char>>(
            ValueView::Boolean(truth),
        ),
        json::json_value(JsonView::Array(seq![JsonView::Bool(truth)]), span) == Ok::<
            ValueView,
            Seq<char>,
        >(ValueView::Collection(seq![ValueView::Boolean(truth)])),
        json::json_value(
            JsonView::Object(seq![JsonEntryView { name, value: JsonView::Bool(truth) }]),
            span,
        ) == Ok::<ValueView, Seq<char>>(
            ValueView::Dictionary(
                DictionaryView {
                    entries: seq![
                        PairView {
                            first: Box::new(ValueView::String(name)),
                            second: Box::new(ValueView::Boolean(truth)),
                            span,
                        },
                    ],
                    span,
                },
            ),
        ),
{
    let elements = seq![JsonView::Bool(truth)];
    lemma_json_array(elements, span);
    assert(json::json_value(elements[0], span) is Ok);
    let array = json::json_value(JsonView::Array(elements), span)->Ok_0->Collection_0;
    assert(json::json_value(elements[0], span) == Ok::<ValueView, Seq<char>>(array[0]));
    assert(array =~= seq![ValueView::Boolean(truth)]);
    let members = seq![JsonEntryView { name, value: JsonView::Bool(truth) }];
    lemma_json_object(members, span);
    assert(json::json_value(members[0].value, span) is Ok);
    let object = json::json_value(JsonView::Object(members), span)->Ok_0->Dictionary_0;
    assert(json::json_value(members[0].value, span) == Ok::<ValueView, Seq<char>>(
        *object.entries[0].second,
    ));
    assert(object.entries =~= seq![
        PairView {
            first: Box::new(ValueView::String(name)),
            second: Box::new(ValueView::Boolean(truth)),
            span,
        },
    ]);
}

/// The mathematical value of a tree keeps its literals, its order and its names.
pub proof fn lemma_json_tree(
    elements: Vec<JsonValue>,
    members: Vec<JsonEntry>,
    truth: bool,
    n: JsonNumber,
    content: String,
)
    ensures
        json::json_view(JsonValue::Null) == JsonView::Null,
        json::json_view(JsonValue::Bool(truth)) == JsonView::Bool(truth),
        json::json_view(JsonValue::Number(n)) == JsonView::Number(n),
        json::json_view(JsonValue::String(content)) == JsonView::String(content@),
        ({
            let array = json::json_view(JsonValue::Array(elements));
            &&& array is Array && array->Array_0.len() == elements@.len()
            &&& forall|i: int|
                0 <= i < elements@.len() ==> (#[trigger] array->Array_0[i]) == json::json_view(
                    elements@[i],
                )
        }),
        ({
            let object = json::json_view(JsonValue::Object(members));
            &&& object is Object && object->Object_0.len() == members@.len()
            &&& forall|i: int|
                0 <= i < members@.len() ==> {
                    &&& (#[trigger] object->Object_0[i]).name == members@[i].name@
                    &&& object->Object_0[i].value == json::json_view(members@[i].value)
                }
        }),
{
    reveal_with_fuel(json::json_entry_view, 2);
    reveal_with_fuel(json::json_entries_view, 2);
    let object = json::json_view(JsonValue::Object(members));
    assert forall|i: int| 0 <= i < members@.len() implies {
        &&& (#[trigger] object->Object_0[i]).name == members@[i].name@
        &&& object->Object_0[i].value == json::json_view(members@[i].value)
    } by {
        assert(object->Object_0[i] == json::json_entry_view(members@[i]));
    }
}

} // verus!
