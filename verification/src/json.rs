//! JSON resources as values.

use serde_json::Value;
use vstd::prelude::*;

use crate::ir;
use crate::ir::{DictionaryView, IrDictionary, IrPair, IrValue, PairView, SourceSpan, ValueView};
use crate::number;
use crate::number::Number;
use crate::sequences;
use crate::text;
use crate::text::{integer, join3};

verus! {

broadcast use ir::group_ir_views;

/// A JSON number, as far as each kind of number holds it.
#[derive(Debug, Clone, Copy, PartialEq, Eq, Structural)]
pub struct JsonNumber {
    pub signed: Option<i64>,
    pub unsigned: Option<u64>,
    /// The bits of the nearest double.
    pub double: Option<u64>,
}

/// A JSON value.
#[derive(Debug, PartialEq)]
pub enum JsonValue {
    Null,
    Bool(bool),
    Number(JsonNumber),
    String(String),
    Array(Vec<JsonValue>),
    Object(Vec<JsonEntry>),
}

/// A member of a JSON object.
#[derive(Debug, PartialEq)]
pub struct JsonEntry {
    pub name: String,
    pub value: JsonValue,
}

/// The mathematical value of [`JsonValue`].
#[verifier::ext_equal]
pub enum JsonView {
    Null,
    Bool(bool),
    Number(JsonNumber),
    String(Seq<char>),
    Array(Seq<JsonView>),
    Object(Seq<JsonEntryView>),
}

/// The mathematical value of [`JsonEntry`].
#[verifier::ext_equal]
pub struct JsonEntryView {
    pub name: Seq<char>,
    pub value: JsonView,
}

/// The value of a [`JsonValue`].
pub open spec fn json_view(x: JsonValue) -> JsonView
    decreases x,
{
    match x {
        JsonValue::Null => JsonView::Null,
        JsonValue::Bool(v) => JsonView::Bool(v),
        JsonValue::Number(v) => JsonView::Number(v),
        JsonValue::String(v) => JsonView::String(v@),
        JsonValue::Array(v) => JsonView::Array(json_values_view(v@)),
        JsonValue::Object(v) => JsonView::Object(json_entries_view(v@)),
    }
}

/// The values of a sequence of [`JsonValue`].
pub open spec fn json_values_view(s: Seq<JsonValue>) -> Seq<JsonView>
    decreases s,
{
    Seq::new(s.len(), |i: int| if 0 <= i < s.len() { json_view(s[i]) } else { arbitrary() })
}

/// The value of a [`JsonEntry`].
pub open spec fn json_entry_view(x: JsonEntry) -> JsonEntryView
    decreases x,
{
    JsonEntryView { name: x.name@, value: json_view(x.value) }
}

/// The values of a sequence of [`JsonEntry`].
pub open spec fn json_entries_view(s: Seq<JsonEntry>) -> Seq<JsonEntryView>
    decreases s,
{
    Seq::new(s.len(), |i: int| if 0 <= i < s.len() { json_entry_view(s[i]) } else { arbitrary() })
}

impl View for JsonValue {
    type V = JsonView;

    open spec fn view(&self) -> JsonView {
        json_view(*self)
    }
}

/// A JSON value of serde_json.
#[verifier::external_type_specification]
#[verifier::external_body]
pub struct ExternalJsonValue(serde_json::Value);

/// What `serde_json::from_str` reads in a text: the parts of a JSON value, or the message of
/// its error.
pub uninterp spec fn json_parse(content: Seq<char>) -> Result<JsonView, Seq<char>>;

/// The parts of a JSON value of serde_json.
pub uninterp spec fn json_tree(value: Value) -> JsonView;

/// `serde_json::from_str`: the JSON value that a text holds, or the message of the error.
/// The result depends on the text alone.
#[verifier::external_body]
fn read_json(content: &str) -> (r: Result<Value, String>)
    ensures
        (match r {
            Ok(value) => Ok(json_tree(value)),
            Err(message) => Err(message@),
        }) == json_parse(content@),
{
    serde_json::from_str::<Value>(content).map_err(|error| error.to_string())
}

/// The variants of `serde_json::Value` one by one, and `as_i64`, `as_u64` and `as_f64` of
/// its numbers: the parts of a JSON value. The result depends on the value alone.
#[verifier::external_body]
fn json_parts(value: &Value) -> (r: JsonValue)
    ensures
        r@ == json_tree(*value),
{
    match value {
        Value::Null => JsonValue::Null,
        Value::Bool(v) => JsonValue::Bool(*v),
        Value::Number(v) => JsonValue::Number(JsonNumber {
            signed: v.as_i64(),
            unsigned: v.as_u64(),
            double: v.as_f64().map(|x| x.to_bits()),
        }),
        Value::String(v) => JsonValue::String(v.clone()),
        Value::Array(v) => JsonValue::Array(v.iter().map(json_parts).collect()),
        Value::Object(v) => JsonValue::Object(
            v.iter().map(|(name, x)| JsonEntry { name: name.clone(), value: json_parts(x) }).collect(),
        ),
    }
}

/// The JSON value that a text holds, or why it holds none.
pub fn parse_json(content: &str) -> (r: Result<JsonValue, String>)
    ensures
        (match r {
            Ok(value) => Ok(value@),
            Err(message) => Err(message@),
        }) == json_parse(content@),
{
    match read_json(content) {
        Ok(value) => Ok(json_parts(&value)),
        Err(message) => Err(message),
    }
}

/// The largest integer that a JSON number may be.
pub open spec fn max_json_integer() -> int {
    9_007_199_254_740_991
}

/// What is said of an integer that no number holds exactly.
pub open spec fn inexact_integer(value: int) -> Seq<char> {
    "integer "@ + text::integer_text(value) + " cannot be represented exactly by evaluator Number"@
}

/// A JSON number as a value, or why it is none.
pub open spec fn json_number(n: JsonNumber) -> Result<ValueView, Seq<char>> {
    match n.signed {
        Some(value) => if value > max_json_integer() || -value > max_json_integer() {
            Err(inexact_integer(value as int))
        } else {
            Ok(ValueView::Number(number::number_of(value as int)))
        },
        None => match n.unsigned {
            Some(value) => if value > max_json_integer() {
                Err(inexact_integer(value as int))
            } else {
                Ok(ValueView::Number(number::number_of(value as int)))
            },
            None => match n.double {
                Some(bits) => if number::is_finite(Number { bits }) {
                    Ok(ValueView::Number(Number { bits }))
                } else {
                    Err("JSON number is not finite"@)
                },
                None => Err("JSON number cannot be represented by evaluator Number"@),
            },
        },
    }
}

/// A JSON value as a value, or why it is none.
pub open spec fn json_value(value: JsonView, span: SourceSpan) -> Result<ValueView, Seq<char>>
    decreases value,
{
    match value {
        JsonView::Null => Ok(ValueView::Nothing),
        JsonView::Bool(v) => Ok(ValueView::Boolean(v)),
        JsonView::Number(v) => json_number(v),
        JsonView::String(v) => Ok(ValueView::String(v)),
        JsonView::Array(v) => match json_values(v, span) {
            Ok(values) => Ok(ValueView::Collection(values)),
            Err(message) => Err(message),
        },
        JsonView::Object(v) => match json_entries(v, span) {
            Ok(entries) => Ok(ValueView::Dictionary(DictionaryView { entries, span })),
            Err(message) => Err(message),
        },
    }
}

/// The elements of a JSON array as values; the first that is none decides.
pub open spec fn json_values(values: Seq<JsonView>, span: SourceSpan) -> Result<
    Seq<ValueView>,
    Seq<char>,
>
    decreases values,
{
    if values.len() == 0 {
        Ok(Seq::empty())
    } else {
        match json_values(values.drop_last(), span) {
            Err(message) => Err(message),
            Ok(done) => match json_value(values.last(), span) {
                Ok(value) => Ok(done.push(value)),
                Err(message) => Err(message),
            },
        }
    }
}

/// The members of a JSON object as pairs; the first that is none decides.
pub open spec fn json_entries(entries: Seq<JsonEntryView>, span: SourceSpan) -> Result<
    Seq<PairView>,
    Seq<char>,
>
    decreases entries,
{
    if entries.len() == 0 {
        Ok(Seq::empty())
    } else {
        match json_entries(entries.drop_last(), span) {
            Err(message) => Err(message),
            Ok(done) => match json_value(entries.last().value, span) {
                Ok(value) => Ok(
                    done.push(
                        PairView {
                            first: Box::new(ValueView::String(entries.last().name)),
                            second: Box::new(value),
                            span,
                        },
                    ),
                ),
                Err(message) => Err(message),
            },
        }
    }
}

/// A JSON number as a value, or why it is none.
pub fn json_number_to_ir(n: JsonNumber) -> (r: Result<IrValue, String>)
    ensures
        (match r {
            Ok(value) => Ok(value@),
            Err(message) => Err(message@),
        }) == json_number(n),
{
    if let Some(value) = n.signed {
        if value > 9_007_199_254_740_991 || value < -9_007_199_254_740_991 {
            return Err(
                join3(
                    "integer ",
                    integer(value as i128).as_str(),
                    " cannot be represented exactly by evaluator Number",
                ),
            );
        }
        return Ok(IrValue::Number(Number::from_integer(value)));
    }
    if let Some(value) = n.unsigned {
        if value > 9_007_199_254_740_991 {
            return Err(
                join3(
                    "integer ",
                    integer(value as i128).as_str(),
                    " cannot be represented exactly by evaluator Number",
                ),
            );
        }
        return Ok(IrValue::Number(Number::from_integer(value as i64)));
    }
    match n.double {
        Some(bits) => {
            let number = Number { bits };
            if number.is_finite() {
                Ok(IrValue::Number(number))
            } else {
                Err("JSON number is not finite".to_owned())
            }
        },
        None => Err("JSON number cannot be represented by evaluator Number".to_owned()),
    }
}

proof fn lemma_json_values_stops(values: Seq<JsonView>, span: SourceSpan, i: int)
    requires
        0 <= i <= values.len(),
        json_values(values.take(i), span) is Err,
    ensures
        json_values(values, span) == json_values(values.take(i), span),
    decreases values.len() - i,
{
    if i < values.len() {
        sequences::lemma_take_step(values, i);
        lemma_json_values_stops(values, span, i + 1);
    } else {
        sequences::lemma_take_all(values);
    }
}

proof fn lemma_json_entries_stops(entries: Seq<JsonEntryView>, span: SourceSpan, i: int)
    requires
        0 <= i <= entries.len(),
        json_entries(entries.take(i), span) is Err,
    ensures
        json_entries(entries, span) == json_entries(entries.take(i), span),
    decreases entries.len() - i,
{
    if i < entries.len() {
        sequences::lemma_take_step(entries, i);
        lemma_json_entries_stops(entries, span, i + 1);
    } else {
        sequences::lemma_take_all(entries);
    }
}

/// A JSON value as a value, or why it is none: arrays are collections, objects are
/// dictionaries, and integers beyond 53 bits are refused.
pub fn json_value_to_ir(value: &JsonValue, span: SourceSpan) -> (r: Result<IrValue, String>)
    ensures
        (match r {
            Ok(value) => Ok(value@),
            Err(message) => Err(message@),
        }) == json_value(value@, span),
    decreases value,
{
    match value {
        JsonValue::Null => Ok(IrValue::Nothing),
        JsonValue::Bool(v) => Ok(IrValue::Boolean(*v)),
        JsonValue::Number(v) => json_number_to_ir(*v),
        JsonValue::String(v) => Ok(IrValue::String(v.clone())),
        JsonValue::Array(v) => {
            let ghost all = json_values_view(v@);
            let mut done: Vec<IrValue> = Vec::new();
            let mut i: usize = 0;
            assert(all.take(0) =~= Seq::empty());
            while i < v.len()
                invariant
                    0 <= i <= v@.len(),
                    all == json_values_view(v@),
                    value@ == JsonView::Array(all),
                    decreases_to!(value => v),
                    json_values(all.take(i as int), span) == Ok::<Seq<ValueView>, Seq<char>>(
                        ir::values_view(done@),
                    ),
                decreases v@.len() - i,
            {
                proof {
                    sequences::lemma_take_step(all, i as int);
                }
                match json_value_to_ir(&v[i], span) {
                    Ok(x) => {
                        done.push(x);
                    },
                    Err(message) => {
                        proof {
                            lemma_json_values_stops(all, span, i + 1);
                        }
                        return Err(message);
                    },
                }
                i += 1;
            }
            proof {
                sequences::lemma_take_all(all);
            }
            Ok(IrValue::Collection(done))
        },
        JsonValue::Object(v) => {
            let ghost all = json_entries_view(v@);
            let mut done: Vec<IrPair> = Vec::new();
            let mut i: usize = 0;
            assert(all.take(0) =~= Seq::empty());
            while i < v.len()
                invariant
                    0 <= i <= v@.len(),
                    all == json_entries_view(v@),
                    value@ == JsonView::Object(all),
                    decreases_to!(value => v),
                    json_entries(all.take(i as int), span) == Ok::<Seq<PairView>, Seq<char>>(
                        ir::pairs_view(done@),
                    ),
                decreases v@.len() - i,
            {
                let entry = &v[i];
                proof {
                    sequences::lemma_take_step(all, i as int);
                    assert(all[i as int] == json_entry_view(*entry));
                    assert(decreases_to!(v => v[i as int]));
                }
                match json_value_to_ir(&entry.value, span) {
                    Ok(x) => {
                        let pair = IrPair {
                            first: Box::new(IrValue::String(entry.name.clone())),
                            second: Box::new(x),
                            span,
                        };
                        proof {
                            reveal_with_fuel(ir::pair_view, 2);
                            assert(pair@ == (PairView {
                                first: Box::new(ValueView::String(entry.name@)),
                                second: Box::new(x@),
                                span,
                            }));
                        }
                        done.push(pair);
                    },
                    Err(message) => {
                        proof {
                            lemma_json_entries_stops(all, span, i + 1);
                        }
                        return Err(message);
                    },
                }
                i += 1;
            }
            proof {
                sequences::lemma_take_all(all);
            }
            Ok(IrValue::Dictionary(IrDictionary { entries: done, span }))
        },
    }
}

} // verus!
