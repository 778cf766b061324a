//! Numbers, texts and elements of collections.

use scribium_engine::calls::scalar_boolean_value;
use scribium_engine::collection::{
    collection_values_equal, distinct_collection_values, group_collection_values,
};
use scribium_engine::host::Mode;
use scribium_engine::ir::{IrDictionary, IrPair, IrRange, IrValue, SourceId, SourceSpan};
use scribium_engine::lines::{normalize_line_separators, source_mode_for_resource_path};
use scribium_engine::number::Number;
use scribium_engine::scope::{EvaluationContext, ImplicitParameterError, LambdaScope};
use scribium_engine::text::{is_valid_normal_call_name, lowered, text_before, trimmed};
use scribium_engine::{Capabilities, Capability, EvaluationLimits, Evaluator};

fn bits(value: f64) -> Number {
    Number {
        bits: value.to_bits(),
    }
}

const SAMPLES: [f64; 14] = [
    0.0,
    -0.0,
    1.0,
    -1.0,
    0.5,
    -2.75,
    1e300,
    -1e300,
    5e-324,
    9007199254740992.0,
    9223372036854775807.0,
    f64::INFINITY,
    f64::NEG_INFINITY,
    f64::NAN,
];

#[test]
fn an_integer_is_the_number_it_stands_for() {
    for k in [
        0,
        1,
        -1,
        2,
        3,
        -7,
        1000,
        i32::MAX as i64,
        i32::MIN as i64,
        9_007_199_254_740_991,
        -9_007_199_254_740_991,
        9_007_199_254_740_992,
    ] {
        assert_eq!(Number::from_integer(k), bits(k as f64));
    }
}

#[test]
fn bits_compare_as_the_doubles_they_are() {
    for a in SAMPLES {
        assert_eq!(bits(a).is_nan(), a.is_nan());
        assert_eq!(bits(a).is_finite(), a.is_finite());
        assert_eq!(bits(a).is_negative(), a.is_sign_negative());
        for b in SAMPLES {
            assert_eq!(bits(a).ieee_equal(bits(b)), a == b);
            if !a.is_nan() && !b.is_nan() {
                let order = bits(a).rank().cmp(&bits(b).rank());
                assert_eq!(order, a.total_cmp(&b));
            }
        }
        assert!(a.is_nan() || bits(a).rank() < bits(f64::NAN).rank());
    }
}

#[test]
fn a_finite_number_is_cut_off_at_its_point() {
    for (value, expected) in [
        (0.0, Some((0, true))),
        (-0.0, Some((0, true))),
        (2.0, Some((2, true))),
        (-2.75, Some((-2, false))),
        (0.999, Some((0, false))),
        (5e-324, Some((0, false))),
        (2251799813685248.5, Some((2251799813685248, false))),
        (9007199254740992.0, Some((9007199254740992, true))),
        (9223372036854775808.0, None),
        (1e300, None),
    ] {
        assert_eq!(bits(value).whole_part(), expected);
    }
}

#[test]
fn normalizing_twice_is_normalizing_once() {
    for content in ["", "a\r\nb", "\r", "\r\r\n\n", "a\n\rb", "x"] {
        let once = normalize_line_separators(content);
        assert_eq!(once, content.replace("\r\n", "\n").replace('\r', "\n"));
        assert_eq!(normalize_line_separators(&once), once);
    }
}

#[test]
fn texts_are_trimmed_lowered_and_ordered() {
    for content in ["", " ", " a b\t", "\u{a0}x\u{2003}", "\u{85}\u{e9}\u{3000}", "none"] {
        assert_eq!(trimmed(content), content.trim());
    }
    for content in ["ShArE", "\u{c4}bC", ""] {
        assert_eq!(lowered(content), content.to_ascii_lowercase());
    }
    let words = ["", "a", "ab", "b", "B", "\u{e9}", "\u{10000}", "\u{ffff}"];
    for a in words {
        for b in words {
            assert_eq!(text_before(a, b), a < b);
        }
    }
}

#[test]
fn call_names_start_with_a_letter_or_an_underscore() {
    for name in ["a", "_", "a-b_9", "Z9"] {
        assert!(is_valid_normal_call_name(name), "{name}");
    }
    for name in ["", "9", "-a", "a b", "\u{e9}", "a."] {
        assert!(!is_valid_normal_call_name(name), "{name}");
    }
}

#[test]
fn only_markdown_paths_are_markdown() {
    for (path, mode) in [
        ("a.md", Mode::Markdown),
        ("dir.qd/a.md", Mode::Markdown),
        ("a.MD", Mode::Markdown),
        (".md", Mode::Markdown),
        ("a.qd", Mode::Quarkdown),
        ("md", Mode::Quarkdown),
        ("a.md/b", Mode::Quarkdown),
    ] {
        assert_eq!(source_mode_for_resource_path(path), mode, "{path}");
    }
}

fn at(start: usize) -> SourceSpan {
    SourceSpan {
        source_id: SourceId(1),
        start,
        end: start + 1,
    }
}

fn string(value: &str) -> IrValue {
    IrValue::String(value.to_string())
}

fn dictionary(entries: &[(&str, &str)], start: usize) -> IrValue {
    IrValue::Dictionary(IrDictionary {
        entries: entries
            .iter()
            .map(|(key, value)| IrPair {
                first: Box::new(string(key)),
                second: Box::new(string(value)),
                span: at(start),
            })
            .collect(),
        span: at(start),
    })
}

#[test]
fn elements_are_the_same_whatever_their_place() {
    let range = |start: usize| {
        IrValue::Range(IrRange {
            start: Some(1),
            end: None,
            span: at(start),
        })
    };
    assert!(collection_values_equal(&range(1), &range(2)));
    assert!(collection_values_equal(
        &IrValue::Number(bits(f64::NAN)),
        &IrValue::Number(bits(f64::NAN))
    ));
    assert!(!collection_values_equal(
        &IrValue::Number(bits(0.0)),
        &IrValue::Number(bits(-0.0))
    ));
    assert!(collection_values_equal(
        &dictionary(&[("a", "1"), ("b", "2")], 1),
        &dictionary(&[("b", "2"), ("a", "1")], 5)
    ));
    assert!(!collection_values_equal(&string("a"), &IrValue::Identifier("a".to_string())));
}

#[test]
fn distinct_elements_are_the_first_of_each_group() {
    let values = vec![
        string("b"),
        string("a"),
        string("b"),
        IrValue::Nothing,
        string("a"),
        string("b"),
    ];
    let distinct = distinct_collection_values(&values);
    assert_eq!(distinct, vec![string("b"), string("a"), IrValue::Nothing]);
    assert_eq!(distinct_collection_values(&distinct), distinct);
    let groups = group_collection_values(&values);
    assert_eq!(
        groups,
        vec![
            IrValue::Collection(vec![string("b"), string("b"), string("b")]),
            IrValue::Collection(vec![string("a"), string("a")]),
            IrValue::Collection(vec![IrValue::Nothing]),
        ]
    );
}

#[test]
fn capabilities_and_limits_have_their_defaults() {
    assert_eq!(Capabilities::default(), Capabilities::compatibility_default());
    assert!(Capabilities::compatibility_default().allows(Capability::NativeContent));
    assert!(!Capabilities::none().allows(Capability::NativeContent));
    assert!(!Capabilities::default()
        .with_native_content(false)
        .allows(Capability::NativeContent));
    let limits = EvaluationLimits::default();
    assert_eq!(limits.max_materialized_elements, 1_000_000);
    assert_eq!(limits.max_evaluation_depth, 256);
    assert_eq!(
        Evaluator::new(),
        Evaluator::with_capabilities_and_limits(Capabilities::default(), limits)
    );
    assert_eq!(Evaluator::default(), Evaluator::with_limits(limits));
}

#[test]
fn positional_parameters_are_those_of_the_nearest_lambda() {
    let string = |content: &str| IrValue::String(content.to_string());
    let mut outer = EvaluationContext::new();
    assert_eq!(outer.get_implicit_parameter("1"), None);
    outer.set_lambda_scope(LambdaScope::Implicit(vec![string("a"), string("b")]));
    let mut inner = outer.child();
    assert_eq!(inner.get_implicit_parameter("2"), Some(Ok(string("b"))));
    inner.set_lambda_scope(LambdaScope::Implicit(vec![string("c")]));
    assert_eq!(inner.get_implicit_parameter("1"), Some(Ok(string("c"))));
    assert_eq!(
        inner.get_implicit_parameter("2"),
        Some(Err(ImplicitParameterError::Missing))
    );
    assert_eq!(
        inner.child().get_implicit_parameter("2"),
        Some(Err(ImplicitParameterError::Missing))
    );
    assert_eq!(
        inner.get_implicit_parameter("99999999999999999999999"),
        Some(Err(ImplicitParameterError::Overflow))
    );
    inner.set_lambda_scope(LambdaScope::Explicit);
    assert_eq!(
        inner.get_implicit_parameter("1"),
        Some(Err(ImplicitParameterError::Missing))
    );
    assert_eq!(inner.get_implicit_parameter("name"), None);
}

#[test]
fn truth_values_are_written_in_any_case() {
    let identifier = |name: &str| scalar_boolean_value(&IrValue::Identifier(name.to_string()));
    for name in ["true", "TRUE", "True", "yes", "YES", "yEs"] {
        assert_eq!(identifier(name), Some(true), "{name}");
    }
    for name in ["false", "FALSE", "no", "No"] {
        assert_eq!(identifier(name), Some(false), "{name}");
    }
    for name in ["", "y", "truth", "not", " yes"] {
        assert_eq!(identifier(name), None, "{name}");
    }
    assert_eq!(scalar_boolean_value(&IrValue::Boolean(true)), Some(true));
    assert_eq!(scalar_boolean_value(&IrValue::Boolean(false)), Some(false));
    assert_eq!(scalar_boolean_value(&IrValue::Nothing), None);
    assert_eq!(scalar_boolean_value(&IrValue::String("yes".to_string())), None);
}
