//! Calls of documents in a project: resources, native content, document state, layout and data.

use scribium_engine::diagnostic::{Diagnostic, Severity};
use scribium_engine::host::{
    ClosedEnumTarget, ConversionError, DomainTarget, DomainValue, IncludedSource,
    InvocationValue, Mode, ParseDiagnostic, ParsedSource, Query, Reply, ResourceAccessError,
    ResourceText, ScalarTarget, ScalarValue,
};
use scribium_engine::ir::{
    IrComponent, IrContainerAlignment, IrContainerComponent, IrCrossAxisAlignment,
    IrDocumentType, IrEnumValue, IrInline, IrLandscapeComponent, IrListItem,
    IrMainAxisAlignment, IrNamedArg, IrNode, IrParameter, IrRange, IrSize, IrSizeUnit,
    IrStackedComponent, IrStackedLayout, IrValue, NativeTarget, SourceId, SourceSpan,
    TargetSpecificContent,
};
use scribium_engine::metadata::{DocumentMetadataDefaults, IrDocument, IrDocumentState, IrMetadata};
use scribium_engine::number::Number;
use scribium_engine::{Capabilities, EvaluationLimits, Evaluator, Progress};

fn at(start: usize) -> SourceSpan {
    SourceSpan {
        source_id: SourceId(1),
        start,
        end: start + 1,
    }
}

fn bits(value: f64) -> Number {
    Number {
        bits: value.to_bits(),
    }
}

fn string(value: &str) -> IrValue {
    IrValue::String(value.to_string())
}

fn identifier(value: &str) -> IrValue {
    IrValue::Identifier(value.to_string())
}

fn number(value: f64) -> IrValue {
    IrValue::Number(bits(value))
}

fn named(name: &str, value: IrValue) -> IrNamedArg {
    IrNamedArg {
        name: name.to_string(),
        name_span: at(70),
        value,
        span: at(71),
    }
}

fn parameter(name: &str) -> IrParameter {
    IrParameter {
        name: name.to_string(),
        name_span: at(80),
        span: at(80),
        optional: false,
    }
}

fn text(content: &str) -> IrInline {
    IrInline::Text {
        content: content.to_string(),
        span: at(5),
    }
}

fn paragraph(content: &str) -> IrNode {
    IrNode::Paragraph {
        content: vec![text(content)],
        span: at(5),
    }
}

fn call(name: &str, positional: Vec<IrValue>) -> IrNode {
    call_with(name, positional, vec![], None)
}

fn call_with(
    name: &str,
    positional: Vec<IrValue>,
    named: Vec<IrNamedArg>,
    body: Option<Vec<IrNode>>,
) -> IrNode {
    IrNode::FunctionCall {
        name: name.to_string(),
        positional_args: positional,
        named_args: named,
        lambda_parameters: None,
        body,
        span: at(9),
    }
}

fn lambda_call(name: &str, value: IrValue, parameters: &[&str], body: Vec<IrNode>) -> IrNode {
    IrNode::FunctionCall {
        name: name.to_string(),
        positional_args: vec![value],
        named_args: vec![],
        lambda_parameters: Some(parameters.iter().map(|name| parameter(name)).collect()),
        body: Some(body),
        span: at(9),
    }
}

/// A call as the value of an argument.
fn nested(node: IrNode) -> IrValue {
    IrValue::Content(vec![node])
}

fn document(nodes: Vec<IrNode>) -> IrDocument {
    IrDocument {
        nodes,
        metadata: IrMetadata {
            title: Some("Title".to_string()),
            author: None,
            date: None,
            fields: vec![("key".to_string(), "value".to_string())],
            document_state: IrDocumentState::default(),
        },
    }
}

fn plain_text(value: &IrValue) -> Option<String> {
    match value {
        IrValue::String(text) | IrValue::Identifier(text) => Some(text.clone()),
        IrValue::Boolean(value) => Some(format!("{value}")),
        IrValue::Number(value) => Some(format!("{}", f64::from_bits(value.bits))),
        _ => None,
    }
}

fn enum_named(target: ClosedEnumTarget, name: &str) -> Option<IrEnumValue> {
    match (target, name) {
        (ClosedEnumTarget::DocumentType, "paged") => {
            Some(IrEnumValue::DocumentType(IrDocumentType::Paged))
        }
        (ClosedEnumTarget::DocumentType, "slides") => {
            Some(IrEnumValue::DocumentType(IrDocumentType::Slides))
        }
        (ClosedEnumTarget::ContainerAlignment, "end") => Some(IrEnumValue::ContainerAlignment(
            IrContainerAlignment::End,
        )),
        (ClosedEnumTarget::StackedMainAxisAlignment, "spacebetween") => Some(
            IrEnumValue::StackedMainAxisAlignment(IrMainAxisAlignment::SpaceBetween),
        ),
        (ClosedEnumTarget::StackedCrossAxisAlignment, "stretch") => Some(
            IrEnumValue::StackedCrossAxisAlignment(IrCrossAxisAlignment::Stretch),
        ),
        _ => None,
    }
}

fn domain(argument: &InvocationValue, target: DomainTarget) -> Result<DomainValue, ConversionError> {
    match (&argument.value, target) {
        (IrValue::Size(size), DomainTarget::Size) => Ok(DomainValue::Size(*size)),
        (IrValue::Enum(value), DomainTarget::ClosedEnum(_)) => Ok(DomainValue::Enum(*value)),
        (IrValue::String(text) | IrValue::Identifier(text), DomainTarget::ClosedEnum(target)) => {
            match enum_named(target, text) {
                Some(value) => Ok(DomainValue::Enum(value)),
                None => Err(ConversionError::InvalidText),
            }
        }
        (IrValue::String(_), DomainTarget::Size) => Err(ConversionError::InvalidText),
        _ => Err(ConversionError::UnsupportedValue),
    }
}

fn parse_source(source_id: SourceId, content: &str, mode: Mode) -> ParsedSource {
    let mut parsed = ParsedSource {
        diagnostics: vec![],
        lowering_diagnostics: vec![],
        nodes: vec![],
    };
    match content {
        "broken" => parsed.diagnostics.push(ParseDiagnostic {
            code: "E2001".to_string(),
            message: "unexpected end".to_string(),
            start: 2,
            end: 6,
        }),
        "unlowered" => parsed.lowering_diagnostics.push(Diagnostic {
            code: "E2900".to_string(),
            severity: Severity::Warning,
            message: "cannot lower".to_string(),
            primary: None,
            secondary: vec![],
            hints: vec![],
        }),
        "again" => parsed.nodes.push(call("include", vec![string("main.qd")])),
        "declare" => parsed
            .nodes
            .push(call("var", vec![identifier("inner"), string("kept")])),
        "fail" => parsed.nodes.push(call("docname", vec![string(" ")])),
        other => parsed.nodes.push(paragraph(&format!(
            "{other} from {} as {mode:?}",
            source_id.0
        ))),
    }
    parsed
}

fn read(reference: &str) -> Result<ResourceText, ResourceAccessError> {
    let text = |path: &str, text: &str| {
        Ok(ResourceText {
            path: path.to_string(),
            text: text.to_string(),
        })
    };
    match reference {
        "lines.txt" => text("docs/lines.txt", "one\r\ntwo\rthree\n"),
        "data.json" => text(
            "data.json",
            "{\"n\": 3, \"b\": true, \"x\": null, \"list\": [\"a\", 0.5]}",
        ),
        "big.json" => text("big.json", "[9007199254740992]"),
        "bad.json" => text("bad.json", "{"),
        "https://example.com/a" => Err(ResourceAccessError::UnsupportedReference {
            reference: reference.to_string(),
        }),
        "../../up" => Err(ResourceAccessError::Boundary {
            message: "too far up".to_string(),
        }),
        "bytes" => Err(ResourceAccessError::InvalidUtf8 {
            path: "bytes".to_string(),
            message: "at 0".to_string(),
        }),
        "lost" => Err(ResourceAccessError::UnknownSource {
            source_id: SourceId(9),
        }),
        _ => Err(ResourceAccessError::NotFound {
            path: reference.to_string(),
        }),
    }
}

fn source(reference: &str) -> Result<IncludedSource, ResourceAccessError> {
    let source = |id: u32, path: &str, text: &str| {
        Ok(IncludedSource {
            path: path.to_string(),
            source_id: SourceId(id),
            text: text.to_string(),
        })
    };
    match reference {
        "main.qd" => source(1, "main.qd", "self"),
        "part.md" => source(2, "part.md", "part"),
        "part.qd" => source(3, "part.qd", "part"),
        "again.qd" => source(4, "again.qd", "again"),
        "broken.qd" => source(5, "broken.qd", "broken"),
        "unlowered.qd" => source(6, "unlowered.qd", "unlowered"),
        "declare.qd" => source(7, "declare.qd", "declare"),
        "fail.qd" => source(8, "fail.qd", "fail"),
        _ => Err(ResourceAccessError::NotFound {
            path: reference.to_string(),
        }),
    }
}

fn answer(query: &Query) -> Reply {
    match query {
        Query::BuiltinPolicy { .. } => Reply::Policy(None),
        Query::ScalarString { argument } => Reply::Text(plain_text(&argument.value)),
        Query::AdaptString { value } => Reply::Text(plain_text(value)),
        Query::Scalar { argument, target } => Reply::Scalar(match (&argument.value, target) {
            (IrValue::Boolean(value), ScalarTarget::Boolean) => Ok(ScalarValue::Boolean(*value)),
            (IrValue::Number(value), ScalarTarget::Number) => Ok(ScalarValue::Number(*value)),
            _ => Err(ConversionError::UnsupportedValue),
        }),
        Query::Domain { argument, target } => Reply::Domain(domain(argument, *target)),
        Query::Integer { argument } => Reply::Integer(match &argument.value {
            IrValue::Number(value) => Ok(f64::from_bits(value.bits) as i32),
            _ => Err(ConversionError::UnsupportedValue),
        }),
        Query::Range { .. } => Reply::Range(None),
        Query::NumberText { number } => {
            Reply::Text(Some(format!("{}", f64::from_bits(number.bits))))
        }
        Query::ParseNumber { text } => Reply::Number(text.parse().ok().map(bits)),
        Query::ReadText { reference, .. } => Reply::Resource(read(reference)),
        Query::ReadSource { reference, .. } => Reply::Source(source(reference)),
        Query::SourcePath { source_id } => Reply::Text(Some(
            match source_id.0 {
                1 => "main.qd",
                4 => "again.qd",
                _ => "other.qd",
            }
            .to_string(),
        )),
        Query::Parse {
            source_id,
            text,
            mode,
            ..
        } => Reply::Parsed(parse_source(*source_id, text, *mode)),
        other => panic!("the host has no answer to {other:?}"),
    }
}

fn run_with(evaluator: &Evaluator, nodes: Vec<IrNode>) -> (IrDocument, Vec<Diagnostic>) {
    let document = document(nodes);
    let mut replies: Vec<Reply> = Vec::new();
    loop {
        match evaluator.evaluate_project(SourceId(1), &document, &replies) {
            Progress::Done {
                document,
                diagnostics,
            } => return (document, diagnostics),
            Progress::Waiting { query } => replies.push(answer(&query)),
        }
    }
}

fn run(nodes: Vec<IrNode>) -> (IrDocument, Vec<Diagnostic>) {
    run_with(&Evaluator::new(), nodes)
}

fn shows(node: &IrNode) -> String {
    match node {
        IrNode::Paragraph { content, .. } => content
            .iter()
            .map(|inline| match inline {
                IrInline::Text { content, .. } => content.clone(),
                other => format!("{other:?}"),
            })
            .collect(),
        other => format!("{other:?}"),
    }
}

/// What a document without errors shows.
fn shown(nodes: Vec<IrNode>) -> Vec<String> {
    let (document, diagnostics) = run(nodes);
    assert_eq!(diagnostics, vec![]);
    document.nodes.iter().map(shows).collect()
}

/// The codes and messages of a document with errors, which shows nothing.
fn refused(nodes: Vec<IrNode>) -> Vec<(String, String)> {
    let (document, diagnostics) = run(nodes);
    assert_eq!(document.nodes, vec![]);
    diagnostics
        .into_iter()
        .map(|diagnostic| (diagnostic.code, diagnostic.message))
        .collect()
}

fn error(code: &str, message: &str) -> Vec<(String, String)> {
    vec![(code.to_string(), message.to_string())]
}

#[test]
fn read_normalizes_line_ends_and_selects_lines() {
    let reading = |lines: Option<(Option<i32>, Option<i32>)>| {
        let arguments = match lines {
            None => vec![],
            Some((start, end)) => vec![named(
                "lines",
                IrValue::Range(IrRange {
                    start,
                    end,
                    span: at(3),
                }),
            )],
        };
        call_with("read", vec![string("lines.txt")], arguments, None)
    };
    assert_eq!(shown(vec![reading(None)]), vec!["one\ntwo\nthree\n"]);
    assert_eq!(
        shown(vec![reading(Some((Some(2), Some(3))))]),
        vec!["two\nthree"]
    );
    assert_eq!(shown(vec![reading(Some((None, Some(1))))]), vec!["one"]);
    assert_eq!(
        refused(vec![reading(Some((Some(2), Some(4))))]),
        error(
            "E3001",
            "`.read` cannot select lines from `docs/lines.txt`: range 2..4 is outside 1..3"
        )
    );
    assert_eq!(
        refused(vec![reading(Some((Some(-1), None)))]),
        error(
            "E3001",
            "`.read` cannot select lines from `docs/lines.txt`: range -1..3 is outside 1..3"
        )
    );
}

#[test]
fn resource_failures_have_their_own_errors() {
    let reading = |reference: &str| vec![call("read", vec![string(reference)])];
    assert_eq!(
        refused(reading("https://example.com/a")),
        error(
            "E8001",
            "`.read` does not support non-local resource reference `https://example.com/a`"
        )
    );
    assert_eq!(
        refused(reading("../../up")),
        error(
            "E8001",
            "`.read` resource path is outside the project boundary: too far up"
        )
    );
    assert_eq!(
        refused(reading("bytes")),
        error("E3001", "`.read` resource `bytes` is not valid UTF-8: at 0")
    );
    assert_eq!(
        refused(reading("lost")),
        error(
            "E9001",
            "`.read` cannot resolve the current source identity SourceId(9)"
        )
    );
    assert_eq!(
        refused(reading("missing")),
        error("E3001", "`.read` resource not found: `missing`")
    );
}

#[test]
fn resource_arguments_are_checked() {
    assert_eq!(
        refused(vec![call("read", vec![])]),
        error("E3003", "`.read` requires a resource path")
    );
    assert_eq!(
        refused(vec![call("json", vec![string("a"), string("b")])]),
        error("E3003", "`.json` accepts exactly one resource path")
    );
    assert_eq!(
        refused(vec![call_with(
            "read",
            vec![string("a")],
            vec![named("path", string("b"))],
            None
        )]),
        error("E3003", "`.read` received `path` more than once")
    );
    assert_eq!(
        refused(vec![call_with(
            "include",
            vec![string("a")],
            vec![named("lines", string("b"))],
            None
        )]),
        error("E3003", "`.include` does not support named argument `lines`")
    );
    assert_eq!(
        refused(vec![call_with(
            "read",
            vec![string("lines.txt")],
            vec![],
            Some(vec![paragraph("body")])
        )]),
        error("E3003", "`.read` does not accept a block body")
    );
    assert_eq!(
        refused(vec![call("read", vec![IrValue::Nothing])]),
        error("E3003", "`.read` resource path must adapt to String")
    );
}

#[test]
fn resources_need_a_project() {
    let evaluator = Evaluator::new();
    let document = document(vec![call("read", vec![string("lines.txt")])]);
    let mut replies: Vec<Reply> = Vec::new();
    loop {
        match evaluator.evaluate(&document, &replies) {
            Progress::Waiting { query } => replies.push(answer(&query)),
            Progress::Done { diagnostics, .. } => {
                assert_eq!(diagnostics.len(), 1);
                assert_eq!(diagnostics[0].code, "E8001");
                return;
            }
        }
    }
}

#[test]
fn json_becomes_typed_values() {
    let nodes = vec![
        call(
            "var",
            vec![
                identifier("data"),
                nested(call("json", vec![string("data.json")])),
            ],
        ),
        call("size", vec![nested(call("data", vec![]))]),
        lambda_call(
            "foreach",
            nested(call("data", vec![])),
            &["key", "value"],
            vec![call("key", vec![])],
        ),
    ];
    assert_eq!(shown(nodes), vec!["4", "b", "list", "n", "x"]);
    assert_eq!(
        refused(vec![call("json", vec![string("big.json")])]),
        error(
            "E3001",
            "`.json` value in `big.json` is unsupported: integer 9007199254740992 cannot be represented exactly by evaluator Number"
        )
    );
    let problems = refused(vec![call("json", vec![string("bad.json")])]);
    assert_eq!(problems.len(), 1);
    assert_eq!(problems[0].0, "E3001");
    assert!(problems[0].1.starts_with("`.json` could not parse `bad.json`: EOF"));
}

#[test]
fn include_takes_the_mode_from_the_path() {
    assert_eq!(
        shown(vec![
            call("include", vec![string("part.md")]),
            call_with("include", vec![], vec![named("path", string("part.qd"))], None),
        ]),
        vec!["part from 2 as Markdown", "part from 3 as Quarkdown"]
    );
}

#[test]
fn an_active_source_is_not_included_again() {
    assert_eq!(
        refused(vec![call("include", vec![string("main.qd")])]),
        error("E3001", "`.include` cycle detected: main.qd -> main.qd")
    );
    assert_eq!(
        refused(vec![call("include", vec![string("again.qd")])]),
        error(
            "E3001",
            "`.include` cycle detected: main.qd -> again.qd -> main.qd"
        )
    );
}

#[test]
fn an_included_source_with_errors_gives_nothing() {
    let (after, diagnostics) = run(vec![call("include", vec![string("broken.qd")])]);
    assert_eq!(after.nodes, vec![]);
    assert_eq!(diagnostics.len(), 1);
    assert_eq!(diagnostics[0].code, "E2001");
    assert_eq!(
        diagnostics[0].primary,
        Some(SourceSpan {
            source_id: SourceId(5),
            start: 2,
            end: 6
        })
    );
    assert_eq!(
        refused(vec![call("include", vec![string("unlowered.qd")])]),
        error("E2900", "cannot lower")
    );
    assert_eq!(
        refused(vec![call("include", vec![string("fail.qd")])]),
        error("E3001", "`.docname` cannot be blank")
    );
    assert_eq!(
        refused(vec![call("include", vec![string("none.qd")])]),
        error("E3001", "`.include` resource not found: `none.qd`")
    );
}

#[test]
fn only_a_shared_source_declares_for_its_includer() {
    let including = |sandbox: Option<&str>| {
        vec![
            call_with(
                "include",
                vec![string("declare.qd")],
                match sandbox {
                    Some(name) => vec![named("sandbox", string(name))],
                    None => vec![],
                },
                None,
            ),
            call("inner", vec![]),
        ]
    };
    assert_eq!(shown(including(None)), vec!["kept"]);
    assert_eq!(shown(including(Some("SHARE"))), vec!["kept"]);
    for sandbox in ["scope", "Subdocument"] {
        let (after, diagnostics) = run(including(Some(sandbox)));
        assert_eq!(diagnostics, vec![]);
        assert_eq!(after.nodes, vec![call("inner", vec![])]);
    }
    let (_, diagnostics) = run(including(Some("other")));
    assert_eq!(diagnostics[0].message, "unsupported `.include` sandbox `other`");
}

#[test]
fn native_content_needs_its_capability() {
    let nodes = || {
        vec![
            call("html", vec![string("<b>x</b>")]),
            call("markdown", vec![string("*x*")]),
        ]
    };
    let (after, diagnostics) = run(nodes());
    assert_eq!(diagnostics, vec![]);
    let content = |target: NativeTarget, content: &str| IrNode::TargetSpecificContent {
        content: TargetSpecificContent {
            target,
            content: content.to_string(),
            span: at(9),
        },
    };
    assert_eq!(
        after.nodes,
        vec![
            content(NativeTarget::Html, "<b>x</b>"),
            content(NativeTarget::Markdown, "*x*")
        ]
    );
    let denied = Evaluator::with_capabilities(Capabilities::none());
    let (after, diagnostics) = run_with(&denied, nodes());
    assert_eq!(after.nodes, vec![]);
    let codes: Vec<&str> = diagnostics.iter().map(|d| d.code.as_str()).collect();
    assert_eq!(codes, vec!["E3004", "E3004"]);
    assert_eq!(
        diagnostics[1].message,
        "NativeContent capability is required for `.markdown`"
    );
    let granted = Evaluator::with_capabilities(Capabilities::none().with_native_content(true));
    assert_eq!(run_with(&granted, nodes()).0.nodes.len(), 2);
}

#[test]
fn html_takes_its_content_once() {
    let raw = IrNode::RawHtml {
        source: "<i>raw</i>".to_string(),
        span: at(4),
    };
    let (after, diagnostics) = run(vec![call_with("html", vec![], vec![], Some(vec![raw]))]);
    assert_eq!(diagnostics, vec![]);
    assert_eq!(
        after.nodes,
        vec![IrNode::TargetSpecificContent {
            content: TargetSpecificContent {
                target: NativeTarget::Html,
                content: "<i>raw</i>".to_string(),
                span: at(9),
            }
        }]
    );
    assert_eq!(
        refused(vec![call("html", vec![])]),
        error("E3003", "`.html` requires one `content` argument or body")
    );
    assert_eq!(
        refused(vec![call_with(
            "markdown",
            vec![string("a")],
            vec![named("content", string("b"))],
            None
        )]),
        error("E3003", "`.markdown` received `content` more than once")
    );
    assert_eq!(
        refused(vec![call_with(
            "html",
            vec![string("a")],
            vec![],
            Some(vec![paragraph("b")])
        )]),
        error(
            "E3003",
            "`.html` received both a body and an explicit `content` argument"
        )
    );
    assert_eq!(
        refused(vec![call("html", vec![IrValue::Nothing])]),
        error(
            "E3003",
            "`.html` content must adapt to the supported String boundary"
        )
    );
}

#[test]
fn document_state_reads_what_was_written() {
    let (after, diagnostics) = run(vec![
        call("docname", vec![string("Report")]),
        call("docdescription", vec![string(" ")]),
        call("doctype", vec![string("slides")]),
        call("docname", vec![]),
        call("doctype", vec![]),
    ]);
    assert_eq!(diagnostics, vec![]);
    let texts: Vec<String> = after.nodes.iter().map(shows).collect();
    assert_eq!(texts, vec!["Report", "slides"]);
    assert_eq!(
        after.metadata.document_state,
        IrDocumentState {
            name: "Report".to_string(),
            description: " ".to_string(),
            document_type: IrDocumentType::Slides,
        }
    );
    assert_eq!(after.metadata.title, Some("Title".to_string()));
    assert_eq!(
        after.metadata.fields,
        vec![("key".to_string(), "value".to_string())]
    );
}

#[test]
fn a_refused_document_state_keeps_the_old_one() {
    let (after, diagnostics) = run(vec![
        call("doctype", vec![string("paged")]),
        call("doctype", vec![string("poster")]),
        call("docname", vec![string("\t")]),
        call("docname", vec![IrValue::Nothing]),
        call("docname", vec![string("a"), string("b")]),
        call_with("docname", vec![], vec![], Some(vec![paragraph("x")])),
        call("doctype", vec![]),
    ]);
    let messages: Vec<&str> = diagnostics.iter().map(|d| d.message.as_str()).collect();
    assert_eq!(
        messages,
        vec![
            "`.doctype` requires one of `plain`, `paged`, `slides`, or `docs` from a dynamic argument",
            "`.docname` cannot be blank",
            "`.docname` requires a value that converts to String",
            "`.docname` accepts exactly one positional String argument when writing",
            "`.docname` does not accept a block body",
        ]
    );
    let texts: Vec<String> = after.nodes.iter().map(shows).collect();
    assert_eq!(texts, vec!["paged"]);
    assert_eq!(
        after.metadata.document_state.document_type,
        IrDocumentType::Paged
    );
    assert_eq!(after.metadata.document_state.name, IrDocumentState::default().name);
}

fn component(nodes: Vec<IrNode>) -> IrComponent {
    let (after, diagnostics) = run(nodes);
    assert_eq!(diagnostics, vec![]);
    match after.nodes.into_iter().next() {
        Some(IrNode::Component { component }) => component,
        other => panic!("not a component: {other:?}"),
    }
}

fn size(value: f64, unit: IrSizeUnit) -> IrSize {
    IrSize {
        value: bits(value),
        unit,
    }
}

#[test]
fn alignment_makes_a_full_width_container() {
    let container = |alignment: IrContainerAlignment| {
        IrComponent::Container(IrContainerComponent {
            width: None,
            height: None,
            full_width: true,
            alignment: Some(alignment),
            children: vec![paragraph("x")],
            span: at(9),
        })
    };
    assert_eq!(
        component(vec![call_with("center", vec![], vec![], Some(vec![paragraph("x")]))]),
        container(IrContainerAlignment::Center)
    );
    assert_eq!(
        component(vec![call_with(
            "align",
            vec![string("end")],
            vec![],
            Some(vec![paragraph("x")])
        )]),
        container(IrContainerAlignment::End)
    );
    assert_eq!(
        refused(vec![call("center", vec![])]),
        error("E3003", "`.center` requires a Markdown block body")
    );
    assert_eq!(
        refused(vec![call_with(
            "center",
            vec![string("a")],
            vec![],
            Some(vec![paragraph("x")])
        )]),
        error("E3003", "`.center` does not accept positional arguments")
    );
    assert_eq!(
        refused(vec![call_with(
            "align",
            vec![string("up")],
            vec![],
            Some(vec![paragraph("x")])
        )]),
        error("E3003", "`.align` alignment value is invalid")
    );
}

#[test]
fn container_and_landscape_keep_their_arguments() {
    let width = size(12.5, IrSizeUnit::Cm);
    assert_eq!(
        component(vec![call_with(
            "container",
            vec![IrValue::Size(width)],
            vec![named("fullwidth", IrValue::Boolean(true))],
            None
        )]),
        IrComponent::Container(IrContainerComponent {
            width: Some(width),
            height: None,
            full_width: true,
            alignment: None,
            children: vec![],
            span: at(9),
        })
    );
    assert_eq!(
        component(vec![call_with("landscape", vec![], vec![], Some(vec![paragraph("x")]))]),
        IrComponent::Landscape(IrLandscapeComponent {
            children: vec![paragraph("x")],
            span: at(9),
        })
    );
    assert_eq!(
        refused(vec![call_with(
            "landscape",
            vec![],
            vec![named("a", string("b"))],
            Some(vec![])
        )]),
        error("E3003", "`.landscape` does not accept named arguments")
    );
}

#[test]
fn breaks_and_whitespace_are_inlines() {
    let (after, diagnostics) = run(vec![
        call("br", vec![]),
        call("whitespace", vec![]),
        call_with(
            "whitespace",
            vec![],
            vec![named("height", IrValue::Size(size(2.0, IrSizeUnit::Mm)))],
            None,
        ),
    ]);
    assert_eq!(diagnostics, vec![]);
    let inline = |content: IrInline| IrNode::Paragraph {
        content: vec![content],
        span: at(9),
    };
    assert_eq!(
        after.nodes,
        vec![
            inline(IrInline::HardBreak { span: at(9) }),
            inline(IrInline::Whitespace {
                width: None,
                height: None,
                span: at(9)
            }),
            inline(IrInline::Whitespace {
                width: Some(size(0.0, IrSizeUnit::Px)),
                height: Some(size(2.0, IrSizeUnit::Mm)),
                span: at(9)
            }),
        ]
    );
    assert_eq!(
        refused(vec![call_with("br", vec![], vec![], Some(vec![paragraph("x")]))]),
        error("E3003", "`.br` does not accept a body")
    );
    assert_eq!(
        refused(vec![call("whitespace", vec![string("wide")])]),
        error(
            "E3003",
            "`.whitespace` parameter `width`: value is invalid for the existing Size adapter"
        )
    );
}

#[test]
fn stacked_layouts_place_their_gaps() {
    let gap = size(4.0, IrSizeUnit::Pt);
    let row = component(vec![call_with(
        "row",
        vec![string("spacebetween")],
        vec![named("gap", IrValue::Size(gap))],
        Some(vec![paragraph("x")]),
    )]);
    assert_eq!(
        row,
        IrComponent::Stacked(IrStackedComponent {
            layout: IrStackedLayout::Row,
            main_axis_alignment: IrMainAxisAlignment::SpaceBetween,
            cross_axis_alignment: IrCrossAxisAlignment::Center,
            row_gap: None,
            column_gap: Some(gap),
            children: vec![paragraph("x")],
            span: at(9),
        })
    );
    let column = component(vec![call_with(
        "column",
        vec![],
        vec![
            named("gap", IrValue::Size(gap)),
            named("cross", string("stretch")),
        ],
        Some(vec![paragraph("x")]),
    )]);
    assert_eq!(
        column,
        IrComponent::Stacked(IrStackedComponent {
            layout: IrStackedLayout::Column,
            main_axis_alignment: IrMainAxisAlignment::Start,
            cross_axis_alignment: IrCrossAxisAlignment::Stretch,
            row_gap: Some(gap),
            column_gap: None,
            children: vec![paragraph("x")],
            span: at(9),
        })
    );
    let other = size(8.0, IrSizeUnit::Px);
    let grid = component(vec![call_with(
        "grid",
        vec![number(3.0)],
        vec![
            named("gap", IrValue::Size(gap)),
            named("hgap", IrValue::Size(other)),
        ],
        Some(vec![paragraph("x")]),
    )]);
    assert_eq!(
        grid,
        IrComponent::Stacked(IrStackedComponent {
            layout: IrStackedLayout::Grid { columns: 3 },
            main_axis_alignment: IrMainAxisAlignment::Center,
            cross_axis_alignment: IrCrossAxisAlignment::Center,
            row_gap: Some(gap),
            column_gap: Some(other),
            children: vec![paragraph("x")],
            span: at(9),
        })
    );
    assert_eq!(
        refused(vec![call_with("grid", vec![], vec![], Some(vec![]))]),
        error("E3001", "`.grid` parameter `columns`: required argument is missing")
    );
    assert_eq!(
        refused(vec![call_with("grid", vec![number(0.0)], vec![], Some(vec![]))]),
        error("E3001", "`.grid` parameter `columns`: Column count must be at least 1")
    );
    assert_eq!(
        refused(vec![call("row", vec![])]),
        error("E3001", "`.row` parameter `body`: A Markdown block body is required")
    );
}

fn item(nodes: Vec<IrNode>) -> IrListItem {
    IrListItem {
        nodes,
        task: None,
        span: at(30),
    }
}

fn entries(lines: &[&str]) -> IrNode {
    let items = lines.iter().map(|line| item(vec![paragraph(line)])).collect();
    call_with(
        "dictionary",
        vec![],
        vec![],
        Some(vec![IrNode::UnorderedList {
            items,
            span: at(31),
        }]),
    )
}

#[test]
fn a_dictionary_keeps_the_last_value_in_the_first_place() {
    let pairs = |body: Vec<IrNode>| {
        vec![lambda_call(
            "foreach",
            nested(entries(&["a: one", "b: two", "a: three"])),
            &["key", "value"],
            body,
        )]
    };
    assert_eq!(shown(pairs(vec![call("key", vec![])])), vec!["a", "b"]);
    assert_eq!(
        shown(pairs(vec![call("value", vec![])])),
        vec!["three", "two"]
    );
    assert_eq!(
        refused(vec![entries(&["no key"])]),
        error("E3001", "Dictionary entries require a string key followed by `:`")
    );
    assert_eq!(
        refused(vec![entries(&[": value"])]),
        error("E3001", "Dictionary keys must not be empty")
    );
    assert_eq!(
        refused(vec![call("dictionary", vec![string("a")])]),
        error("E3001", "`.dictionary` accepts its entries as a block body")
    );
}

#[test]
fn optional_values_are_passed_on_or_left_out() {
    let body = || vec![call("x", vec![])];
    assert_eq!(
        shown(vec![lambda_call("ifpresent", string("here"), &["x"], body())]),
        vec!["here"]
    );
    let (after, diagnostics) = run(vec![call(
        "var",
        vec![
            identifier("v"),
            nested(lambda_call(
                "ifpresent",
                IrValue::Nothing,
                &["x"],
                vec![call("docname", vec![string("")])],
            )),
        ],
    )]);
    assert_eq!(diagnostics, vec![]);
    assert_eq!(after.nodes, vec![]);
    let kept = |keep: bool| {
        lambda_call(
            "takeif",
            string("v"),
            &["x"],
            vec![call_with(
                "var",
                vec![identifier("answer"), IrValue::Boolean(keep)],
                vec![],
                None,
            ), call("answer", vec![])],
        )
    };
    assert_eq!(shown(vec![kept(true)]), vec!["v"]);
    assert_eq!(
        refused(vec![lambda_call("takeif", string("v"), &["x"], body())]),
        error("E3001", "`.takeif` condition must return Boolean")
    );
    assert_eq!(
        refused(vec![call("takeif", vec![string("v")])]),
        error("E3003", "`.takeif` requires a callback lambda")
    );
}

#[test]
fn a_deferred_name_is_refused() {
    let problems = refused(vec![call("llmstxt", vec![])]);
    assert_eq!(problems.len(), 1);
    assert_eq!(problems[0].0, "E8001");
}

#[test]
fn no_frame_means_no_call() {
    let limits = EvaluationLimits {
        max_materialized_elements: 10,
        max_evaluation_depth: 0,
    };
    let (after, diagnostics) = run_with(
        &Evaluator::with_limits(limits),
        vec![call("docname", vec![string("x")]), paragraph("kept")],
    );
    assert_eq!(after.nodes, vec![paragraph("kept")]);
    assert_eq!(diagnostics.len(), 1);
    assert_eq!(diagnostics[0].code, "E3005");
    assert_eq!(after.metadata.document_state, IrDocumentState::default());
}

#[test]
fn an_iterable_over_the_limit_is_refused() {
    let limits = EvaluationLimits {
        max_materialized_elements: 2,
        max_evaluation_depth: 16,
    };
    let each = |values: Vec<IrValue>| {
        vec![lambda_call(
            "foreach",
            IrValue::Collection(values),
            &["x"],
            vec![call("x", vec![])],
        )]
    };
    let evaluator = Evaluator::with_limits(limits);
    let (after, diagnostics) = run_with(&evaluator, each(vec![string("a"), string("b")]));
    assert_eq!(diagnostics, vec![]);
    assert_eq!(after.nodes.len(), 2);
    let (after, diagnostics) = run_with(
        &evaluator,
        each(vec![string("a"), string("b"), string("c")]),
    );
    assert_eq!(after.nodes, vec![]);
    assert_eq!(diagnostics.len(), 1);
    assert_eq!(diagnostics[0].code, "E3005");
}

#[test]
fn sorting_is_stable_and_reversing_twice_changes_nothing() {
    let value = |first: f64, second: &str| {
        IrValue::Collection(vec![number(first), string(second)])
    };
    let sorted = |values: Vec<IrValue>| {
        vec![lambda_call(
            "foreach",
            nested(lambda_call(
                "sorted",
                IrValue::Collection(values),
                &["x"],
                vec![call("first", vec![nested(call("x", vec![]))])],
            )),
            &["y"],
            vec![call("last", vec![nested(call("y", vec![]))])],
        )]
    };
    assert_eq!(
        shown(sorted(vec![
            value(2.0, "a"),
            value(1.0, "b"),
            value(2.0, "c"),
            value(1.0, "d"),
        ])),
        vec!["b", "d", "a", "c"]
    );
    let list = IrValue::Collection(vec![string("a"), string("b"), string("c")]);
    let twice = nested(call(
        "reversed",
        vec![nested(call("reversed", vec![list]))],
    ));
    assert_eq!(
        shown(vec![lambda_call("foreach", twice, &["x"], vec![call("x", vec![])])]),
        vec!["a", "b", "c"]
    );
}

fn declaration(name: &str, parameters: &[&str], body: Vec<IrNode>) -> IrNode {
    IrNode::FunctionDeclaration {
        name: identifier(name),
        parameters: parameters.iter().map(|name| parameter(name)).collect(),
        body,
        span: at(40),
    }
}

#[test]
fn unsound_declarations_are_refused() {
    assert_eq!(
        refused(vec![declaration("9f", &[], vec![paragraph("x")])]),
        error("E3003", "Invalid function name `9f`")
    );
    assert_eq!(
        refused(vec![declaration("f", &[], vec![])]),
        error("E3003", "Function declaration requires a non-empty body")
    );
    assert_eq!(
        refused(vec![declaration("f", &["a", "b", "a"], vec![paragraph("x")])]),
        error("E3003", "Duplicate function parameter `a`")
    );
}

#[test]
fn a_function_stands_in_for_a_layout_but_not_for_a_conditional() {
    let body = || vec![paragraph("mine")];
    assert_eq!(
        shown(vec![declaration("br", &[], body()), call("br", vec![])]),
        vec!["mine"]
    );
    assert_eq!(
        shown(vec![
            declaration("if", &[], body()),
            call("if", vec![IrValue::Boolean(true), string("theirs")]),
        ]),
        vec!["theirs"]
    );
}

#[test]
fn an_evaluation_waits_for_one_answer_at_a_time() {
    let evaluator = Evaluator::new();
    let document = document(vec![
        call("unknown", vec![]),
        call("docname", vec![string("x")]),
    ]);
    let asks = |replies: &Vec<Reply>| match evaluator.evaluate(&document, replies) {
        Progress::Waiting { query } => query,
        other => panic!("not waiting: {other:?}"),
    };
    let mut replies: Vec<Reply> = vec![];
    assert_eq!(
        asks(&replies),
        Query::BuiltinPolicy {
            name: "unknown".to_string()
        }
    );
    replies.push(Reply::Policy(None));
    let second = asks(&replies);
    assert!(matches!(second, Query::ScalarString { .. }));
    assert_eq!(asks(&replies), second);
    replies.push(Reply::Policy(None));
    assert_eq!(asks(&replies), second);
    replies.pop();
    replies.push(Reply::Text(Some("x".to_string())));
    match evaluator.evaluate(&document, &replies) {
        Progress::Done {
            document: after,
            diagnostics,
        } => {
            assert_eq!(diagnostics, vec![]);
            assert_eq!(after.nodes, vec![call("unknown", vec![])]);
            assert_eq!(after.metadata.document_state.name, "x");
        }
        other => panic!("not done: {other:?}"),
    }
}

#[test]
fn answers_behind_a_finished_evaluation_change_nothing() {
    let evaluator = Evaluator::new();
    let document = document(vec![
        call("unknown", vec![]),
        call("docname", vec![string("x")]),
    ]);
    let mut replies = vec![
        Reply::Policy(None),
        Reply::Text(Some("x".to_string())),
    ];
    for _ in 0..3 {
        match evaluator.evaluate(&document, &replies) {
            Progress::Done {
                document: after,
                diagnostics,
            } => {
                assert_eq!(diagnostics, vec![]);
                assert_eq!(after.nodes, vec![call("unknown", vec![])]);
                assert_eq!(after.metadata.document_state.name, "x");
            }
            other => panic!("not done: {other:?}"),
        }
        replies.push(Reply::Text(Some("y".to_string())));
    }
}

#[test]
fn limits_that_are_not_exceeded_make_no_difference() {
    let document = document(vec![lambda_call(
        "foreach",
        IrValue::Range(IrRange {
            start: Some(1),
            end: Some(3),
            span: at(4),
        }),
        &["n"],
        vec![call("n", vec![])],
    )]);
    let under = |max_materialized_elements: usize, max_evaluation_depth: usize| {
        let evaluator = Evaluator::with_limits(EvaluationLimits {
            max_materialized_elements,
            max_evaluation_depth,
        });
        let mut replies: Vec<Reply> = vec![];
        loop {
            match evaluator.evaluate(&document, &replies) {
                Progress::Done {
                    document: after,
                    diagnostics,
                } => return (after, diagnostics),
                Progress::Waiting { query } => replies.push(answer(&query)),
            }
        }
    };
    let codes = |diagnostics: Vec<Diagnostic>| -> Vec<String> {
        diagnostics.into_iter().map(|d| d.code).collect()
    };
    let (after, diagnostics) = under(3, 8);
    assert_eq!(diagnostics, vec![]);
    for (elements, depth) in [(3, 9), (4, 8), (1_000_000, 256)] {
        let (again, reports) = under(elements, depth);
        assert_eq!(again.nodes, after.nodes);
        assert_eq!(reports, vec![]);
    }
    assert_eq!(codes(under(2, 8).1), vec!["E3005"]);
    assert_eq!(codes(under(3, 1).1), vec!["E3005"]);
}

#[test]
fn the_parser_is_given_the_metadata_defaults() {
    let evaluator = Evaluator::new();
    let document = document(vec![call("include", vec![string("part.md")])]);
    let defaults = DocumentMetadataDefaults {
        title: Some("T".to_string()),
        author: None,
        date: Some("D".to_string()),
        fields: vec![("a".to_string(), "b".to_string())],
    };
    let mut replies: Vec<Reply> = vec![];
    loop {
        match evaluator.evaluate_with_resources(SourceId(1), &document, &defaults, &replies) {
            Progress::Waiting { query } => {
                if let Query::Parse {
                    metadata_defaults, ..
                } = &query
                {
                    assert_eq!(metadata_defaults, &defaults);
                    return;
                }
                replies.push(answer(&query));
            }
            other => panic!("the parser was not asked: {other:?}"),
        }
    }
}

#[test]
fn resource_errors_say_what_they_are() {
    let messages: Vec<String> = ["https://example.com/a", "lost", "../../up", "x", "bytes"]
        .iter()
        .map(|reference| read(reference).unwrap_err().message())
        .collect();
    assert_eq!(
        messages,
        vec![
            "resource reference is not a local project path: https://example.com/a",
            "source identity is not present in the project: SourceId(9)",
            "resource path leaves the virtual project boundary: too far up",
            "resource not found: x",
            "resource is not valid UTF-8: bytes: at 0",
        ]
    );
}

#[test]
fn a_number_has_a_text_before_the_evaluation_goes_on() {
    let evaluator = Evaluator::new();
    let document = document(vec![
        call("var", vec![identifier("n"), number(2.5)]),
        call("n", vec![]),
    ]);
    let question = Query::NumberText { number: bits(2.5) };
    for replies in [vec![], vec![Reply::Text(None)], vec![Reply::Policy(None)]] {
        match evaluator.evaluate(&document, &replies) {
            Progress::Waiting { query } => assert_eq!(query, question),
            other => panic!("not waiting: {other:?}"),
        }
    }
    match evaluator.evaluate(&document, &vec![Reply::Text(Some("2.5".to_string()))]) {
        Progress::Done { document, .. } => assert_eq!(shows(&document.nodes[0]), "2.5"),
        other => panic!("not done: {other:?}"),
    }
}

#[test]
fn a_document_without_calls_stays_as_it_is() {
    let nodes = vec![
        IrNode::Heading {
            level: 2,
            content: vec![IrInline::Emphasis {
                content: vec![text("title")],
                span: at(1),
            }],
            span: at(1),
        },
        IrNode::UnorderedList {
            items: vec![item(vec![paragraph("a"), IrNode::ThematicBreak { span: at(2) }])],
            span: at(2),
        },
        IrNode::Paragraph {
            content: vec![
                IrInline::Code {
                    content: ".docname {x}".to_string(),
                    span: at(3),
                },
                IrInline::Image {
                    content: vec![IrInline::DirectiveCall {
                        name: "docname".to_string(),
                        positional_args: vec![],
                        named_args: vec![],
                        body: None,
                        span: at(4),
                    }],
                    destination: "a.png".to_string(),
                    title: None,
                    span: at(4),
                },
            ],
            span: at(3),
        },
    ];
    let before = document(nodes);
    match Evaluator::new().evaluate(&before, &vec![]) {
        Progress::Done {
            document: after,
            diagnostics,
        } => {
            assert_eq!(after, before);
            assert_eq!(diagnostics, vec![]);
        }
        other => panic!("not done: {other:?}"),
    }
}

#[test]
fn raw_html_is_refused_outside_native_content() {
    let raw = IrNode::RawHtml {
        source: "<hr>".to_string(),
        span: at(6),
    };
    let (after, diagnostics) = run(vec![raw, paragraph("kept")]);
    assert_eq!(after.nodes, vec![paragraph("kept")]);
    assert_eq!(diagnostics.len(), 1);
    assert_eq!(diagnostics[0].code, "E8001");
    assert_eq!(diagnostics[0].primary, Some(at(6)));
}

#[test]
fn a_variable_without_a_value_fails_without_a_report() {
    let inner = call("var", vec![identifier("b"), string("x")]);
    let (after, diagnostics) = run(vec![
        call_with("var", vec![identifier("a")], vec![], Some(vec![inner])),
        call("b", vec![]),
    ]);
    assert_eq!(diagnostics, vec![]);
    assert_eq!(after.nodes.iter().map(shows).collect::<Vec<_>>(), vec!["x"]);
}
