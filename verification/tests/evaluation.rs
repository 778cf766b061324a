//! Documents and calls, evaluated with a host that answers from a small table of builtins.

use scribium_engine::collection::{coerce_iterable, exact_collection_length};
use scribium_engine::calls::number_to_range_endpoint;
use scribium_engine::diagnostic::{Diagnostic, Severity};
use scribium_engine::evaluator::Call;
use scribium_engine::host::{
    BuiltinBodyPolicy, ConversionError, InvocationNamedArg, InvocationValue, Query, Reply,
    ScalarTarget, ScalarValue, Session, ValueOrigin,
};
use scribium_engine::ir::{
    IrCallSegment, IrCallable, IrCallableCapture, IrCapturedVariable, IrComponent,
    IrCrossAxisAlignment, IrDictionary, IrInline, IrListItem, IrMainAxisAlignment, IrNamedArg,
    IrNode, IrPair, IrParameter, IrRange, IrSize, IrSizeUnit, IrStackedComponent,
    IrStackedLayout, IrTableAlignment, IrTableCell, IrTableRow, IrTaskStatus, IrValue, SourceId,
    SourceSpan,
};
use scribium_engine::materialize::{
    materialize_inline_value, scalar_to_text, span_of_component, value_into_content_nodes,
    value_source_span,
};
use scribium_engine::metadata::{IrDocument, IrMetadata};
use scribium_engine::number::Number;
use scribium_engine::outcome::CallOutcome;
use scribium_engine::scope::{
    EvaluationContext, FunctionBinding, LambdaParameters, VariableValue,
};
use scribium_engine::{EvaluationLimits, Evaluator, Progress};

fn bits(value: f64) -> Number {
    Number {
        bits: value.to_bits(),
    }
}

fn float(value: Number) -> f64 {
    f64::from_bits(value.bits)
}

fn number(value: f64) -> IrValue {
    IrValue::Number(bits(value))
}

fn number_text(value: f64) -> String {
    format!("{value}")
}

fn text_of(argument: &InvocationValue) -> Option<String> {
    match &argument.value {
        IrValue::String(text) | IrValue::Identifier(text) => Some(text.clone()),
        IrValue::Boolean(value) => Some(format!("{value}")),
        IrValue::Number(value) => Some(number_text(float(*value))),
        _ => None,
    }
}

fn number_of(argument: &InvocationValue) -> Option<f64> {
    match (&argument.value, argument.origin) {
        (IrValue::Number(value), _) => Some(float(*value)),
        (IrValue::String(text) | IrValue::Identifier(text), ValueOrigin::Dynamic) => {
            text.parse().ok()
        }
        _ => None,
    }
}

fn boolean_of(argument: &InvocationValue) -> Result<ScalarValue, ConversionError> {
    match (&argument.value, argument.origin) {
        (IrValue::Boolean(value), _) => Ok(ScalarValue::Boolean(*value)),
        (IrValue::String(text) | IrValue::Identifier(text), ValueOrigin::Dynamic) => {
            match text.to_lowercase().as_str() {
                "true" | "yes" => Ok(ScalarValue::Boolean(true)),
                "false" | "no" => Ok(ScalarValue::Boolean(false)),
                _ => Err(ConversionError::InvalidText),
            }
        }
        _ => Err(ConversionError::UnsupportedValue),
    }
}

/// The regular builtins that the host offers.
const REGULAR: [&str; 5] = ["multiply", "sum", "uppercase", "lowercase", "isnone"];

fn call_builtin(
    name: &str,
    positional: &[InvocationValue],
    named: &[InvocationNamedArg],
) -> Result<IrValue, String> {
    let mut arguments: Vec<InvocationValue> = positional.to_vec();
    for argument in named {
        arguments.push(InvocationValue {
            value: argument.arg.value.clone(),
            origin: argument.origin,
        });
    }
    if name == "isnone" {
        return match arguments.as_slice() {
            [argument] => Ok(IrValue::Boolean(argument.value == IrValue::Nothing)),
            _ => Err("`.isnone` requires one argument".to_string()),
        };
    }
    if name == "uppercase" || name == "lowercase" {
        let text = match arguments.as_slice() {
            [argument] => text_of(argument),
            _ => None,
        };
        return match text {
            Some(text) if name == "uppercase" => Ok(IrValue::String(text.to_uppercase())),
            Some(text) => Ok(IrValue::String(text.to_lowercase())),
            None => Err(format!("`.{name}` requires one String argument")),
        };
    }
    let mut numbers = Vec::new();
    for argument in &arguments {
        match number_of(argument) {
            Some(value) => numbers.push(value),
            None => return Err(format!("`.{name}` requires numeric arguments")),
        }
    }
    if name == "sum" {
        Ok(number(numbers.iter().sum()))
    } else {
        Ok(number(numbers.iter().product()))
    }
}

fn answer(query: &Query) -> Reply {
    match query {
        Query::BuiltinPolicy { name } => Reply::Policy(if REGULAR.contains(&name.as_str()) {
            Some(BuiltinBodyPolicy::Reject)
        } else {
            None
        }),
        Query::BuiltinCall {
            name,
            positional,
            named,
            ..
        } => Reply::Value(call_builtin(name, positional, named)),
        Query::ScalarString { argument } => Reply::Text(text_of(argument)),
        Query::AdaptString { value } => Reply::Text(text_of(&InvocationValue::static_value(
            value.clone(),
        ))),
        Query::Scalar { argument, target } => Reply::Scalar(match target {
            ScalarTarget::Boolean => boolean_of(argument),
            ScalarTarget::Number => match number_of(argument) {
                Some(value) => Ok(ScalarValue::Number(bits(value))),
                None => Err(ConversionError::UnsupportedValue),
            },
        }),
        Query::Domain { .. } => Reply::Domain(Err(ConversionError::UnsupportedValue)),
        Query::Integer { argument } => Reply::Integer(match number_of(argument) {
            Some(value) => Ok(value as i32),
            None => Err(ConversionError::UnsupportedValue),
        }),
        Query::Range { .. } => Reply::Range(None),
        Query::NumberText { number } => Reply::Text(Some(number_text(float(*number)))),
        Query::ParseNumber { text } => Reply::Number(text.parse().ok().map(bits)),
        Query::Sum { numbers } => Reply::Number(Some(bits(
            numbers.iter().fold(0.0, |sum, value| sum + float(*value)),
        ))),
        Query::Divide { dividend, divisor } => {
            Reply::Number(Some(bits(float(*dividend) / float(*divisor))))
        }
        other => panic!("the host has no answer to {other:?}"),
    }
}

/// Runs a step again and again, until the host has answered all that it asks.
fn drive<T>(
    diagnostics: &mut Vec<Diagnostic>,
    mut step: impl FnMut(&mut Session) -> T,
) -> T {
    let mut replies: Vec<Reply> = Vec::new();
    loop {
        let mut session = Session::new(&replies);
        let out = step(&mut session);
        match session.pending {
            None => {
                diagnostics.extend(session.diagnostics);
                return out;
            }
            Some(query) => {
                let reply = answer(&query);
                replies.push(reply);
            }
        }
    }
}

fn done<T>(out: Option<T>) -> Result<T, CallOutcome> {
    out.ok_or(CallOutcome::Failed)
}

/// The body of a call.
#[derive(Clone, Copy)]
enum CallBody<'a> {
    Block(&'a [IrNode]),
}

/// An evaluator together with the host.
struct Harness {
    evaluator: Evaluator,
}

impl Harness {
    fn new() -> Self {
        Self {
            evaluator: Evaluator::new(),
        }
    }

    fn with_limits(limits: EvaluationLimits) -> Self {
        Self {
            evaluator: Evaluator::with_limits(limits),
        }
    }

    fn frames(&self) -> usize {
        self.evaluator.limits.max_evaluation_depth
    }

    fn evaluate(&self, document: &IrDocument) -> (IrDocument, Vec<Diagnostic>) {
        let mut replies: Vec<Reply> = Vec::new();
        loop {
            match self.evaluator.evaluate(document, &replies) {
                Progress::Done {
                    document,
                    diagnostics,
                } => return (document, diagnostics),
                Progress::Waiting { query } => replies.push(answer(&query)),
            }
        }
    }

    #[allow(clippy::too_many_arguments)]
    fn evaluate_call_value(
        &self,
        name: &str,
        positional: &[IrValue],
        named: &[IrNamedArg],
        body: Option<CallBody<'_>>,
        lambda: Option<&[IrParameter]>,
        span: &SourceSpan,
        diagnostics: &mut Vec<Diagnostic>,
        context: &mut EvaluationContext,
    ) -> CallOutcome {
        let positional = positional.to_vec();
        let named = named.to_vec();
        let lambda = lambda.map(|list| list.to_vec());
        let nodes = match body {
            Some(CallBody::Block(nodes)) => Some(nodes.to_vec()),
            None => None,
        };
        let (outcome, after) = drive(diagnostics, |session| {
            let mut scope = context.clone();
            let call = Call {
                name,
                positional: &positional,
                named: &named,
                lambda: lambda.as_ref(),
                body: nodes
                    .as_ref()
                    .map(scribium_engine::evaluator::CallBody::Block),
                span: *span,
                first_origin: None,
            };
            let outcome =
                self.evaluator
                    .evaluate_call_value(&call, self.frames(), session, &mut scope);
            (outcome, scope)
        });
        *context = after;
        outcome
    }

    fn evaluate_value(
        &self,
        value: &IrValue,
        diagnostics: &mut Vec<Diagnostic>,
        context: &mut EvaluationContext,
    ) -> CallOutcome {
        let (outcome, after) = drive(diagnostics, |session| {
            let mut scope = context.clone();
            let outcome =
                self.evaluator
                    .evaluate_value(value, self.frames(), session, &mut scope);
            (outcome, scope)
        });
        *context = after;
        outcome
    }

    fn evaluate_callable_body_value(
        &self,
        nodes: &[IrNode],
        diagnostics: &mut Vec<Diagnostic>,
        context: &mut EvaluationContext,
    ) -> CallOutcome {
        let nodes = nodes.to_vec();
        let (outcome, after) = drive(diagnostics, |session| {
            let mut scope = context.clone();
            let outcome = self.evaluator.evaluate_callable_body_value(
                &nodes,
                self.frames(),
                session,
                &mut scope,
            );
            (outcome, scope)
        });
        *context = after;
        outcome
    }

    fn invoke_callable(
        &self,
        callable: &IrCallable,
        arguments: Vec<IrValue>,
        destructuring: bool,
        span: &SourceSpan,
        diagnostics: &mut Vec<Diagnostic>,
        context: &EvaluationContext,
    ) -> CallOutcome {
        drive(diagnostics, |session| {
            self.evaluator.invoke_callable(
                callable,
                arguments.clone(),
                destructuring,
                *span,
                self.frames(),
                session,
                context,
            )
        })
    }

    fn coerce_iterable(
        &self,
        argument: InvocationValue,
        span: &SourceSpan,
        diagnostics: &mut Vec<Diagnostic>,
    ) -> Result<Vec<IrValue>, CallOutcome> {
        done(drive(diagnostics, |session| {
            coerce_iterable(
                self.evaluator.limits.max_materialized_elements,
                &argument,
                *span,
                session,
            )
        }))
    }

    fn materialize_block_value(
        &self,
        value: IrValue,
        span: &SourceSpan,
        diagnostics: &mut Vec<Diagnostic>,
    ) -> Result<Vec<IrNode>, CallOutcome> {
        done(drive(diagnostics, |session| {
            value_into_content_nodes(&value, *span, session)
        }))
    }

    fn materialize_inline_value(
        &self,
        value: Option<IrValue>,
        span: &SourceSpan,
        diagnostics: &mut Vec<Diagnostic>,
    ) -> Vec<IrInline> {
        match value {
            Some(value) => drive(diagnostics, |session| {
                materialize_inline_value(&value, *span, session)
            }),
            None => Vec::new(),
        }
    }
}

fn scalar_text(
    value: &IrValue,
    span: SourceSpan,
    diagnostics: &mut Vec<Diagnostic>,
) -> Result<String, CallOutcome> {
    done(drive(diagnostics, |session| {
        scalar_to_text(value, span, session)
    }))
}

fn exact_length(
    length: usize,
    span: &SourceSpan,
    diagnostics: &mut Vec<Diagnostic>,
) -> Result<Number, CallOutcome> {
    done(drive(diagnostics, |session| {
        exact_collection_length(length, *span, session)
    }))
}

fn range_endpoint(argument: &InvocationValue) -> Result<i32, String> {
    let mut diagnostics = Vec::new();
    drive(&mut diagnostics, |session| {
        number_to_range_endpoint(argument, session)
    })
    .flatten()
    .ok_or_else(|| "bounds must be numeric".to_string())
}

fn explicit(parameters: &LambdaParameters) -> Option<&[IrParameter]> {
    match parameters {
        LambdaParameters::Explicit(list) => Some(list),
        LambdaParameters::Implicit => None,
    }
}

fn set_function(context: &mut EvaluationContext, name: &str, parameter: &str) {
    context.set_function_binding(
        name.to_string(),
        FunctionBinding {
            parameters: LambdaParameters::Explicit(vec![lambda_parameter(parameter, 0)]),
            body: Vec::new(),
            declaration_span: span(0, 0),
            capture: None,
        },
    );
}

fn span(start: usize, end: usize) -> SourceSpan {
    SourceSpan::new(SourceId(1), start, end)
}

fn named_arg(name: &str, value: IrValue) -> IrNamedArg {
    IrNamedArg {
        name: name.to_string(),
        name_span: span(0, name.len()),
        value,
        span: span(0, name.len()),
    }
}

fn collection_call(
    evaluator: &Harness,
    name: &str,
    positional_args: &[IrValue],
    named_args: &[IrNamedArg],
    operation_span: &SourceSpan,
    diagnostics: &mut Vec<Diagnostic>,
    context: &mut EvaluationContext,
) -> CallOutcome {
    evaluator.evaluate_call_value(
        name,
        positional_args,
        named_args,
        None,
        None,
        operation_span,
        diagnostics,
        context,
    )
}

fn text_paragraph(content: &str) -> IrNode {
    IrNode::Paragraph {
        content: vec![IrInline::Text {
            content: content.to_string(),
            span: span(0, content.len()),
        }],
        span: span(0, content.len()),
    }
}

fn text_inline(content: &str) -> IrInline {
    IrInline::Text {
        content: content.to_string(),
        span: span(0, content.len()),
    }
}

fn if_call(name: &str, condition: IrValue, body: Vec<IrNode>) -> IrNode {
    IrNode::FunctionCall {
        name: name.to_string(),
        positional_args: vec![condition],
        named_args: Vec::new(),
        lambda_parameters: None,
        body: Some(body),
        span: span(0, 1),
    }
}

fn inline_if_call(name: &str, condition: IrValue, inline_body: Vec<IrInline>) -> IrInline {
    IrInline::DirectiveCall {
        name: name.to_string(),
        positional_args: vec![condition],
        named_args: Vec::new(),
        body: Some(inline_body),
        span: span(0, 1),
    }
}

fn doc(nodes: Vec<IrNode>) -> IrDocument {
    IrDocument {
        nodes,
        metadata: IrMetadata::default(),
    }
}

fn evaluate(nodes: Vec<IrNode>) -> Vec<IrNode> {
    Harness::new().evaluate(&doc(nodes)).0.nodes
}

fn chain_segment(
    name: &str,
    start: usize,
    end: usize,
    positional_args: Vec<IrValue>,
) -> IrCallSegment {
    IrCallSegment {
        name: name.to_string(),
        name_span: span(start, start + name.len() + usize::from(start == 0)),
        positional_args,
        named_args: Vec::new(),
        span: span(start, end),
    }
}

fn chain_node(head: IrCallSegment, chain: Vec<IrCallSegment>) -> IrNode {
    let span = span(
        head.span.start,
        chain
            .last()
            .map_or(head.span.end, |segment| segment.span.end),
    );
    IrNode::ChainedFunctionCall {
        head,
        chain,
        body: None,
        span,
    }
}

fn chain_node_with_body(
    head: IrCallSegment,
    chain: Vec<IrCallSegment>,
    body: Vec<IrNode>,
) -> IrNode {
    let span = span(
        head.span.start,
        chain
            .last()
            .map_or(head.span.end, |segment| segment.span.end),
    );
    IrNode::ChainedFunctionCall {
        head,
        chain,
        body: Some(body),
        span,
    }
}

fn call_value(name: &str, positional_args: Vec<IrValue>) -> IrValue {
    IrValue::Content(vec![IrNode::FunctionCall {
        name: name.to_string(),
        positional_args,
        named_args: Vec::new(),
        lambda_parameters: None,
        body: None,
        span: span(0, 1),
    }])
}

fn lambda_parameter(name: &str, start: usize) -> IrParameter {
    IrParameter {
        name: name.to_string(),
        name_span: span(start, start + name.len()),
        span: span(start, start + name.len() + 1),
        optional: false,
    }
}

fn let_call(
    value: Option<IrValue>,
    lambda_parameters: Option<Vec<IrParameter>>,
    body: Option<Vec<IrNode>>,
) -> IrNode {
    IrNode::FunctionCall {
        name: "let".to_string(),
        positional_args: value.into_iter().collect(),
        named_args: Vec::new(),
        lambda_parameters,
        body,
        span: span(0, 10),
    }
}

fn let_value(
    value: IrValue,
    lambda_parameters: Option<Vec<IrParameter>>,
    body: Vec<IrNode>,
) -> IrValue {
    IrValue::Content(vec![let_call(Some(value), lambda_parameters, Some(body))])
}

fn foreach_call(
    value: IrValue,
    lambda_parameters: Option<Vec<IrParameter>>,
    body: Vec<IrNode>,
) -> IrNode {
    IrNode::FunctionCall {
        name: "foreach".to_string(),
        positional_args: vec![value],
        named_args: Vec::new(),
        lambda_parameters,
        body: Some(body),
        span: span(0, 20),
    }
}

fn transform_callable(parameters: Option<Vec<IrParameter>>, body: Vec<IrNode>) -> IrValue {
    IrValue::Callable(IrCallable {
        parameters,
        body,
        span: span(50, 60),
        capture: None,
    })
}

fn component_value(component_span: SourceSpan) -> IrValue {
    IrValue::Component(IrComponent::Stacked(IrStackedComponent {
        layout: IrStackedLayout::Column,
        main_axis_alignment: IrMainAxisAlignment::Start,
        cross_axis_alignment: IrCrossAxisAlignment::Center,
        row_gap: Some(IrSize {
            value: bits(10.0),
            unit: IrSizeUnit::Px,
        }),
        column_gap: None,
        children: vec![text_paragraph("component child")],
        span: component_span,
    }))
}

fn assert_paragraph_text(nodes: &[IrNode], expected: &str) {
    let [IrNode::Paragraph { content, .. }] = nodes else {
        panic!("expected one paragraph, got {nodes:?}");
    };
    let [IrInline::Text { content, .. }] = content.as_slice() else {
        panic!("expected one text fragment, got {content:?}");
    };
    assert_eq!(content, expected);
}

#[test]
fn let_explicit_parameter_returns_scalar() {
    let nodes = evaluate(vec![let_call(
        Some(number(5.0)),
        Some(vec![lambda_parameter("n", 20)]),
        Some(vec![var_ref("n")]),
    )]);
    assert_paragraph_text(&nodes, "5");
}

#[test]
fn let_implicit_parameter_returns_scalar() {
    let nodes = evaluate(vec![let_call(
        Some(IrValue::String("Quarkdown".to_string())),
        None,
        Some(vec![var_ref("1")]),
    )]);
    assert_paragraph_text(&nodes, "Quarkdown");
}

#[test]
fn let_preserves_scalar_result_in_nested_value_context() {
    let outer = IrNode::FunctionCall {
        name: "multiply".to_string(),
        positional_args: vec![
            let_value(
                number(5.0),
                Some(vec![lambda_parameter("n", 20)]),
                vec![var_ref("n")],
            ),
            number(2.0),
        ],
        named_args: Vec::new(),
        lambda_parameters: None,
        body: None,
        span: span(0, 20),
    };
    let nodes = evaluate(vec![outer]);
    assert_paragraph_text(&nodes, "10");
}

#[test]
fn let_returns_structured_content_and_composes_in_source_order() {
    let nodes = evaluate(vec![let_call(
        Some(IrValue::String("value".to_string())),
        Some(vec![lambda_parameter("name", 20)]),
        Some(vec![text_paragraph("First"), text_paragraph("Second")]),
    )]);
    assert_eq!(
        nodes,
        vec![text_paragraph("First"), text_paragraph("Second")]
    );
}

#[test]
fn let_reads_parent_variable_and_function() {
    let declaration = IrNode::FunctionDeclaration {
        name: IrValue::Identifier("decorate".to_string()),
        parameters: vec![lambda_parameter("value", 5)],
        body: vec![IrNode::FunctionCall {
            name: "uppercase".to_string(),
            positional_args: vec![call_value("value", Vec::new())],
            named_args: Vec::new(),
            lambda_parameters: None,
            body: None,
            span: span(0, 1),
        }],
        span: span(0, 1),
    };
    let nodes = evaluate(vec![
        var_declaration("prefix", IrValue::String("Hello".to_string())),
        declaration,
        let_call(
            Some(IrValue::String("world".to_string())),
            Some(vec![lambda_parameter("name", 20)]),
            Some(vec![
                var_ref("prefix"),
                IrNode::FunctionCall {
                    name: "decorate".to_string(),
                    positional_args: vec![call_value("name", Vec::new())],
                    named_args: Vec::new(),
                    lambda_parameters: None,
                    body: None,
                    span: span(0, 1),
                },
            ]),
        ),
    ]);
    assert_eq!(nodes.len(), 2);
    assert_paragraph_text(&nodes[..1], "Hello");
    assert_paragraph_text(&nodes[1..], "WORLD");
}

#[test]
fn let_shadows_parent_and_local_variables_do_not_leak() {
    let nodes = evaluate(vec![
        var_declaration("name", IrValue::String("outer".to_string())),
        let_call(
            Some(IrValue::String("inner".to_string())),
            Some(vec![lambda_parameter("name", 20)]),
            Some(vec![var_ref("name")]),
        ),
        var_ref("name"),
    ]);
    assert_eq!(nodes.len(), 2);
    assert_paragraph_text(&nodes[..1], "inner");
    assert_paragraph_text(&nodes[1..], "outer");

    let nodes = evaluate(vec![
        var_declaration("x", IrValue::String("outer".to_string())),
        let_call(
            Some(IrValue::String("inner".to_string())),
            Some(vec![lambda_parameter("value", 20)]),
            Some(vec![
                var_declaration("x", IrValue::String("local".to_string())),
                var_ref("x"),
            ]),
        ),
        var_ref("x"),
    ]);
    assert_eq!(nodes.len(), 2);
    assert_paragraph_text(&nodes[0..1], "local");
    assert_paragraph_text(&nodes[1..2], "outer");
}

#[test]
fn let_local_function_does_not_leak() {
    let local = IrNode::FunctionDeclaration {
        name: IrValue::Identifier("local".to_string()),
        parameters: Vec::new(),
        body: vec![text_paragraph("inside")],
        span: span(30, 35),
    };
    let (nodes, diagnostics) = evaluate_with_diagnostics(vec![let_call(
        Some(IrValue::String("hello".to_string())),
        Some(vec![lambda_parameter("value", 20)]),
        Some(vec![local]),
    )]);
    assert!(nodes.is_empty());
    assert!(diagnostics.is_empty());

    let (nodes, diagnostics) = evaluate_with_diagnostics(vec![
        let_call(
            Some(IrValue::String("hello".to_string())),
            Some(vec![lambda_parameter("value", 20)]),
            Some(vec![IrNode::FunctionDeclaration {
                name: IrValue::Identifier("local".to_string()),
                parameters: Vec::new(),
                body: vec![text_paragraph("inside")],
                span: span(30, 35),
            }]),
        ),
        var_ref("local"),
    ]);
    assert!(diagnostics.is_empty());
    let [IrNode::FunctionCall { name, .. }] = nodes.as_slice() else {
        panic!("expected unresolved local function reference, got {nodes:?}")
    };
    assert_eq!(name, "local");
}

#[test]
fn nested_let_uses_nearest_implicit_scope() {
    let nested = let_call(
        Some(IrValue::Content(vec![var_ref("1")])),
        None,
        Some(vec![var_ref("1")]),
    );
    let nodes = evaluate(vec![let_call(
        Some(IrValue::String("outer".to_string())),
        None,
        Some(vec![nested]),
    )]);
    assert_paragraph_text(&nodes, "outer");
}

#[test]
fn explicit_let_masks_outer_implicit_scope() {
    let nested = let_call(
        Some(IrValue::String("inner".to_string())),
        Some(vec![lambda_parameter("value", 40)]),
        Some(vec![var_ref("1")]),
    );
    let (nodes, diagnostics) = evaluate_with_diagnostics(vec![let_call(
        Some(IrValue::String("outer".to_string())),
        None,
        Some(vec![nested]),
    )]);
    assert!(nodes.is_empty());
    assert_eq!(diagnostics.len(), 1);
    assert_eq!(diagnostics[0].code, "E3003");
}

#[test]
fn foreach_returns_a_typed_collection_before_output_materialization() {
    let evaluator = Harness::new();
    let range = IrValue::Range(IrRange {
        start: Some(2),
        end: Some(4),
        span: span(0, 5),
    });
    let body = vec![var_ref("n")];
    let parameters = vec![lambda_parameter("n", 10)];
    let mut diagnostics = Vec::new();
    let mut context = EvaluationContext::new();
    let outcome = evaluator.evaluate_call_value(
        "foreach",
        &[range],
        &[],
        Some(CallBody::Block(&body)),
        Some(&parameters),
        &span(0, 10),
        &mut diagnostics,
        &mut context,
    );
    assert!(diagnostics.is_empty(), "{diagnostics:?}");
    assert!(matches!(
        outcome,
        CallOutcome::Value(IrValue::Collection(values))
            if values == vec![
                number(2.0),
                number(3.0),
                number(4.0),
            ]
    ));
}

#[test]
fn collection_transforms_share_typed_iterable_and_callable_paths() {
    let evaluator = Harness::new();
    let operation_span = span(0, 40);
    let range = IrValue::Range(IrRange {
        start: Some(-2),
        end: Some(2),
        span: span(1, 6),
    });
    let identity = transform_callable(None, vec![var_ref("1")]);
    let mut diagnostics = Vec::new();
    let mut context = EvaluationContext::new();

    let mapped = evaluator.evaluate_call_value(
        "map",
        std::slice::from_ref(&range),
        &[named_arg("by", identity.clone())],
        None,
        None,
        &operation_span,
        &mut diagnostics,
        &mut context,
    );
    assert!(diagnostics.is_empty(), "{diagnostics:?}");
    assert!(matches!(
        mapped,
        CallOutcome::Value(IrValue::Collection(values))
            if values == (-2..=2).map(|value| number(f64::from(value))).collect::<Vec<_>>()
    ));

    let predicate = transform_callable(
        None,
        vec![IrNode::FunctionCall {
            name: "isnone".to_string(),
            positional_args: vec![call_value("1", Vec::new())],
            named_args: Vec::new(),
            lambda_parameters: None,
            body: None,
            span: span(10, 20),
        }],
    );
    let filter_input =
        IrValue::Collection(vec![IrValue::Nothing, number(-1.0), IrValue::Nothing]);
    let filtered = evaluator.evaluate_call_value(
        "filter",
        std::slice::from_ref(&filter_input),
        &[named_arg("by", predicate)],
        None,
        None,
        &operation_span,
        &mut diagnostics,
        &mut context,
    );
    assert!(diagnostics.is_empty(), "{diagnostics:?}");
    assert!(matches!(
        filtered,
        CallOutcome::Value(IrValue::Collection(values))
            if values == vec![IrValue::Nothing, IrValue::Nothing]
    ));

    let sorted = evaluator.evaluate_call_value(
        "sorted",
        &[IrValue::Collection(vec![
            number(3.0),
            number(1.0),
            number(2.0),
            number(1.0),
        ])],
        &[],
        None,
        None,
        &operation_span,
        &mut diagnostics,
        &mut context,
    );
    assert!(diagnostics.is_empty(), "{diagnostics:?}");
    assert!(matches!(
        sorted,
        CallOutcome::Value(IrValue::Collection(values))
            if values == vec![
                number(1.0),
                number(1.0),
                number(2.0),
                number(3.0),
            ]
    ));
}

#[test]
fn transforms_support_pair_dictionary_and_nested_typed_values() {
    let evaluator = Harness::new();
    let dictionary = IrValue::Dictionary(IrDictionary {
        entries: vec![
            IrPair {
                first: Box::new(IrValue::String("a".to_string())),
                second: Box::new(number(3.0)),
                span: span(1, 5),
            },
            IrPair {
                first: Box::new(IrValue::String("b".to_string())),
                second: Box::new(number(1.0)),
                span: span(6, 10),
            },
            IrPair {
                first: Box::new(IrValue::String("c".to_string())),
                second: Box::new(number(1.0)),
                span: span(11, 15),
            },
        ],
        span: span(0, 10),
    });
    let parameters = vec![lambda_parameter("key", 20), lambda_parameter("value", 24)];
    let mut diagnostics = Vec::new();
    let mut context = EvaluationContext::new();
    let mapped = evaluator.evaluate_call_value(
        "map",
        std::slice::from_ref(&dictionary),
        &[],
        Some(CallBody::Block(&[var_ref("value")])),
        Some(&parameters),
        &span(0, 30),
        &mut diagnostics,
        &mut context,
    );
    assert!(diagnostics.is_empty(), "{diagnostics:?}");
    assert!(matches!(
        mapped,
        CallOutcome::Value(IrValue::Collection(values))
            if values == vec![
                number(3.0),
                number(1.0),
                number(1.0),
            ]
    ));

    let sorted = evaluator.evaluate_call_value(
        "sorted",
        &[dictionary],
        &[named_arg(
            "by",
            transform_callable(Some(parameters), vec![var_ref("value")]),
        )],
        None,
        None,
        &span(0, 30),
        &mut diagnostics,
        &mut context,
    );
    assert!(diagnostics.is_empty(), "{diagnostics:?}");
    let CallOutcome::Value(IrValue::Collection(values)) = sorted else {
        panic!("expected sorted collection")
    };
    assert!(matches!(values[0], IrValue::Pair(_)));
    assert!(matches!(values[1], IrValue::Pair(_)));
    let IrValue::Pair(first) = &values[0] else {
        unreachable!()
    };
    assert_eq!(*first.second, number(1.0));
    let IrValue::Pair(second) = &values[1] else {
        unreachable!()
    };
    let IrValue::Pair(third) = &values[2] else {
        unreachable!()
    };
    assert_eq!(*second.first, IrValue::String("c".to_string()));
    assert_eq!(*third.first, IrValue::String("a".to_string()));
}

#[test]
fn sorted_supports_typed_keys_and_fails_closed_for_unsupported_keys() {
    let evaluator = Harness::new();
    let operation_span = span(0, 40);
    let mut diagnostics = Vec::new();
    let mut context = EvaluationContext::new();

    let strings = evaluator.evaluate_call_value(
        "sorted",
        &[IrValue::Collection(vec![
            IrValue::String("b".to_string()),
            IrValue::String("a".to_string()),
        ])],
        &[],
        None,
        None,
        &operation_span,
        &mut diagnostics,
        &mut context,
    );
    assert!(matches!(
        strings,
        CallOutcome::Value(IrValue::Collection(values))
            if values == vec![
                IrValue::String("a".to_string()),
                IrValue::String("b".to_string()),
            ]
    ));

    let nan_sorted = evaluator.evaluate_call_value(
        "sorted",
        &[IrValue::Collection(vec![
            number(1.0),
            number(f64::NAN),
            number(0.0),
        ])],
        &[],
        None,
        None,
        &operation_span,
        &mut diagnostics,
        &mut context,
    );
    let CallOutcome::Value(IrValue::Collection(values)) = nan_sorted else {
        panic!("expected NaN sort result")
    };
    assert_eq!(values[0], number(0.0));
    assert_eq!(values[1], number(1.0));
    assert!(matches!(values[2], IrValue::Number(value) if float(value).is_nan()));

    diagnostics.clear();
    let mixed = evaluator.evaluate_call_value(
        "sorted",
        &[IrValue::Collection(vec![
            number(1.0),
            IrValue::String("1".to_string()),
        ])],
        &[],
        None,
        None,
        &operation_span,
        &mut diagnostics,
        &mut context,
    );
    assert!(matches!(mixed, CallOutcome::Failed));
    assert_eq!(diagnostics.len(), 1);
    assert!(diagnostics[0].message.contains("heterogeneous"));

    diagnostics.clear();
    let none = evaluator.evaluate_call_value(
        "sorted",
        &[IrValue::Collection(vec![IrValue::Nothing])],
        &[],
        None,
        None,
        &operation_span,
        &mut diagnostics,
        &mut context,
    );
    assert!(matches!(none, CallOutcome::Failed));
    assert_eq!(diagnostics.len(), 1);
}

#[test]
fn transform_failures_are_atomic_and_predicates_are_boolean_only() {
    let evaluator = Harness::new();
    let operation_span = span(0, 40);
    let failing = transform_callable(
        None,
        vec![IrNode::FunctionCall {
            name: "multiply".to_string(),
            positional_args: vec![IrValue::Boolean(true), call_value("1", Vec::new())],
            named_args: Vec::new(),
            lambda_parameters: None,
            body: None,
            span: span(12, 20),
        }],
    );
    let mut diagnostics = Vec::new();
    let mut context = EvaluationContext::new();
    let mapped = evaluator.evaluate_call_value(
        "map",
        &[IrValue::Collection(vec![
            number(1.0),
            number(2.0),
        ])],
        &[named_arg("by", failing)],
        None,
        None,
        &operation_span,
        &mut diagnostics,
        &mut context,
    );
    assert!(matches!(mapped, CallOutcome::Failed));
    assert_eq!(diagnostics.len(), 1, "{diagnostics:?}");

    diagnostics.clear();
    let invalid_predicate = transform_callable(
        None,
        vec![IrNode::Paragraph {
            content: vec![text_inline("not boolean")],
            span: span(20, 31),
        }],
    );
    let filtered = evaluator.evaluate_call_value(
        "filter",
        &[IrValue::Collection(vec![number(1.0)])],
        &[named_arg("by", invalid_predicate)],
        None,
        None,
        &operation_span,
        &mut diagnostics,
        &mut context,
    );
    assert!(matches!(filtered, CallOutcome::Failed));
    assert_eq!(diagnostics.len(), 1, "{diagnostics:?}");
    assert!(diagnostics[0].message.contains("Boolean"));

    diagnostics.clear();
    let endless = evaluator.evaluate_call_value(
        "map",
        &[IrValue::Range(IrRange {
            start: Some(1),
            end: None,
            span: span(5, 8),
        })],
        &[named_arg(
            "by",
            transform_callable(None, vec![var_ref("1")]),
        )],
        None,
        None,
        &operation_span,
        &mut diagnostics,
        &mut context,
    );
    assert!(matches!(endless, CallOutcome::Failed));
    assert_eq!(diagnostics.len(), 1);
    assert_eq!(diagnostics[0].primary, Some(span(5, 8)));
}

#[test]
fn first_class_callable_captures_definition_values_and_applies_caller_overlay() {
    let evaluator = Harness::new();
    let mut diagnostics = Vec::new();
    let mut context = EvaluationContext::new();
    let span = span(0, 50);
    assert!(matches!(
        evaluator.evaluate_call_value(
            "var",
            &[
                IrValue::Identifier("offset".to_string()),
                number(10.0)
            ],
            &[],
            None,
            None,
            &span,
            &mut diagnostics,
            &mut context,
        ),
        CallOutcome::NoValue
    ));
    let callable = transform_callable(
        None,
        vec![IrNode::FunctionCall {
            name: "sum".to_string(),
            positional_args: vec![
                call_value("1", Vec::new()),
                call_value("offset", Vec::new()),
            ],
            named_args: Vec::new(),
            lambda_parameters: None,
            body: None,
            span,
        }],
    );
    assert!(matches!(
        evaluator.evaluate_call_value(
            "var",
            &[IrValue::Identifier("add_offset".to_string()), callable],
            &[],
            None,
            None,
            &span,
            &mut diagnostics,
            &mut context,
        ),
        CallOutcome::NoValue
    ));
    assert!(matches!(
        evaluator.evaluate_call_value(
            "offset",
            &[number(20.0)],
            &[],
            None,
            None,
            &span,
            &mut diagnostics,
            &mut context,
        ),
        CallOutcome::NoValue
    ));
    let result = evaluator.evaluate_call_value(
        "map",
        &[IrValue::Collection(vec![number(1.0)])],
        &[named_arg("by", call_value("add_offset", Vec::new()))],
        None,
        None,
        &span,
        &mut diagnostics,
        &mut context,
    );
    assert!(diagnostics.is_empty(), "{diagnostics:?}");
    assert!(matches!(
        result,
        CallOutcome::Value(IrValue::Collection(values))
            if values == vec![number(21.0)]
    ));

    let wrong_arity = evaluator.evaluate_call_value(
        "map",
        &[IrValue::Collection(vec![number(1.0)])],
        &[named_arg(
            "by",
            transform_callable(
                Some(vec![lambda_parameter("a", 1), lambda_parameter("b", 2)]),
                vec![var_ref("a")],
            ),
        )],
        None,
        None,
        &span,
        &mut diagnostics,
        &mut context,
    );
    assert!(matches!(wrong_arity, CallOutcome::Failed));
    assert_eq!(diagnostics.len(), 1, "{diagnostics:?}");
}

#[test]
fn dynamic_range_returns_typed_signed_truncated_endpoints() {
    let evaluator = Harness::new();
    let operation_span = span(0, 20);
    let cases = [
        (
            vec![number(1.9), number(3.9)],
            Some(1),
            Some(3),
        ),
        (
            vec![number(-3.9), number(-1.1)],
            Some(-3),
            Some(-1),
        ),
        (
            vec![number(-0.9), number(0.9)],
            Some(0),
            Some(0),
        ),
    ];
    for (positional, start, end) in cases {
        let mut diagnostics = Vec::new();
        let mut context = EvaluationContext::new();
        let outcome = evaluator.evaluate_call_value(
            "range",
            &positional,
            &[],
            None,
            None,
            &operation_span,
            &mut diagnostics,
            &mut context,
        );
        assert!(diagnostics.is_empty(), "{diagnostics:?}");
        assert!(matches!(
            outcome,
            CallOutcome::Value(IrValue::Range(IrRange { start: actual_start, end: actual_end, .. }))
                if actual_start == start && actual_end == end
        ));
    }

    let mut diagnostics = Vec::new();
    let mut context = EvaluationContext::new();
    let outcome = evaluator.evaluate_call_value(
        "range",
        &[],
        &[named_arg("to", number(3.0))],
        None,
        None,
        &operation_span,
        &mut diagnostics,
        &mut context,
    );
    assert!(diagnostics.is_empty(), "{diagnostics:?}");
    assert!(matches!(
        outcome,
        CallOutcome::Value(IrValue::Range(IrRange {
            start: None,
            end: Some(3),
            ..
        }))
    ));

    let equivalent_forms = [
        (vec![number(2.0), number(4.0)], Vec::new()),
        (
            vec![number(2.0)],
            vec![named_arg("to", number(4.0))],
        ),
        (
            Vec::new(),
            vec![
                named_arg("from", number(2.0)),
                named_arg("to", number(4.0)),
            ],
        ),
    ];
    for (positional, named) in equivalent_forms {
        let mut diagnostics = Vec::new();
        let mut context = EvaluationContext::new();
        let outcome = evaluator.evaluate_call_value(
            "range",
            &positional,
            &named,
            None,
            None,
            &operation_span,
            &mut diagnostics,
            &mut context,
        );
        assert!(diagnostics.is_empty(), "{diagnostics:?}");
        assert!(matches!(
            outcome,
            CallOutcome::Value(IrValue::Range(IrRange {
                start: Some(2),
                end: Some(4),
                ..
            }))
        ));
    }

    for (positional, named, expected) in [
        (
            Vec::new(),
            Vec::new(),
            IrRange {
                start: None,
                end: None,
                span: operation_span,
            },
        ),
        (
            vec![number(2.0)],
            Vec::new(),
            IrRange {
                start: Some(2),
                end: None,
                span: operation_span,
            },
        ),
        (
            Vec::new(),
            vec![named_arg("from", number(2.0))],
            IrRange {
                start: Some(2),
                end: None,
                span: operation_span,
            },
        ),
    ] {
        let mut diagnostics = Vec::new();
        let mut context = EvaluationContext::new();
        let outcome = evaluator.evaluate_call_value(
            "range",
            &positional,
            &named,
            None,
            None,
            &operation_span,
            &mut diagnostics,
            &mut context,
        );
        assert!(diagnostics.is_empty(), "{diagnostics:?}");
        let CallOutcome::Value(IrValue::Range(actual)) = outcome else {
            panic!("expected typed Range")
        };
        assert_eq!(actual, expected);
    }
}

#[test]
fn dynamic_range_number_conversion_matches_upstream_edges() {
    for (given, expected) in [
        (f64::NAN, 0),
        (f64::NEG_INFINITY, i32::MIN),
        (f64::INFINITY, i32::MAX),
        ((i32::MIN as f64) - 1.0, i32::MIN),
        ((i32::MAX as f64) + 1.0, i32::MAX),
        (f64::from(i32::MIN), i32::MIN),
        (f64::from(i32::MAX), i32::MAX),
    ] {
        assert_eq!(
            range_endpoint(&InvocationValue::static_value(number(given))),
            Ok(expected)
        );
    }
    assert!(
        range_endpoint(&InvocationValue::static_value(IrValue::Boolean(true)))
            .is_err()
    );
    assert_eq!(
        range_endpoint(&InvocationValue::dynamic_value(IrValue::String(
            "3".to_string()
        ))),
        Ok(3)
    );
}

#[test]
fn range_materialization_handles_signed_and_left_open_bounds_once() {
    let evaluator = Harness::new();
    for (range, expected) in [
        (
            IrRange {
                start: Some(-3),
                end: Some(-1),
                span: span(0, 5),
            },
            vec![-3.0, -2.0, -1.0],
        ),
        (
            IrRange {
                start: Some(-3),
                end: Some(3),
                span: span(0, 5),
            },
            (-3..=3).map(f64::from).collect(),
        ),
        (
            IrRange {
                start: None,
                end: Some(3),
                span: span(0, 4),
            },
            vec![1.0, 2.0, 3.0],
        ),
    ] {
        let mut diagnostics = Vec::new();
        let Ok(elements) = evaluator.coerce_iterable(
            InvocationValue::static_value(IrValue::Range(range)),
            &span(0, 10),
            &mut diagnostics,
        ) else {
            panic!("finite ranges materialize");
        };
        assert!(diagnostics.is_empty(), "{diagnostics:?}");
        assert_eq!(
            elements,
            expected
                .into_iter()
                .map(number)
                .collect::<Vec<_>>()
        );
    }

    for range in [
        IrRange {
            start: None,
            end: Some(0),
            span: span(0, 3),
        },
        IrRange {
            start: None,
            end: Some(-2),
            span: span(0, 4),
        },
        IrRange {
            start: Some(4),
            end: Some(2),
            span: span(0, 4),
        },
    ] {
        let mut diagnostics = Vec::new();
        let Ok(elements) = evaluator.coerce_iterable(
            InvocationValue::static_value(IrValue::Range(range)),
            &span(0, 10),
            &mut diagnostics,
        ) else {
            panic!("descending or below-default ranges are empty");
        };
        assert!(elements.is_empty());
        assert!(diagnostics.is_empty(), "{diagnostics:?}");
    }

    let mut diagnostics = Vec::new();
    let result = evaluator.coerce_iterable(
        InvocationValue::static_value(IrValue::Range(IrRange {
            start: Some(3),
            end: None,
            span: span(10, 13),
        })),
        &span(0, 20),
        &mut diagnostics,
    );
    assert!(matches!(result, Err(CallOutcome::Failed)));
    assert_eq!(diagnostics.len(), 1);
    assert_eq!(diagnostics[0].primary, Some(span(10, 13)));
}

#[test]
fn materialization_limit_is_checked_before_range_allocation() {
    let evaluator = Harness::with_limits(EvaluationLimits {
        max_materialized_elements: 3,
        max_evaluation_depth: 256,
    });

    let mut diagnostics = Vec::new();
    let at_limit = evaluator
        .coerce_iterable(
            InvocationValue::static_value(IrValue::Range(IrRange {
                start: Some(1),
                end: Some(3),
                span: span(10, 15),
            })),
            &span(0, 20),
            &mut diagnostics,
        )
        .expect("the exact materialization limit is valid");
    assert_eq!(at_limit.len(), 3);
    assert!(diagnostics.is_empty(), "{diagnostics:?}");

    let repeated_independent = evaluator
        .coerce_iterable(
            InvocationValue::static_value(IrValue::Range(IrRange {
                start: Some(10),
                end: Some(12),
                span: span(30, 35),
            })),
            &span(0, 40),
            &mut diagnostics,
        )
        .expect("per-operation limits reset for an independent range");
    assert_eq!(repeated_independent.len(), 3);
    assert!(diagnostics.is_empty(), "{diagnostics:?}");

    let mut diagnostics = Vec::new();
    let over_limit = evaluator.coerce_iterable(
        InvocationValue::static_value(IrValue::Range(IrRange {
            start: Some(1),
            end: Some(4),
            span: span(50, 55),
        })),
        &span(0, 60),
        &mut diagnostics,
    );
    assert!(matches!(over_limit, Err(CallOutcome::Failed)));
    assert_eq!(diagnostics.len(), 1);
    assert_eq!(diagnostics[0].code, "E3005");
    assert_eq!(
        diagnostics[0].message,
        "materialized element limit exceeded: requested 4, maximum is 3"
    );
    assert_eq!(diagnostics[0].primary, Some(span(50, 55)));

    let mut diagnostics = Vec::new();
    let huge = evaluator.coerce_iterable(
        InvocationValue::static_value(IrValue::Range(IrRange {
            start: Some(i32::MIN),
            end: Some(i32::MAX),
            span: span(70, 80),
        })),
        &span(0, 90),
        &mut diagnostics,
    );
    assert!(matches!(huge, Err(CallOutcome::Failed)));
    assert_eq!(diagnostics.len(), 1);
    assert_eq!(diagnostics[0].code, "E3005");
    assert_eq!(diagnostics[0].primary, Some(span(70, 80)));
}

#[test]
fn descending_empty_range_passes_even_when_materialization_limit_is_zero() {
    let evaluator = Harness::with_limits(EvaluationLimits {
        max_materialized_elements: 0,
        max_evaluation_depth: 256,
    });
    let mut diagnostics = Vec::new();
    let values = evaluator
        .coerce_iterable(
            InvocationValue::static_value(IrValue::Range(IrRange {
                start: Some(3),
                end: Some(1),
                span: span(0, 4),
            })),
            &span(0, 4),
            &mut diagnostics,
        )
        .expect("descending ranges retain their empty semantics");
    assert!(values.is_empty());
    assert!(diagnostics.is_empty(), "{diagnostics:?}");
}

fn function_declaration(name: &str, body: Vec<IrNode>, start: usize) -> IrNode {
    IrNode::FunctionDeclaration {
        name: IrValue::Identifier(name.to_string()),
        parameters: Vec::new(),
        body,
        span: span(start, start + name.len()),
    }
}

fn function_call(name: &str, start: usize) -> IrNode {
    IrNode::FunctionCall {
        name: name.to_string(),
        positional_args: Vec::new(),
        named_args: Vec::new(),
        lambda_parameters: None,
        body: None,
        span: span(start, start + name.len()),
    }
}

#[test]
fn nested_function_evaluation_at_depth_limit_passes() {
    let evaluator = Harness::with_limits(EvaluationLimits {
        max_materialized_elements: 16,
        max_evaluation_depth: 2,
    });
    let document = doc(vec![
        function_declaration("outer", vec![function_call("inner", 20)], 0),
        function_declaration("inner", vec![text_paragraph("ok")], 10),
        function_call("outer", 30),
    ]);

    let (result, diagnostics) = evaluator.evaluate(&document);
    assert!(diagnostics.is_empty(), "{diagnostics:?}");
    assert_paragraph_text(&result.nodes, "ok");
}

#[test]
fn direct_and_indirect_recursion_fail_at_depth_limit_and_restore_siblings() {
    let evaluator = Harness::with_limits(EvaluationLimits {
        max_materialized_elements: 16,
        max_evaluation_depth: 3,
    });
    let direct = doc(vec![
        function_declaration("loop", vec![function_call("loop", 10)], 0),
        function_call("loop", 20),
        var_declaration("after", IrValue::String("usable".to_string())),
        var_ref("after"),
    ]);
    let (direct_result, direct_diagnostics) = evaluator.evaluate(&direct);
    assert_eq!(direct_diagnostics.len(), 1, "{direct_diagnostics:?}");
    assert_eq!(direct_diagnostics[0].code, "E3005");
    assert_eq!(direct_diagnostics[0].primary, Some(span(10, 14)));
    assert_paragraph_text(&direct_result.nodes, "usable");

    let indirect = doc(vec![
        function_declaration("first", vec![function_call("second", 40)], 30),
        function_declaration("second", vec![function_call("first", 50)], 45),
        function_call("first", 60),
    ]);
    let (indirect_result, indirect_diagnostics) = evaluator.evaluate(&indirect);
    assert!(indirect_result.nodes.is_empty());
    assert_eq!(indirect_diagnostics.len(), 1, "{indirect_diagnostics:?}");
    assert_eq!(indirect_diagnostics[0].code, "E3005");
    assert_eq!(indirect_diagnostics[0].primary, Some(span(40, 46)));
}

#[test]
fn dynamic_range_remains_typed_inside_collection_and_pair_values() {
    let evaluator = Harness::new();
    let range = IrValue::Range(IrRange {
        start: Some(2),
        end: Some(4),
        span: span(0, 5),
    });
    let collection = IrValue::Collection(vec![range.clone()]);
    let mut diagnostics = Vec::new();
    let mut context = EvaluationContext::new();
    let outcome = evaluator.evaluate_call_value(
        "getat",
        &[collection, number(1.0)],
        &[],
        None,
        None,
        &span(0, 10),
        &mut diagnostics,
        &mut context,
    );
    assert!(diagnostics.is_empty(), "{diagnostics:?}");
    assert!(matches!(outcome, CallOutcome::Value(value) if value == range));

    let pair = IrValue::Pair(IrPair {
        first: Box::new(range),
        second: Box::new(IrValue::String("value".to_string())),
        span: span(0, 10),
    });
    let outcome = evaluator.evaluate_call_value(
        "first",
        &[pair],
        &[],
        None,
        None,
        &span(0, 10),
        &mut diagnostics,
        &mut context,
    );
    assert!(matches!(outcome, CallOutcome::Value(IrValue::Range(_))));
    assert!(diagnostics.is_empty(), "{diagnostics:?}");
}

#[test]
fn dynamic_range_argument_binding_is_checked_before_evaluation() {
    let evaluator = Harness::new();
    for named in [
        vec![named_arg("unknown", number(1.0))],
        vec![
            named_arg("from", number(1.0)),
            named_arg("from", number(2.0)),
        ],
    ] {
        let mut diagnostics = Vec::new();
        let mut context = EvaluationContext::new();
        let outcome = evaluator.evaluate_call_value(
            "range",
            &[],
            &named,
            None,
            None,
            &span(0, 20),
            &mut diagnostics,
            &mut context,
        );
        assert!(matches!(outcome, CallOutcome::Failed));
        assert_eq!(diagnostics.len(), 1, "{diagnostics:?}");
    }

    let failing = call_value(
        "multiply",
        vec![IrValue::Boolean(true), number(2.0)],
    );
    let mut diagnostics = Vec::new();
    let mut context = EvaluationContext::new();
    let outcome = evaluator.evaluate_call_value(
        "range",
        &[failing],
        &[],
        None,
        None,
        &span(0, 20),
        &mut diagnostics,
        &mut context,
    );
    assert!(matches!(outcome, CallOutcome::Failed));
    assert_eq!(diagnostics.len(), 1, "{diagnostics:?}");
}

#[test]
fn collection_access_operations_preserve_recursive_types_and_dictionary_pairs() {
    let evaluator = Harness::new();
    let pair = IrValue::Pair(IrPair {
        first: Box::new(IrValue::String("key".to_string())),
        second: Box::new(IrValue::Boolean(true)),
        span: span(10, 20),
    });
    let dictionary = IrValue::Dictionary(IrDictionary {
        entries: vec![IrPair {
            first: Box::new(IrValue::String("first".to_string())),
            second: Box::new(IrValue::Collection(vec![number(2.0)])),
            span: span(21, 30),
        }],
        span: span(21, 30),
    });
    let collection = IrValue::Collection(vec![
        number(1.0),
        IrValue::Content(vec![text_paragraph("content")]),
        pair.clone(),
        dictionary.clone(),
    ]);
    let operation_span = span(0, 40);

    let mut diagnostics = Vec::new();
    let mut context = EvaluationContext::new();
    let outcome = evaluator.evaluate_call_value(
        "size",
        &[],
        &[named_arg("of", collection.clone())],
        None,
        None,
        &operation_span,
        &mut diagnostics,
        &mut context,
    );
    assert!(diagnostics.is_empty(), "{diagnostics:?}");
    assert!(matches!(outcome, CallOutcome::Value(value) if value == number(4.0)));

    let outcome = evaluator.evaluate_call_value(
        "first",
        std::slice::from_ref(&collection),
        &[],
        None,
        None,
        &operation_span,
        &mut diagnostics,
        &mut context,
    );
    assert!(matches!(outcome, CallOutcome::Value(value) if value == number(1.0)));

    let outcome = evaluator.evaluate_call_value(
        "getat",
        &[collection.clone(), number(2.0)],
        &[],
        None,
        None,
        &operation_span,
        &mut diagnostics,
        &mut context,
    );
    assert!(matches!(
        outcome,
        CallOutcome::Value(IrValue::Content(nodes))
            if nodes == vec![text_paragraph("content")]
    ));

    let outcome = evaluator.evaluate_call_value(
        "last",
        &[collection],
        &[],
        None,
        None,
        &operation_span,
        &mut diagnostics,
        &mut context,
    );
    assert!(matches!(outcome, CallOutcome::Value(value) if value == dictionary));

    let outcome = evaluator.evaluate_call_value(
        "getat",
        &[
            IrValue::Dictionary(IrDictionary {
                entries: vec![IrPair {
                    first: Box::new(IrValue::String("a".to_string())),
                    second: Box::new(number(1.0)),
                    span: span(41, 45),
                }],
                span: span(41, 45),
            }),
            number(1.0),
        ],
        &[],
        None,
        None,
        &operation_span,
        &mut diagnostics,
        &mut context,
    );
    let CallOutcome::Value(entry) = outcome else {
        panic!("expected a typed dictionary Pair")
    };
    assert!(matches!(entry, IrValue::Pair(_)));

    let outcome = evaluator.evaluate_call_value(
        "first",
        &[entry],
        &[],
        None,
        None,
        &operation_span,
        &mut diagnostics,
        &mut context,
    );
    assert!(matches!(
        outcome,
        CallOutcome::Value(IrValue::String(value)) if value == "a"
    ));
    assert!(diagnostics.is_empty(), "{diagnostics:?}");
}

#[test]
fn collection_access_indexing_matches_one_based_empty_and_invalid_boundaries() {
    let evaluator = Harness::new();
    let values = IrValue::Collection(vec![
        IrValue::String("first".to_string()),
        IrValue::String("second".to_string()),
    ]);
    let operation_span = span(0, 20);

    for index in [0.0, -1.0, 3.0, 9_007_199_254_740_992.0] {
        let mut diagnostics = Vec::new();
        let mut context = EvaluationContext::new();
        let outcome = evaluator.evaluate_call_value(
            "getat",
            &[values.clone(), number(index)],
            &[],
            None,
            None,
            &operation_span,
            &mut diagnostics,
            &mut context,
        );
        assert!(matches!(outcome, CallOutcome::Value(IrValue::Nothing)));
        assert!(diagnostics.is_empty(), "{diagnostics:?}");
    }

    let empty = IrValue::Range(IrRange {
        start: Some(4),
        end: Some(2),
        span: operation_span,
    });
    for name in ["first", "last"] {
        let mut diagnostics = Vec::new();
        let mut context = EvaluationContext::new();
        let outcome = evaluator.evaluate_call_value(
            name,
            std::slice::from_ref(&empty),
            &[],
            None,
            None,
            &operation_span,
            &mut diagnostics,
            &mut context,
        );
        assert!(matches!(outcome, CallOutcome::Value(IrValue::Nothing)));
        assert!(diagnostics.is_empty(), "{diagnostics:?}");
    }

    let mut diagnostics = Vec::new();
    let mut context = EvaluationContext::new();
    let outcome = evaluator.evaluate_call_value(
        "getat",
        &[empty, number(1.0)],
        &[named_arg("orelse", IrValue::Boolean(true))],
        None,
        None,
        &operation_span,
        &mut diagnostics,
        &mut context,
    );
    assert!(matches!(
        outcome,
        CallOutcome::Value(IrValue::Boolean(true))
    ));
    assert!(diagnostics.is_empty(), "{diagnostics:?}");

    for index in [1.5, f64::NAN, f64::INFINITY] {
        let mut diagnostics = Vec::new();
        let mut context = EvaluationContext::new();
        let outcome = evaluator.evaluate_call_value(
            "getat",
            &[values.clone(), number(index)],
            &[],
            None,
            None,
            &operation_span,
            &mut diagnostics,
            &mut context,
        );
        assert!(matches!(outcome, CallOutcome::Failed));
        assert_eq!(diagnostics.len(), 1, "{diagnostics:?}");
    }
}

#[test]
fn collection_second_and_third_share_one_based_iterable_access() {
    let evaluator = Harness::new();
    let operation_span = span(0, 20);
    let values = IrValue::Collection(vec![
        IrValue::String("one".to_string()),
        number(2.0),
        IrValue::Boolean(true),
    ]);
    let mut diagnostics = Vec::new();
    let mut context = EvaluationContext::new();

    for (name, expected) in [
        ("second", number(2.0)),
        ("third", IrValue::Boolean(true)),
    ] {
        let outcome = collection_call(
            &evaluator,
            name,
            std::slice::from_ref(&values),
            &[],
            &operation_span,
            &mut diagnostics,
            &mut context,
        );
        assert!(matches!(outcome, CallOutcome::Value(value) if value == expected));
        assert!(diagnostics.is_empty(), "{diagnostics:?}");
    }

    for value in [
        IrValue::Collection(Vec::new()),
        IrValue::Collection(vec![number(1.0)]),
    ] {
        for name in ["second", "third"] {
            let outcome = collection_call(
                &evaluator,
                name,
                std::slice::from_ref(&value),
                &[],
                &operation_span,
                &mut diagnostics,
                &mut context,
            );
            assert!(matches!(outcome, CallOutcome::Value(IrValue::Nothing)));
            assert!(diagnostics.is_empty(), "{diagnostics:?}");
        }
    }

    let pair = IrValue::Pair(IrPair {
        first: Box::new(IrValue::String("key".to_string())),
        second: Box::new(IrValue::Boolean(true)),
        span: span(21, 31),
    });
    let outcome = collection_call(
        &evaluator,
        "second",
        std::slice::from_ref(&pair),
        &[],
        &operation_span,
        &mut diagnostics,
        &mut context,
    );
    assert!(matches!(
        outcome,
        CallOutcome::Value(IrValue::Boolean(true))
    ));

    let getat = collection_call(
        &evaluator,
        "getat",
        &[values.clone(), number(2.0)],
        &[],
        &operation_span,
        &mut diagnostics,
        &mut context,
    );
    assert!(matches!(
        getat,
        CallOutcome::Value(IrValue::Number(value)) if float(value) == 2.0
    ));
    let getat = collection_call(
        &evaluator,
        "getat",
        &[values.clone(), number(3.0)],
        &[],
        &operation_span,
        &mut diagnostics,
        &mut context,
    );
    assert!(matches!(getat, CallOutcome::Value(IrValue::Boolean(true))));

    let dictionary = IrValue::Dictionary(IrDictionary {
        entries: vec![
            IrPair {
                first: Box::new(IrValue::String("a".to_string())),
                second: Box::new(number(1.0)),
                span: span(32, 36),
            },
            IrPair {
                first: Box::new(IrValue::String("b".to_string())),
                second: Box::new(number(2.0)),
                span: span(37, 41),
            },
        ],
        span: span(32, 41),
    });
    let outcome = collection_call(
        &evaluator,
        "third",
        std::slice::from_ref(&dictionary),
        &[],
        &operation_span,
        &mut diagnostics,
        &mut context,
    );
    assert!(matches!(outcome, CallOutcome::Value(IrValue::Nothing)));
    let outcome = collection_call(
        &evaluator,
        "second",
        std::slice::from_ref(&dictionary),
        &[],
        &operation_span,
        &mut diagnostics,
        &mut context,
    );
    assert!(matches!(
        outcome,
        CallOutcome::Value(IrValue::Pair(pair))
            if matches!(*pair.second, IrValue::Number(value) if float(value) == 2.0)
    ));

    for (range, expected) in [
        (
            IrValue::Range(IrRange {
                start: Some(-2),
                end: Some(1),
                span: span(42, 47),
            }),
            number(-1.0),
        ),
        (
            IrValue::Range(IrRange {
                start: None,
                end: Some(3),
                span: span(48, 51),
            }),
            number(2.0),
        ),
    ] {
        let outcome = collection_call(
            &evaluator,
            "second",
            std::slice::from_ref(&range),
            &[],
            &operation_span,
            &mut diagnostics,
            &mut context,
        );
        assert!(matches!(outcome, CallOutcome::Value(value) if value == expected));
    }
    assert!(diagnostics.is_empty(), "{diagnostics:?}");
}

#[test]
fn collection_distinct_and_groupvalues_are_stable_and_typed() {
    let evaluator = Harness::new();
    let operation_span = span(0, 80);
    let pair_one = IrValue::Pair(IrPair {
        first: Box::new(IrValue::String("key".to_string())),
        second: Box::new(number(1.0)),
        span: span(1, 5),
    });
    let pair_two = IrValue::Pair(IrPair {
        first: Box::new(IrValue::String("key".to_string())),
        second: Box::new(number(1.0)),
        span: span(20, 24),
    });
    let dictionary_one = IrValue::Dictionary(IrDictionary {
        entries: vec![IrPair {
            first: Box::new(IrValue::String("a".to_string())),
            second: Box::new(number(1.0)),
            span: span(25, 29),
        }],
        span: span(25, 29),
    });
    let dictionary_two = IrValue::Dictionary(IrDictionary {
        entries: vec![IrPair {
            first: Box::new(IrValue::String("a".to_string())),
            second: Box::new(number(1.0)),
            span: span(30, 34),
        }],
        span: span(30, 34),
    });
    let nested = IrValue::Collection(vec![IrValue::String("nested".to_string())]);
    let input = IrValue::Collection(vec![
        number(1.0),
        number(1.0),
        IrValue::String("1".to_string()),
        IrValue::Boolean(true),
        IrValue::Nothing,
        number(f64::NAN),
        number(f64::NAN),
        number(-0.0),
        number(0.0),
        pair_one.clone(),
        pair_two,
        nested.clone(),
        nested,
        dictionary_one.clone(),
        dictionary_two,
    ]);
    let mut diagnostics = Vec::new();
    let mut context = EvaluationContext::new();
    let empty_distinct = collection_call(
        &evaluator,
        "distinct",
        &[IrValue::Collection(Vec::new())],
        &[],
        &operation_span,
        &mut diagnostics,
        &mut context,
    );
    assert!(matches!(
        empty_distinct,
        CallOutcome::Value(IrValue::Collection(values)) if values.is_empty()
    ));
    let distinct = collection_call(
        &evaluator,
        "distinct",
        std::slice::from_ref(&input),
        &[],
        &operation_span,
        &mut diagnostics,
        &mut context,
    );
    let CallOutcome::Value(IrValue::Collection(distinct_values)) = distinct else {
        panic!("expected distinct collection")
    };
    assert_eq!(distinct_values.len(), 10);
    assert!(distinct_values[0] == number(1.0));
    assert!(matches!(distinct_values[1], IrValue::String(ref value) if value == "1"));
    assert!(matches!(distinct_values[2], IrValue::Boolean(true)));
    assert!(matches!(distinct_values[3], IrValue::Nothing));
    assert!(matches!(distinct_values[4], IrValue::Number(value) if float(value).is_nan()));
    assert!(matches!(distinct_values[5], IrValue::Number(value) if float(value) == -0.0));
    assert!(matches!(distinct_values[6], IrValue::Number(value) if float(value) == 0.0));
    assert_eq!(distinct_values[7], pair_one);
    assert!(diagnostics.is_empty(), "{diagnostics:?}");

    let dictionary_input = IrValue::Dictionary(IrDictionary {
        entries: vec![
            IrPair {
                first: Box::new(IrValue::String("a".to_string())),
                second: Box::new(number(1.0)),
                span: span(35, 39),
            },
            IrPair {
                first: Box::new(IrValue::String("b".to_string())),
                second: Box::new(number(2.0)),
                span: span(40, 44),
            },
        ],
        span: span(35, 44),
    });
    let distinct_dictionary = collection_call(
        &evaluator,
        "distinct",
        std::slice::from_ref(&dictionary_input),
        &[],
        &operation_span,
        &mut diagnostics,
        &mut context,
    );
    assert!(
        matches!(distinct_dictionary, CallOutcome::Value(IrValue::Collection(values)) if values.len() == 2 && matches!(&values[0], IrValue::Pair(pair) if matches!(*pair.first, IrValue::String(ref value) if value == "a")))
    );

    let grouped_dictionary = collection_call(
        &evaluator,
        "groupvalues",
        std::slice::from_ref(&dictionary_input),
        &[],
        &operation_span,
        &mut diagnostics,
        &mut context,
    );
    assert!(
        matches!(grouped_dictionary, CallOutcome::Value(IrValue::Collection(groups)) if groups.len() == 2 && groups.iter().all(|group| matches!(group, IrValue::Collection(values) if values.len() == 1)))
    );

    let range = IrValue::Range(IrRange {
        start: Some(1),
        end: Some(3),
        span: span(40, 44),
    });
    let range_distinct = collection_call(
        &evaluator,
        "distinct",
        std::slice::from_ref(&range),
        &[],
        &operation_span,
        &mut diagnostics,
        &mut context,
    );
    assert!(
        matches!(range_distinct, CallOutcome::Value(IrValue::Collection(values)) if values == [number(1.0), number(2.0), number(3.0)])
    );
    let range_groups = collection_call(
        &evaluator,
        "groupvalues",
        std::slice::from_ref(&range),
        &[],
        &operation_span,
        &mut diagnostics,
        &mut context,
    );
    assert!(
        matches!(range_groups, CallOutcome::Value(IrValue::Collection(groups)) if groups.len() == 3 && groups.iter().all(|group| matches!(group, IrValue::Collection(values) if values.len() == 1)))
    );

    let callable = IrValue::Callable(IrCallable {
        parameters: None,
        body: Vec::new(),
        span: span(45, 49),
        capture: None,
    });
    let callable_distinct = collection_call(
        &evaluator,
        "distinct",
        &[IrValue::Collection(vec![
            callable.clone(),
            callable.clone(),
        ])],
        &[],
        &operation_span,
        &mut diagnostics,
        &mut context,
    );
    assert!(
        matches!(callable_distinct, CallOutcome::Value(IrValue::Collection(values)) if values.len() == 1)
    );
    let content_distinct = collection_call(
        &evaluator,
        "distinct",
        &[IrValue::Collection(vec![
            IrValue::Content(Vec::new()),
            IrValue::Content(Vec::new()),
        ])],
        &[],
        &operation_span,
        &mut diagnostics,
        &mut context,
    );
    assert!(
        matches!(content_distinct, CallOutcome::Value(IrValue::Collection(values)) if values.len() == 1)
    );

    let grouped_input = IrValue::Collection(vec![
        IrValue::String("A".to_string()),
        IrValue::String("B".to_string()),
        IrValue::String("A".to_string()),
        IrValue::String("C".to_string()),
        IrValue::String("B".to_string()),
    ]);
    let grouped = collection_call(
        &evaluator,
        "groupvalues",
        std::slice::from_ref(&grouped_input),
        &[],
        &operation_span,
        &mut diagnostics,
        &mut context,
    );
    assert!(
        matches!(grouped, CallOutcome::Value(IrValue::Collection(ref groups)) if groups == &[
            IrValue::Collection(vec![
                IrValue::String("A".to_string()),
                IrValue::String("A".to_string()),
            ]),
            IrValue::Collection(vec![
                IrValue::String("B".to_string()),
                IrValue::String("B".to_string()),
            ]),
            IrValue::Collection(vec![IrValue::String("C".to_string())]),
        ])
    );
    assert!(diagnostics.is_empty(), "{diagnostics:?}");

    let repeated = collection_call(
        &evaluator,
        "distinct",
        std::slice::from_ref(&grouped_input),
        &[],
        &operation_span,
        &mut diagnostics,
        &mut context,
    );
    let repeated = match repeated {
        CallOutcome::Value(value) => value,
        _ => panic!("expected repeated distinct result"),
    };
    let repeated_again = collection_call(
        &evaluator,
        "distinct",
        std::slice::from_ref(&grouped_input),
        &[],
        &operation_span,
        &mut diagnostics,
        &mut context,
    );
    assert_eq!(
        repeated,
        match repeated_again {
            CallOutcome::Value(value) => value,
            _ => panic!("expected deterministic distinct result"),
        }
    );
    assert!(diagnostics.is_empty(), "{diagnostics:?}");

    let pair_groups = collection_call(
        &evaluator,
        "groupvalues",
        &[IrValue::Pair(IrPair {
            first: Box::new(IrValue::String("same".to_string())),
            second: Box::new(IrValue::String("same".to_string())),
            span: span(81, 86),
        })],
        &[],
        &operation_span,
        &mut diagnostics,
        &mut context,
    );
    assert!(
        matches!(pair_groups, CallOutcome::Value(IrValue::Collection(ref groups)) if groups.len() == 1 && matches!(&groups[0], IrValue::Collection(values) if values.len() == 2))
    );

    let empty_groups = collection_call(
        &evaluator,
        "groupvalues",
        &[IrValue::Collection(Vec::new())],
        &[],
        &operation_span,
        &mut diagnostics,
        &mut context,
    );
    assert!(matches!(
        empty_groups,
        CallOutcome::Value(IrValue::Collection(values)) if values.is_empty()
    ));
    assert!(diagnostics.is_empty(), "{diagnostics:?}");
}

#[test]
fn collection_reversed_uses_the_shared_materialized_sequence() {
    let evaluator = Harness::new();
    let operation_span = span(0, 30);
    let mut diagnostics = Vec::new();
    let mut context = EvaluationContext::new();
    let cases = [
        (
            IrValue::Collection(Vec::new()),
            IrValue::Collection(Vec::new()),
        ),
        (
            IrValue::Collection(vec![IrValue::String("one".to_string())]),
            IrValue::Collection(vec![IrValue::String("one".to_string())]),
        ),
        (
            IrValue::Collection(vec![
                IrValue::Collection(vec![number(1.0)]),
                number(2.0),
            ]),
            IrValue::Collection(vec![
                number(2.0),
                IrValue::Collection(vec![number(1.0)]),
            ]),
        ),
        (
            IrValue::Pair(IrPair {
                first: Box::new(IrValue::String("a".to_string())),
                second: Box::new(IrValue::String("b".to_string())),
                span: span(31, 36),
            }),
            IrValue::Collection(vec![
                IrValue::String("b".to_string()),
                IrValue::String("a".to_string()),
            ]),
        ),
        (
            IrValue::Dictionary(IrDictionary {
                entries: vec![
                    IrPair {
                        first: Box::new(IrValue::String("a".to_string())),
                        second: Box::new(number(1.0)),
                        span: span(53, 57),
                    },
                    IrPair {
                        first: Box::new(IrValue::String("b".to_string())),
                        second: Box::new(number(2.0)),
                        span: span(58, 62),
                    },
                ],
                span: span(53, 62),
            }),
            IrValue::Collection(vec![
                IrValue::Pair(IrPair {
                    first: Box::new(IrValue::String("b".to_string())),
                    second: Box::new(number(2.0)),
                    span: span(58, 62),
                }),
                IrValue::Pair(IrPair {
                    first: Box::new(IrValue::String("a".to_string())),
                    second: Box::new(number(1.0)),
                    span: span(53, 57),
                }),
            ]),
        ),
        (
            IrValue::Range(IrRange {
                start: Some(-2),
                end: Some(0),
                span: span(37, 42),
            }),
            IrValue::Collection(vec![
                number(0.0),
                number(-1.0),
                number(-2.0),
            ]),
        ),
        (
            IrValue::Range(IrRange {
                start: None,
                end: Some(3),
                span: span(43, 46),
            }),
            IrValue::Collection(vec![
                number(3.0),
                number(2.0),
                number(1.0),
            ]),
        ),
        (
            IrValue::Range(IrRange {
                start: Some(4),
                end: Some(2),
                span: span(47, 52),
            }),
            IrValue::Collection(Vec::new()),
        ),
    ];
    for (input, expected) in cases {
        let outcome = collection_call(
            &evaluator,
            "reversed",
            std::slice::from_ref(&input),
            &[],
            &operation_span,
            &mut diagnostics,
            &mut context,
        );
        assert!(matches!(outcome, CallOutcome::Value(value) if value == expected));
        assert!(diagnostics.is_empty(), "{diagnostics:?}");
    }

    let endless_span = span(53, 56);
    let outcome = collection_call(
        &evaluator,
        "reversed",
        &[IrValue::Range(IrRange {
            start: Some(1),
            end: None,
            span: endless_span,
        })],
        &[],
        &operation_span,
        &mut diagnostics,
        &mut context,
    );
    assert!(matches!(outcome, CallOutcome::Failed));
    assert_eq!(diagnostics.len(), 1);
    assert_eq!(diagnostics[0].primary, Some(endless_span));
}

#[test]
fn collection_sumall_and_average_follow_as_double_and_kotlin_average() {
    let evaluator = Harness::new();
    let operation_span = span(0, 30);
    let mut diagnostics = Vec::new();
    let mut context = EvaluationContext::new();
    let mixed = IrValue::Collection(vec![
        number(1.5),
        number(-2.0),
        IrValue::String("3.5".to_string()),
        IrValue::Boolean(true),
        IrValue::Nothing,
        IrValue::String("invalid".to_string()),
    ]);

    let sum = collection_call(
        &evaluator,
        "sumall",
        std::slice::from_ref(&mixed),
        &[],
        &operation_span,
        &mut diagnostics,
        &mut context,
    );
    assert!(matches!(sum, CallOutcome::Value(IrValue::Number(value)) if float(value) == 3.0));
    let average = collection_call(
        &evaluator,
        "average",
        std::slice::from_ref(&mixed),
        &[],
        &operation_span,
        &mut diagnostics,
        &mut context,
    );
    assert!(matches!(average, CallOutcome::Value(IrValue::Number(value)) if float(value) == 0.5));
    assert!(diagnostics.is_empty(), "{diagnostics:?}");

    let empty = IrValue::Collection(Vec::new());
    let sum = collection_call(
        &evaluator,
        "sumall",
        std::slice::from_ref(&empty),
        &[],
        &operation_span,
        &mut diagnostics,
        &mut context,
    );
    assert!(matches!(sum, CallOutcome::Value(IrValue::Number(value)) if float(value) == 0.0));
    let average = collection_call(
        &evaluator,
        "average",
        std::slice::from_ref(&empty),
        &[],
        &operation_span,
        &mut diagnostics,
        &mut context,
    );
    assert!(matches!(average, CallOutcome::Value(IrValue::Number(value)) if float(value).is_nan()));

    let special = IrValue::Collection(vec![
        number(f64::INFINITY),
        number(f64::NEG_INFINITY),
    ]);
    let sum = collection_call(
        &evaluator,
        "sumall",
        std::slice::from_ref(&special),
        &[],
        &operation_span,
        &mut diagnostics,
        &mut context,
    );
    assert!(matches!(sum, CallOutcome::Value(IrValue::Number(value)) if float(value).is_nan()));
    let average = collection_call(
        &evaluator,
        "average",
        &[IrValue::Collection(vec![number(f64::INFINITY)])],
        &[],
        &operation_span,
        &mut diagnostics,
        &mut context,
    );
    assert!(
        matches!(average, CallOutcome::Value(IrValue::Number(value)) if float(value).is_infinite() && float(value).is_sign_positive())
    );
    assert!(diagnostics.is_empty(), "{diagnostics:?}");
}

#[test]
fn collection_access_reuses_failure_outcomes_and_checks_length_conversion() {
    let evaluator = Harness::new();
    let operation_span = span(0, 20);
    let failing = call_value(
        "multiply",
        vec![IrValue::Boolean(true), number(2.0)],
    );
    let unresolved = call_value("unknown", Vec::new());

    for value in [failing, unresolved, IrValue::Boolean(true)] {
        let mut diagnostics = Vec::new();
        let mut context = EvaluationContext::new();
        let outcome = evaluator.evaluate_call_value(
            "size",
            &[value],
            &[],
            None,
            None,
            &operation_span,
            &mut diagnostics,
            &mut context,
        );
        assert!(matches!(outcome, CallOutcome::Failed));
        assert_eq!(diagnostics.len(), 1, "{diagnostics:?}");
    }

    let mut diagnostics = Vec::new();
    assert!(matches!(
        exact_length(usize::MAX, &operation_span, &mut diagnostics),
        Err(CallOutcome::Failed)
    ));
    assert_eq!(diagnostics.len(), 1);
}

#[test]
fn pair_evaluation_is_typed_recursive_and_atomic_on_child_failure() {
    let evaluator = Harness::new();
    let pair_span = span(10, 20);
    let mut diagnostics = Vec::new();
    let mut context = EvaluationContext::new();
    let outcome = evaluator.evaluate_call_value(
        "pair",
        &[
            IrValue::String("key".to_string()),
            IrValue::Collection(vec![number(1.0), IrValue::Boolean(true)]),
        ],
        &[],
        None,
        None,
        &pair_span,
        &mut diagnostics,
        &mut context,
    );
    assert!(diagnostics.is_empty(), "{diagnostics:?}");
    assert!(matches!(
        outcome,
        CallOutcome::Value(IrValue::Pair(IrPair { first, second, span }))
            if *first == IrValue::String("key".to_string())
                && *second == IrValue::Collection(vec![
                    number(1.0),
                    IrValue::Boolean(true),
                ])
                && span == pair_span
    ));

    let failing = call_value(
        "multiply",
        vec![IrValue::Boolean(true), number(2.0)],
    );
    diagnostics.clear();
    let outcome = evaluator.evaluate_call_value(
        "pair",
        &[number(1.0), failing],
        &[],
        None,
        None,
        &pair_span,
        &mut diagnostics,
        &mut context,
    );
    assert!(matches!(outcome, CallOutcome::Failed));
    assert_eq!(diagnostics.len(), 1, "{diagnostics:?}");
}

#[test]
fn dictionary_iteration_reuses_pair_items_and_explicit_destructuring() {
    let evaluator = Harness::new();
    let dictionary_span = span(0, 30);
    let dictionary = IrValue::Dictionary(IrDictionary {
        entries: vec![
            IrPair {
                first: Box::new(IrValue::String("a".to_string())),
                second: Box::new(number(1.0)),
                span: span(5, 10),
            },
            IrPair {
                first: Box::new(IrValue::String("b".to_string())),
                second: Box::new(number(2.0)),
                span: span(10, 15),
            },
        ],
        span: dictionary_span,
    });
    let parameters = vec![lambda_parameter("key", 20), lambda_parameter("value", 24)];
    let body = vec![var_ref("key"), var_ref("value")];
    let mut diagnostics = Vec::new();
    let mut context = EvaluationContext::new();
    let outcome = evaluator.evaluate_call_value(
        "foreach",
        &[dictionary],
        &[],
        Some(CallBody::Block(&body)),
        Some(&parameters),
        &dictionary_span,
        &mut diagnostics,
        &mut context,
    );
    assert!(diagnostics.is_empty(), "{diagnostics:?}");
    let CallOutcome::Value(IrValue::Collection(values)) = outcome else {
        panic!("expected typed iteration result")
    };
    assert_eq!(values.len(), 2);
    assert!(matches!(
        &values[0],
        IrValue::Content(nodes) if nodes.len() == 2
    ));
    assert!(matches!(
        &values[1],
        IrValue::Content(nodes) if nodes.len() == 2
    ));
}

#[test]
fn pair_destructuring_rejects_non_pair_items_without_coercion() {
    let evaluator = Harness::new();
    let parameters = vec![lambda_parameter("key", 20), lambda_parameter("value", 24)];
    let body = vec![var_ref("key")];
    let mut diagnostics = Vec::new();
    let mut context = EvaluationContext::new();
    let outcome = evaluator.evaluate_call_value(
        "foreach",
        &[IrValue::Collection(vec![IrValue::String(
            "invalid".to_string(),
        )])],
        &[],
        Some(CallBody::Block(&body)),
        Some(&parameters),
        &span(0, 20),
        &mut diagnostics,
        &mut context,
    );
    assert!(matches!(outcome, CallOutcome::Failed));
    assert_eq!(diagnostics.len(), 1, "{diagnostics:?}");
    assert!(diagnostics[0].message.contains("expected a Pair"));
}

#[test]
fn block_materialization_of_mixed_collection_is_fail_fast_and_atomic() {
    let range_span = span(10, 14);
    let value = IrValue::Collection(vec![
        number(1.0),
        IrValue::Range(IrRange {
            start: Some(2),
            end: Some(4),
            span: range_span,
        }),
        number(5.0),
    ]);
    let mut diagnostics = Vec::new();
    let result =
        Harness::new().materialize_block_value(value, &span(0, 20), &mut diagnostics);
    assert!(matches!(result, Err(CallOutcome::Failed)));
    assert_eq!(diagnostics.len(), 1, "{diagnostics:?}");
    assert_eq!(diagnostics[0].primary, Some(range_span));
}

#[test]
fn block_materialization_of_nested_range_is_fail_fast_and_atomic() {
    let range_span = span(10, 14);
    let value = IrValue::Collection(vec![IrValue::Collection(vec![IrValue::Range(IrRange {
        start: Some(2),
        end: Some(4),
        span: range_span,
    })])]);
    let mut diagnostics = Vec::new();
    let result =
        Harness::new().materialize_block_value(value, &span(0, 20), &mut diagnostics);
    assert!(matches!(result, Err(CallOutcome::Failed)));
    assert_eq!(diagnostics.len(), 1, "{diagnostics:?}");
    assert_eq!(diagnostics[0].primary, Some(range_span));
}

#[test]
fn component_remains_typed_in_value_context_and_preserves_source_span() {
    let component_span = span(20, 44);
    let component = component_value(component_span);
    let mut diagnostics = Vec::new();
    let mut context = EvaluationContext::new();
    let outcome = Harness::new().evaluate_value(&component, &mut diagnostics, &mut context);

    assert!(diagnostics.is_empty(), "{diagnostics:?}");
    assert_eq!(outcome, CallOutcome::Value(component.clone()));
    assert_eq!(value_source_span(&component, span(0, 1)), component_span);
}

#[test]
fn component_survives_variable_and_callable_value_flow() {
    let component = component_value(span(20, 44));
    let mut context = EvaluationContext::new();
    context.set_value("component".to_string(), component.clone());
    context.set_function_binding(
        "make".to_string(),
        FunctionBinding {
            parameters: LambdaParameters::Implicit,
            body: vec![var_ref("component")],
            declaration_span: span(50, 54),
            capture: None,
        },
    );
    let evaluator = Harness::new();
    let mut diagnostics = Vec::new();

    let variable_reference = call_value("component", Vec::new());
    assert_eq!(
        evaluator.evaluate_value(&variable_reference, &mut diagnostics, &mut context),
        CallOutcome::Value(component.clone())
    );
    assert!(diagnostics.is_empty(), "{diagnostics:?}");

    let outcome = evaluator.evaluate_call_value(
        "make",
        &[],
        &[],
        None,
        None,
        &span(60, 64),
        &mut diagnostics,
        &mut context,
    );
    assert_eq!(outcome, CallOutcome::Value(component));
    assert!(diagnostics.is_empty(), "{diagnostics:?}");
}

#[test]
fn single_callable_component_result_remains_a_value() {
    let component = component_value(span(20, 44));
    let mut context = EvaluationContext::new();
    context.set_value("component".to_string(), component.clone());
    let mut diagnostics = Vec::new();

    let outcome = Harness::new().evaluate_callable_body_value(
        &[var_ref("component")],
        &mut diagnostics,
        &mut context,
    );

    assert_eq!(outcome, CallOutcome::Value(component));
    assert!(diagnostics.is_empty(), "{diagnostics:?}");
}

#[test]
fn component_block_materialization_publishes_one_typed_node() {
    let component_span = span(20, 44);
    let component = component_value(component_span);
    let mut diagnostics = Vec::new();
    let result =
        Harness::new().materialize_block_value(component, &span(0, 1), &mut diagnostics);

    let Ok([IrNode::Component { component }]) = result.as_deref() else {
        panic!("expected one typed component node, got {result:?}");
    };
    assert_eq!(span_of_component(component), component_span);
    assert!(diagnostics.is_empty(), "{diagnostics:?}");
}

#[test]
fn component_variable_at_document_output_boundary_materializes_as_a_node() {
    let component_span = span(20, 44);
    let (nodes, diagnostics) = Harness::new().evaluate(&doc(vec![
        var_declaration("component", component_value(component_span)),
        var_ref("component"),
    ]));

    assert!(diagnostics.is_empty(), "{diagnostics:?}");
    let [IrNode::Component { component }] = nodes.nodes.as_slice() else {
        panic!("expected one component node, got {:?}", nodes.nodes);
    };
    assert_eq!(span_of_component(component), component_span);
}

#[test]
fn component_inline_materialization_fails_with_empty_output() {
    let component_span = span(20, 44);
    let component = component_value(component_span);
    let mut diagnostics = Vec::new();
    let inlines = Harness::new().materialize_inline_value(
        Some(component),
        &span(0, 1),
        &mut diagnostics,
    );

    assert!(inlines.is_empty());
    assert_eq!(diagnostics.len(), 1, "{diagnostics:?}");
    assert_eq!(diagnostics[0].primary, Some(component_span));
    assert!(diagnostics[0].message.contains("block-only"));
}

#[test]
fn component_and_second_callable_output_preserve_both_nodes() {
    let component_span = span(20, 44);
    let component = component_value(component_span);
    let mut context = EvaluationContext::new();
    context.set_value("component".to_string(), component);
    let mut diagnostics = Vec::new();

    let outcome = Harness::new().evaluate_callable_body_value(
        &[var_ref("component"), text_paragraph("later output")],
        &mut diagnostics,
        &mut context,
    );

    let CallOutcome::Value(IrValue::Content(nodes)) = outcome else {
        panic!("expected composed content");
    };
    assert_eq!(nodes.len(), 2);
    assert!(matches!(nodes[0], IrNode::Component { .. }));
    assert!(matches!(nodes[1], IrNode::Paragraph { .. }));
    assert!(diagnostics.is_empty(), "{diagnostics:?}");
}

#[test]
fn component_is_rejected_by_scalar_text_materialization() {
    let component_span = span(20, 44);
    let component = component_value(component_span);
    let mut diagnostics = Vec::new();
    let result = scalar_text(&component, span(0, 1), &mut diagnostics);

    assert!(matches!(result, Err(CallOutcome::Failed)));
    assert_eq!(diagnostics.len(), 1, "{diagnostics:?}");
    assert_eq!(diagnostics[0].primary, Some(component_span));
    assert!(diagnostics[0].message.contains("scalar text"));
}

#[test]
fn block_materialization_of_normal_collection_preserves_order() {
    let value = IrValue::Collection(vec![
        number(1.0),
        number(2.0),
        number(3.0),
    ]);
    let mut diagnostics = Vec::new();
    let nodes =
        match Harness::new().materialize_block_value(value, &span(0, 20), &mut diagnostics) {
            Ok(nodes) => nodes,
            Err(_) => panic!("normal Collection should materialize"),
        };
    assert!(diagnostics.is_empty(), "{diagnostics:?}");
    assert_eq!(nodes.len(), 3);
    for (node, expected) in nodes.iter().zip(["1", "2", "3"]) {
        let IrNode::Paragraph { content, .. } = node else {
            panic!("expected scalar paragraph, got {node:?}")
        };
        assert!(matches!(
            content.as_slice(),
            [IrInline::Text { content, .. }] if content == expected
        ));
    }
}

#[test]
fn foreach_empty_collection_does_not_invoke_the_body() {
    let (nodes, diagnostics) = evaluate_with_diagnostics(vec![foreach_call(
        IrValue::Collection(Vec::new()),
        None,
        vec![var_ref("2")],
    )]);
    assert!(nodes.is_empty());
    assert!(diagnostics.is_empty(), "{diagnostics:?}");
}

#[test]
fn foreach_nested_iterable_expression_flows_through_one_value_context() {
    let nested = foreach_call(
        IrValue::Range(IrRange {
            start: Some(1),
            end: Some(2),
            span: span(0, 4),
        }),
        None,
        vec![var_ref("1")],
    );
    let outer = foreach_call(IrValue::Content(vec![nested]), None, vec![var_ref("1")]);
    let (nodes, diagnostics) = evaluate_with_diagnostics(vec![outer]);
    assert!(diagnostics.is_empty(), "{diagnostics:?}");
    assert_paragraph_text(&nodes[0..1], "1");
    assert_paragraph_text(&nodes[1..2], "2");
}

#[test]
fn foreach_local_function_does_not_leak_to_parent() {
    let local = IrNode::FunctionDeclaration {
        name: IrValue::Identifier("local".to_string()),
        parameters: Vec::new(),
        body: vec![text_paragraph("inside")],
        span: span(20, 25),
    };
    let foreach = IrNode::FunctionCall {
        name: "foreach".to_string(),
        positional_args: vec![IrValue::Range(IrRange {
            start: Some(1),
            end: Some(2),
            span: span(0, 4),
        })],
        named_args: Vec::new(),
        lambda_parameters: Some(vec![lambda_parameter("n", 10)]),
        body: Some(vec![local, var_ref("n")]),
        span: span(0, 20),
    };
    let (nodes, diagnostics) = evaluate_with_diagnostics(vec![foreach, var_ref("local")]);
    assert!(diagnostics.is_empty(), "{diagnostics:?}");
    assert!(matches!(
        nodes.last(),
        Some(IrNode::FunctionCall { name, .. }) if name == "local"
    ));
}

#[test]
fn let_missing_implicit_parameter_reports_original_span() {
    let (nodes, diagnostics) = evaluate_with_diagnostics(vec![let_call(
        Some(IrValue::String("value".to_string())),
        None,
        Some(vec![var_ref("2")]),
    )]);
    assert!(nodes.is_empty());
    assert_eq!(diagnostics.len(), 1);
    assert_eq!(diagnostics[0].code, "E3003");
    assert_eq!(diagnostics[0].primary, Some(span(0, 1)));
}

#[test]
fn let_arity_and_value_errors_are_deterministic() {
    let (nodes, diagnostics) = evaluate_with_diagnostics(vec![let_call(
        None,
        Some(vec![lambda_parameter("value", 20)]),
        Some(vec![var_ref("value")]),
    )]);
    assert!(nodes.is_empty());
    assert_eq!(diagnostics.len(), 1);
    assert_eq!(diagnostics[0].primary, Some(span(0, 10)));

    let call = IrNode::FunctionCall {
        name: "let".to_string(),
        positional_args: vec![number(1.0), number(2.0)],
        named_args: Vec::new(),
        lambda_parameters: Some(vec![lambda_parameter("value", 20)]),
        body: Some(vec![var_ref("value")]),
        span: span(0, 10),
    };
    let (nodes, diagnostics) = evaluate_with_diagnostics(vec![call]);
    assert!(nodes.is_empty());
    assert_eq!(diagnostics.len(), 1);

    let call = let_call(
        Some(number(1.0)),
        Some(vec![
            lambda_parameter("first", 20),
            lambda_parameter("second", 30),
        ]),
        Some(vec![var_ref("first")]),
    );
    let (nodes, diagnostics) = evaluate_with_diagnostics(vec![call]);
    assert!(nodes.is_empty());
    assert_eq!(diagnostics.len(), 1);
    assert_eq!(diagnostics[0].primary, Some(span(20, 26)));
}

#[test]
fn unknown_chain_callee_reports_a_segment_diagnostic() {
    let whole = span(0, 13);
    let (nodes, diagnostics) = evaluate_with_diagnostics(vec![IrNode::ChainedFunctionCall {
        head: IrCallSegment {
            name: "a".into(),
            name_span: span(0, 2),
            positional_args: vec![IrValue::Identifier("x".into())],
            named_args: Vec::new(),
            span: whole,
        },
        chain: vec![IrCallSegment {
            name: "b".into(),
            name_span: span(8, 9),
            positional_args: vec![IrValue::Identifier("y".into())],
            named_args: Vec::new(),
            span: span(8, 13),
        }],
        body: None,
        span: whole,
    }]);
    assert!(nodes.is_empty());
    assert_eq!(diagnostics.len(), 1);
    assert_eq!(diagnostics[0].code, "E3001");
    assert_eq!(diagnostics[0].primary, Some(span(0, 2)));
}

#[test]
fn unknown_middle_and_tail_segments_fail_at_their_names() {
    let cases = [
        (
            vec![
                chain_segment(
                    "uppercase",
                    0,
                    17,
                    vec![IrValue::Identifier("hello".into())],
                ),
                chain_segment("unknown", 19, 28, Vec::new()),
                chain_segment("lowercase", 30, 39, Vec::new()),
            ],
            span(19, 26),
        ),
        (
            vec![
                chain_segment(
                    "uppercase",
                    0,
                    17,
                    vec![IrValue::Identifier("hello".into())],
                ),
                chain_segment("lowercase", 19, 29, Vec::new()),
                chain_segment("unknown", 31, 40, Vec::new()),
            ],
            span(31, 38),
        ),
    ];

    for (segments, expected_span) in cases {
        let (nodes, diagnostics) = evaluate_with_diagnostics(vec![chain_node(
            segments[0].clone(),
            segments[1..].to_vec(),
        )]);
        assert!(nodes.is_empty());
        assert_eq!(diagnostics.len(), 1);
        assert_eq!(diagnostics[0].code, "E3001");
        assert_eq!(diagnostics[0].primary, Some(expected_span));
    }
}

#[test]
fn chain_arity_and_type_failures_are_deterministic() {
    let cases = [
        chain_node(
            chain_segment("uppercase", 0, 10, Vec::new()),
            vec![chain_segment("lowercase", 12, 21, Vec::new())],
        ),
        chain_node(
            chain_segment("sum", 0, 8, vec![IrValue::Boolean(true)]),
            vec![chain_segment(
                "multiply",
                10,
                19,
                vec![number(2.0)],
            )],
        ),
    ];
    for input in cases {
        let first = Harness::new().evaluate(&doc(vec![input.clone()]));
        let second = Harness::new().evaluate(&doc(vec![input]));
        assert!(first.0.nodes.is_empty());
        assert_eq!(first.1.len(), 1);
        assert_eq!(second.1.len(), 1);
        assert_eq!(first.1[0].code, "E3001");
        assert_eq!(first.1[0].message, second.1[0].message);
        assert_eq!(first.1[0].primary, second.1[0].primary);
    }
}

#[test]
fn chain_value_flow_is_left_to_right_and_injects_first() {
    let (nodes, diagnostics) = evaluate_with_diagnostics(vec![chain_node(
        chain_segment(
            "sum",
            0,
            12,
            vec![number(10.0), number(5.0)],
        ),
        vec![chain_segment(
            "multiply",
            14,
            27,
            vec![number(2.0)],
        )],
    )]);
    assert!(diagnostics.is_empty(), "{diagnostics:?}");
    assert_paragraph_text(&nodes, "30");
}

#[test]
fn chain_zero_argument_segments_compose_scalar_values() {
    let (nodes, diagnostics) = evaluate_with_diagnostics(vec![chain_node(
        chain_segment(
            "uppercase",
            0,
            17,
            vec![IrValue::Identifier("hello".into())],
        ),
        vec![
            chain_segment("uppercase", 19, 28, Vec::new()),
            chain_segment("lowercase", 30, 39, Vec::new()),
        ],
    )]);
    assert!(diagnostics.is_empty(), "{diagnostics:?}");
    assert_paragraph_text(&nodes, "hello");
}

#[test]
fn chain_preserves_explicit_positional_arguments_after_previous_value() {
    let (nodes, diagnostics) = evaluate_with_diagnostics(vec![chain_node(
        chain_segment(
            "sum",
            0,
            12,
            vec![number(10.0), number(5.0)],
        ),
        vec![chain_segment(
            "multiply",
            14,
            27,
            vec![number(2.0)],
        )],
    )]);
    assert!(diagnostics.is_empty(), "{diagnostics:?}");
    // multiply receives [sum(10, 5), 2], not [2, sum(10, 5)].
    assert_paragraph_text(&nodes, "30");
}

#[test]
fn chain_keeps_named_arguments_named_while_injecting_previous_value() {
    let mut segment = chain_segment("multiply", 14, 29, Vec::new());
    segment
        .named_args
        .push(named_arg("by", number(2.0)));
    let (nodes, diagnostics) = evaluate_with_diagnostics(vec![chain_node(
        chain_segment(
            "sum",
            0,
            12,
            vec![number(10.0), number(5.0)],
        ),
        vec![segment],
    )]);
    assert!(diagnostics.is_empty(), "{diagnostics:?}");
    assert_paragraph_text(&nodes, "30");
}

#[test]
fn final_chain_reassignment_is_a_legal_no_value_result() {
    let (nodes, diagnostics) = evaluate_with_diagnostics(vec![
        var_declaration("x", number(0.0)),
        chain_node(
            chain_segment(
                "sum",
                0,
                12,
                vec![number(1.0), number(2.0)],
            ),
            vec![chain_segment("x", 14, 15, Vec::new())],
        ),
        var_ref("x"),
    ]);
    assert!(diagnostics.is_empty(), "{diagnostics:?}");
    assert_paragraph_text(&nodes, "3");
}

#[test]
fn non_final_chain_reassignment_reports_no_value_and_stops() {
    let (nodes, diagnostics) = evaluate_with_diagnostics(vec![
        var_declaration("x", number(0.0)),
        chain_node(
            chain_segment(
                "sum",
                0,
                12,
                vec![number(1.0), number(2.0)],
            ),
            vec![
                chain_segment("x", 14, 15, Vec::new()),
                chain_segment("sum", 17, 25, vec![number(1.0)]),
            ],
        ),
        var_ref("x"),
    ]);
    assert_eq!(diagnostics.len(), 1, "{diagnostics:?}");
    assert_eq!(diagnostics[0].code, "E3001");
    assert_eq!(diagnostics[0].primary, Some(span(14, 15)));
    assert_paragraph_text(&nodes, "3");
}

#[test]
fn nested_no_value_argument_reports_e3001_without_invoking_outer_call() {
    let nested_reassignment = IrValue::Content(vec![IrNode::FunctionCall {
        name: "x".to_string(),
        positional_args: vec![number(3.0)],
        named_args: Vec::new(),
        lambda_parameters: None,
        body: None,
        span: span(7, 12),
    }]);
    let outer = IrNode::FunctionCall {
        name: "multiply".to_string(),
        positional_args: vec![nested_reassignment, number(2.0)],
        named_args: Vec::new(),
        lambda_parameters: None,
        body: None,
        span: span(0, 20),
    };
    let (nodes, diagnostics) = evaluate_with_diagnostics(vec![
        var_declaration("x", number(0.0)),
        outer,
        var_ref("x"),
    ]);
    assert_eq!(diagnostics.len(), 1, "{diagnostics:?}");
    assert_eq!(diagnostics[0].code, "E3001");
    assert_eq!(diagnostics[0].primary, Some(span(7, 12)));
    assert_paragraph_text(&nodes, "3");
}

#[test]
fn nested_no_value_named_argument_reports_e3001_without_invoking_outer_call() {
    let nested_reassignment = IrValue::Content(vec![IrNode::FunctionCall {
        name: "x".to_string(),
        positional_args: vec![number(3.0)],
        named_args: Vec::new(),
        lambda_parameters: None,
        body: None,
        span: span(9, 14),
    }]);
    let outer = IrNode::FunctionCall {
        name: "multiply".to_string(),
        positional_args: vec![number(2.0)],
        named_args: vec![named_arg("by", nested_reassignment)],
        lambda_parameters: None,
        body: None,
        span: span(0, 22),
    };
    let (nodes, diagnostics) = evaluate_with_diagnostics(vec![
        var_declaration("x", number(0.0)),
        outer,
        var_ref("x"),
    ]);
    assert_eq!(diagnostics.len(), 1, "{diagnostics:?}");
    assert_eq!(diagnostics[0].code, "E3001");
    assert_eq!(diagnostics[0].primary, Some(span(9, 14)));
    assert_paragraph_text(&nodes, "3");
}

#[test]
fn nested_function_declaration_reports_no_value_once_at_its_span() {
    let declaration_span = span(10, 24);
    let declaration = IrValue::Content(vec![IrNode::FunctionDeclaration {
        name: IrValue::Identifier("declared".to_string()),
        parameters: Vec::new(),
        body: vec![text_paragraph("body")],
        span: declaration_span,
    }]);
    let outer = IrNode::FunctionCall {
        name: "sum".to_string(),
        positional_args: vec![declaration, number(1.0)],
        named_args: Vec::new(),
        lambda_parameters: None,
        body: None,
        span: span(0, 30),
    };

    let (nodes, diagnostics) = evaluate_with_diagnostics(vec![outer]);
    assert!(nodes.is_empty());
    assert_eq!(diagnostics.len(), 1, "{diagnostics:?}");
    assert_eq!(diagnostics[0].code, "E3001");
    assert_eq!(diagnostics[0].primary, Some(declaration_span));
    assert!(diagnostics[0].message.contains("no value"));
}

#[test]
fn failed_nested_call_propagates_without_a_duplicate_no_value_error() {
    let invalid_sum = call_value("sum", vec![IrValue::Boolean(true)]);
    let outer = IrNode::FunctionCall {
        name: "multiply".to_string(),
        positional_args: vec![invalid_sum, number(2.0)],
        named_args: Vec::new(),
        lambda_parameters: None,
        body: None,
        span: span(0, 20),
    };
    let (nodes, diagnostics) = evaluate_with_diagnostics(vec![outer]);
    assert!(nodes.is_empty());
    assert_eq!(diagnostics.len(), 1, "{diagnostics:?}");
    assert_eq!(diagnostics[0].code, "E3001");
    assert!(diagnostics[0]
        .message
        .contains("requires numeric arguments"));
}

#[test]
fn malformed_nested_var_propagates_its_original_diagnostic_only() {
    let invalid_var = IrValue::Content(vec![IrNode::FunctionCall {
        name: "var".to_string(),
        positional_args: vec![
            IrValue::Identifier("bad name".to_string()),
            number(1.0),
        ],
        named_args: Vec::new(),
        lambda_parameters: None,
        body: None,
        span: span(7, 18),
    }]);
    let outer = IrNode::FunctionCall {
        name: "multiply".to_string(),
        positional_args: vec![invalid_var, number(2.0)],
        named_args: Vec::new(),
        lambda_parameters: None,
        body: None,
        span: span(0, 20),
    };
    let (nodes, diagnostics) = evaluate_with_diagnostics(vec![outer]);
    assert!(nodes.is_empty());
    assert_eq!(diagnostics.len(), 1, "{diagnostics:?}");
    assert_eq!(diagnostics[0].code, "E3002");
    assert_eq!(diagnostics[0].primary, Some(span(7, 18)));
}

#[test]
fn nested_call_and_chain_share_the_same_value_context() {
    let nested = IrNode::FunctionCall {
        name: "multiply".into(),
        positional_args: vec![
            call_value("sum", vec![number(10.0), number(5.0)]),
            number(2.0),
        ],
        named_args: Vec::new(),
        lambda_parameters: None,
        body: None,
        span: span(0, 1),
    };
    let chain = chain_node(
        chain_segment(
            "sum",
            0,
            12,
            vec![number(10.0), number(5.0)],
        ),
        vec![chain_segment(
            "multiply",
            14,
            27,
            vec![number(2.0)],
        )],
    );
    let (nested_nodes, nested_diagnostics) = Harness::new().evaluate(&doc(vec![nested]));
    let (chain_nodes, chain_diagnostics) = Harness::new().evaluate(&doc(vec![chain]));
    assert!(nested_diagnostics.is_empty(), "{nested_diagnostics:?}");
    assert!(chain_diagnostics.is_empty(), "{chain_diagnostics:?}");
    assert_paragraph_text(&nested_nodes.nodes, "30");
    assert_paragraph_text(&chain_nodes.nodes, "30");
}

#[test]
fn nested_and_chained_case_transforms_share_dynamic_scalar_adaptation() {
    let nested = IrNode::FunctionCall {
        name: "lowercase".into(),
        positional_args: vec![call_value(
            "uppercase",
            vec![IrValue::Identifier("hello".into())],
        )],
        named_args: Vec::new(),
        lambda_parameters: None,
        body: None,
        span: span(0, 1),
    };
    let chain = chain_node(
        chain_segment(
            "uppercase",
            0,
            17,
            vec![IrValue::Identifier("hello".into())],
        ),
        vec![chain_segment("lowercase", 19, 28, Vec::new())],
    );
    let (nested_nodes, nested_diagnostics) = Harness::new().evaluate(&doc(vec![nested]));
    let (chain_nodes, chain_diagnostics) = Harness::new().evaluate(&doc(vec![chain]));
    assert!(nested_diagnostics.is_empty(), "{nested_diagnostics:?}");
    assert!(chain_diagnostics.is_empty(), "{chain_diagnostics:?}");
    assert_paragraph_text(&nested_nodes.nodes, "hello");
    assert_paragraph_text(&chain_nodes.nodes, "hello");
}

#[test]
fn variable_values_remain_semantic_through_nested_and_chained_calls() {
    let nested = vec![
        var_declaration("myvar", IrValue::Boolean(true)),
        IrNode::FunctionCall {
            name: "uppercase".into(),
            positional_args: vec![call_value("myvar", Vec::new())],
            named_args: Vec::new(),
            lambda_parameters: None,
            body: None,
            span: span(0, 1),
        },
    ];
    let chained = vec![
        var_declaration("myvar", IrValue::Boolean(true)),
        chain_node(
            chain_segment("myvar", 0, 6, Vec::new()),
            vec![chain_segment("uppercase", 8, 18, Vec::new())],
        ),
    ];
    let (nested_nodes, nested_diagnostics) = Harness::new().evaluate(&doc(nested));
    let (chain_nodes, chain_diagnostics) = Harness::new().evaluate(&doc(chained));
    assert!(nested_diagnostics.is_empty(), "{nested_diagnostics:?}");
    assert!(chain_diagnostics.is_empty(), "{chain_diagnostics:?}");
    assert_paragraph_text(&nested_nodes.nodes, "TRUE");
    assert_paragraph_text(&chain_nodes.nodes, "TRUE");
}

#[test]
fn false_final_conditional_chain_does_not_evaluate_its_body() {
    let chain = vec![
        var_declaration("flag", IrValue::Boolean(false)),
        var_declaration("x", IrValue::Identifier("before".into())),
        chain_node_with_body(
            chain_segment("flag", 0, 5, Vec::new()),
            vec![chain_segment("if", 7, 10, Vec::new())],
            vec![var_reassignment("x", IrValue::Identifier("after".into()))],
        ),
        var_ref("x"),
    ];
    let ordinary = vec![
        var_declaration("flag", IrValue::Boolean(false)),
        var_declaration("x", IrValue::Identifier("before".into())),
        if_call(
            "if",
            IrValue::Boolean(false),
            vec![var_reassignment("x", IrValue::Identifier("after".into()))],
        ),
        var_ref("x"),
    ];
    let (chain_nodes, chain_diagnostics) = Harness::new().evaluate(&doc(chain));
    let (ordinary_nodes, ordinary_diagnostics) = Harness::new().evaluate(&doc(ordinary));
    assert!(chain_diagnostics.is_empty(), "{chain_diagnostics:?}");
    assert!(ordinary_diagnostics.is_empty(), "{ordinary_diagnostics:?}");
    assert_paragraph_text(&chain_nodes.nodes, "before");
    assert_paragraph_text(&ordinary_nodes.nodes, "before");
}

#[test]
fn false_final_inline_conditional_chain_does_not_evaluate_its_body() {
    let chain = vec![
        var_declaration("flag", IrValue::Boolean(false)),
        var_declaration("x", IrValue::Identifier("before".into())),
        IrNode::Paragraph {
            content: vec![
                IrInline::ChainedDirectiveCall {
                    head: chain_segment("flag", 0, 5, Vec::new()),
                    chain: vec![chain_segment("if", 7, 10, Vec::new())],
                    body: Some(vec![IrInline::DirectiveCall {
                        name: "x".into(),
                        positional_args: vec![IrValue::Identifier("after".into())],
                        named_args: Vec::new(),
                        body: None,
                        span: span(0, 1),
                    }]),
                    span: span(0, 10),
                },
                inline_var_ref("x"),
            ],
            span: span(0, 10),
        },
    ];
    let ordinary = vec![
        var_declaration("flag", IrValue::Boolean(false)),
        var_declaration("x", IrValue::Identifier("before".into())),
        IrNode::Paragraph {
            content: vec![
                inline_if_call(
                    "if",
                    IrValue::Boolean(false),
                    vec![IrInline::DirectiveCall {
                        name: "x".into(),
                        positional_args: vec![IrValue::Identifier("after".into())],
                        named_args: Vec::new(),
                        body: None,
                        span: span(0, 1),
                    }],
                ),
                inline_var_ref("x"),
            ],
            span: span(0, 10),
        },
    ];
    let (chain_nodes, chain_diagnostics) = Harness::new().evaluate(&doc(chain));
    let (ordinary_nodes, ordinary_diagnostics) = Harness::new().evaluate(&doc(ordinary));
    assert!(chain_diagnostics.is_empty(), "{chain_diagnostics:?}");
    assert!(ordinary_diagnostics.is_empty(), "{ordinary_diagnostics:?}");
    let text = |nodes: &IrDocument| match &nodes.nodes[0] {
        IrNode::Paragraph { content, .. } => content
            .iter()
            .filter_map(|inline| match inline {
                IrInline::Text { content, .. } => Some(content.as_str()),
                _ => None,
            })
            .collect::<String>(),
        _ => String::new(),
    };
    assert_eq!(text(&chain_nodes), "before");
    assert_eq!(text(&ordinary_nodes), "before");
}

#[test]
fn child_scope_inherits_parent_and_isolates_local_bindings() {
    let mut parent = EvaluationContext::new();
    parent.set_value("visible".into(), IrValue::String("parent".into()));
    set_function(&mut parent, "inherited", "value");

    let mut child = parent.child();
    assert_eq!(
        child.get("visible").map(VariableValue::to_value),
        Some(IrValue::String("parent".into()))
    );
    assert_eq!(
        child
            .get_function("inherited")
            .and_then(|binding| explicit(&binding.parameters))
            .map(|parameters| parameters
                .iter()
                .map(|p| p.name.as_str())
                .collect::<Vec<_>>()),
        Some(vec!["value"])
    );
    child.set_value("local".into(), IrValue::String("child".into()));
    set_function(&mut child, "future", "value");

    assert!(parent.get("local").is_none());
    assert_eq!(
        child.get("local").map(VariableValue::to_value),
        Some(IrValue::String("child".into()))
    );
    assert_eq!(
        child
            .get_function("future")
            .and_then(|binding| explicit(&binding.parameters))
            .map(|parameters| parameters
                .iter()
                .map(|p| p.name.as_str())
                .collect::<Vec<_>>()),
        Some(vec!["value"])
    );
    child.set_value("visible".into(), IrValue::String("shadowed".into()));
    set_function(&mut child, "inherited", "shadowed");
    assert_eq!(
        child.get("visible").map(VariableValue::to_value),
        Some(IrValue::String("shadowed".into()))
    );
    assert_eq!(
        parent.get("visible").map(VariableValue::to_value),
        Some(IrValue::String("parent".into()))
    );
    assert_eq!(
        child
            .get_function("inherited")
            .and_then(|binding| explicit(&binding.parameters))
            .map(|parameters| parameters
                .iter()
                .map(|p| p.name.as_str())
                .collect::<Vec<_>>()),
        Some(vec!["shadowed"])
    );
    assert_eq!(
        parent
            .get_function("inherited")
            .and_then(|binding| explicit(&binding.parameters))
            .map(|parameters| parameters
                .iter()
                .map(|p| p.name.as_str())
                .collect::<Vec<_>>()),
        Some(vec!["value"])
    );
}

#[test]
fn if_true_keeps_block_body() {
    let nodes = evaluate(vec![if_call(
        "if",
        IrValue::Boolean(true),
        vec![text_paragraph("kept")],
    )]);
    assert_eq!(nodes, vec![text_paragraph("kept")]);
}

#[test]
fn if_false_drops_block_body() {
    let nodes = evaluate(vec![if_call(
        "if",
        IrValue::Boolean(false),
        vec![text_paragraph("dropped")],
    )]);
    assert!(nodes.is_empty());
}

#[test]
fn ifnot_true_drops_and_ifnot_false_keeps() {
    let keep = evaluate(vec![if_call(
        "ifnot",
        IrValue::Boolean(false),
        vec![text_paragraph("kept")],
    )]);
    assert_eq!(keep, vec![text_paragraph("kept")]);

    let drop = evaluate(vec![if_call(
        "ifnot",
        IrValue::Boolean(true),
        vec![text_paragraph("dropped")],
    )]);
    assert!(drop.is_empty());
}

#[test]
fn boolean_identifiers_yes_no_true_false_case_insensitive() {
    for (literal, expected) in [
        ("yes", true),
        ("YES", true),
        ("true", true),
        ("True", true),
        ("no", false),
        ("No", false),
        ("false", false),
        ("FALSE", false),
    ] {
        let nodes = evaluate(vec![if_call(
            "if",
            IrValue::Identifier(literal.to_string()),
            vec![text_paragraph("content")],
        )]);
        if expected {
            assert_eq!(nodes, vec![text_paragraph("content")], "literal {literal}");
        } else {
            assert!(nodes.is_empty(), "literal {literal}");
        }
    }
}

#[test]
fn missing_condition_reports_e3001_and_drops() {
    let call = IrNode::FunctionCall {
        name: "if".to_string(),
        positional_args: Vec::new(),
        named_args: Vec::new(),
        lambda_parameters: None,
        body: Some(vec![text_paragraph("content")]),
        span: span(3, 6),
    };
    let (result, diagnostics) = Harness::new().evaluate(&doc(vec![call]));
    assert!(result.nodes.is_empty());
    assert_eq!(diagnostics.len(), 1);
    assert_eq!(diagnostics[0].code, "E3001");
    assert!(matches!(diagnostics[0].severity, Severity::Error));
    assert_eq!(diagnostics[0].primary, Some(span(3, 6)));
}

#[test]
fn unresolvable_condition_reports_diagnostic() {
    for condition in [
        number(3.0),
        IrValue::String("maybe".to_string()),
        IrValue::Identifier("unknown".to_string()),
        IrValue::Content(vec![text_paragraph("content")]),
    ] {
        let display = format!("{condition:?}");
        let (result, diagnostics) = Harness::new().evaluate(&doc(vec![if_call(
            "if",
            condition.clone(),
            vec![text_paragraph("body")],
        )]));
        assert!(result.nodes.is_empty(), "condition {display}");
        assert_eq!(diagnostics.len(), 1, "condition {display}");
        assert_eq!(diagnostics[0].code, "E3001");
    }
}

#[test]
fn nested_if_inside_block_body_is_evaluated() {
    let body = vec![
        text_paragraph("before"),
        if_call(
            "if",
            IrValue::Boolean(false),
            vec![text_paragraph("inner-dropped")],
        ),
        if_call(
            "if",
            IrValue::Boolean(true),
            vec![text_paragraph("inner-kept")],
        ),
    ];
    let nodes = evaluate(vec![if_call("if", IrValue::Boolean(true), body)]);
    assert_eq!(
        nodes,
        vec![text_paragraph("before"), text_paragraph("inner-kept"),]
    );
}

#[test]
fn content_value_second_argument_replaces_call() {
    let call = IrNode::FunctionCall {
        name: "if".to_string(),
        positional_args: vec![
            IrValue::Boolean(true),
            IrValue::Content(vec![text_paragraph("arg content")]),
        ],
        named_args: Vec::new(),
        lambda_parameters: None,
        body: None,
        span: span(0, 1),
    };
    let nodes = evaluate(vec![call]);
    assert_eq!(nodes, vec![text_paragraph("arg content")]);
}

#[test]
fn scalar_second_argument_becomes_text() {
    let call = IrNode::FunctionCall {
        name: "if".to_string(),
        positional_args: vec![
            IrValue::Boolean(true),
            IrValue::String("inline text".to_string()),
        ],
        named_args: Vec::new(),
        lambda_parameters: None,
        body: None,
        span: span(0, 1),
    };
    let nodes = evaluate(vec![call]);
    assert_eq!(
        nodes,
        vec![IrNode::Paragraph {
            content: vec![IrInline::Text {
                content: "inline text".to_string(),
                span: span(0, 1),
            }],
            span: span(0, 1),
        }]
    );
}

#[test]
fn block_body_takes_priority_over_positional_content() {
    let call = IrNode::FunctionCall {
        name: "if".to_string(),
        positional_args: vec![
            IrValue::Boolean(true),
            IrValue::Content(vec![text_paragraph("from arg")]),
        ],
        named_args: Vec::new(),
        lambda_parameters: None,
        body: Some(vec![text_paragraph("from body")]),
        span: span(0, 1),
    };
    let nodes = evaluate(vec![call]);
    assert_eq!(nodes, vec![text_paragraph("from body")]);
}

#[test]
fn inline_if_replaces_call_with_inline_body_or_content() {
    let paragraph = IrNode::Paragraph {
        content: vec![
            text_inline("before "),
            inline_if_call("if", IrValue::Boolean(true), vec![text_inline("kept")]),
            text_inline(" after"),
        ],
        span: span(0, 1),
    };
    let nodes = evaluate(vec![paragraph]);
    let IrNode::Paragraph { content, .. } = &nodes[0] else {
        panic!("expected paragraph");
    };
    let rendered: Vec<&str> = content
        .iter()
        .map(|i| match i {
            IrInline::Text { content, .. } => content.as_str(),
            other => panic!("unexpected inline {other:?}"),
        })
        .collect();
    assert_eq!(rendered, vec!["before ", "kept", " after"]);
}

#[test]
fn link_evaluates_content_inside_label() {
    let paragraph = IrNode::Paragraph {
        content: vec![IrInline::Link {
            content: vec![
                text_inline("before "),
                inline_if_call("if", IrValue::Boolean(true), vec![text_inline("kept")]),
                text_inline(" after"),
            ],
            destination: "https://example.com".to_string(),
            title: None,
            span: span(0, 1),
        }],
        span: span(0, 1),
    };
    let nodes = evaluate(vec![paragraph]);
    let IrNode::Paragraph { content, .. } = &nodes[0] else {
        panic!("expected paragraph");
    };
    assert_eq!(content.len(), 1);
    let IrInline::Link {
        content,
        destination,
        title: _title,
        span: link_span,
    } = &content[0]
    else {
        panic!("expected link");
    };
    assert_eq!(destination, "https://example.com");
    assert_eq!(*link_span, span(0, 1));
    assert_eq!(
        content,
        &vec![
            text_inline("before "),
            text_inline("kept"),
            text_inline(" after")
        ]
    );
}

#[test]
fn structures_recurse_through_evaluator_without_losing_semantics() {
    let document = doc(vec![
        IrNode::Blockquote {
            content: vec![if_call(
                "if",
                IrValue::Boolean(true),
                vec![text_paragraph("quoted")],
            )],
            span: span(0, 10),
        },
        IrNode::UnorderedList {
            items: vec![IrListItem {
                nodes: vec![if_call(
                    "if",
                    IrValue::Boolean(true),
                    vec![text_paragraph("task content")],
                )],
                task: Some(IrTaskStatus::Completed),
                span: span(10, 30),
            }],
            span: span(10, 30),
        },
        IrNode::Paragraph {
            content: vec![IrInline::Strikethrough {
                content: vec![inline_if_call(
                    "if",
                    IrValue::Boolean(true),
                    vec![text_inline("struck")],
                )],
                span: span(30, 40),
            }],
            span: span(30, 40),
        },
        IrNode::Table {
            header: IrTableRow {
                cells: vec![IrTableCell {
                    content: vec![text_inline("Header")],
                    alignment: IrTableAlignment::Center,
                    span: span(40, 46),
                }],
                span: span(40, 46),
            },
            rows: vec![IrTableRow {
                cells: vec![IrTableCell {
                    content: vec![inline_if_call(
                        "if",
                        IrValue::Boolean(true),
                        vec![text_inline("cell")],
                    )],
                    alignment: IrTableAlignment::Unaligned,
                    span: span(46, 50),
                }],
                span: span(46, 50),
            }],
            span: span(40, 50),
        },
    ]);

    let (evaluated, diagnostics) = Harness::new().evaluate(&document);
    assert!(
        diagnostics.is_empty(),
        "unexpected diagnostics: {diagnostics:?}"
    );

    let IrNode::Blockquote { content, .. } = &evaluated.nodes[0] else {
        panic!("expected blockquote")
    };
    assert_eq!(content, &vec![text_paragraph("quoted")]);

    let IrNode::UnorderedList { items, .. } = &evaluated.nodes[1] else {
        panic!("expected list")
    };
    assert_eq!(items[0].task, Some(IrTaskStatus::Completed));
    assert_eq!(items[0].nodes, vec![text_paragraph("task content")]);

    let IrNode::Paragraph { content, .. } = &evaluated.nodes[2] else {
        panic!("expected paragraph")
    };
    assert_eq!(
        content,
        &vec![IrInline::Strikethrough {
            content: vec![text_inline("struck")],
            span: span(30, 40),
        }]
    );

    let IrNode::Table { header, rows, .. } = &evaluated.nodes[3] else {
        panic!("expected table")
    };
    assert_eq!(header.cells[0].content, vec![text_inline("Header")]);
    assert_eq!(rows[0].cells[0].content, vec![text_inline("cell")]);
}

#[test]
fn inline_if_false_drops_call() {
    let paragraph = IrNode::Paragraph {
        content: vec![
            text_inline("before "),
            inline_if_call(
                "ifnot",
                IrValue::Boolean(true),
                vec![text_inline("dropped")],
            ),
            text_inline(" after"),
        ],
        span: span(0, 1),
    };
    let nodes = evaluate(vec![paragraph]);
    let IrNode::Paragraph { content, .. } = &nodes[0] else {
        panic!("expected paragraph");
    };
    assert_eq!(
        content,
        &vec![text_inline("before "), text_inline(" after")]
    );
}

#[test]
fn inline_call_scalar_second_argument_becomes_text() {
    let call = IrInline::DirectiveCall {
        name: "if".to_string(),
        positional_args: vec![IrValue::Boolean(true), IrValue::String("shown".to_string())],
        named_args: Vec::new(),
        body: None,
        span: span(0, 1),
    };
    let paragraph = IrNode::Paragraph {
        content: vec![text_inline("x "), call],
        span: span(0, 1),
    };
    let nodes = evaluate(vec![paragraph]);
    let IrNode::Paragraph { content, .. } = &nodes[0] else {
        panic!("expected paragraph");
    };
    assert_eq!(
        content,
        &vec![
            text_inline("x "),
            IrInline::Text {
                content: "shown".to_string(),
                span: span(0, 1),
            }
        ]
    );
}

#[test]
fn non_conditional_calls_are_preserved_with_evaluated_bodies() {
    let call = IrNode::FunctionCall {
        name: "foo".to_string(),
        positional_args: Vec::new(),
        named_args: Vec::new(),
        lambda_parameters: None,
        body: Some(vec![if_call(
            "if",
            IrValue::Boolean(false),
            vec![text_paragraph("dropped")],
        )]),
        span: span(0, 1),
    };
    let nodes = evaluate(vec![call]);
    let IrNode::FunctionCall { name, body, .. } = &nodes[0] else {
        panic!("expected function call");
    };
    assert_eq!(name, "foo");
    assert!(body.as_ref().unwrap().is_empty());
}

#[test]
fn evaluation_is_immutable_and_deterministic() {
    let call = if_call("if", IrValue::Boolean(true), vec![text_paragraph("kept")]);
    let input = doc(vec![call.clone()]);
    let first = Harness::new().evaluate(&input);
    assert_eq!(input.nodes, vec![call]);
    let second = Harness::new().evaluate(&input);
    assert_eq!(first.0, second.0);
    assert!(first.1.is_empty() && second.1.is_empty());
}

#[test]
fn named_condition_argument_works() {
    let call = IrNode::FunctionCall {
        name: "if".to_string(),
        positional_args: Vec::new(),
        named_args: vec![named_arg("condition", IrValue::Boolean(true))],
        lambda_parameters: None,
        body: Some(vec![text_paragraph("kept")]),
        span: span(0, 1),
    };
    let nodes = evaluate(vec![call]);
    assert_eq!(nodes, vec![text_paragraph("kept")]);
}

#[test]
fn named_condition_false_drops_body() {
    let call = IrNode::FunctionCall {
        name: "if".to_string(),
        positional_args: Vec::new(),
        named_args: vec![named_arg("condition", IrValue::Boolean(false))],
        lambda_parameters: None,
        body: Some(vec![text_paragraph("dropped")]),
        span: span(0, 1),
    };
    let nodes = evaluate(vec![call]);
    assert!(nodes.is_empty());
}

#[test]
fn named_condition_ifnot_inverts() {
    let call = IrNode::FunctionCall {
        name: "ifnot".to_string(),
        positional_args: Vec::new(),
        named_args: vec![named_arg("condition", IrValue::Boolean(false))],
        lambda_parameters: None,
        body: Some(vec![text_paragraph("kept")]),
        span: span(0, 1),
    };
    let nodes = evaluate(vec![call]);
    assert_eq!(nodes, vec![text_paragraph("kept")]);
}

#[test]
fn named_condition_identifier_yes_no() {
    for (ident, expected) in [("yes", true), ("YES", true), ("no", false), ("No", false)] {
        let call = IrNode::FunctionCall {
            name: "if".to_string(),
            positional_args: Vec::new(),
            named_args: vec![named_arg(
                "condition",
                IrValue::Identifier(ident.to_string()),
            )],
            lambda_parameters: None,
            body: Some(vec![text_paragraph("content")]),
            span: span(0, 1),
        };
        let nodes = evaluate(vec![call]);
        if expected {
            assert_eq!(nodes, vec![text_paragraph("content")], "ident {ident}");
        } else {
            assert!(nodes.is_empty(), "ident {ident}");
        }
    }
}

#[test]
fn named_body_argument_works() {
    let call = IrNode::FunctionCall {
        name: "if".to_string(),
        positional_args: vec![IrValue::Boolean(true)],
        named_args: vec![named_arg(
            "body",
            IrValue::Content(vec![text_paragraph("from named body")]),
        )],
        lambda_parameters: None,
        body: None,
        span: span(0, 1),
    };
    let nodes = evaluate(vec![call]);
    assert_eq!(nodes, vec![text_paragraph("from named body")]);
}

#[test]
fn named_body_scalar_argument_works() {
    let call = IrNode::FunctionCall {
        name: "if".to_string(),
        positional_args: vec![IrValue::Boolean(true)],
        named_args: vec![named_arg(
            "body",
            IrValue::String("scalar body".to_string()),
        )],
        lambda_parameters: None,
        body: None,
        span: span(0, 1),
    };
    let nodes = evaluate(vec![call]);
    assert_eq!(
        nodes,
        vec![IrNode::Paragraph {
            content: vec![IrInline::Text {
                content: "scalar body".to_string(),
                span: span(0, 1),
            }],
            span: span(0, 1),
        }]
    );
}

#[test]
fn block_body_priority_over_named_body() {
    let call = IrNode::FunctionCall {
        name: "if".to_string(),
        positional_args: vec![IrValue::Boolean(true)],
        named_args: vec![named_arg(
            "body",
            IrValue::Content(vec![text_paragraph("from named body")]),
        )],
        lambda_parameters: None,
        body: Some(vec![text_paragraph("from indented body")]),
        span: span(0, 1),
    };
    let nodes = evaluate(vec![call]);
    assert_eq!(nodes, vec![text_paragraph("from indented body")]);
}

#[test]
fn inline_named_condition_works() {
    let paragraph = IrNode::Paragraph {
        content: vec![
            text_inline("before "),
            IrInline::DirectiveCall {
                name: "if".to_string(),
                positional_args: Vec::new(),
                named_args: vec![named_arg("condition", IrValue::Boolean(true))],
                body: Some(vec![text_inline("kept")]),
                span: span(0, 1),
            },
            text_inline(" after"),
        ],
        span: span(0, 1),
    };
    let nodes = evaluate(vec![paragraph]);
    let IrNode::Paragraph { content, .. } = &nodes[0] else {
        panic!()
    };
    let rendered: Vec<&str> = content
        .iter()
        .map(|i| match i {
            IrInline::Text { content, .. } => content.as_str(),
            _ => panic!(),
        })
        .collect();
    assert_eq!(rendered, vec!["before ", "kept", " after"]);
}

#[test]
fn inline_named_body_works() {
    let call = IrInline::DirectiveCall {
        name: "if".to_string(),
        positional_args: vec![IrValue::Boolean(true)],
        named_args: vec![named_arg(
            "body",
            IrValue::String("inline shown".to_string()),
        )],
        body: None,
        span: span(0, 1),
    };
    let paragraph = IrNode::Paragraph {
        content: vec![text_inline("x "), call],
        span: span(0, 1),
    };
    let nodes = evaluate(vec![paragraph]);
    let IrNode::Paragraph { content, .. } = &nodes[0] else {
        panic!()
    };
    assert_eq!(
        content,
        &vec![
            text_inline("x "),
            IrInline::Text {
                content: "inline shown".to_string(),
                span: span(0, 1),
            }
        ]
    );
}

#[test]
fn named_condition_unresolvable_reports_e3001() {
    let call = IrNode::FunctionCall {
        name: "if".to_string(),
        positional_args: Vec::new(),
        named_args: vec![named_arg("condition", number(3.0))],
        lambda_parameters: None,
        body: Some(vec![text_paragraph("body")]),
        span: span(3, 6),
    };
    let (result, diagnostics) = Harness::new().evaluate(&doc(vec![call]));
    assert!(result.nodes.is_empty());
    assert_eq!(diagnostics.len(), 1);
    assert_eq!(diagnostics[0].code, "E3001");
}

// =========================================================================
// Variable evaluation tests (M2)
// =========================================================================

fn var_declaration(name: &str, value: IrValue) -> IrNode {
    IrNode::FunctionCall {
        name: "var".to_string(),
        positional_args: vec![IrValue::Identifier(name.to_string()), value],
        named_args: Vec::new(),
        lambda_parameters: None,
        body: None,
        span: span(0, 1),
    }
}

fn var_declaration_with_body(name: &str, body_nodes: Vec<IrNode>) -> IrNode {
    IrNode::FunctionCall {
        name: "var".to_string(),
        positional_args: vec![IrValue::Identifier(name.to_string())],
        named_args: Vec::new(),
        lambda_parameters: None,
        body: Some(body_nodes),
        span: span(0, 1),
    }
}

fn var_ref(name: &str) -> IrNode {
    IrNode::FunctionCall {
        name: name.to_string(),
        positional_args: Vec::new(),
        named_args: Vec::new(),
        lambda_parameters: None,
        body: None,
        span: span(0, 1),
    }
}

fn var_reassignment(name: &str, value: IrValue) -> IrNode {
    IrNode::FunctionCall {
        name: name.to_string(),
        positional_args: vec![value],
        named_args: Vec::new(),
        lambda_parameters: None,
        body: None,
        span: span(0, 1),
    }
}

fn inline_var_ref(name: &str) -> IrInline {
    IrInline::DirectiveCall {
        name: name.to_string(),
        positional_args: Vec::new(),
        named_args: Vec::new(),
        body: None,
        span: span(0, 1),
    }
}

fn evaluate_with_diagnostics(nodes: Vec<IrNode>) -> (Vec<IrNode>, Vec<Diagnostic>) {
    let (result, diagnostics) = Harness::new().evaluate(&doc(nodes));
    (result.nodes, diagnostics)
}

#[test]
fn var_scalar_definition_and_reference() {
    let nodes = evaluate(vec![
        var_declaration("name", IrValue::String("Scribium".to_string())),
        var_ref("name"),
    ]);
    assert_eq!(nodes.len(), 1);
    let IrNode::Paragraph { content, .. } = &nodes[0] else {
        panic!()
    };
    let IrInline::Text { content: text, .. } = &content[0] else {
        panic!()
    };
    assert_eq!(text, "Scribium");
}

#[test]
fn var_boolean_reference_in_conditional() {
    let (nodes, diagnostics) = evaluate_with_diagnostics(vec![
        var_declaration("enabled", IrValue::Identifier("yes".to_string())),
        IrNode::FunctionCall {
            name: "if".to_string(),
            positional_args: vec![IrValue::Identifier("enabled".to_string())],
            named_args: Vec::new(),
            lambda_parameters: None,
            body: Some(vec![text_paragraph("visible")]),
            span: span(0, 1),
        },
    ]);
    assert!(diagnostics.is_empty());
    assert_eq!(nodes.len(), 1);
    let IrNode::Paragraph { content, .. } = &nodes[0] else {
        panic!()
    };
    let IrInline::Text { content: text, .. } = &content[0] else {
        panic!()
    };
    assert_eq!(text, "visible");
}

#[test]
fn var_false_boolean_drops_conditional() {
    let nodes = evaluate(vec![
        var_declaration("enabled", IrValue::Identifier("no".to_string())),
        IrNode::FunctionCall {
            name: "if".to_string(),
            positional_args: vec![IrValue::Identifier("enabled".to_string())],
            named_args: Vec::new(),
            lambda_parameters: None,
            body: Some(vec![text_paragraph("hidden")]),
            span: span(0, 1),
        },
    ]);
    assert!(nodes.is_empty());
}

#[test]
fn var_ifnot_with_variable() {
    let nodes = evaluate(vec![
        var_declaration("enabled", IrValue::Identifier("no".to_string())),
        IrNode::FunctionCall {
            name: "ifnot".to_string(),
            positional_args: vec![IrValue::Identifier("enabled".to_string())],
            named_args: Vec::new(),
            lambda_parameters: None,
            body: Some(vec![text_paragraph("visible")]),
            span: span(0, 1),
        },
    ]);
    assert_eq!(nodes.len(), 1);
    let IrNode::Paragraph { content, .. } = &nodes[0] else {
        panic!()
    };
    let IrInline::Text { content: text, .. } = &content[0] else {
        panic!()
    };
    assert_eq!(text, "visible");
}

#[test]
fn var_explicit_reassignment() {
    let nodes = evaluate(vec![
        var_declaration("name", IrValue::String("A".to_string())),
        var_declaration("name", IrValue::String("B".to_string())),
        var_ref("name"),
    ]);
    assert_eq!(nodes.len(), 1);
    let IrNode::Paragraph { content, .. } = &nodes[0] else {
        panic!()
    };
    let IrInline::Text { content: text, .. } = &content[0] else {
        panic!()
    };
    assert_eq!(text, "B");
}

#[test]
fn var_variable_name_reassignment() {
    let (nodes, diagnostics) = evaluate_with_diagnostics(vec![
        var_declaration("name", IrValue::String("A".to_string())),
        var_ref("name"),
        var_reassignment("name", IrValue::String("B".to_string())),
        var_ref("name"),
    ]);
    assert!(diagnostics.is_empty());
    assert_eq!(nodes.len(), 2);
    let IrNode::Paragraph { content, .. } = &nodes[0] else {
        panic!()
    };
    let IrInline::Text { content: text, .. } = &content[0] else {
        panic!()
    };
    assert_eq!(text, "A");
    let IrNode::Paragraph { content, .. } = &nodes[1] else {
        panic!()
    };
    let IrInline::Text { content: text, .. } = &content[0] else {
        panic!()
    };
    assert_eq!(text, "B");
}

#[test]
fn var_reassignment_produces_no_output() {
    let nodes = evaluate(vec![
        var_declaration("name", IrValue::String("A".to_string())),
        var_reassignment("name", IrValue::String("B".to_string())),
    ]);
    assert!(nodes.is_empty());
}

#[test]
fn var_inline_use() {
    let paragraph = IrNode::Paragraph {
        content: vec![
            text_inline("Hello "),
            inline_var_ref("name"),
            text_inline("!"),
        ],
        span: span(0, 1),
    };
    let nodes = evaluate(vec![
        var_declaration("name", IrValue::String("world".to_string())),
        paragraph,
    ]);
    let IrNode::Paragraph { content, .. } = &nodes[0] else {
        panic!()
    };
    let rendered: Vec<&str> = content
        .iter()
        .map(|i| match i {
            IrInline::Text { content, .. } => content.as_str(),
            _ => panic!(),
        })
        .collect();
    assert_eq!(rendered, vec!["Hello ", "world", "!"]);
}

#[test]
fn var_block_variable() {
    let body = vec![
        IrNode::Heading {
            level: 1,
            content: vec![text_inline("Title")],
            span: span(0, 1),
        },
        text_paragraph("body"),
    ];
    let nodes = evaluate(vec![
        var_declaration_with_body("section", body),
        var_ref("section"),
    ]);
    assert_eq!(nodes.len(), 2);
    let IrNode::Heading { content, .. } = &nodes[0] else {
        panic!()
    };
    let IrInline::Text { content: text, .. } = &content[0] else {
        panic!()
    };
    assert_eq!(text, "Title");
    let IrNode::Paragraph { content, .. } = &nodes[1] else {
        panic!()
    };
    let IrInline::Text { content: text, .. } = &content[0] else {
        panic!()
    };
    assert_eq!(text, "body");
}

#[test]
fn var_conditional_declaration_execution_order() {
    let (nodes, diagnostics) = evaluate_with_diagnostics(vec![
        IrNode::FunctionCall {
            name: "if".to_string(),
            positional_args: vec![IrValue::Boolean(false)],
            named_args: Vec::new(),
            lambda_parameters: None,
            body: Some(vec![var_declaration(
                "x",
                IrValue::String("hidden".to_string()),
            )]),
            span: span(0, 1),
        },
        var_ref("x"),
    ]);
    assert!(diagnostics.is_empty());
    // x should not be declared, so var_ref("x") is preserved as function call
    assert_eq!(nodes.len(), 1);
    let IrNode::FunctionCall { name, .. } = &nodes[0] else {
        panic!()
    };
    assert_eq!(name, "x");
}

#[test]
fn var_unknown_call_preserved() {
    let nodes = evaluate(vec![var_ref("unknown")]);
    assert_eq!(nodes.len(), 1);
    let IrNode::FunctionCall { name, .. } = &nodes[0] else {
        panic!()
    };
    assert_eq!(name, "unknown");
}

#[test]
fn var_malformed_declaration_reports_e3002() {
    let call = IrNode::FunctionCall {
        name: "var".to_string(),
        positional_args: Vec::new(),
        named_args: Vec::new(),
        lambda_parameters: None,
        body: None,
        span: span(3, 6),
    };
    let (result, diagnostics) = Harness::new().evaluate(&doc(vec![call]));
    assert!(result.nodes.is_empty());
    assert_eq!(diagnostics.len(), 1);
    assert_eq!(diagnostics[0].code, "E3002");
    assert!(matches!(diagnostics[0].severity, Severity::Error));
    assert_eq!(diagnostics[0].primary, Some(span(3, 6)));
}

#[test]
fn var_nested_evaluation_in_block_variable() {
    let body = vec![IrNode::FunctionCall {
        name: "if".to_string(),
        positional_args: vec![IrValue::Boolean(true)],
        named_args: Vec::new(),
        lambda_parameters: None,
        body: Some(vec![text_paragraph("nested visible")]),
        span: span(0, 1),
    }];
    let nodes = evaluate(vec![
        var_declaration_with_body("section", body),
        var_ref("section"),
    ]);
    assert_eq!(nodes.len(), 1);
    let IrNode::Paragraph { content, .. } = &nodes[0] else {
        panic!()
    };
    let IrInline::Text { content: text, .. } = &content[0] else {
        panic!()
    };
    assert_eq!(text, "nested visible");
}

#[test]
fn var_evaluation_immutable_and_deterministic() {
    let input = doc(vec![
        var_declaration("name", IrValue::String("A".to_string())),
        var_ref("name"),
    ]);
    let first = Harness::new().evaluate(&input);
    assert_eq!(input.nodes.len(), 2);
    let second = Harness::new().evaluate(&input);
    assert_eq!(first.0, second.0);
    assert!(first.1.is_empty() && second.1.is_empty());
}

#[test]
fn var_content_value_block_reference() {
    // .var {x} {**hello**} should preserve the strong content
    let strong_hello = IrNode::Paragraph {
        content: vec![IrInline::Strong {
            content: vec![IrInline::Text {
                content: "hello".to_string(),
                span: span(0, 5),
            }],
            span: span(0, 5),
        }],
        span: span(0, 11),
    };
    let nodes = evaluate(vec![
        var_declaration("x", IrValue::Content(vec![strong_hello.clone()])),
        var_ref("x"),
    ]);
    assert_eq!(nodes.len(), 1);
    let IrNode::Paragraph { content, .. } = &nodes[0] else {
        panic!()
    };
    let IrInline::Strong {
        content: strong_content,
        ..
    } = &content[0]
    else {
        panic!()
    };
    let IrInline::Text { content: text, .. } = &strong_content[0] else {
        panic!()
    };
    assert_eq!(text, "hello");
}

#[test]
fn var_content_value_inline_reference() {
    // .var {x} {**world**} / Hello .x should preserve strong in inline context
    let strong_world = IrInline::Strong {
        content: vec![IrInline::Text {
            content: "world".to_string(),
            span: span(0, 5),
        }],
        span: span(0, 5),
    };
    let paragraph = IrNode::Paragraph {
        content: vec![
            IrInline::Text {
                content: "Hello ".to_string(),
                span: span(0, 6),
            },
            inline_var_ref("x"),
        ],
        span: span(0, 1),
    };
    let nodes = evaluate(vec![
        var_declaration(
            "x",
            IrValue::Content(vec![IrNode::Paragraph {
                content: vec![strong_world.clone()],
                span: span(0, 1),
            }]),
        ),
        paragraph,
    ]);
    let IrNode::Paragraph { content, .. } = &nodes[0] else {
        panic!()
    };
    assert_eq!(content.len(), 2);
    let IrInline::Text { content: text, .. } = &content[0] else {
        panic!()
    };
    assert_eq!(text, "Hello ");
    let IrInline::Strong {
        content: strong_content,
        ..
    } = &content[1]
    else {
        panic!()
    };
    let IrInline::Text { content: text, .. } = &strong_content[0] else {
        panic!()
    };
    assert_eq!(text, "world");
}

#[test]
fn var_reference_with_body_is_not_variable_reference() {
    // .var {foo} {value} / .foo { body } should preserve the call with body
    let body = vec![text_paragraph("body")];
    let nodes = evaluate(vec![
        var_declaration("foo", IrValue::String("value".to_string())),
        IrNode::FunctionCall {
            name: "foo".to_string(),
            positional_args: Vec::new(),
            named_args: Vec::new(),
            lambda_parameters: None,
            body: Some(body),
            span: span(0, 1),
        },
    ]);
    // Should be preserved as function call, not variable reference
    assert_eq!(nodes.len(), 1);
    let IrNode::FunctionCall {
        name,
        body: call_body,
        ..
    } = &nodes[0]
    else {
        panic!()
    };
    assert_eq!(name, "foo");
    assert!(call_body.is_some());
    assert_eq!(call_body.as_ref().unwrap().len(), 1);
}

#[test]
fn var_invalid_name_reports_e3002() {
    // .var {"bad name"} {hello} should report E3002
    let call = IrNode::FunctionCall {
        name: "var".to_string(),
        positional_args: vec![
            IrValue::String("bad name".to_string()),
            IrValue::String("hello".to_string()),
        ],
        named_args: Vec::new(),
        lambda_parameters: None,
        body: None,
        span: span(0, 25),
    };
    let (result, diagnostics) = Harness::new().evaluate(&doc(vec![call]));
    assert!(result.nodes.is_empty());
    assert_eq!(diagnostics.len(), 1);
    assert_eq!(diagnostics[0].code, "E3002");
    assert!(matches!(diagnostics[0].severity, Severity::Error));
    assert!(diagnostics[0].message.contains("Invalid variable name"));
}

#[test]
fn var_empty_name_reports_e3002() {
    // .var {""} {hello} should report E3002
    let call = IrNode::FunctionCall {
        name: "var".to_string(),
        positional_args: vec![
            IrValue::String("".to_string()),
            IrValue::String("hello".to_string()),
        ],
        named_args: Vec::new(),
        lambda_parameters: None,
        body: None,
        span: span(0, 17),
    };
    let (result, diagnostics) = Harness::new().evaluate(&doc(vec![call]));
    assert!(result.nodes.is_empty());
    assert_eq!(diagnostics.len(), 1);
    assert_eq!(diagnostics[0].code, "E3002");
    assert!(diagnostics[0].message.contains("Invalid variable name"));
}

#[test]
fn caller_overlay_failure_does_not_mutate_capture_or_caller_context() {
    let capture = IrCallableCapture {
        variables: vec![IrCapturedVariable {
            name: "value".to_string(),
            value: IrValue::String("definition".to_string()),
        }],
        functions: Vec::new(),
    };
    let callable = IrCallable {
        parameters: None,
        body: vec![IrNode::FunctionCall {
            name: "multiply".to_string(),
            positional_args: vec![IrValue::Boolean(true), number(2.0)],
            named_args: Vec::new(),
            lambda_parameters: None,
            body: None,
            span: span(10, 20),
        }],
        span: span(0, 20),
        capture: Some(Box::new(capture)),
    };
    let original_capture = callable.capture.clone();
    let mut caller_context = EvaluationContext::new();
    caller_context.set_value("value".to_string(), IrValue::String("caller".to_string()));
    let mut diagnostics = Vec::new();

    let outcome = Harness::new().invoke_callable(
        &callable,
        Vec::new(),
        false,
        &span(0, 20),
        &mut diagnostics,
        &caller_context,
    );

    assert!(matches!(outcome, CallOutcome::Failed));
    assert_eq!(diagnostics.len(), 1, "{diagnostics:?}");
    assert_eq!(callable.capture, original_capture);
    assert_eq!(
        caller_context.get("value").map(VariableValue::to_value),
        Some(IrValue::String("caller".to_string()))
    );
}
#[test]
fn an_inner_lambda_does_not_read_the_arguments_of_an_outer_one() {
    let evaluator = Harness::new();
    let inner = let_call(
        Some(IrValue::String("c".to_string())),
        None,
        Some(vec![var_ref("2")]),
    );
    let outer = IrCallable {
        parameters: None,
        body: vec![inner],
        span: span(50, 60),
        capture: None,
    };
    let mut diagnostics = Vec::new();
    let outcome = evaluator.invoke_callable(
        &outer,
        vec![
            IrValue::String("a".to_string()),
            IrValue::String("b".to_string()),
        ],
        false,
        &span(0, 40),
        &mut diagnostics,
        &EvaluationContext::new(),
    );
    assert!(matches!(outcome, CallOutcome::Failed));
    assert_eq!(diagnostics.len(), 1, "{diagnostics:?}");
    assert_eq!(diagnostics[0].code, "E3003");
}

#[test]
fn predicates_may_give_the_words_for_truth_values() {
    let evaluator = Harness::new();
    let identifier = |name: &str| IrValue::Identifier(name.to_string());
    let mut diagnostics = Vec::new();
    let mut context = EvaluationContext::new();
    let filtered = evaluator.evaluate_call_value(
        "filter",
        &[IrValue::Collection(vec![
            identifier("YES"),
            identifier("no"),
            IrValue::Boolean(true),
            identifier("False"),
            identifier("true"),
        ])],
        &[named_arg("by", transform_callable(None, vec![var_ref("1")]))],
        None,
        None,
        &span(0, 40),
        &mut diagnostics,
        &mut context,
    );
    assert_eq!(diagnostics, vec![]);
    assert_eq!(
        filtered,
        CallOutcome::Value(IrValue::Collection(vec![
            identifier("YES"),
            IrValue::Boolean(true),
            identifier("true"),
        ]))
    );
    for (word, expected) in [
        ("Yes", Some(identifier("Yes"))),
        ("NO", Some(IrValue::Nothing)),
        ("maybe", None),
    ] {
        let taken = evaluator.evaluate_call_value(
            "takeif",
            &[
                identifier(word),
                transform_callable(None, vec![var_ref("1")]),
            ],
            &[],
            None,
            None,
            &span(0, 40),
            &mut diagnostics,
            &mut context,
        );
        match expected {
            Some(value) => assert_eq!(taken, CallOutcome::Value(value)),
            None => assert_eq!(taken, CallOutcome::Failed),
        }
    }
    assert_eq!(diagnostics.len(), 1, "{diagnostics:?}");
    assert_eq!(
        diagnostics[0].message,
        "`.takeif` condition must return Boolean"
    );
}

#[test]
fn accesses_by_place_are_accesses_by_index() {
    let evaluator = Harness::new();
    let value = |outcome: CallOutcome| match outcome {
        CallOutcome::Value(value) => value,
        other => panic!("expected a value, got {other:?}"),
    };
    for texts in [vec![], vec!["a"], vec!["a", "b"], vec!["a", "b", "c", "d"]] {
        let elements: Vec<IrValue> = texts
            .iter()
            .map(|text| IrValue::String(text.to_string()))
            .collect();
        let mut diagnostics = Vec::new();
        let mut context = EvaluationContext::new();
        let mut access = |name: &str, arguments: &[IrValue]| {
            value(collection_call(
                &evaluator,
                name,
                arguments,
                &[],
                &span(0, 40),
                &mut diagnostics,
                &mut context,
            ))
        };
        let x = IrValue::Collection(elements.clone());
        let size = access("size", &[x.clone()]);
        assert_eq!(size, IrValue::Number(bits(elements.len() as f64)));
        for (name, index) in [("first", 1.0), ("second", 2.0), ("third", 3.0)] {
            let at = access("getat", &[x.clone(), IrValue::Number(bits(index))]);
            assert_eq!(access(name, &[x.clone()]), at);
        }
        let at_size = access("getat", &[x.clone(), size.clone()]);
        assert_eq!(access("last", &[x.clone()]), at_size);
        let reversed = access("reversed", &[x.clone()]);
        assert_eq!(access("size", &[reversed.clone()]), size);
        assert_eq!(access("reversed", &[reversed]), x);
        if elements.is_empty() {
            for name in ["first", "second", "third", "last"] {
                assert_eq!(access(name, &[x.clone()]), IrValue::Nothing);
            }
        }
        assert_eq!(diagnostics, vec![]);
    }
}

#[test]
fn builtins_are_asked_for_the_names_they_know() {
    let harness = Harness::new();
    let positional = vec![IrValue::Collection(vec![number(2.0), number(1.0)])];
    let callback = vec![
        positional[0].clone(),
        transform_callable(None, vec![var_ref("1")]),
    ];
    let by = vec![named_arg("by", transform_callable(None, vec![var_ref("1")]))];
    let named = vec![];
    let body = vec![text_paragraph("child")];
    let call = |name: &'static str| Call {
        name,
        positional: &positional,
        named: &named,
        lambda: None,
        body: None,
        span: span(0, 40),
        first_origin: None,
    };
    let frames = harness.frames();

    let mut diagnostics = Vec::new();
    let sorted = drive(&mut diagnostics, |session| {
        harness.evaluator.evaluate_collection_transform(
            &call("sorted"),
            frames,
            session,
            &mut EvaluationContext::new(),
        )
    });
    assert_eq!(
        sorted,
        CallOutcome::Value(IrValue::Collection(vec![number(1.0), number(2.0)]))
    );
    for (arguments, named_arguments, message) in [
        (&positional, &named, "`.zzz` requires a callback lambda"),
        (&callback, &named, "Unsupported collection transform `.zzz`"),
        (&positional, &by, "Unknown named argument `by` for `.zzz`"),
    ] {
        let unknown = drive(&mut diagnostics, |session| {
            harness.evaluator.evaluate_collection_transform(
                &Call {
                    positional: arguments,
                    named: named_arguments,
                    ..call("zzz")
                },
                frames,
                session,
                &mut EvaluationContext::new(),
            )
        });
        assert_eq!(unknown, CallOutcome::Failed);
        assert_eq!(diagnostics.len(), 1, "{diagnostics:?}");
        assert_eq!(diagnostics[0].message, message);
        diagnostics.clear();
    }

    let stacked = drive(&mut diagnostics, |session| {
        harness.evaluator.evaluate_stacked_layout(
            &Call {
                body: Some(scribium_engine::evaluator::CallBody::Block(&body)),
                ..call("zzz")
            },
            frames,
            session,
            &mut EvaluationContext::new(),
        )
    });
    assert_eq!(stacked, CallOutcome::Unresolved);
    let resource = drive(&mut diagnostics, |session| {
        harness.evaluator.evaluate_resource_builtin(
            &call("zzz"),
            frames,
            session,
            &mut EvaluationContext::new(),
        )
    });
    assert_eq!(resource, CallOutcome::Failed);
    assert_eq!(diagnostics, vec![]);
}
