//! What the evaluator asks of its host, and the session that holds the answers.
//!
//! Scalar builtins, value conversions, number formatting, resources and the
//! parser belong to the host. The evaluator never calls them: it works through a
//! log of replies, the first of which answers the first question, and stops at
//! the first question that the log does not answer.

use vstd::prelude::*;

use crate::diagnostic;
use crate::diagnostic::{copy_diagnostics, report_error, Diagnostic, DiagnosticView, Fault};
use crate::ir;
use crate::ir::{
    IrColor, IrEnumValue, IrNamedArg, IrNode, IrRange, IrSize, IrValue, NamedArgView, NodeView,
    SourceId, SourceSpan, ValueView,
};
use crate::ir_copy::{copy_named_arg, copy_nodes, copy_value};
use crate::metadata;
use crate::metadata::{DefaultsView, DocumentMetadataDefaults, DocumentStateView, IrDocumentState};
use crate::number::Number;
use crate::outcome::{CallOutcome, OutcomeView};

verus! {

broadcast use diagnostic::group_diagnostic_views;

/// Whether a value was written down as it is or came from a name.
#[derive(Debug, Clone, Copy, PartialEq, Eq, Structural)]
pub enum ValueOrigin {
    Static,
    Dynamic,
}

/// What a scalar conversion aims at.
#[derive(Debug, Clone, Copy, PartialEq, Eq, Structural)]
pub enum ScalarTarget {
    Boolean,
    Number,
}

/// A closed enumeration that a domain conversion aims at.
#[derive(Debug, Clone, Copy, PartialEq, Eq, Structural)]
pub enum ClosedEnumTarget {
    DocumentType,
    ContainerAlignment,
    StackedMainAxisAlignment,
    StackedCrossAxisAlignment,
}

/// What a domain conversion aims at.
#[derive(Debug, Clone, Copy, PartialEq, Eq, Structural)]
pub enum DomainTarget {
    Size,
    ClosedEnum(ClosedEnumTarget),
}

/// What a domain conversion gives.
#[derive(Debug, Clone, Copy, PartialEq, Eq, Structural)]
pub enum DomainValue {
    Size(IrSize),
    Color(IrColor),
    Enum(IrEnumValue),
}

/// Why a value does not convert.
#[derive(Debug, Clone, Copy, PartialEq, Eq, Structural)]
pub enum ConversionError {
    InvalidText,
    UnsupportedValue,
}

/// What a regular builtin does with a body.
#[derive(Debug, Clone, Copy, PartialEq, Eq, Structural)]
pub enum BuiltinBodyPolicy {
    Reject,
    BindEvaluatedContent,
}

/// The syntax of a source.
#[derive(Debug, Clone, Copy, PartialEq, Eq, Structural)]
pub enum Mode {
    Markdown,
    Quarkdown,
}

/// An evaluated argument and where its value came from.
#[derive(Debug, PartialEq)]
pub struct InvocationValue {
    pub value: IrValue,
    pub origin: ValueOrigin,
}

/// The mathematical value of [`InvocationValue`].
#[verifier::ext_equal]
pub struct InvocationValueView {
    pub value: ValueView,
    pub origin: ValueOrigin,
}

/// An evaluated argument passed by name.
#[derive(Debug, PartialEq)]
pub struct InvocationNamedArg {
    pub arg: IrNamedArg,
    pub origin: ValueOrigin,
}

/// The mathematical value of [`InvocationNamedArg`].
#[verifier::ext_equal]
pub struct InvocationNamedView {
    pub arg: NamedArgView,
    pub origin: ValueOrigin,
}

/// What a scalar conversion gives.
#[derive(Debug, PartialEq)]
#[allow(inconsistent_fields)]
pub enum ScalarValue {
    String(String),
    Number(Number),
    Boolean(bool),
}

/// The mathematical value of [`ScalarValue`].
#[verifier::ext_equal]
#[allow(inconsistent_fields)]
pub enum ScalarValueView {
    String(Seq<char>),
    Number(Number),
    Boolean(bool),
}

/// UTF-8 text selected by a source-relative logical resource reference.
#[derive(Debug, PartialEq)]
pub struct ResourceText {
    pub path: String,
    pub text: String,
}

/// The mathematical value of [`ResourceText`].
#[verifier::ext_equal]
pub struct ResourceTextView {
    pub path: Seq<char>,
    pub text: Seq<char>,
}

/// An immutable document source resolved for insertion into another.
#[derive(Debug, PartialEq)]
pub struct IncludedSource {
    pub path: String,
    pub source_id: SourceId,
    pub text: String,
}

/// The mathematical value of [`IncludedSource`].
#[verifier::ext_equal]
pub struct IncludedSourceView {
    pub path: Seq<char>,
    pub source_id: SourceId,
    pub text: Seq<char>,
}

/// Why a resource could not be read.
#[derive(Debug, PartialEq)]
#[allow(inconsistent_fields)]
pub enum ResourceAccessError {
    UnsupportedReference { reference: String },
    UnknownSource { source_id: SourceId },
    Boundary { message: String },
    NotFound { path: String },
    InvalidUtf8 { path: String, message: String },
}

/// The mathematical value of [`ResourceAccessError`].
#[verifier::ext_equal]
#[allow(inconsistent_fields)]
pub enum AccessErrorView {
    UnsupportedReference { reference: Seq<char> },
    UnknownSource { source_id: SourceId },
    Boundary { message: Seq<char> },
    NotFound { path: Seq<char> },
    InvalidUtf8 { path: Seq<char>, message: Seq<char> },
}

/// A message of the parser, with the bytes it is about.
#[derive(Debug, PartialEq)]
pub struct ParseDiagnostic {
    pub code: String,
    pub message: String,
    pub start: usize,
    pub end: usize,
}

/// The mathematical value of [`ParseDiagnostic`].
#[verifier::ext_equal]
pub struct ParseDiagnosticView {
    pub code: Seq<char>,
    pub message: Seq<char>,
    pub start: usize,
    pub end: usize,
}

/// What parsing and lowering a source gave.
#[derive(Debug, PartialEq)]
pub struct ParsedSource {
    pub diagnostics: Vec<ParseDiagnostic>,
    pub lowering_diagnostics: Vec<Diagnostic>,
    pub nodes: Vec<IrNode>,
}

/// The mathematical value of [`ParsedSource`].
#[verifier::ext_equal]
pub struct ParsedSourceView {
    pub diagnostics: Seq<ParseDiagnosticView>,
    pub lowering_diagnostics: Seq<DiagnosticView>,
    pub nodes: Seq<NodeView>,
}

/// A question that the host answers for the evaluator.
#[derive(Debug, PartialEq)]
#[allow(inconsistent_fields)]
pub enum Query {
    BuiltinPolicy { name: String },
    BuiltinCall {
        name: String,
        positional: Vec<InvocationValue>,
        named: Vec<InvocationNamedArg>,
        has_body: bool,
    },
    ScalarString { argument: InvocationValue },
    AdaptString { value: IrValue },
    Scalar { argument: InvocationValue, target: ScalarTarget },
    Domain { argument: InvocationValue, target: DomainTarget },
    Integer { argument: InvocationValue },
    Range { argument: InvocationValue, span: SourceSpan },
    NumberText { number: Number },
    ParseNumber { text: String },
    Sum { numbers: Vec<Number> },
    Divide { dividend: Number, divisor: Number },
    ReadText { source_id: SourceId, reference: String },
    ReadSource { source_id: SourceId, reference: String },
    SourcePath { source_id: SourceId },
    Parse {
        source_id: SourceId,
        text: String,
        mode: Mode,
        metadata_defaults: DocumentMetadataDefaults,
    },
}

/// The mathematical value of [`Query`].
#[verifier::ext_equal]
#[allow(inconsistent_fields)]
pub enum QueryView {
    BuiltinPolicy { name: Seq<char> },
    BuiltinCall {
        name: Seq<char>,
        positional: Seq<InvocationValueView>,
        named: Seq<InvocationNamedView>,
        has_body: bool,
    },
    ScalarString { argument: InvocationValueView },
    AdaptString { value: ValueView },
    Scalar { argument: InvocationValueView, target: ScalarTarget },
    Domain { argument: InvocationValueView, target: DomainTarget },
    Integer { argument: InvocationValueView },
    Range { argument: InvocationValueView, span: SourceSpan },
    NumberText { number: Number },
    ParseNumber { text: Seq<char> },
    Sum { numbers: Seq<Number> },
    Divide { dividend: Number, divisor: Number },
    ReadText { source_id: SourceId, reference: Seq<char> },
    ReadSource { source_id: SourceId, reference: Seq<char> },
    SourcePath { source_id: SourceId },
    Parse { source_id: SourceId, text: Seq<char>, mode: Mode, metadata_defaults: DefaultsView },
}

/// The answer to a [`Query`].
#[derive(Debug, PartialEq)]
#[allow(inconsistent_fields)]
pub enum Reply {
    Policy(Option<BuiltinBodyPolicy>),
    Value(Result<IrValue, String>),
    Text(Option<String>),
    Scalar(Result<ScalarValue, ConversionError>),
    Domain(Result<DomainValue, ConversionError>),
    Integer(Result<i32, ConversionError>),
    Range(Option<IrRange>),
    Number(Option<Number>),
    Resource(Result<ResourceText, ResourceAccessError>),
    Source(Result<IncludedSource, ResourceAccessError>),
    Parsed(ParsedSource),
}

/// The mathematical value of [`Reply`].
#[verifier::ext_equal]
#[allow(inconsistent_fields)]
pub enum ReplyView {
    Policy(Option<BuiltinBodyPolicy>),
    Value(Result<ValueView, Seq<char>>),
    Text(Option<Seq<char>>),
    Scalar(Result<ScalarValueView, ConversionError>),
    Domain(Result<DomainValue, ConversionError>),
    Integer(Result<i32, ConversionError>),
    Range(Option<IrRange>),
    Number(Option<Number>),
    Resource(Result<ResourceTextView, AccessErrorView>),
    Source(Result<IncludedSourceView, AccessErrorView>),
    Parsed(ParsedSourceView),
}

/// The value of a [`InvocationValue`].
pub open spec fn invocation_value_view(x: InvocationValue) -> InvocationValueView
{
    InvocationValueView {
        value: ir::value_view(x.value),
        origin: x.origin,
    }
}

impl View for InvocationValue {
    type V = InvocationValueView;

    open spec fn view(&self) -> InvocationValueView {
        invocation_value_view(*self)
    }
}

/// The values of a sequence of [`InvocationValue`].
pub open spec fn invocation_values_view(s: Seq<InvocationValue>) -> Seq<InvocationValueView> {
    Seq::new(s.len(), |i: int| invocation_value_view(s[i]))
}

pub broadcast proof fn invocation_values_view_empty()
    ensures
        #[trigger] invocation_values_view(Seq::<InvocationValue>::empty())
            == Seq::<InvocationValueView>::empty(),
{
    assert(invocation_values_view(Seq::<InvocationValue>::empty())
        =~= Seq::<InvocationValueView>::empty());
}

pub broadcast proof fn invocation_values_view_push(s: Seq<InvocationValue>, x: InvocationValue)
    ensures
        #[trigger] invocation_values_view(s.push(x))
            == invocation_values_view(s).push(invocation_value_view(x)),
{
    assert(invocation_values_view(s.push(x))
        =~= invocation_values_view(s).push(invocation_value_view(x)));
}

pub broadcast proof fn invocation_values_view_add(s: Seq<InvocationValue>, t: Seq<InvocationValue>)
    ensures
        #[trigger] invocation_values_view(s + t)
            == invocation_values_view(s) + invocation_values_view(t),
{
    assert(invocation_values_view(s + t) =~= invocation_values_view(s) + invocation_values_view(t));
}

/// The value of a [`InvocationNamedArg`].
pub open spec fn invocation_named_view(x: InvocationNamedArg) -> InvocationNamedView
{
    InvocationNamedView {
        arg: ir::named_arg_view(x.arg),
        origin: x.origin,
    }
}

impl View for InvocationNamedArg {
    type V = InvocationNamedView;

    open spec fn view(&self) -> InvocationNamedView {
        invocation_named_view(*self)
    }
}

/// The values of a sequence of [`InvocationNamedArg`].
pub open spec fn invocation_named_args_view(
    s: Seq<InvocationNamedArg>
) -> Seq<InvocationNamedView> {
    Seq::new(s.len(), |i: int| invocation_named_view(s[i]))
}

pub broadcast proof fn invocation_named_args_view_empty()
    ensures
        #[trigger] invocation_named_args_view(Seq::<InvocationNamedArg>::empty())
            == Seq::<InvocationNamedView>::empty(),
{
    assert(invocation_named_args_view(Seq::<InvocationNamedArg>::empty())
        =~= Seq::<InvocationNamedView>::empty());
}

pub broadcast proof fn invocation_named_args_view_push(
    s: Seq<InvocationNamedArg>,
    x: InvocationNamedArg,
)
    ensures
        #[trigger] invocation_named_args_view(s.push(x))
            == invocation_named_args_view(s).push(invocation_named_view(x)),
{
    assert(invocation_named_args_view(s.push(x))
        =~= invocation_named_args_view(s).push(invocation_named_view(x)));
}

pub broadcast proof fn invocation_named_args_view_add(
    s: Seq<InvocationNamedArg>,
    t: Seq<InvocationNamedArg>,
)
    ensures
        #[trigger] invocation_named_args_view(s + t)
            == invocation_named_args_view(s) + invocation_named_args_view(t),
{
    assert(invocation_named_args_view(s + t)
        =~= invocation_named_args_view(s) + invocation_named_args_view(t));
}

/// The value of a [`ScalarValue`].
pub open spec fn scalar_value_view(x: ScalarValue) -> ScalarValueView
{
    match x {
        ScalarValue::String(v) => ScalarValueView::String(v@),
        ScalarValue::Number(v) => ScalarValueView::Number(v),
        ScalarValue::Boolean(v) => ScalarValueView::Boolean(v),
    }
}

impl View for ScalarValue {
    type V = ScalarValueView;

    open spec fn view(&self) -> ScalarValueView {
        scalar_value_view(*self)
    }
}

/// The value of a [`ResourceText`].
pub open spec fn resource_text_view(x: ResourceText) -> ResourceTextView
{
    ResourceTextView {
        path: x.path@,
        text: x.text@,
    }
}

impl View for ResourceText {
    type V = ResourceTextView;

    open spec fn view(&self) -> ResourceTextView {
        resource_text_view(*self)
    }
}

/// The value of a [`IncludedSource`].
pub open spec fn included_source_view(x: IncludedSource) -> IncludedSourceView
{
    IncludedSourceView {
        path: x.path@,
        source_id: x.source_id,
        text: x.text@,
    }
}

impl View for IncludedSource {
    type V = IncludedSourceView;

    open spec fn view(&self) -> IncludedSourceView {
        included_source_view(*self)
    }
}

/// The value of a [`ResourceAccessError`].
pub open spec fn access_error_view(x: ResourceAccessError) -> AccessErrorView
{
    match x {
        ResourceAccessError::UnsupportedReference {
            reference
        } => AccessErrorView::UnsupportedReference {
            reference: reference@,
        },
        ResourceAccessError::UnknownSource { source_id } => AccessErrorView::UnknownSource {
            source_id: source_id,
        },
        ResourceAccessError::Boundary { message } => AccessErrorView::Boundary {
            message: message@,
        },
        ResourceAccessError::NotFound { path } => AccessErrorView::NotFound {
            path: path@,
        },
        ResourceAccessError::InvalidUtf8 { path, message } => AccessErrorView::InvalidUtf8 {
            path: path@,
            message: message@,
        },
    }
}

impl View for ResourceAccessError {
    type V = AccessErrorView;

    open spec fn view(&self) -> AccessErrorView {
        access_error_view(*self)
    }
}

/// The value of a [`ParseDiagnostic`].
pub open spec fn parse_diagnostic_view(x: ParseDiagnostic) -> ParseDiagnosticView
{
    ParseDiagnosticView {
        code: x.code@,
        message: x.message@,
        start: x.start,
        end: x.end,
    }
}

impl View for ParseDiagnostic {
    type V = ParseDiagnosticView;

    open spec fn view(&self) -> ParseDiagnosticView {
        parse_diagnostic_view(*self)
    }
}

/// The values of a sequence of [`ParseDiagnostic`].
pub open spec fn parse_diagnostics_view(s: Seq<ParseDiagnostic>) -> Seq<ParseDiagnosticView> {
    Seq::new(s.len(), |i: int| parse_diagnostic_view(s[i]))
}

pub broadcast proof fn parse_diagnostics_view_empty()
    ensures
        #[trigger] parse_diagnostics_view(Seq::<ParseDiagnostic>::empty())
            == Seq::<ParseDiagnosticView>::empty(),
{
    assert(parse_diagnostics_view(Seq::<ParseDiagnostic>::empty())
        =~= Seq::<ParseDiagnosticView>::empty());
}

pub broadcast proof fn parse_diagnostics_view_push(s: Seq<ParseDiagnostic>, x: ParseDiagnostic)
    ensures
        #[trigger] parse_diagnostics_view(s.push(x))
            == parse_diagnostics_view(s).push(parse_diagnostic_view(x)),
{
    assert(parse_diagnostics_view(s.push(x))
        =~= parse_diagnostics_view(s).push(parse_diagnostic_view(x)));
}

pub broadcast proof fn parse_diagnostics_view_add(s: Seq<ParseDiagnostic>, t: Seq<ParseDiagnostic>)
    ensures
        #[trigger] parse_diagnostics_view(s + t)
            == parse_diagnostics_view(s) + parse_diagnostics_view(t),
{
    assert(parse_diagnostics_view(s + t) =~= parse_diagnostics_view(s) + parse_diagnostics_view(t));
}

/// The value of a [`ParsedSource`].
pub open spec fn parsed_source_view(x: ParsedSource) -> ParsedSourceView
{
    ParsedSourceView {
        diagnostics: parse_diagnostics_view(x.diagnostics@),
        lowering_diagnostics: diagnostic::diagnostics_view(x.lowering_diagnostics@),
        nodes: ir::nodes_view(x.nodes@),
    }
}

impl View for ParsedSource {
    type V = ParsedSourceView;

    open spec fn view(&self) -> ParsedSourceView {
        parsed_source_view(*self)
    }
}

/// The value of a [`Query`].
pub open spec fn query_view(x: Query) -> QueryView
{
    match x {
        Query::BuiltinPolicy { name } => QueryView::BuiltinPolicy {
            name: name@,
        },
        Query::BuiltinCall { name, positional, named, has_body } => QueryView::BuiltinCall {
            name: name@,
            positional: invocation_values_view(positional@),
            named: invocation_named_args_view(named@),
            has_body: has_body,
        },
        Query::ScalarString { argument } => QueryView::ScalarString {
            argument: invocation_value_view(argument),
        },
        Query::AdaptString { value } => QueryView::AdaptString {
            value: ir::value_view(value),
        },
        Query::Scalar { argument, target } => QueryView::Scalar {
            argument: invocation_value_view(argument),
            target: target,
        },
        Query::Domain { argument, target } => QueryView::Domain {
            argument: invocation_value_view(argument),
            target: target,
        },
        Query::Integer { argument } => QueryView::Integer {
            argument: invocation_value_view(argument),
        },
        Query::Range { argument, span } => QueryView::Range {
            argument: invocation_value_view(argument),
            span: span,
        },
        Query::NumberText { number } => QueryView::NumberText {
            number: number,
        },
        Query::ParseNumber { text } => QueryView::ParseNumber {
            text: text@,
        },
        Query::Sum { numbers } => QueryView::Sum {
            numbers: numbers@,
        },
        Query::Divide { dividend, divisor } => QueryView::Divide {
            dividend: dividend,
            divisor: divisor,
        },
        Query::ReadText { source_id, reference } => QueryView::ReadText {
            source_id: source_id,
            reference: reference@,
        },
        Query::ReadSource { source_id, reference } => QueryView::ReadSource {
            source_id: source_id,
            reference: reference@,
        },
        Query::SourcePath { source_id } => QueryView::SourcePath {
            source_id: source_id,
        },
        Query::Parse { source_id, text, mode, metadata_defaults } => QueryView::Parse {
            source_id: source_id,
            text: text@,
            mode: mode,
            metadata_defaults: metadata::defaults_view(metadata_defaults),
        },
    }
}

impl View for Query {
    type V = QueryView;

    open spec fn view(&self) -> QueryView {
        query_view(*self)
    }
}

/// The value of a [`Reply`].
pub open spec fn reply_view(x: Reply) -> ReplyView
{
    match x {
        Reply::Policy(v) => ReplyView::Policy(v),
        Reply::Value(v) => ReplyView::Value(match v {
            Ok(inner) => Ok(ir::value_view(inner)),
            Err(inner) => Err(inner@),
        }),
        Reply::Text(v) => ReplyView::Text(match v { Some(inner) => Some(inner@), None => None }),
        Reply::Scalar(v) => ReplyView::Scalar(match v {
            Ok(inner) => Ok(scalar_value_view(inner)),
            Err(inner) => Err(inner),
        }),
        Reply::Domain(v) => ReplyView::Domain(v),
        Reply::Integer(v) => ReplyView::Integer(v),
        Reply::Range(v) => ReplyView::Range(v),
        Reply::Number(v) => ReplyView::Number(v),
        Reply::Resource(v) => ReplyView::Resource(match v {
            Ok(inner) => Ok(resource_text_view(inner)),
            Err(inner) => Err(access_error_view(inner)),
        }),
        Reply::Source(v) => ReplyView::Source(match v {
            Ok(inner) => Ok(included_source_view(inner)),
            Err(inner) => Err(access_error_view(inner)),
        }),
        Reply::Parsed(v) => ReplyView::Parsed(parsed_source_view(v)),
    }
}

impl View for Reply {
    type V = ReplyView;

    open spec fn view(&self) -> ReplyView {
        reply_view(*self)
    }
}

/// The values of a sequence of [`Reply`].
pub open spec fn replies_view(s: Seq<Reply>) -> Seq<ReplyView> {
    Seq::new(s.len(), |i: int| reply_view(s[i]))
}

pub broadcast proof fn replies_view_empty()
    ensures
        #[trigger] replies_view(Seq::<Reply>::empty()) == Seq::<ReplyView>::empty(),
{
    assert(replies_view(Seq::<Reply>::empty()) =~= Seq::<ReplyView>::empty());
}

pub broadcast proof fn replies_view_push(s: Seq<Reply>, x: Reply)
    ensures
        #[trigger] replies_view(s.push(x)) == replies_view(s).push(reply_view(x)),
{
    assert(replies_view(s.push(x)) =~= replies_view(s).push(reply_view(x)));
}

pub broadcast proof fn replies_view_add(s: Seq<Reply>, t: Seq<Reply>)
    ensures
        #[trigger] replies_view(s + t) == replies_view(s) + replies_view(t),
{
    assert(replies_view(s + t) =~= replies_view(s) + replies_view(t));
}

/// Copies a [`InvocationValue`].
pub fn copy_invocation_value(x: &InvocationValue) -> (r: InvocationValue)
    ensures
        invocation_value_view(r) == invocation_value_view(*x),
{
    InvocationValue {
        value: copy_value(&x.value),
        origin: x.origin,
    }
}

impl Clone for InvocationValue {
    fn clone(&self) -> (r: Self)
        ensures
            r@ == self@,
    {
        copy_invocation_value(self)
    }
}

/// Copies a [`InvocationNamedArg`].
pub fn copy_invocation_named(x: &InvocationNamedArg) -> (r: InvocationNamedArg)
    ensures
        invocation_named_view(r) == invocation_named_view(*x),
{
    InvocationNamedArg {
        arg: copy_named_arg(&x.arg),
        origin: x.origin,
    }
}

impl Clone for InvocationNamedArg {
    fn clone(&self) -> (r: Self)
        ensures
            r@ == self@,
    {
        copy_invocation_named(self)
    }
}

/// Copies a [`ScalarValue`].
pub fn copy_scalar_value(x: &ScalarValue) -> (r: ScalarValue)
    ensures
        scalar_value_view(r) == scalar_value_view(*x),
{
    match x {
        ScalarValue::String(v) => ScalarValue::String(v.clone()),
        ScalarValue::Number(v) => ScalarValue::Number(*v),
        ScalarValue::Boolean(v) => ScalarValue::Boolean(*v),
    }
}

impl Clone for ScalarValue {
    fn clone(&self) -> (r: Self)
        ensures
            r@ == self@,
    {
        copy_scalar_value(self)
    }
}

/// Copies a [`ResourceText`].
pub fn copy_resource_text(x: &ResourceText) -> (r: ResourceText)
    ensures
        resource_text_view(r) == resource_text_view(*x),
{
    ResourceText {
        path: x.path.clone(),
        text: x.text.clone(),
    }
}

impl Clone for ResourceText {
    fn clone(&self) -> (r: Self)
        ensures
            r@ == self@,
    {
        copy_resource_text(self)
    }
}

/// Copies a [`IncludedSource`].
pub fn copy_included_source(x: &IncludedSource) -> (r: IncludedSource)
    ensures
        included_source_view(r) == included_source_view(*x),
{
    IncludedSource {
        path: x.path.clone(),
        source_id: x.source_id,
        text: x.text.clone(),
    }
}

impl Clone for IncludedSource {
    fn clone(&self) -> (r: Self)
        ensures
            r@ == self@,
    {
        copy_included_source(self)
    }
}

/// Copies a [`ResourceAccessError`].
pub fn copy_access_error(x: &ResourceAccessError) -> (r: ResourceAccessError)
    ensures
        access_error_view(r) == access_error_view(*x),
{
    match x {
        ResourceAccessError::UnsupportedReference {
            reference
        } => ResourceAccessError::UnsupportedReference {
            reference: reference.clone(),
        },
        ResourceAccessError::UnknownSource { source_id } => ResourceAccessError::UnknownSource {
            source_id: *source_id,
        },
        ResourceAccessError::Boundary { message } => ResourceAccessError::Boundary {
            message: message.clone(),
        },
        ResourceAccessError::NotFound { path } => ResourceAccessError::NotFound {
            path: path.clone(),
        },
        ResourceAccessError::InvalidUtf8 { path, message } => ResourceAccessError::InvalidUtf8 {
            path: path.clone(),
            message: message.clone(),
        },
    }
}

impl Clone for ResourceAccessError {
    fn clone(&self) -> (r: Self)
        ensures
            r@ == self@,
    {
        copy_access_error(self)
    }
}

/// Copies a [`ParseDiagnostic`].
pub fn copy_parse_diagnostic(x: &ParseDiagnostic) -> (r: ParseDiagnostic)
    ensures
        parse_diagnostic_view(r) == parse_diagnostic_view(*x),
{
    ParseDiagnostic {
        code: x.code.clone(),
        message: x.message.clone(),
        start: x.start,
        end: x.end,
    }
}

/// Copies a sequence of [`ParseDiagnostic`].
pub fn copy_parse_diagnostics(x: &Vec<ParseDiagnostic>) -> (r: Vec<ParseDiagnostic>)
    ensures
        parse_diagnostics_view(r@) == parse_diagnostics_view(x@),
{
    broadcast use group_host_views;

    let mut r: Vec<ParseDiagnostic> = Vec::new();
    let mut i: usize = 0;
    while i < x.len()
        invariant
            0 <= i <= x@.len(),
            parse_diagnostics_view(r@) == parse_diagnostics_view(x@).take(i as int),
        decreases x@.len() - i,
    {
        r.push(copy_parse_diagnostic(&x[i]));
        i += 1;
        assert(parse_diagnostics_view(x@).take(i as int)
            =~= parse_diagnostics_view(x@).take(i - 1).push(parse_diagnostics_view(x@)[i - 1]));
    }
    assert(parse_diagnostics_view(x@).take(i as int) =~= parse_diagnostics_view(x@));
    r
}

impl Clone for ParseDiagnostic {
    fn clone(&self) -> (r: Self)
        ensures
            r@ == self@,
    {
        copy_parse_diagnostic(self)
    }
}

/// Copies a [`ParsedSource`].
pub fn copy_parsed_source(x: &ParsedSource) -> (r: ParsedSource)
    ensures
        parsed_source_view(r) == parsed_source_view(*x),
{
    ParsedSource {
        diagnostics: copy_parse_diagnostics(&x.diagnostics),
        lowering_diagnostics: copy_diagnostics(&x.lowering_diagnostics),
        nodes: copy_nodes(&x.nodes),
    }
}

impl Clone for ParsedSource {
    fn clone(&self) -> (r: Self)
        ensures
            r@ == self@,
    {
        copy_parsed_source(self)
    }
}

/// Copies a [`Reply`].
pub fn copy_reply(x: &Reply) -> (r: Reply)
    ensures
        reply_view(r) == reply_view(*x),
{
    match x {
        Reply::Policy(v) => Reply::Policy(*v),
        Reply::Value(v) => Reply::Value(match v {
            Ok(inner) => Ok(copy_value(inner)),
            Err(inner) => Err(inner.clone()),
        }),
        Reply::Text(v) => Reply::Text(match v { Some(inner) => Some(inner.clone()), None => None }),
        Reply::Scalar(v) => Reply::Scalar(match v {
            Ok(inner) => Ok(copy_scalar_value(inner)),
            Err(inner) => Err(*inner),
        }),
        Reply::Domain(v) => Reply::Domain(*v),
        Reply::Integer(v) => Reply::Integer(*v),
        Reply::Range(v) => Reply::Range(*v),
        Reply::Number(v) => Reply::Number(*v),
        Reply::Resource(v) => Reply::Resource(match v {
            Ok(inner) => Ok(copy_resource_text(inner)),
            Err(inner) => Err(copy_access_error(inner)),
        }),
        Reply::Source(v) => Reply::Source(match v {
            Ok(inner) => Ok(copy_included_source(inner)),
            Err(inner) => Err(copy_access_error(inner)),
        }),
        Reply::Parsed(v) => Reply::Parsed(copy_parsed_source(v)),
    }
}

impl Clone for Reply {
    fn clone(&self) -> (r: Self)
        ensures
            r@ == self@,
    {
        copy_reply(self)
    }
}

/// How views of sequences follow the sequences.
pub broadcast group group_host_views {
    invocation_values_view_empty,
    invocation_values_view_push,
    invocation_values_view_add,
    invocation_named_args_view_empty,
    invocation_named_args_view_push,
    invocation_named_args_view_add,
    parse_diagnostics_view_empty,
    parse_diagnostics_view_push,
    parse_diagnostics_view_add,
    replies_view_empty,
    replies_view_push,
    replies_view_add,
}

impl InvocationValue {
    /// A value that was written down.
    pub fn static_value(value: IrValue) -> (r: InvocationValue)
        ensures
            r@ == (InvocationValueView { value: value@, origin: ValueOrigin::Static }),
    {
        InvocationValue { value, origin: ValueOrigin::Static }
    }

    /// A value that came from a name.
    pub fn dynamic_value(value: IrValue) -> (r: InvocationValue)
        ensures
            r@ == (InvocationValueView { value: value@, origin: ValueOrigin::Dynamic }),
    {
        InvocationValue { value, origin: ValueOrigin::Dynamic }
    }
}

/// The state of one evaluation.
pub struct Session<'a> {
    /// The answers of the host, in the order of the questions.
    pub replies: &'a Vec<Reply>,
    /// How many answers have been used.
    pub used: usize,
    /// The first question that has no answer.
    pub pending: Option<Query>,
    /// What has been reported.
    pub diagnostics: Vec<Diagnostic>,
    /// The state of the document.
    pub document_state: IrDocumentState,
}

/// The mathematical value of [`Session`].
#[verifier::ext_equal]
pub struct SessionView {
    pub replies: Seq<ReplyView>,
    pub used: nat,
    pub pending: Option<QueryView>,
    pub diagnostics: Seq<DiagnosticView>,
    pub document_state: DocumentStateView,
}

impl<'a> View for Session<'a> {
    type V = SessionView;

    open spec fn view(&self) -> SessionView {
        SessionView {
            replies: replies_view(self.replies@),
            used: self.used as nat,
            pending: match self.pending {
                Some(query) => Some(query_view(query)),
                None => None,
            },
            diagnostics: diagnostic::diagnostics_view(self.diagnostics@),
            document_state: metadata::document_state_view(self.document_state),
        }
    }
}

impl SessionView {
    /// The session once a diagnostic has been reported.
    pub open spec fn with(self, diagnostic: DiagnosticView) -> SessionView {
        SessionView { diagnostics: self.diagnostics.push(diagnostic), ..self }
    }

    /// The session once an error of a family has been reported.
    pub open spec fn fault(
        self,
        fault: Fault,
        message: Seq<char>,
        span: SourceSpan,
    ) -> SessionView {
        self.with(diagnostic::fault_view(fault, message, span))
    }

    /// The session waiting for an answer, where it was not waiting already.
    pub open spec fn waiting(self, query: QueryView) -> SessionView {
        SessionView {
            pending: if self.pending is None {
                Some(query)
            } else {
                self.pending
            },
            ..self
        }
    }

    /// The answer to a question, and the session that asked it.
    pub open spec fn ask(self, query: QueryView) -> (Option<ReplyView>, SessionView) {
        if self.pending is None && self.used < self.replies.len() {
            (Some(self.replies[self.used as int]), SessionView { used: self.used + 1, ..self })
        } else {
            (None, self.waiting(query))
        }
    }

    /// The `Text` that answers a question; a reply of another kind is no answer.
    pub open spec fn ask_text(self, query: QueryView) -> (Option<Option<Seq<char>>>, SessionView) {
        let (reply, asked) = self.ask(query);
        match reply {
            Some(ReplyView::Text(v)) => (Some(v), asked),
            _ => (None, asked.waiting(query)),
        }
    }

    /// The text that answers a question which always has one; a reply without is no answer.
    pub open spec fn need_text(self, query: QueryView) -> (Option<Seq<char>>, SessionView) {
        let (reply, asked) = self.ask(query);
        match reply {
            Some(ReplyView::Text(Some(v))) => (Some(v), asked),
            _ => (None, asked.waiting(query)),
        }
    }

    /// The number that answers a question which always has one; a reply without is no answer.
    pub open spec fn need_number(self, query: QueryView) -> (Option<Number>, SessionView) {
        let (reply, asked) = self.ask(query);
        match reply {
            Some(ReplyView::Number(Some(v))) => (Some(v), asked),
            _ => (None, asked.waiting(query)),
        }
    }

    /// The `Policy` that answers a question; a reply of another kind is no answer.
    pub open spec fn ask_policy(
        self,
        query: QueryView,
    ) -> (Option<Option<BuiltinBodyPolicy>>, SessionView) {
        let (reply, asked) = self.ask(query);
        match reply {
            Some(ReplyView::Policy(v)) => (Some(v), asked),
            _ => (None, asked.waiting(query)),
        }
    }

    /// The `Value` that answers a question; a reply of another kind is no answer.
    pub open spec fn ask_value(
        self,
        query: QueryView,
    ) -> (Option<Result<ValueView, Seq<char>>>, SessionView) {
        let (reply, asked) = self.ask(query);
        match reply {
            Some(ReplyView::Value(v)) => (Some(v), asked),
            _ => (None, asked.waiting(query)),
        }
    }

    /// The `Scalar` that answers a question; a reply of another kind is no answer.
    pub open spec fn ask_scalar(
        self,
        query: QueryView,
    ) -> (Option<Result<ScalarValueView, ConversionError>>, SessionView) {
        let (reply, asked) = self.ask(query);
        match reply {
            Some(ReplyView::Scalar(v)) => (Some(v), asked),
            _ => (None, asked.waiting(query)),
        }
    }

    /// The `Domain` that answers a question; a reply of another kind is no answer.
    pub open spec fn ask_domain(
        self,
        query: QueryView,
    ) -> (Option<Result<DomainValue, ConversionError>>, SessionView) {
        let (reply, asked) = self.ask(query);
        match reply {
            Some(ReplyView::Domain(v)) => (Some(v), asked),
            _ => (None, asked.waiting(query)),
        }
    }

    /// The `Integer` that answers a question; a reply of another kind is no answer.
    pub open spec fn ask_integer(
        self,
        query: QueryView,
    ) -> (Option<Result<i32, ConversionError>>, SessionView) {
        let (reply, asked) = self.ask(query);
        match reply {
            Some(ReplyView::Integer(v)) => (Some(v), asked),
            _ => (None, asked.waiting(query)),
        }
    }

    /// The `Range` that answers a question; a reply of another kind is no answer.
    pub open spec fn ask_range(self, query: QueryView) -> (Option<Option<IrRange>>, SessionView) {
        let (reply, asked) = self.ask(query);
        match reply {
            Some(ReplyView::Range(v)) => (Some(v), asked),
            _ => (None, asked.waiting(query)),
        }
    }

    /// The `Number` that answers a question; a reply of another kind is no answer.
    pub open spec fn ask_number(self, query: QueryView) -> (Option<Option<Number>>, SessionView) {
        let (reply, asked) = self.ask(query);
        match reply {
            Some(ReplyView::Number(v)) => (Some(v), asked),
            _ => (None, asked.waiting(query)),
        }
    }

    /// The `Resource` that answers a question; a reply of another kind is no answer.
    pub open spec fn ask_resource(
        self,
        query: QueryView,
    ) -> (Option<Result<ResourceTextView, AccessErrorView>>, SessionView) {
        let (reply, asked) = self.ask(query);
        match reply {
            Some(ReplyView::Resource(v)) => (Some(v), asked),
            _ => (None, asked.waiting(query)),
        }
    }

    /// The `Source` that answers a question; a reply of another kind is no answer.
    pub open spec fn ask_source(
        self,
        query: QueryView,
    ) -> (Option<Result<IncludedSourceView, AccessErrorView>>, SessionView) {
        let (reply, asked) = self.ask(query);
        match reply {
            Some(ReplyView::Source(v)) => (Some(v), asked),
            _ => (None, asked.waiting(query)),
        }
    }

    /// The `Parsed` that answers a question; a reply of another kind is no answer.
    pub open spec fn ask_parsed(self, query: QueryView) -> (Option<ParsedSourceView>, SessionView) {
        let (reply, asked) = self.ask(query);
        match reply {
            Some(ReplyView::Parsed(v)) => (Some(v), asked),
            _ => (None, asked.waiting(query)),
        }
    }

}

/// Whether one session comes out of another: its answers are the same, it has used no fewer
/// of them, it keeps the question that it waits for and uses no answer while it waits, and its
/// reports are those of the other with more behind them.
#[verifier::opaque]
pub open spec fn follows(before: SessionView, after: SessionView) -> bool {
    &&& after.replies == before.replies
    &&& before.used <= after.used
    &&& before.pending is Some ==> after.pending == before.pending && after.used == before.used
    &&& before.diagnostics.is_prefix_of(after.diagnostics)
}

/// A session comes out of itself.
pub broadcast proof fn follows_itself(s: SessionView)
    ensures
        #[trigger] follows(s, s),
{
    reveal(follows);
}

/// What comes out of a session that came out of another comes out of the other.
pub broadcast proof fn follows_on(a: SessionView, b: SessionView, c: SessionView)
    requires
        #[trigger] follows(a, b),
        #[trigger] follows(b, c),
    ensures
        follows(a, c),
{
    reveal(follows);
}

/// Whether a session has been halted since: something was reported, or an answer is missing.
#[verifier::opaque]
pub open spec fn halts(before: SessionView, after: SessionView) -> bool {
    after.pending is Some || before.diagnostics.len() < after.diagnostics.len()
}

/// What was halted stays halted.
pub broadcast proof fn halts_on(a: SessionView, b: SessionView, c: SessionView)
    requires
        #[trigger] halts(a, b),
        #[trigger] follows(b, c),
    ensures
        halts(a, c),
{
    reveal(follows);
    reveal(halts);
}

/// What is halted later has been halted since.
pub broadcast proof fn halts_since(a: SessionView, b: SessionView, c: SessionView)
    requires
        #[trigger] follows(a, b),
        #[trigger] halts(b, c),
    ensures
        halts(a, c),
{
    reveal(follows);
    reveal(halts);
}

pub broadcast group group_follows {
    follows_itself,
    follows_on,
}

pub broadcast group group_halts {
    halts_on,
    halts_since,
}

impl<'a> Session<'a> {
    /// A session that has reported nothing.
    pub fn new(replies: &'a Vec<Reply>) -> (r: Session<'a>)
        ensures
            r@ == (SessionView {
                replies: replies_view(replies@),
                used: 0,
                pending: None,
                diagnostics: Seq::empty(),
                document_state: metadata::initial_state(),
            }),
    {
        Session {
            replies,
            used: 0,
            pending: None,
            diagnostics: Vec::new(),
            document_state: IrDocumentState::default(),
        }
    }

    /// Reports a diagnostic.
    pub fn report(&mut self, diagnostic: Diagnostic)
        ensures
            final(self)@ == old(self)@.with(diagnostic@),
            follows(old(self)@, final(self)@),
            halts(old(self)@, final(self)@),
    {
        proof {
            reveal(follows);
            reveal(halts);
        }
        self.diagnostics.push(diagnostic);
    }

    /// Reports an error of a family.
    pub fn fault(&mut self, fault: Fault, message: String, span: SourceSpan)
        ensures
            final(self)@ == old(self)@.fault(fault, message@, span),
            follows(old(self)@, final(self)@),
            halts(old(self)@, final(self)@),
    {
        proof {
            reveal(follows);
            reveal(halts);
        }
        self.report(fault.report(message, span));
    }

    /// Reports an error of a family; the call has failed.
    pub fn fail(&mut self, fault: Fault, message: String, span: SourceSpan) -> (r: CallOutcome)
        ensures
            r@ == OutcomeView::Failed,
            final(self)@ == old(self)@.fault(fault, message@, span),
            follows(old(self)@, final(self)@),
            halts(old(self)@, final(self)@),
    {
        proof {
            reveal(follows);
            reveal(halts);
        }
        self.fault(fault, message, span);
        CallOutcome::Failed
    }

    /// Reports an error with its own code and hint.
    pub fn complain(&mut self, code: &str, message: String, span: SourceSpan, hint: &str)
        ensures
            final(self)@ == old(self)@.with(diagnostic::error_report(code@, message@, span, hint@)),
            follows(old(self)@, final(self)@),
            halts(old(self)@, final(self)@),
    {
        proof {
            reveal(follows);
            reveal(halts);
        }
        self.report(report_error(code, message, span, hint));
    }

    /// Waits for an answer, unless the session waits already.
    pub fn wait(&mut self, query: Query)
        ensures
            final(self)@ == old(self)@.waiting(query@),
            follows(old(self)@, final(self)@),
            halts(old(self)@, final(self)@),
    {
        proof {
            reveal(follows);
            reveal(halts);
        }
        if self.pending.is_none() {
            self.pending = Some(query);
        }
    }

    /// The index of the reply that answers the next question, if there is one.
    fn next_reply(&self) -> (r: Option<usize>)
        ensures
            r == (if self@.pending is None && self@.used < self@.replies.len() {
                Some(self.used)
            } else {
                None
            }),
            r matches Some(i) ==> i < self.replies@.len() && i < usize::MAX,
    {
        if self.pending.is_none() && self.used < self.replies.len() {
            Some(self.used)
        } else {
            None
        }
    }

    /// The `Text` that answers a question, if the log holds it.
    pub fn ask_text(&mut self, query: Query) -> (r: Option<Option<String>>)
        ensures
            (match r {
                Some(v) => Some(match v { Some(inner) => Some(inner@), None => None }),
                None => None,
            }, final(self)@) == old(self)@.ask_text(query@),
            follows(old(self)@, final(self)@),
            r is None ==> halts(old(self)@, final(self)@),
    {
        proof {
            reveal(follows);
            reveal(halts);
        }
        if let Some(i) = self.next_reply() {
            self.used = i + 1;
            if let Reply::Text(v) = &self.replies[i] {
                return Some(match v { Some(inner) => Some(inner.clone()), None => None });
            }
        }
        self.wait(query);
        None
    }

    /// The text that answers a question which always has one, if the log holds it.
    pub fn need_text(&mut self, query: Query) -> (r: Option<String>)
        ensures
            (match r {
                Some(v) => Some(v@),
                None => None,
            }, final(self)@) == old(self)@.need_text(query@),
            follows(old(self)@, final(self)@),
            r is None ==> halts(old(self)@, final(self)@),
    {
        proof {
            reveal(follows);
            reveal(halts);
        }
        if let Some(i) = self.next_reply() {
            self.used = i + 1;
            if let Reply::Text(Some(v)) = &self.replies[i] {
                return Some(v.clone());
            }
        }
        self.wait(query);
        None
    }

    /// The number that answers a question which always has one, if the log holds it.
    pub fn need_number(&mut self, query: Query) -> (r: Option<Number>)
        ensures
            (r, final(self)@) == old(self)@.need_number(query@),
            follows(old(self)@, final(self)@),
            r is None ==> halts(old(self)@, final(self)@),
    {
        proof {
            reveal(follows);
            reveal(halts);
        }
        if let Some(i) = self.next_reply() {
            self.used = i + 1;
            if let Reply::Number(Some(v)) = &self.replies[i] {
                return Some(*v);
            }
        }
        self.wait(query);
        None
    }

    /// The `Policy` that answers a question, if the log holds it.
    pub fn ask_policy(&mut self, query: Query) -> (r: Option<Option<BuiltinBodyPolicy>>)
        ensures
            (match r {
                Some(v) => Some(v),
                None => None,
            }, final(self)@) == old(self)@.ask_policy(query@),
            follows(old(self)@, final(self)@),
            r is None ==> halts(old(self)@, final(self)@),
    {
        proof {
            reveal(follows);
            reveal(halts);
        }
        if let Some(i) = self.next_reply() {
            self.used = i + 1;
            if let Reply::Policy(v) = &self.replies[i] {
                return Some(*v);
            }
        }
        self.wait(query);
        None
    }

    /// The `Value` that answers a question, if the log holds it.
    pub fn ask_value(&mut self, query: Query) -> (r: Option<Result<IrValue, String>>)
        ensures
            (match r {
                Some(v) => Some(match v {
                    Ok(inner) => Ok(ir::value_view(inner)),
                    Err(inner) => Err(inner@),
                }),
                None => None,
            }, final(self)@) == old(self)@.ask_value(query@),
            follows(old(self)@, final(self)@),
            r is None ==> halts(old(self)@, final(self)@),
    {
        proof {
            reveal(follows);
            reveal(halts);
        }
        if let Some(i) = self.next_reply() {
            self.used = i + 1;
            if let Reply::Value(v) = &self.replies[i] {
                return Some(match v {
                    Ok(inner) => Ok(copy_value(inner)),
                    Err(inner) => Err(inner.clone()),
                });
            }
        }
        self.wait(query);
        None
    }

    /// The `Scalar` that answers a question, if the log holds it.
    pub fn ask_scalar(&mut self, query: Query) -> (r: Option<Result<ScalarValue, ConversionError>>)
        ensures
            (match r {
                Some(v) => Some(match v {
                    Ok(inner) => Ok(scalar_value_view(inner)),
                    Err(inner) => Err(inner),
                }),
                None => None,
            }, final(self)@) == old(self)@.ask_scalar(query@),
            follows(old(self)@, final(self)@),
            r is None ==> halts(old(self)@, final(self)@),
    {
        proof {
            reveal(follows);
            reveal(halts);
        }
        if let Some(i) = self.next_reply() {
            self.used = i + 1;
            if let Reply::Scalar(v) = &self.replies[i] {
                return Some(match v {
                    Ok(inner) => Ok(copy_scalar_value(inner)),
                    Err(inner) => Err(*inner),
                });
            }
        }
        self.wait(query);
        None
    }

    /// The `Domain` that answers a question, if the log holds it.
    pub fn ask_domain(&mut self, query: Query) -> (r: Option<Result<DomainValue, ConversionError>>)
        ensures
            (match r {
                Some(v) => Some(v),
                None => None,
            }, final(self)@) == old(self)@.ask_domain(query@),
            follows(old(self)@, final(self)@),
            r is None ==> halts(old(self)@, final(self)@),
    {
        proof {
            reveal(follows);
            reveal(halts);
        }
        if let Some(i) = self.next_reply() {
            self.used = i + 1;
            if let Reply::Domain(v) = &self.replies[i] {
                return Some(*v);
            }
        }
        self.wait(query);
        None
    }

    /// The `Integer` that answers a question, if the log holds it.
    pub fn ask_integer(&mut self, query: Query) -> (r: Option<Result<i32, ConversionError>>)
        ensures
            (match r {
                Some(v) => Some(v),
                None => None,
            }, final(self)@) == old(self)@.ask_integer(query@),
            follows(old(self)@, final(self)@),
            r is None ==> halts(old(self)@, final(self)@),
    {
        proof {
            reveal(follows);
            reveal(halts);
        }
        if let Some(i) = self.next_reply() {
            self.used = i + 1;
            if let Reply::Integer(v) = &self.replies[i] {
                return Some(*v);
            }
        }
        self.wait(query);
        None
    }

    /// The `Range` that answers a question, if the log holds it.
    pub fn ask_range(&mut self, query: Query) -> (r: Option<Option<IrRange>>)
        ensures
            (match r {
                Some(v) => Some(v),
                None => None,
            }, final(self)@) == old(self)@.ask_range(query@),
            follows(old(self)@, final(self)@),
            r is None ==> halts(old(self)@, final(self)@),
    {
        proof {
            reveal(follows);
            reveal(halts);
        }
        if let Some(i) = self.next_reply() {
            self.used = i + 1;
            if let Reply::Range(v) = &self.replies[i] {
                return Some(*v);
            }
        }
        self.wait(query);
        None
    }

    /// The `Number` that answers a question, if the log holds it.
    pub fn ask_number(&mut self, query: Query) -> (r: Option<Option<Number>>)
        ensures
            (match r {
                Some(v) => Some(v),
                None => None,
            }, final(self)@) == old(self)@.ask_number(query@),
            follows(old(self)@, final(self)@),
            r is None ==> halts(old(self)@, final(self)@),
    {
        proof {
            reveal(follows);
            reveal(halts);
        }
        if let Some(i) = self.next_reply() {
            self.used = i + 1;
            if let Reply::Number(v) = &self.replies[i] {
                return Some(*v);
            }
        }
        self.wait(query);
        None
    }

    /// The `Resource` that answers a question, if the log holds it.
    pub fn ask_resource(
        &mut self,
        query: Query,
    ) -> (r: Option<Result<ResourceText, ResourceAccessError>>)
        ensures
            (match r {
                Some(v) => Some(match v {
                    Ok(inner) => Ok(resource_text_view(inner)),
                    Err(inner) => Err(access_error_view(inner)),
                }),
                None => None,
            }, final(self)@) == old(self)@.ask_resource(query@),
            follows(old(self)@, final(self)@),
            r is None ==> halts(old(self)@, final(self)@),
    {
        proof {
            reveal(follows);
            reveal(halts);
        }
        if let Some(i) = self.next_reply() {
            self.used = i + 1;
            if let Reply::Resource(v) = &self.replies[i] {
                return Some(match v {
                    Ok(inner) => Ok(copy_resource_text(inner)),
                    Err(inner) => Err(copy_access_error(inner)),
                });
            }
        }
        self.wait(query);
        None
    }

    /// The `Source` that answers a question, if the log holds it.
    pub fn ask_source(
        &mut self,
        query: Query,
    ) -> (r: Option<Result<IncludedSource, ResourceAccessError>>)
        ensures
            (match r {
                Some(v) => Some(match v {
                    Ok(inner) => Ok(included_source_view(inner)),
                    Err(inner) => Err(access_error_view(inner)),
                }),
                None => None,
            }, final(self)@) == old(self)@.ask_source(query@),
            follows(old(self)@, final(self)@),
            r is None ==> halts(old(self)@, final(self)@),
    {
        proof {
            reveal(follows);
            reveal(halts);
        }
        if let Some(i) = self.next_reply() {
            self.used = i + 1;
            if let Reply::Source(v) = &self.replies[i] {
                return Some(match v {
                    Ok(inner) => Ok(copy_included_source(inner)),
                    Err(inner) => Err(copy_access_error(inner)),
                });
            }
        }
        self.wait(query);
        None
    }

    /// The `Parsed` that answers a question, if the log holds it.
    pub fn ask_parsed(&mut self, query: Query) -> (r: Option<ParsedSource>)
        ensures
            (match r {
                Some(v) => Some(parsed_source_view(v)),
                None => None,
            }, final(self)@) == old(self)@.ask_parsed(query@),
            follows(old(self)@, final(self)@),
            r is None ==> halts(old(self)@, final(self)@),
    {
        proof {
            reveal(follows);
            reveal(halts);
        }
        if let Some(i) = self.next_reply() {
            self.used = i + 1;
            if let Reply::Parsed(v) = &self.replies[i] {
                return Some(copy_parsed_source(v));
            }
        }
        self.wait(query);
        None
    }

}

} // verus!
