//! Messages to the author of a document.

use vstd::prelude::*;

use crate::ir::SourceSpan;
use crate::text;
use crate::text::copy_strings;

verus! {

/// How serious a diagnostic is.
#[derive(Debug, Clone, Copy, PartialEq, Eq, Structural)]
pub enum Severity {
    Error,
    Warning,
    Info,
}

/// A message to the author of a document.
#[derive(Debug, PartialEq)]
pub struct Diagnostic {
    pub code: String,
    pub severity: Severity,
    pub message: String,
    pub primary: Option<SourceSpan>,
    pub secondary: Vec<SourceSpan>,
    pub hints: Vec<String>,
}

/// The mathematical value of [`Diagnostic`].
#[verifier::ext_equal]
pub struct DiagnosticView {
    pub code: Seq<char>,
    pub severity: Severity,
    pub message: Seq<char>,
    pub primary: Option<SourceSpan>,
    pub secondary: Seq<SourceSpan>,
    pub hints: Seq<Seq<char>>,
}

/// The value of a [`Diagnostic`].
pub open spec fn diagnostic_view(x: Diagnostic) -> DiagnosticView
{
    DiagnosticView {
        code: x.code@,
        severity: x.severity,
        message: x.message@,
        primary: x.primary,
        secondary: x.secondary@,
        hints: text::strings_view(x.hints@),
    }
}

impl View for Diagnostic {
    type V = DiagnosticView;

    open spec fn view(&self) -> DiagnosticView {
        diagnostic_view(*self)
    }
}

/// The values of a sequence of [`Diagnostic`].
pub open spec fn diagnostics_view(s: Seq<Diagnostic>) -> Seq<DiagnosticView> {
    Seq::new(s.len(), |i: int| diagnostic_view(s[i]))
}

pub broadcast proof fn diagnostics_view_empty()
    ensures
        #[trigger] diagnostics_view(Seq::<Diagnostic>::empty()) == Seq::<DiagnosticView>::empty(),
{
    assert(diagnostics_view(Seq::<Diagnostic>::empty()) =~= Seq::<DiagnosticView>::empty());
}

pub broadcast proof fn diagnostics_view_push(s: Seq<Diagnostic>, x: Diagnostic)
    ensures
        #[trigger] diagnostics_view(s.push(x)) == diagnostics_view(s).push(diagnostic_view(x)),
{
    assert(diagnostics_view(s.push(x)) =~= diagnostics_view(s).push(diagnostic_view(x)));
}

pub broadcast proof fn diagnostics_view_add(s: Seq<Diagnostic>, t: Seq<Diagnostic>)
    ensures
        #[trigger] diagnostics_view(s + t) == diagnostics_view(s) + diagnostics_view(t),
{
    assert(diagnostics_view(s + t) =~= diagnostics_view(s) + diagnostics_view(t));
}

/// Copies a [`Diagnostic`].
pub fn copy_diagnostic(x: &Diagnostic) -> (r: Diagnostic)
    ensures
        diagnostic_view(r) == diagnostic_view(*x),
{
    Diagnostic {
        code: x.code.clone(),
        severity: x.severity,
        message: x.message.clone(),
        primary: x.primary,
        secondary: copy_spans(&x.secondary),
        hints: copy_strings(&x.hints),
    }
}

/// Copies a sequence of [`Diagnostic`].
pub fn copy_diagnostics(x: &Vec<Diagnostic>) -> (r: Vec<Diagnostic>)
    ensures
        diagnostics_view(r@) == diagnostics_view(x@),
{
    broadcast use group_diagnostic_views;

    let mut r: Vec<Diagnostic> = Vec::new();
    let mut i: usize = 0;
    while i < x.len()
        invariant
            0 <= i <= x@.len(),
            diagnostics_view(r@) == diagnostics_view(x@).take(i as int),
        decreases x@.len() - i,
    {
        r.push(copy_diagnostic(&x[i]));
        i += 1;
        assert(diagnostics_view(x@).take(i as int)
            =~= diagnostics_view(x@).take(i - 1).push(diagnostics_view(x@)[i - 1]));
    }
    assert(diagnostics_view(x@).take(i as int) =~= diagnostics_view(x@));
    r
}

impl Clone for Diagnostic {
    fn clone(&self) -> (r: Self)
        ensures
            r@ == self@,
    {
        copy_diagnostic(self)
    }
}

/// How views of sequences follow the sequences.
pub broadcast group group_diagnostic_views {
    diagnostics_view_empty,
    diagnostics_view_push,
    diagnostics_view_add,
}

/// Copies a sequence of spans.
pub fn copy_spans(x: &Vec<SourceSpan>) -> (r: Vec<SourceSpan>)
    ensures
        r@ == x@,
{
    let mut r: Vec<SourceSpan> = Vec::new();
    let mut i: usize = 0;
    while i < x.len()
        invariant
            0 <= i <= x@.len(),
            r@ == x@.take(i as int),
        decreases x@.len() - i,
    {
        r.push(x[i]);
        i += 1;
        assert(x@.take(i as int) =~= x@.take(i - 1).push(x@[i - 1]));
    }
    assert(x@.take(i as int) =~= x@);
    r
}

/// An error at a span, with one hint.
pub open spec fn error_report(
    code: Seq<char>,
    message: Seq<char>,
    span: SourceSpan,
    hint: Seq<char>,
) -> DiagnosticView {
    DiagnosticView {
        code,
        severity: Severity::Error,
        message,
        primary: Some(span),
        secondary: Seq::empty(),
        hints: seq![hint],
    }
}

/// An error at a span, with one hint.
pub fn report_error(code: &str, message: String, span: SourceSpan, hint: &str) -> (r: Diagnostic)
    ensures
        r@ == error_report(code@, message@, span, hint@),
{
    let mut hints: Vec<String> = Vec::new();
    hints.push(hint.to_owned());
    assert(text::strings_view(hints@) =~= seq![hint@]);
    Diagnostic {
        code: code.to_owned(),
        severity: Severity::Error,
        message,
        primary: Some(span),
        secondary: Vec::new(),
        hints,
    }
}

/// The families of errors that share a code and a hint.
#[derive(Debug, Clone, Copy, PartialEq, Eq, Structural)]
pub enum Fault {
    Chain,
    Function,
    DocumentCall,
    DocumentConversion,
    HtmlArgument,
    HtmlDenied,
    MarkdownDenied,
    RawHtml,
    Let,
    Iteration,
    MaterializedLimit,
    DepthLimit,
    StackedInline,
    ComponentInline,
    CenterArgument,
    CenterInline,
    AlignArgument,
    AlignInline,
    ContainerArgument,
    ContainerInline,
    LandscapeArgument,
    LandscapeInline,
    BrArgument,
    WhitespaceArgument,
    StackedArgument,
    ImplicitParameter,
    VarDeclaration,
    VarName,
    Condition,
}

/// The code of a family of errors.
pub open spec fn fault_code(fault: Fault) -> Seq<char> {
    match fault {
        Fault::Chain => "E3001"@,
        Fault::Function => "E3003"@,
        Fault::DocumentCall => "E3003"@,
        Fault::DocumentConversion => "E3001"@,
        Fault::HtmlArgument => "E3003"@,
        Fault::HtmlDenied => "E3004"@,
        Fault::MarkdownDenied => "E3004"@,
        Fault::RawHtml => "E8001"@,
        Fault::Let => "E3003"@,
        Fault::Iteration => "E3001"@,
        Fault::MaterializedLimit => "E3005"@,
        Fault::DepthLimit => "E3005"@,
        Fault::StackedInline => "E3001"@,
        Fault::ComponentInline => "E3001"@,
        Fault::CenterArgument => "E3003"@,
        Fault::CenterInline => "E3001"@,
        Fault::AlignArgument => "E3003"@,
        Fault::AlignInline => "E3001"@,
        Fault::ContainerArgument => "E3001"@,
        Fault::ContainerInline => "E3001"@,
        Fault::LandscapeArgument => "E3003"@,
        Fault::LandscapeInline => "E3001"@,
        Fault::BrArgument => "E3003"@,
        Fault::WhitespaceArgument => "E3003"@,
        Fault::StackedArgument => "E3001"@,
        Fault::ImplicitParameter => "E3003"@,
        Fault::VarDeclaration => "E3002"@,
        Fault::VarName => "E3002"@,
        Fault::Condition => "E3001"@,
    }
}

/// The hint of a family of errors.
pub open spec fn fault_hint(fault: Fault) -> Seq<char> {
    match fault {
        Fault::Chain => "The evaluator did not fabricate a value for the failed call."@,
        Fault::Function => "Function declarations and calls must satisfy the supported required-parameter contract."@,
        Fault::DocumentCall => "Document-state builtins read without arguments and write one validated String argument."@,
        Fault::DocumentConversion => "Document-state mutation is committed only after argument conversion and validation succeed."@,
        Fault::HtmlArgument => "`.html` accepts exactly one regular `content` String argument."@,
        Fault::HtmlDenied => "Grant the NativeContent capability for this compilation to enable `.html`."@,
        Fault::MarkdownDenied => "Grant the NativeContent capability for this compilation to enable `.markdown`."@,
        Fault::RawHtml => "Use Quarkdown `.html` for target-specific HTML content; ordinary mixed raw HTML remains unsupported."@,
        Fault::Let => "`.let` requires one value argument and a block lambda body."@,
        Fault::Iteration => "Iteration values remain typed; unsupported or invalid iteration is not fabricated as text."@,
        Fault::MaterializedLimit => "Reduce the size of this range or iterable, or configure a higher evaluator materialization limit."@,
        Fault::DepthLimit => "Reduce recursive or nested function/callback evaluation, or configure a higher evaluator depth limit."@,
        Fault::StackedInline => "Use `.row`, `.column`, or `.grid` as a block call with a Markdown body."@,
        Fault::ComponentInline => "Use the component as a block call with a Markdown body."@,
        Fault::CenterArgument => "`.center` accepts exactly one required Markdown block body and no arguments."@,
        Fault::CenterInline => "Use `.center` as a block call with a Markdown body."@,
        Fault::AlignArgument => "`.align` accepts one required alignment argument and one Markdown block body."@,
        Fault::AlignInline => "Use `.align` as a block call with a Markdown body."@,
        Fault::ContainerArgument => "Container arguments are validated before the Markdown body is evaluated."@,
        Fault::ContainerInline => "Use `.container` as a block call with an optional Markdown body."@,
        Fault::LandscapeArgument => "`.landscape` accepts exactly one required Markdown block body and no arguments."@,
        Fault::LandscapeInline => "Use `.landscape` as a block call with a Markdown body."@,
        Fault::BrArgument => "`.br` accepts no arguments and no body."@,
        Fault::WhitespaceArgument => "`.whitespace` accepts optional `width` and `height` Size arguments and no body."@,
        Fault::StackedArgument => "Stacked layout arguments are validated before the Markdown body is evaluated."@,
        Fault::ImplicitParameter => "Provide the positional argument required by the implicit lambda parameter."@,
        Fault::VarDeclaration => "Use `.var {name} {value}` or `.var {name}\n    content` for block variables."@,
        Fault::VarName => "Variable names must start with a letter or underscore, followed by letters, digits, underscores, or hyphens."@,
        Fault::Condition => "Condition must be a boolean literal or a variable reference that resolves to a boolean."@,
    }
}

/// An error of a family.
pub open spec fn fault_view(fault: Fault, message: Seq<char>, span: SourceSpan) -> DiagnosticView {
    error_report(fault_code(fault), message, span, fault_hint(fault))
}

impl Fault {
    /// The code of the family.
    pub fn code(self) -> (r: &'static str)
        ensures
            r@ == fault_code(self),
    {
        match self {
            Fault::Chain => "E3001",
            Fault::Function => "E3003",
            Fault::DocumentCall => "E3003",
            Fault::DocumentConversion => "E3001",
            Fault::HtmlArgument => "E3003",
            Fault::HtmlDenied => "E3004",
            Fault::MarkdownDenied => "E3004",
            Fault::RawHtml => "E8001",
            Fault::Let => "E3003",
            Fault::Iteration => "E3001",
            Fault::MaterializedLimit => "E3005",
            Fault::DepthLimit => "E3005",
            Fault::StackedInline => "E3001",
            Fault::ComponentInline => "E3001",
            Fault::CenterArgument => "E3003",
            Fault::CenterInline => "E3001",
            Fault::AlignArgument => "E3003",
            Fault::AlignInline => "E3001",
            Fault::ContainerArgument => "E3001",
            Fault::ContainerInline => "E3001",
            Fault::LandscapeArgument => "E3003",
            Fault::LandscapeInline => "E3001",
            Fault::BrArgument => "E3003",
            Fault::WhitespaceArgument => "E3003",
            Fault::StackedArgument => "E3001",
            Fault::ImplicitParameter => "E3003",
            Fault::VarDeclaration => "E3002",
            Fault::VarName => "E3002",
            Fault::Condition => "E3001",
        }
    }

    /// The hint of the family.
    pub fn hint(self) -> (r: &'static str)
        ensures
            r@ == fault_hint(self),
    {
        match self {
            Fault::Chain => "The evaluator did not fabricate a value for the failed call.",
            Fault::Function => "Function declarations and calls must satisfy the supported required-parameter contract.",
            Fault::DocumentCall => "Document-state builtins read without arguments and write one validated String argument.",
            Fault::DocumentConversion => "Document-state mutation is committed only after argument conversion and validation succeed.",
            Fault::HtmlArgument => "`.html` accepts exactly one regular `content` String argument.",
            Fault::HtmlDenied => "Grant the NativeContent capability for this compilation to enable `.html`.",
            Fault::MarkdownDenied => "Grant the NativeContent capability for this compilation to enable `.markdown`.",
            Fault::RawHtml => "Use Quarkdown `.html` for target-specific HTML content; ordinary mixed raw HTML remains unsupported.",
            Fault::Let => "`.let` requires one value argument and a block lambda body.",
            Fault::Iteration => "Iteration values remain typed; unsupported or invalid iteration is not fabricated as text.",
            Fault::MaterializedLimit => "Reduce the size of this range or iterable, or configure a higher evaluator materialization limit.",
            Fault::DepthLimit => "Reduce recursive or nested function/callback evaluation, or configure a higher evaluator depth limit.",
            Fault::StackedInline => "Use `.row`, `.column`, or `.grid` as a block call with a Markdown body.",
            Fault::ComponentInline => "Use the component as a block call with a Markdown body.",
            Fault::CenterArgument => "`.center` accepts exactly one required Markdown block body and no arguments.",
            Fault::CenterInline => "Use `.center` as a block call with a Markdown body.",
            Fault::AlignArgument => "`.align` accepts one required alignment argument and one Markdown block body.",
            Fault::AlignInline => "Use `.align` as a block call with a Markdown body.",
            Fault::ContainerArgument => "Container arguments are validated before the Markdown body is evaluated.",
            Fault::ContainerInline => "Use `.container` as a block call with an optional Markdown body.",
            Fault::LandscapeArgument => "`.landscape` accepts exactly one required Markdown block body and no arguments.",
            Fault::LandscapeInline => "Use `.landscape` as a block call with a Markdown body.",
            Fault::BrArgument => "`.br` accepts no arguments and no body.",
            Fault::WhitespaceArgument => "`.whitespace` accepts optional `width` and `height` Size arguments and no body.",
            Fault::StackedArgument => "Stacked layout arguments are validated before the Markdown body is evaluated.",
            Fault::ImplicitParameter => "Provide the positional argument required by the implicit lambda parameter.",
            Fault::VarDeclaration => "Use `.var {name} {value}` or `.var {name}\n    content` for block variables.",
            Fault::VarName => "Variable names must start with a letter or underscore, followed by letters, digits, underscores, or hyphens.",
            Fault::Condition => "Condition must be a boolean literal or a variable reference that resolves to a boolean.",
        }
    }

    /// An error of the family.
    pub fn report(self, message: String, span: SourceSpan) -> (r: Diagnostic)
        ensures
            r@ == fault_view(self, message@, span),
    {
        report_error(self.code(), message, span, self.hint())
    }
}

} // verus!
