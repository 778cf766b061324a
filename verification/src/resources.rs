//! Arguments and errors of the builtins that read project resources.

use vstd::prelude::*;

use crate::diagnostic;
use crate::diagnostic::{report_error, Diagnostic, DiagnosticView};
use crate::host;
use crate::host::{AccessErrorView, Query, QueryView, ResourceAccessError, Session, SessionView};
use crate::ir;
use crate::ir::{IrNamedArg, IrRange, IrValue, NamedArgView, SourceId, SourceSpan, ValueView};
use crate::ir_copy::copy_value;
use crate::materialize;
use crate::materialize::value_source_span;
use crate::scope;
use crate::scope::{ContextView, EvaluationContext};
use crate::sequences;
use crate::text;
use crate::text::{decimal, join2, join3, join4, join5, lowered, same_text};

verus! {

broadcast use {
    ir::group_ir_views,
    host::group_follows,
    host::group_halts,
};

/// Where the bindings of an inserted document go.
#[derive(Debug, Clone, Copy, PartialEq, Eq, Structural)]
pub enum IncludeSandbox {
    Share,
    Scope,
    Subdocument,
}

impl SessionView {
    /// The session once an error with its own code and hint has been reported.
    pub open spec fn complaint(
        self,
        code: Seq<char>,
        message: Seq<char>,
        span: SourceSpan,
        hint: Seq<char>,
    ) -> SessionView {
        self.with(diagnostic::error_report(code, message, span, hint))
    }
}

/// Whether a builtin takes a named argument besides its path.
pub open spec fn takes_option(builtin: Seq<char>, name: Seq<char>) -> bool {
    (builtin == "read"@ && name == "lines"@) || (builtin == "include"@ && name == "sandbox"@)
}

/// The path among the named arguments of a resource builtin.
pub open spec fn named_path(builtin: Seq<char>, named: Seq<NamedArgView>, s: SessionView) -> (
    Option<Option<ValueView>>,
    SessionView,
)
    decreases named.len(),
{
    if named.len() == 0 {
        (Some(None), s)
    } else {
        match named_path(builtin, named.drop_last(), s) {
            (None, t) => (None, t),
            (Some(path), t) => if named.last().name == "path"@ {
                if path is Some {
                    (
                        None,
                        t.complaint(
                            "E3003"@,
                            "`."@ + builtin + "` received `path` more than once"@,
                            named.last().name_span,
                            "Pass one resource path."@,
                        ),
                    )
                } else {
                    (Some(Some(named.last().value)), t)
                }
            } else if takes_option(builtin, named.last().name) {
                (Some(path), t)
            } else {
                (
                    None,
                    t.complaint(
                        "E3003"@,
                        "`."@ + builtin + "` does not support named argument `"@ + named.last().name
                            + "`"@,
                        named.last().name_span,
                        "Use one path argument and only the builtin's documented optional arguments."@,
                    ),
                )
            },
        }
    }
}

/// The path of a resource builtin.
pub open spec fn resource_path(
    builtin: Seq<char>,
    positional: Seq<ValueView>,
    named: Seq<NamedArgView>,
    span: SourceSpan,
    s: SessionView,
) -> (Option<Seq<char>>, SessionView) {
    if positional.len() > 1 {
        (
            None,
            s.complaint(
                "E3003"@,
                "`."@ + builtin + "` accepts exactly one resource path"@,
                span,
                "Pass one source-relative logical resource path."@,
            ),
        )
    } else {
        match named_path(builtin, named, s) {
            (None, t) => (None, t),
            (Some(path), t) => if positional.len() == 1 && path is Some {
                (
                    None,
                    t.complaint(
                        "E3003"@,
                        "`."@ + builtin + "` received `path` more than once"@,
                        span,
                        "Use either the positional path or `path`."@,
                    ),
                )
            } else if positional.len() == 1 {
                adapted_path(builtin, positional[0], span, t)
            } else {
                match path {
                    Some(value) => adapted_path(builtin, value, span, t),
                    None => (
                        None,
                        t.complaint(
                            "E3003"@,
                            "`."@ + builtin + "` requires a resource path"@,
                            span,
                            "Pass a source-relative logical resource path."@,
                        ),
                    ),
                }
            },
        }
    }
}

/// A value as a path.
pub open spec fn adapted_path(
    builtin: Seq<char>,
    value: ValueView,
    span: SourceSpan,
    s: SessionView,
) -> (Option<Seq<char>>, SessionView) {
    match s.ask_text(QueryView::AdaptString { value }) {
        (Some(Some(path)), t) => (Some(path), t),
        (Some(None), t) => (
            None,
            t.complaint(
                "E3003"@,
                "`."@ + builtin + "` resource path must adapt to String"@,
                materialize::value_span(value, span),
                "Use a scalar or plain-text path value."@,
            ),
        ),
        (None, t) => (None, t),
    }
}

proof fn lemma_named_path_stops(
    builtin: Seq<char>,
    named: Seq<NamedArgView>,
    s: SessionView,
    i: int,
)
    requires
        0 <= i <= named.len(),
        named_path(builtin, named.take(i), s).0 is None,
    ensures
        named_path(builtin, named, s) == named_path(builtin, named.take(i), s),
    decreases named.len() - i,
{
    if i < named.len() {
        sequences::lemma_take_step(named, i);
        lemma_named_path_stops(builtin, named, s, i + 1);
    } else {
        sequences::lemma_take_all(named);
    }
}

/// The place of the path among the named arguments of a resource builtin.
fn find_path(builtin: &str, named: &Vec<IrNamedArg>, session: &mut Session) -> (r: Option<
    Option<usize>,
>)
    ensures
        (match r {
            Some(Some(i)) => Some(Some(ir::named_args_view(named@)[i as int].value)),
            Some(None) => Some(None),
            None => None,
        }, final(session)@) == named_path(builtin@, ir::named_args_view(named@), old(session)@),
        r matches Some(Some(i)) ==> i < named@.len(),
        host::follows(old(session)@, final(session)@),
        r is None ==> host::halts(old(session)@, final(session)@),
{
    let ghost all = ir::named_args_view(named@);
    let mut path: Option<usize> = None;
    let mut i: usize = 0;
    assert(all.take(0) =~= Seq::empty());
    while i < named.len()
        invariant
            host::follows(old(session)@, session@),
            0 <= i <= named@.len(),
            all == ir::named_args_view(named@),
            path matches Some(k) ==> k < i,
            (match path {
                Some(k) => Some(Some(all[k as int].value)),
                None => Some(None),
            }, session@) == named_path(builtin@, all.take(i as int), old(session)@),
        decreases named@.len() - i,
    {
        let argument = &named[i];
        let name = argument.name.as_str();
        proof {
            sequences::lemma_take_step(all, i as int);
            assert(all[i as int] == argument@);
            assert(argument@.name == name@);
        }
        if same_text(name, "path") {
            if path.is_some() {
                session.complain(
                    "E3003",
                    join3("`.", builtin, "` received `path` more than once"),
                    argument.name_span,
                    "Pass one resource path.",
                );
                proof {
                    lemma_named_path_stops(builtin@, all, old(session)@, i + 1);
                }
                return None;
            }
            path = Some(i);
        } else if !((same_text(builtin, "read") && same_text(name, "lines")) || (same_text(
            builtin,
            "include",
        ) && same_text(name, "sandbox"))) {
            session.complain(
                "E3003",
                join5("`.", builtin, "` does not support named argument `", name, "`"),
                argument.name_span,
                "Use one path argument and only the builtin's documented optional arguments.",
            );
            proof {
                lemma_named_path_stops(builtin@, all, old(session)@, i + 1);
            }
            return None;
        }
        i += 1;
    }
    proof {
        sequences::lemma_take_all(all);
    }
    Some(path)
}

/// A value as a path.
fn adapt_path(builtin: &str, value: &IrValue, span: SourceSpan, session: &mut Session) -> (r: Option<
    String,
>)
    ensures
        (match r {
            Some(path) => Some(path@),
            None => None,
        }, final(session)@) == adapted_path(builtin@, value@, span, old(session)@),
        host::follows(old(session)@, final(session)@),
        r is None ==> host::halts(old(session)@, final(session)@),
{
    match session.ask_text(Query::AdaptString { value: copy_value(value) }) {
        Some(Some(path)) => Some(path),
        Some(None) => {
            session.complain(
                "E3003",
                join3("`.", builtin, "` resource path must adapt to String"),
                value_source_span(value, span),
                "Use a scalar or plain-text path value.",
            );
            None
        },
        None => None,
    }
}

/// The path of a resource builtin; nothing where it has none, and then that is reported.
pub fn resource_path_argument(
    builtin: &str,
    positional: &Vec<IrValue>,
    named: &Vec<IrNamedArg>,
    span: SourceSpan,
    session: &mut Session,
) -> (r: Option<String>)
    ensures
        (match r {
            Some(path) => Some(path@),
            None => None,
        }, final(session)@) == resource_path(
            builtin@,
            ir::values_view(positional@),
            ir::named_args_view(named@),
            span,
            old(session)@,
        ),
        host::follows(old(session)@, final(session)@),
        r is None ==> host::halts(old(session)@, final(session)@),
{
    if positional.len() > 1 {
        session.complain(
            "E3003",
            join3("`.", builtin, "` accepts exactly one resource path"),
            span,
            "Pass one source-relative logical resource path.",
        );
        return None;
    }
    let path = match find_path(builtin, named, session) {
        Some(path) => path,
        None => {
            return None;
        },
    };
    if positional.len() == 1 {
        if path.is_some() {
            session.complain(
                "E3003",
                join3("`.", builtin, "` received `path` more than once"),
                span,
                "Use either the positional path or `path`.",
            );
            return None;
        }
        return adapt_path(builtin, &positional[0], span, session);
    }
    match path {
        Some(i) => {
            assert(ir::named_args_view(named@)[i as int] == named@[i as int]@);
            assert(named@[i as int]@.value == named@[i as int].value@);
            adapt_path(builtin, &named[i].value, span, session)
        },
        None => {
            session.complain(
                "E3003",
                join3("`.", builtin, "` requires a resource path"),
                span,
                "Pass a source-relative logical resource path.",
            );
            None
        },
    }
}

/// The line range of `.read`.
pub open spec fn lines_argument(named: Seq<NamedArgView>, s: SessionView) -> (
    Option<Option<IrRange>>,
    SessionView,
)
    decreases named.len(),
{
    if named.len() == 0 {
        (Some(None), s)
    } else {
        match lines_argument(named.drop_last(), s) {
            (None, t) => (None, t),
            (Some(lines), t) => if named.last().name != "lines"@ {
                (Some(lines), t)
            } else if lines is Some {
                (
                    None,
                    t.complaint(
                        "E3003"@,
                        "`.read` received `lines` more than once"@,
                        named.last().name_span,
                        "Pass one inclusive line range."@,
                    ),
                )
            } else {
                match named.last().value {
                    ValueView::Range(range) => (Some(Some(range)), t),
                    _ => (
                        None,
                        t.complaint(
                            "E3003"@,
                            "`.read` named argument `lines` must be a typed Range"@,
                            named.last().span,
                            "Use a one-based inclusive range such as `1..3`."@,
                        ),
                    ),
                }
            },
        }
    }
}

proof fn lemma_lines_argument_stops(named: Seq<NamedArgView>, s: SessionView, i: int)
    requires
        0 <= i <= named.len(),
        lines_argument(named.take(i), s).0 is None,
    ensures
        lines_argument(named, s) == lines_argument(named.take(i), s),
    decreases named.len() - i,
{
    if i < named.len() {
        sequences::lemma_take_step(named, i);
        lemma_lines_argument_stops(named, s, i + 1);
    } else {
        sequences::lemma_take_all(named);
    }
}

/// The line range of `.read`; nothing where it is wrong, and then that is reported.
pub fn resource_lines_argument(named: &Vec<IrNamedArg>, session: &mut Session) -> (r: Option<
    Option<IrRange>,
>)
    ensures
        (r, final(session)@) == lines_argument(ir::named_args_view(named@), old(session)@),
        host::follows(old(session)@, final(session)@),
        r is None ==> host::halts(old(session)@, final(session)@),
{
    let ghost all = ir::named_args_view(named@);
    let mut lines: Option<IrRange> = None;
    let mut i: usize = 0;
    assert(all.take(0) =~= Seq::empty());
    while i < named.len()
        invariant
            host::follows(old(session)@, session@),
            0 <= i <= named@.len(),
            all == ir::named_args_view(named@),
            (Some(lines), session@) == lines_argument(all.take(i as int), old(session)@),
        decreases named@.len() - i,
    {
        let argument = &named[i];
        proof {
            sequences::lemma_take_step(all, i as int);
            assert(all[i as int] == argument@);
            assert(argument@.name == argument.name@);
            assert(argument@.value == argument.value@);
        }
        if same_text(argument.name.as_str(), "lines") {
            if lines.is_some() {
                session.complain(
                    "E3003",
                    "`.read` received `lines` more than once".to_owned(),
                    argument.name_span,
                    "Pass one inclusive line range.",
                );
                proof {
                    lemma_lines_argument_stops(all, old(session)@, i + 1);
                }
                return None;
            }
            match &argument.value {
                IrValue::Range(range) => {
                    lines = Some(*range);
                },
                _ => {
                    session.complain(
                        "E3003",
                        "`.read` named argument `lines` must be a typed Range".to_owned(),
                        argument.span,
                        "Use a one-based inclusive range such as `1..3`.",
                    );
                    proof {
                        lemma_lines_argument_stops(all, old(session)@, i + 1);
                    }
                    return None;
                },
            }
        }
        i += 1;
    }
    proof {
        sequences::lemma_take_all(all);
    }
    Some(lines)
}

/// The sandbox that a text names.
pub open spec fn sandbox_named(name: Seq<char>) -> Option<IncludeSandbox> {
    if text::lower(name) == "share"@ {
        Some(IncludeSandbox::Share)
    } else if text::lower(name) == "scope"@ {
        Some(IncludeSandbox::Scope)
    } else if text::lower(name) == "subdocument"@ {
        Some(IncludeSandbox::Subdocument)
    } else {
        None
    }
}

/// The sandbox of an insertion.
pub open spec fn sandbox_argument(named: Seq<NamedArgView>, s: SessionView) -> (
    Option<Option<IncludeSandbox>>,
    SessionView,
)
    decreases named.len(),
{
    if named.len() == 0 {
        (Some(None), s)
    } else {
        match sandbox_argument(named.drop_last(), s) {
            (None, t) => (None, t),
            (Some(sandbox), t) => if named.last().name != "sandbox"@ {
                (Some(sandbox), t)
            } else if sandbox is Some {
                (
                    None,
                    t.complaint(
                        "E3003"@,
                        "`.include` received `sandbox` more than once"@,
                        named.last().name_span,
                        "Pass one sandbox mode: share, scope, or subdocument."@,
                    ),
                )
            } else {
                match t.ask_text(QueryView::AdaptString { value: named.last().value }) {
                    (None, u) => (None, u),
                    (Some(None), u) => (
                        None,
                        u.complaint(
                            "E3003"@,
                            "`.include` `sandbox` must be a String"@,
                            named.last().span,
                            "Use `share`, `scope`, or `subdocument`."@,
                        ),
                    ),
                    (Some(Some(name)), u) => match sandbox_named(name) {
                        Some(sandbox) => (Some(Some(sandbox)), u),
                        None => (
                            None,
                            u.complaint(
                                "E3003"@,
                                "unsupported `.include` sandbox `"@ + name + "`"@,
                                named.last().span,
                                "Use `share`, `scope`, or `subdocument`."@,
                            ),
                        ),
                    },
                }
            },
        }
    }
}

proof fn lemma_sandbox_argument_stops(named: Seq<NamedArgView>, s: SessionView, i: int)
    requires
        0 <= i <= named.len(),
        sandbox_argument(named.take(i), s).0 is None,
    ensures
        sandbox_argument(named, s) == sandbox_argument(named.take(i), s),
    decreases named.len() - i,
{
    if i < named.len() {
        sequences::lemma_take_step(named, i);
        lemma_sandbox_argument_stops(named, s, i + 1);
    } else {
        sequences::lemma_take_all(named);
    }
}

/// The sandbox that a text names.
fn sandbox_by_name(name: &str) -> (r: Option<IncludeSandbox>)
    ensures
        r == sandbox_named(name@),
{
    let low = lowered(name);
    if same_text(low.as_str(), "share") {
        Some(IncludeSandbox::Share)
    } else if same_text(low.as_str(), "scope") {
        Some(IncludeSandbox::Scope)
    } else if same_text(low.as_str(), "subdocument") {
        Some(IncludeSandbox::Subdocument)
    } else {
        None
    }
}

/// The sandbox of an insertion, if it names one; nothing where it is wrong, and then that is
/// reported.
pub fn include_sandbox_argument(named: &Vec<IrNamedArg>, session: &mut Session) -> (r: Option<
    Option<IncludeSandbox>,
>)
    ensures
        (r, final(session)@) == sandbox_argument(ir::named_args_view(named@), old(session)@),
        host::follows(old(session)@, final(session)@),
        r is None ==> host::halts(old(session)@, final(session)@),
{
    let ghost all = ir::named_args_view(named@);
    let mut sandbox: Option<IncludeSandbox> = None;
    let mut i: usize = 0;
    assert(all.take(0) =~= Seq::empty());
    while i < named.len()
        invariant
            host::follows(old(session)@, session@),
            0 <= i <= named@.len(),
            all == ir::named_args_view(named@),
            (Some(sandbox), session@) == sandbox_argument(all.take(i as int), old(session)@),
        decreases named@.len() - i,
    {
        let argument = &named[i];
        proof {
            sequences::lemma_take_step(all, i as int);
            assert(all[i as int] == argument@);
            assert(argument@.name == argument.name@);
            assert(argument@.value == argument.value@);
        }
        if same_text(argument.name.as_str(), "sandbox") {
            let mut failed = true;
            if sandbox.is_some() {
                session.complain(
                    "E3003",
                    "`.include` received `sandbox` more than once".to_owned(),
                    argument.name_span,
                    "Pass one sandbox mode: share, scope, or subdocument.",
                );
            } else {
                match session.ask_text(Query::AdaptString { value: copy_value(&argument.value) }) {
                    None => {},
                    Some(None) => {
                        session.complain(
                            "E3003",
                            "`.include` `sandbox` must be a String".to_owned(),
                            argument.span,
                            "Use `share`, `scope`, or `subdocument`.",
                        );
                    },
                    Some(Some(name)) => match sandbox_by_name(name.as_str()) {
                        Some(mode) => {
                            sandbox = Some(mode);
                            failed = false;
                        },
                        None => {
                            session.complain(
                                "E3003",
                                join3("unsupported `.include` sandbox `", name.as_str(), "`"),
                                argument.span,
                                "Use `share`, `scope`, or `subdocument`.",
                            );
                        },
                    },
                }
            }
            if failed {
                proof {
                    lemma_sandbox_argument_stops(all, old(session)@, i + 1);
                }
                return None;
            }
        }
        i += 1;
    }
    proof {
        sequences::lemma_take_all(all);
    }
    Some(sandbox)
}

/// The error of a resource that could not be read.
pub open spec fn access_diagnostic(
    builtin: Seq<char>,
    error: AccessErrorView,
    span: SourceSpan,
) -> DiagnosticView {
    match error {
        AccessErrorView::UnsupportedReference { reference } => diagnostic::error_report(
            "E8001"@,
            "`."@ + builtin + "` does not support non-local resource reference `"@ + reference
                + "`"@,
            span,
            "Only source-relative paths inside the supplied VirtualProject are available; network fetching is disabled."@,
        ),
        AccessErrorView::UnknownSource { source_id } => diagnostic::error_report(
            "E9001"@,
            "`."@ + builtin + "` cannot resolve the current source identity SourceId("@
                + text::decimal_text(source_id.0 as nat) + ")"@,
            span,
            "The host must provide the calling source through the VirtualProject SourceStore."@,
        ),
        AccessErrorView::Boundary { message } => diagnostic::error_report(
            "E8001"@,
            "`."@ + builtin + "` resource path is outside the project boundary: "@ + message,
            span,
            "Use a source-relative path that remains inside the supplied VirtualProject."@,
        ),
        AccessErrorView::NotFound { path } => diagnostic::error_report(
            "E3001"@,
            "`."@ + builtin + "` resource not found: `"@ + path + "`"@,
            span,
            "Add the logical resource to the VirtualProject supplied by the host."@,
        ),
        AccessErrorView::InvalidUtf8 { path, message } => diagnostic::error_report(
            "E3001"@,
            "`."@ + builtin + "` resource `"@ + path + "` is not valid UTF-8: "@ + message,
            span,
            "Text resource builtins require valid UTF-8 and do not perform lossy decoding."@,
        ),
    }
}

/// What a resource error says of itself.
pub open spec fn access_message(error: AccessErrorView) -> Seq<char> {
    match error {
        AccessErrorView::UnsupportedReference {
            reference,
        } => "resource reference is not a local project path: "@ + reference,
        AccessErrorView::UnknownSource {
            source_id,
        } => "source identity is not present in the project: SourceId("@ + text::decimal_text(
            source_id.0 as nat,
        ) + ")"@,
        AccessErrorView::Boundary {
            message,
        } => "resource path leaves the virtual project boundary: "@ + message,
        AccessErrorView::NotFound { path } => "resource not found: "@ + path,
        AccessErrorView::InvalidUtf8 {
            path,
            message,
        } => "resource is not valid UTF-8: "@ + path + ": "@ + message,
    }
}

impl ResourceAccessError {
    /// What the error says.
    pub fn message(&self) -> (r: String)
        ensures
            r@ == access_message(self@),
    {
        match self {
            ResourceAccessError::UnsupportedReference { reference } => join2(
                "resource reference is not a local project path: ",
                reference.as_str(),
            ),
            ResourceAccessError::UnknownSource { source_id } => {
                let id = decimal(source_id.0 as u64);
                join3(
                    "source identity is not present in the project: SourceId(",
                    id.as_str(),
                    ")",
                )
            },
            ResourceAccessError::Boundary { message } => join2(
                "resource path leaves the virtual project boundary: ",
                message.as_str(),
            ),
            ResourceAccessError::NotFound { path } => join2(
                "resource not found: ",
                path.as_str(),
            ),
            ResourceAccessError::InvalidUtf8 { path, message } => join4(
                "resource is not valid UTF-8: ",
                path.as_str(),
                ": ",
                message.as_str(),
            ),
        }
    }
}

/// The error of a resource that could not be read.
pub fn resource_access_diagnostic(builtin: &str, error: &ResourceAccessError, span: SourceSpan) -> (r:
    Diagnostic)
    ensures
        r@ == access_diagnostic(builtin@, error@, span),
{
    match error {
        ResourceAccessError::UnsupportedReference { reference } => report_error(
            "E8001",
            join5(
                "`.",
                builtin,
                "` does not support non-local resource reference `",
                reference.as_str(),
                "`",
            ),
            span,
            "Only source-relative paths inside the supplied VirtualProject are available; network fetching is disabled.",
        ),
        ResourceAccessError::UnknownSource { source_id } => report_error(
            "E9001",
            join5(
                "`.",
                builtin,
                "` cannot resolve the current source identity SourceId(",
                decimal(source_id.0 as u64).as_str(),
                ")",
            ),
            span,
            "The host must provide the calling source through the VirtualProject SourceStore.",
        ),
        ResourceAccessError::Boundary { message } => report_error(
            "E8001",
            crate::text::join4(
                "`.",
                builtin,
                "` resource path is outside the project boundary: ",
                message.as_str(),
            ),
            span,
            "Use a source-relative path that remains inside the supplied VirtualProject.",
        ),
        ResourceAccessError::NotFound { path } => report_error(
            "E3001",
            join5("`.", builtin, "` resource not found: `", path.as_str(), "`"),
            span,
            "Add the logical resource to the VirtualProject supplied by the host.",
        ),
        ResourceAccessError::InvalidUtf8 { path, message } => report_error(
            "E3001",
            crate::text::join6(
                "`.",
                builtin,
                "` resource `",
                path.as_str(),
                "` is not valid UTF-8: ",
                message.as_str(),
            ),
            span,
            "Text resource builtins require valid UTF-8 and do not perform lossy decoding.",
        ),
    }
}

/// The source that a resource is read for.
pub open spec fn calling_source(c: ContextView, span: SourceSpan, s: SessionView) -> (
    Option<SourceId>,
    SessionView,
) {
    if !c.has_resources {
        (
            None,
            s.complaint(
                "E8001"@,
                "Resource builtin requires a host-supplied VirtualProject"@,
                span,
                "Compile through the project API so logical resources are supplied explicitly."@,
            ),
        )
    } else {
        match c.current_source {
            Some(source) => (Some(source), s),
            None => (
                None,
                s.complaint(
                    "E9001"@,
                    "Resource builtin has no current source identity"@,
                    span,
                    "The evaluator must retain the logical source identity of the current document."@,
                ),
            ),
        }
    }
}

/// The source that a resource is read for; nothing where there is none, and then that is
/// reported.
pub fn resource_context(context: &EvaluationContext, span: SourceSpan, session: &mut Session) -> (r:
    Option<SourceId>)
    ensures
        (r, final(session)@) == calling_source(context@, span, old(session)@),
        host::follows(old(session)@, final(session)@),
        r is None ==> host::halts(old(session)@, final(session)@),
{
    if !context.has_resources {
        session.complain(
            "E8001",
            "Resource builtin requires a host-supplied VirtualProject".to_owned(),
            span,
            "Compile through the project API so logical resources are supplied explicitly.",
        );
        return None;
    }
    match context.current_source {
        Some(source) => Some(source),
        None => {
            session.complain(
                "E9001",
                "Resource builtin has no current source identity".to_owned(),
                span,
                "The evaluator must retain the logical source identity of the current document.",
            );
            None
        },
    }
}

} // verus!
