//! Laws of the host: a question is answered by the next reply, and where there is none it is what
//! the evaluation waits for.

use vstd::prelude::*;

use crate::diagnostic;
use crate::diagnostic::{Fault, Severity};
use crate::host::{QueryView, ReplyView, SessionView};
use crate::ir::SourceSpan;

verus! {

/// The session once its next reply has been used.
pub open spec fn answered(s: SessionView) -> SessionView {
    SessionView { used: s.used + 1, ..s }
}

/// Whether a session has a reply that has not been used.
pub open spec fn has_reply(s: SessionView) -> bool {
    s.pending is None && s.used < s.replies.len()
}

/// The next reply answers the question that it fits: it is handed out as it is, once.
pub proof fn lemma_reply_handed_out(query: QueryView, s: SessionView)
    requires
        has_reply(s),
    ensures
        match s.replies[s.used as int] {
            ReplyView::Policy(v) => s.ask_policy(query) == (Some(v), answered(s)),
            ReplyView::Value(v) => s.ask_value(query) == (Some(v), answered(s)),
            ReplyView::Text(v) => s.ask_text(query) == (Some(v), answered(s)) && (v is Some
                ==> s.need_text(query) == (v, answered(s))),
            ReplyView::Scalar(v) => s.ask_scalar(query) == (Some(v), answered(s)),
            ReplyView::Domain(v) => s.ask_domain(query) == (Some(v), answered(s)),
            ReplyView::Integer(v) => s.ask_integer(query) == (Some(v), answered(s)),
            ReplyView::Range(v) => s.ask_range(query) == (Some(v), answered(s)),
            ReplyView::Number(v) => s.ask_number(query) == (Some(v), answered(s)) && (v is Some
                ==> s.need_number(query) == (v, answered(s))),
            ReplyView::Resource(v) => s.ask_resource(query) == (Some(v), answered(s)),
            ReplyView::Source(v) => s.ask_source(query) == (Some(v), answered(s)),
            ReplyView::Parsed(v) => s.ask_parsed(query) == (Some(v), answered(s)),
        },
{
}

/// Without a reply a question is not answered, and the first one that is not is what the
/// evaluation waits for; nothing else changes.
pub proof fn lemma_question_kept(query: QueryView, s: SessionView)
    requires
        !has_reply(s),
    ensures
        ({
            let waiting = SessionView {
                pending: Some(
                    match s.pending {
                        Some(earlier) => earlier,
                        None => query,
                    },
                ),
                ..s
            };
            &&& s.ask_policy(query) == (None::<Option<crate::host::BuiltinBodyPolicy>>, waiting)
            &&& s.ask_text(query) == (None::<Option<Seq<char>>>, waiting)
            &&& s.need_text(query) == (None::<Seq<char>>, waiting)
            &&& s.ask_number(query) == (None::<Option<crate::number::Number>>, waiting)
            &&& s.need_number(query) == (None::<crate::number::Number>, waiting)
            &&& s.ask_value(query).0 is None && s.ask_value(query).1 == waiting
            &&& s.ask_scalar(query).0 is None && s.ask_scalar(query).1 == waiting
            &&& s.ask_domain(query).0 is None && s.ask_domain(query).1 == waiting
            &&& s.ask_integer(query).0 is None && s.ask_integer(query).1 == waiting
            &&& s.ask_range(query).0 is None && s.ask_range(query).1 == waiting
            &&& s.ask_resource(query).0 is None && s.ask_resource(query).1 == waiting
            &&& s.ask_source(query).0 is None && s.ask_source(query).1 == waiting
            &&& s.ask_parsed(query).0 is None && s.ask_parsed(query).1 == waiting
        }),
{
}

/// A reply that does not fit a question does not answer it.
pub proof fn lemma_reply_must_fit(query: QueryView, s: SessionView)
    requires
        has_reply(s),
    ensures
        ({
            let reply = s.replies[s.used as int];
            &&& !(reply is Text) ==> s.ask_text(query).0 is None && s.ask_text(query).1.pending
                == Some(query)
            &&& !(reply is Scalar) ==> s.ask_scalar(query).0 is None && s.ask_scalar(
                query,
            ).1.pending == Some(query)
            &&& !(reply is Domain) ==> s.ask_domain(query).0 is None && s.ask_domain(
                query,
            ).1.pending == Some(query)
            &&& !(reply is Number) ==> s.ask_number(query).0 is None && s.ask_number(
                query,
            ).1.pending == Some(query)
            &&& !(reply is Value) ==> s.ask_value(query).0 is None && s.ask_value(query).1.pending
                == Some(query)
            &&& !(reply is Policy) ==> s.ask_policy(query).0 is None && s.ask_policy(
                query,
            ).1.pending == Some(query)
            &&& !(reply is Integer) ==> s.ask_integer(query).0 is None && s.ask_integer(
                query,
            ).1.pending == Some(query)
            &&& !(reply is Range) ==> s.ask_range(query).0 is None && s.ask_range(query).1.pending
                == Some(query)
            &&& !(reply is Resource) ==> s.ask_resource(query).0 is None && s.ask_resource(
                query,
            ).1.pending == Some(query)
            &&& !(reply is Source) ==> s.ask_source(query).0 is None && s.ask_source(
                query,
            ).1.pending == Some(query)
            &&& !(reply is Parsed) ==> s.ask_parsed(query).0 is None && s.ask_parsed(
                query,
            ).1.pending == Some(query)
        }),
{
}

/// A report is added behind the others: an error at its place with its message and one hint, and
/// nothing else changes.
pub proof fn lemma_report_added(fault: Fault, message: Seq<char>, span: SourceSpan, s: SessionView)
    ensures
        ({
            let after = s.fault(fault, message, span);
            let report = after.diagnostics.last();
            &&& after.diagnostics.len() == s.diagnostics.len() + 1
            &&& after.diagnostics.drop_last() == s.diagnostics
            &&& after == SessionView { diagnostics: after.diagnostics, ..s }
            &&& report.message == message
            &&& report.primary == Some(span)
            &&& report.severity == Severity::Error
            &&& report.secondary.len() == 0
            &&& report.hints.len() == 1
        }),
{
    assert(s.fault(fault, message, span).diagnostics.drop_last() =~= s.diagnostics);
}

/// Wrong arguments of functions, lambdas, document calls and most native calls are `E3003`; values
/// that cannot be used are `E3001`; declarations of variables are `E3002`; content that is not
/// granted is `E3004`; limits are `E3005`; raw HTML is `E8001`.
pub proof fn lemma_report_codes(message: Seq<char>, span: SourceSpan)
    ensures
        forall|fault: Fault| #[trigger]
            diagnostic::fault_view(fault, message, span).code == (match fault {
                Fault::Function | Fault::DocumentCall | Fault::HtmlArgument => "E3003"@,
                Fault::Let | Fault::ImplicitParameter => "E3003"@,
                Fault::CenterArgument | Fault::AlignArgument => "E3003"@,
                Fault::LandscapeArgument | Fault::BrArgument => "E3003"@,
                Fault::WhitespaceArgument => "E3003"@,
                Fault::VarDeclaration | Fault::VarName => "E3002"@,
                Fault::HtmlDenied | Fault::MarkdownDenied => "E3004"@,
                Fault::MaterializedLimit | Fault::DepthLimit => "E3005"@,
                Fault::RawHtml => "E8001"@,
                _ => "E3001"@,
            }),
{
}

} // verus!
