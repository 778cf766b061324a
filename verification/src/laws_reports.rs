//! Laws of document state, of evaluated documents and of upstream reports.

use vstd::prelude::*;

use crate::document;
use crate::host::{
    ClosedEnumTarget, DomainTarget, DomainValue, InvocationNamedView, InvocationValueView,
    QueryView, ReplyView, SessionView,
};
use crate::ir::{IrDocumentType, IrEnumValue, SourceSpan, ValueView};
use crate::laws_builtins;
use crate::laws_leaves;
use crate::metadata::DocumentView;
use crate::outcome::OutcomeView;
use crate::scope::ContextView;
use crate::semantics;
use crate::semantics::{CallView, Evaluator, World};
use crate::text;
use crate::watch;
use crate::watch::{Status, WatchError};

verus! {

/// `.docname`, `.docdescription` and `.doctype` without arguments give the name, the description
/// and the type of the document, and change nothing.
pub proof fn lemma_document_read(e: Evaluator, span: SourceSpan, f: nat, w: World)
    ensures
        ({
            let name = semantics::eval_document_state(
                e,
                laws_builtins::positional_call("docname"@, Seq::empty(), span),
                f,
                w,
            );
            let description = semantics::eval_document_state(
                e,
                laws_builtins::positional_call("docdescription"@, Seq::empty(), span),
                f,
                w,
            );
            let kind = semantics::eval_document_state(
                e,
                laws_builtins::positional_call("doctype"@, Seq::empty(), span),
                f,
                w,
            );
            &&& name.w == w && description.w == w && kind.w == w
            &&& name.out == OutcomeView::Value(ValueView::String(w.s.document_state.name))
            &&& description.out == OutcomeView::Value(
                ValueView::String(w.s.document_state.description),
            )
            &&& kind.out == OutcomeView::Value(
                ValueView::String(
                    match w.s.document_state.document_type {
                        IrDocumentType::Plain => "plain"@,
                        IrDocumentType::Paged => "paged"@,
                        IrDocumentType::Slides => "slides"@,
                        IrDocumentType::Docs => "docs"@,
                    },
                ),
            )
        }),
{
    reveal(semantics::set_document_text);
    reveal(semantics::set_document_type);
    reveal(semantics::eval_document_state);
    reveal_strlit("docname");
    reveal_strlit("docdescription");
    reveal_strlit("doctype");
    assert("docname"@.len() == 7 && "docdescription"@.len() == 14 && "doctype"@.len() == 7);
    assert("docname"@[3] == 'n' && "doctype"@[3] == 't');
}

/// `.docname` and `.docdescription` with an argument write the text that the host makes of it; a
/// name that is white space alone is refused, and so is an argument without a text.
pub proof fn lemma_document_text_set(
    call: CallView,
    value: InvocationValueView,
    content: Seq<char>,
    w: World,
)
    requires
        call.positional.len() == 1,
        w.s.pending is None,
    ensures
        ({
            let r = semantics::set_document_text(call, seq![value], Seq::empty(), w);
            let state = r.w.s.document_state;
            &&& w.s.used >= w.s.replies.len() ==> r.w.s.pending == Some(
                QueryView::ScalarString { argument: value },
            )
            &&& w.s.used < w.s.replies.len() && w.s.replies[w.s.used as int] == ReplyView::Text(
                Some(content),
            ) && call.name == "docname"@ && text::trim(content).len() > 0 ==> r.out is NoValue
                && state.name == content && state.description == w.s.document_state.description
            &&& w.s.used < w.s.replies.len() && w.s.replies[w.s.used as int] == ReplyView::Text(
                Some(content),
            ) && call.name == "docname"@ && text::trim(content).len() == 0 ==> r.out is Failed
                && r.w.s.diagnostics.len() == w.s.diagnostics.len() + 1
                && r.w.s.diagnostics.last().code == "E3001"@
            &&& w.s.used < w.s.replies.len() && w.s.replies[w.s.used as int] == ReplyView::Text(
                Some(content),
            ) && call.name == "docdescription"@ ==> r.out is NoValue && state.description
                == content && state.name == w.s.document_state.name
            &&& w.s.used < w.s.replies.len() && w.s.replies[w.s.used as int] == ReplyView::Text(
                None,
            ) ==> r.out is Failed && r.w.s.diagnostics.len() == w.s.diagnostics.len() + 1
        }),
{
    reveal(semantics::set_document_text);
    reveal_strlit("docname");
    reveal_strlit("docdescription");
    assert("docname"@.len() != "docdescription"@.len());
}

/// `.doctype` with an argument sets the type that the host converts it to, and gives no value.
pub proof fn lemma_document_type_set(
    call: CallView,
    value: InvocationValueView,
    kind: IrDocumentType,
    w: World,
)
    requires
        call.positional.len() == 1,
        w.s.pending is None,
    ensures
        ({
            let r = semantics::set_document_type(call, seq![value], Seq::empty(), w);
            &&& w.s.used >= w.s.replies.len() ==> r.w.s.pending == Some(
                QueryView::Domain {
                    argument: value,
                    target: DomainTarget::ClosedEnum(ClosedEnumTarget::DocumentType),
                },
            )
            &&& w.s.used < w.s.replies.len() && w.s.replies[w.s.used as int] == ReplyView::Domain(
                Ok(DomainValue::Enum(IrEnumValue::DocumentType(kind))),
            ) ==> {
                &&& r.out is NoValue && r.w.c == w.c
                &&& r.w.s.document_state.document_type == kind
                &&& r.w.s.document_state.name == w.s.document_state.name
                &&& r.w.s.document_state.description == w.s.document_state.description
                &&& r.w.s.diagnostics == w.s.diagnostics
            }
        }),
{
    reveal(semantics::set_document_type);
}

/// The argument `type` of `.doctype` means the same as a positional one; anything else than one of
/// them is refused, and no document call takes a body.
pub proof fn lemma_document_arguments(
    e: Evaluator,
    call: CallView,
    value: InvocationValueView,
    named: Seq<InvocationNamedView>,
    kind: IrDocumentType,
    f: nat,
    w: World,
)
    ensures
        call.named.len() == 1 && named.len() == 1 && named[0].arg.name == "type"@
            && named[0].arg.value == value.value && named[0].origin == value.origin
            && w.s.pending is None && w.s.used < w.s.replies.len() && w.s.replies[w.s.used as int]
            == ReplyView::Domain(Ok(DomainValue::Enum(IrEnumValue::DocumentType(kind)))) ==> {
            let r = semantics::set_document_type(call, Seq::empty(), named, w);
            r.out is NoValue && r.w.s.document_state.document_type == kind
        },
        ({
            let r = semantics::set_document_type(call, seq![value, value], Seq::empty(), w);
            &&& r.out is Failed && r.w.s.document_state == w.s.document_state
            &&& laws_leaves::reported(w.s, r.w.s, "E3003"@, call.span)
        }),
        ({
            let r = semantics::set_document_text(call, seq![value, value], Seq::empty(), w);
            &&& r.out is Failed && r.w.s.document_state == w.s.document_state
            &&& laws_leaves::reported(w.s, r.w.s, "E3003"@, call.span)
        }),
        call.body is Some ==> {
            let r = semantics::eval_document_state(e, call, f, w);
            &&& r.out is Failed && r.w.c == w.c
            &&& laws_leaves::reported(w.s, r.w.s, "E3003"@, call.span)
        },
{
    reveal(semantics::set_document_type);
    reveal(semantics::set_document_text);
    reveal(semantics::eval_document_state);
    let n = w.s.diagnostics.len() as int;
    let a = semantics::set_document_type(call, seq![value, value], Seq::empty(), w);
    assert(a.w.s.diagnostics.take(n) =~= w.s.diagnostics);
    let b = semantics::set_document_text(call, seq![value, value], Seq::empty(), w);
    assert(b.w.s.diagnostics.take(n) =~= w.s.diagnostics);
    if call.body is Some {
        let c = semantics::eval_document_state(e, call, f, w);
        assert(c.w.s.diagnostics.take(n) =~= w.s.diagnostics);
    }
}

/// A document is evaluated from its own state on, with all frames left: its blocks become what
/// they evaluate to, its state is the one that is left, and everything else that is said of it
/// stays.
pub proof fn lemma_document_evaluated(
    e: Evaluator,
    document: DocumentView,
    s: SessionView,
    c: ContextView,
)
    ensures
        ({
            let blocks = semantics::eval_nodes(
                e,
                document.nodes,
                e.limits.max_evaluation_depth as nat,
                World {
                    s: SessionView { document_state: document.metadata.document_state, ..s },
                    c,
                },
            );
            let r = semantics::eval_document(e, document, s, c);
            &&& r.0.nodes == blocks.out
            &&& r.1 == blocks.w.s
            &&& r.0.metadata.document_state == blocks.w.s.document_state
            &&& r.0.metadata.title == document.metadata.title
            &&& r.0.metadata.author == document.metadata.author
            &&& r.0.metadata.date == document.metadata.date
            &&& r.0.metadata.fields == document.metadata.fields
        }),
{
    reveal(semantics::eval_document);
}

/// An evaluation starts with all replies unused, nothing reported and no question open.
pub proof fn lemma_fresh_start(replies: Seq<ReplyView>)
    ensures
        ({
            let s = document::fresh_session(replies);
            &&& s.replies == replies && s.used == 0
            &&& s.pending is None
            &&& s.diagnostics.len() == 0
            &&& s.document_state.name.len() == 0 && s.document_state.description.len() == 0
            &&& s.document_state.document_type == IrDocumentType::Plain
        }),
{
}

/// A release is current where its tag is the baseline and drifts where it is not; only a drift has
/// an issue key, which is the upstream and the tag with a colon between them.
pub proof fn lemma_release_compared(id: Seq<char>, baseline: Seq<char>, tag: Seq<char>)
    ensures
        watch::status_of(baseline, baseline) == Status::Current,
        watch::key_of_issue(id, baseline, baseline) is None,
        tag != baseline ==> watch::status_of(baseline, tag) == Status::Drift
            && watch::key_of_issue(id, baseline, tag) == Some(id + seq![':'] + tag),
{
    reveal_strlit(":");
    assert(":"@ =~= seq![':']);
}

/// An observation needs a tag and an address that are more than white space; a tag that is missing
/// is said before an address that is.
pub proof fn lemma_observation_checked(tag: Seq<char>, url: Seq<char>)
    ensures
        watch::observation_error(tag, url) == (if text::trim(tag).len() == 0 {
            Some(WatchError::EmptyObservedTag)
        } else if text::trim(url).len() == 0 {
            Some(WatchError::EmptyObservedUrl)
        } else {
            None
        }),
        watch::watch_message(WatchError::EmptyObservedTag) == "Observed tag cannot be empty"@,
        watch::watch_message(WatchError::EmptyObservedUrl) == "Observed URL cannot be empty"@,
{
}

/// A report has the upstream, the baseline, the tag and the status on lines of their own in that
/// order, and the issue key on a last one where there is one.
pub proof fn lemma_report_lines(
    upstream: Seq<char>,
    baseline: Seq<char>,
    tag: Seq<char>,
    key: Seq<char>,
)
    ensures
        ({
            let current = watch::report_lines(upstream, baseline, tag, Status::Current, None);
            let drift = watch::report_lines(upstream, baseline, tag, Status::Drift, Some(key));
            &&& current.len() == 4 && drift.len() == 5
            &&& current[0] == "Upstream: "@ + upstream && drift[0] == current[0]
            &&& current[1] == "Supported baseline: "@ + baseline && drift[1] == current[1]
            &&& current[2] == "Observed tag: "@ + tag && drift[2] == current[2]
            &&& current[3] == "Status: "@ + "Current"@
            &&& drift[3] == "Status: "@ + "Drift"@
            &&& drift[4] == "Issue key: "@ + key
        }),
        watch::status_code(Status::Current) == "current"@,
        watch::status_code(Status::Drift) == "drift"@,
{
}

} // verus!
