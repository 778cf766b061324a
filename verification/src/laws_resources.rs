//! Laws of resources: what is asked of the host, and what is made of its answer.

use vstd::prelude::*;

use crate::diagnostic::Severity;
use crate::host::{
    AccessErrorView, ParsedSourceView, QueryView, ReplyView, ResourceTextView, SessionView,
};
use crate::ir::{IrRange, NamedArgView, SourceId, SourceSpan, ValueView};
use crate::json;
use crate::laws_leaves;
use crate::lines;
use crate::outcome::OutcomeView;
use crate::resources;
use crate::resources::IncludeSandbox;
use crate::scope;
use crate::scope::ContextView;
use crate::semantics;
use crate::semantics::{Evaluator, World};
use crate::text;

verus! {

/// Whether the host supplies resources for a source.
pub open spec fn supplied(c: ContextView, source: SourceId) -> bool {
    c.has_resources && c.current_source == Some(source)
}

/// Whether the host answers the next questions with a path and with a resource.
pub open spec fn resource_told(
    s: SessionView,
    reference: Seq<char>,
    resource: ResourceTextView,
) -> bool {
    &&& s.pending is None
    &&& s.used + 1 < s.replies.len()
    &&& s.replies[s.used as int] == ReplyView::Text(Some(reference))
    &&& s.replies[s.used as int + 1] == ReplyView::Resource(Ok(resource))
}

/// The argument `lines` of `.read`.
pub open spec fn lines_argument(range: IrRange, at: SourceSpan) -> NamedArgView {
    NamedArgView { name: "lines"@, name_span: at, value: ValueView::Range(range), span: at }
}

/// `.read` gives the text of a resource with its line separators normalized, or the lines of it
/// that are asked for.
pub proof fn lemma_text_read(
    path: ValueView,
    reference: Seq<char>,
    resource: ResourceTextView,
    range: IrRange,
    source: SourceId,
    at: SourceSpan,
    span: SourceSpan,
    w: World,
)
    requires
        supplied(w.c, source),
        resource_told(w.s, reference, resource),
    ensures
        ({
            let r = semantics::eval_read(seq![path], Seq::empty(), span, w);
            &&& r.w.c == w.c
            &&& r.w.s == SessionView { used: w.s.used + 2, ..w.s }
            &&& r.out == OutcomeView::Value(ValueView::String(lines::normalized(resource.text)))
        }),
        ({
            let r = semantics::eval_read(seq![path], seq![lines_argument(range, at)], span, w);
            match lines::selected_lines(resource.text, range) {
                Ok(content) => r.out == OutcomeView::Value(ValueView::String(content)) && r.w.s
                    == SessionView { used: w.s.used + 2, ..w.s },
                Err(_) => r.out is Failed && laws_leaves::reported(
                    SessionView { used: w.s.used + 2, ..w.s },
                    r.w.s,
                    "E3001"@,
                    span,
                ),
            }
        }),
{
    reveal(semantics::eval_read);
    lemma_path_given("read"@, path, reference, span, w.s);
    let arg = lines_argument(range, at);
    let named = seq![arg];
    assert(named.drop_last() =~= Seq::empty());
    assert(resources::lines_argument(Seq::empty(), w.s) == (Some(None::<IrRange>), w.s));
    let told = SessionView { used: w.s.used + 1, ..w.s };
    assert(resources::named_path("read"@, Seq::empty(), w.s) == (
        Some(None::<ValueView>),
        w.s,
    ));
    reveal_strlit("lines");
    reveal_strlit("path");
    assert("lines"@.len() != "path"@.len());
    assert(resources::named_path("read"@, named, w.s) == (Some(None::<ValueView>), w.s));
    assert(resources::lines_argument(Seq::empty(), told) == (Some(None::<IrRange>), told));
    assert(resources::lines_argument(named, told) == (Some(Some(range)), told));
    let r = semantics::eval_read(seq![path], named, span, w);
    if lines::selected_lines(resource.text, range) is Err {
        let n = w.s.diagnostics.len() as int;
        assert(r.w.s.diagnostics.take(n) =~= w.s.diagnostics);
    }
}

proof fn lemma_path_given(
    builtin: Seq<char>,
    path: ValueView,
    reference: Seq<char>,
    span: SourceSpan,
    s: SessionView,
)
    requires
        s.pending is None,
        s.used < s.replies.len(),
        s.replies[s.used as int] == ReplyView::Text(Some(reference)),
    ensures
        resources::resource_path(builtin, seq![path], Seq::empty(), span, s) == (
            Some(reference),
            SessionView { used: s.used + 1, ..s },
        ),
{
    assert(resources::named_path(builtin, Seq::empty(), s) == (Some(None::<ValueView>), s));
}

/// A resource is asked for by the source that the call stands in and by the path that the host
/// makes of the argument.
pub proof fn lemma_resource_asked(
    path: ValueView,
    reference: Seq<char>,
    source: SourceId,
    span: SourceSpan,
    w: World,
)
    requires
        supplied(w.c, source),
        w.s.pending is None,
    ensures
        w.s.used >= w.s.replies.len() ==> semantics::eval_read(
            seq![path],
            Seq::empty(),
            span,
            w,
        ).w.s.pending == Some(QueryView::AdaptString { value: path }),
        w.s.used + 1 == w.s.replies.len() && w.s.replies[w.s.used as int] == ReplyView::Text(
            Some(reference),
        ) ==> {
            &&& semantics::eval_read(seq![path], Seq::empty(), span, w).w.s.pending == Some(
                QueryView::ReadText { source_id: source, reference },
            )
            &&& semantics::eval_json(seq![path], Seq::empty(), span, w).w.s.pending == Some(
                QueryView::ReadText { source_id: source, reference },
            )
        },
{
    reveal(semantics::json_outcome);
    reveal(semantics::eval_read);
    reveal(semantics::eval_json);
    assert(resources::named_path("read"@, Seq::empty(), w.s) == (
        Some(None::<ValueView>),
        w.s,
    ));
    assert(resources::named_path("json"@, Seq::empty(), w.s) == (
        Some(None::<ValueView>),
        w.s,
    ));
    let told = SessionView { used: w.s.used + 1, ..w.s };
    assert(resources::lines_argument(Seq::empty(), told) == (Some(None::<IrRange>), told));
    if w.s.used < w.s.replies.len() && w.s.replies[w.s.used as int] == ReplyView::Text(
        Some(reference),
    ) {
        lemma_path_given("read"@, path, reference, span, w.s);
        lemma_path_given("json"@, path, reference, span, w.s);
    }
}

/// `.json` gives the value of the tree that the text of the resource is; a text that is none, and a
/// tree that has no value, are reported.
pub proof fn lemma_json_read(
    path: ValueView,
    reference: Seq<char>,
    resource: ResourceTextView,
    source: SourceId,
    span: SourceSpan,
    w: World,
)
    requires
        supplied(w.c, source),
        resource_told(w.s, reference, resource),
    ensures
        ({
            let told = SessionView { used: w.s.used + 2, ..w.s };
            let r = semantics::eval_json(seq![path], Seq::empty(), span, w);
            &&& r.w.c == w.c
            &&& match json::json_parse(resource.text) {
                Ok(tree) => match json::json_value(tree, span) {
                    Ok(value) => r.out == OutcomeView::Value(value) && r.w.s == told,
                    Err(_) => r.out is Failed && laws_leaves::reported(
                        told,
                        r.w.s,
                        "E3001"@,
                        span,
                    ),
                },
                Err(_) => r.out is Failed && laws_leaves::reported(told, r.w.s, "E3001"@, span),
            }
        }),
{
    reveal(semantics::eval_json);
    reveal(semantics::json_outcome);
    lemma_path_given("json"@, path, reference, span, w.s);
    let r = semantics::eval_json(seq![path], Seq::empty(), span, w);
    if r.out is Failed {
        let n = w.s.diagnostics.len() as int;
        assert(r.w.s.diagnostics.take(n) =~= w.s.diagnostics);
    }
}

/// Where the host cannot give the resource, `.read` and `.json` fail and say why; `.json` takes no
/// named arguments.
pub proof fn lemma_resource_refused(
    path: ValueView,
    reference: Seq<char>,
    error: AccessErrorView,
    arg: NamedArgView,
    source: SourceId,
    span: SourceSpan,
    w: World,
)
    requires
        supplied(w.c, source),
        w.s.pending is None,
        w.s.used + 1 < w.s.replies.len(),
        w.s.replies[w.s.used as int] == ReplyView::Text(Some(reference)),
        w.s.replies[w.s.used as int + 1] == ReplyView::Resource(Err(error)),
    ensures
        ({
            let told = SessionView { used: w.s.used + 2, ..w.s };
            let code = resources::access_diagnostic("read"@, error, span).code;
            let read = semantics::eval_read(seq![path], Seq::empty(), span, w);
            let json = semantics::eval_json(seq![path], Seq::empty(), span, w);
            &&& read.out is Failed && laws_leaves::reported(told, read.w.s, code, span)
            &&& json.out is Failed && laws_leaves::reported(told, json.w.s, code, span)
        }),
        arg.name == "path"@ ==> semantics::eval_json(Seq::empty(), seq![arg], span, w).out
            is Failed,
{
    reveal(semantics::json_outcome);
    reveal(semantics::eval_read);
    reveal(semantics::eval_json);
    lemma_path_given("read"@, path, reference, span, w.s);
    lemma_path_given("json"@, path, reference, span, w.s);
    let told = SessionView { used: w.s.used + 1, ..w.s };
    assert(resources::lines_argument(Seq::empty(), told) == (Some(None::<IrRange>), told));
    let n = w.s.diagnostics.len() as int;
    let read = semantics::eval_read(seq![path], Seq::empty(), span, w);
    assert(read.w.s.diagnostics.take(n) =~= w.s.diagnostics);
    let json = semantics::eval_json(seq![path], Seq::empty(), span, w);
    assert(json.w.s.diagnostics.take(n) =~= w.s.diagnostics);
    lemma_access_codes("read"@, error, span);
    lemma_access_codes("json"@, error, span);
}

/// A resource that the host cannot give is an error at the call: one that is missing or not text
/// is `E3001`, one that is not inside the project is `E8001`, and one that is asked for from an
/// unknown source is `E9001`.
pub proof fn lemma_access_codes(builtin: Seq<char>, error: AccessErrorView, span: SourceSpan)
    ensures
        resources::access_diagnostic(builtin, error, span).primary == Some(span),
        resources::access_diagnostic(builtin, error, span).code == (match error {
            AccessErrorView::NotFound { .. } => "E3001"@,
            AccessErrorView::InvalidUtf8 { .. } => "E3001"@,
            AccessErrorView::UnsupportedReference { .. } => "E8001"@,
            AccessErrorView::Boundary { .. } => "E8001"@,
            AccessErrorView::UnknownSource { .. } => "E9001"@,
        }),
{
}

/// Without resources a resource builtin fails at the call, and so it does without a source.
pub proof fn lemma_resources_missing(c: ContextView, span: SourceSpan, s: SessionView)
    ensures
        !c.has_resources ==> {
            let r = resources::calling_source(c, span, s);
            r.0 is None && laws_leaves::reported(s, r.1, "E8001"@, span)
        },
        c.has_resources && c.current_source is None ==> {
            let r = resources::calling_source(c, span, s);
            r.0 is None && laws_leaves::reported(s, r.1, "E9001"@, span)
        },
        c.has_resources && c.current_source is Some ==> resources::calling_source(c, span, s) == (
            c.current_source,
            s,
        ),
{
    let r = resources::calling_source(c, span, s);
    if r.0 is None {
        assert(r.1.diagnostics.take(s.diagnostics.len() as int) =~= s.diagnostics);
    }
}

/// The sandbox of an inclusion is named by `share`, `scope` or `subdocument`, in letters of either
/// case, and by nothing else.
pub proof fn lemma_sandbox_names(name: Seq<char>)
    ensures
        ({
            let word = text::lower(name);
            resources::sandbox_named(name) == (if word == seq!['s', 'h', 'a', 'r', 'e'] {
                Some(IncludeSandbox::Share)
            } else if word == seq!['s', 'c', 'o', 'p', 'e'] {
                Some(IncludeSandbox::Scope)
            } else if word == seq!['s', 'u', 'b', 'd', 'o', 'c', 'u', 'm', 'e', 'n', 't'] {
                Some(IncludeSandbox::Subdocument)
            } else {
                None
            })
        }),
{
    reveal_strlit("share");
    reveal_strlit("scope");
    reveal_strlit("subdocument");
    assert("share"@ =~= seq!['s', 'h', 'a', 'r', 'e']);
    assert("scope"@ =~= seq!['s', 'c', 'o', 'p', 'e']);
    assert("subdocument"@ =~= seq!['s', 'u', 'b', 'd', 'o', 'c', 'u', 'm', 'e', 'n', 't']);
}

/// What is inserted is the content of the source, parsed as the ending of its path says. Shared, it
/// is evaluated in the scope of the call, and what it declares stays; otherwise in a scope of its
/// own.
pub proof fn lemma_source_inserted(
    e: Evaluator,
    target: SourceId,
    path: Seq<char>,
    content: Seq<char>,
    sandbox: IncludeSandbox,
    parsed: ParsedSourceView,
    f: nat,
    w: World,
)
    requires
        w.s.pending is None,
    ensures
        w.s.used >= w.s.replies.len() ==> semantics::eval_source(
            e,
            target,
            path,
            content,
            sandbox,
            f,
            w,
        ).w.s.pending == Some(
            QueryView::Parse {
                source_id: target,
                text: content,
                mode: lines::mode_of_path(path),
                metadata_defaults: w.c.metadata_defaults,
            },
        ),
        w.s.used < w.s.replies.len() && w.s.replies[w.s.used as int] == ReplyView::Parsed(parsed)
            && parsed.diagnostics.len() == 0 && parsed.lowering_diagnostics.len() == 0 ==> {
            let told = SessionView { used: w.s.used + 1, ..w.s };
            let shared = ContextView {
                current_source: Some(target),
                active_sources: w.c.active_sources.push(target),
                ..w.c
            };
            let own = ContextView {
                parent: Some(
                    Box::new(
                        ContextView {
                            active_sources: w.c.active_sources.push(target),
                            ..w.c
                        },
                    ),
                ),
                variables: Seq::empty(),
                functions: Seq::empty(),
                lambda_scope: None,
                ..shared
            };
            let inside = semantics::eval_nodes(
                e,
                parsed.nodes,
                f,
                World {
                    s: told,
                    c: if sandbox is Share {
                        shared
                    } else {
                        own
                    },
                },
            );
            let r = semantics::eval_source(e, target, path, content, sandbox, f, w);
            &&& r.w.s == inside.w.s
            &&& inside.w.s.diagnostics.len() == w.s.diagnostics.len() ==> r.out
                == OutcomeView::Value(ValueView::Content(inside.out))
            &&& inside.w.s.diagnostics.len() != w.s.diagnostics.len() ==> r.out is Failed
            &&& sandbox is Share ==> r.w.c.variables == inside.w.c.variables && r.w.c.functions
                == inside.w.c.functions
            &&& !(sandbox is Share) ==> r.w.c == w.c
        },
{
    reveal(semantics::eval_source);
}

/// What the parser says of a source that is inserted is reported, in order, and nothing is
/// inserted.
pub proof fn lemma_source_not_parsed(
    e: Evaluator,
    target: SourceId,
    path: Seq<char>,
    content: Seq<char>,
    sandbox: IncludeSandbox,
    parsed: ParsedSourceView,
    f: nat,
    w: World,
)
    requires
        w.s.pending is None,
        w.s.used < w.s.replies.len(),
        w.s.replies[w.s.used as int] == ReplyView::Parsed(parsed),
    ensures
        ({
            let r = semantics::eval_source(e, target, path, content, sandbox, f, w);
            let n = w.s.diagnostics.len();
            &&& parsed.diagnostics.len() > 0 ==> {
                &&& r.out is Failed && r.w.c == w.c
                &&& r.w.s.diagnostics.len() == n + parsed.diagnostics.len()
                &&& r.w.s.diagnostics.take(n as int) == w.s.diagnostics
                &&& forall|i: int|
                    0 <= i < parsed.diagnostics.len() ==> {
                        let told = #[trigger] parsed.diagnostics[i];
                        let report = r.w.s.diagnostics[n + i];
                        &&& report.code == told.code
                        &&& report.message == told.message
                        &&& report.severity == Severity::Error
                        &&& report.primary == Some(
                            SourceSpan { source_id: target, start: told.start, end: told.end },
                        )
                    }
            }
            &&& parsed.diagnostics.len() == 0 && parsed.lowering_diagnostics.len() > 0 ==> {
                &&& r.out is Failed && r.w.c == w.c
                &&& r.w.s.diagnostics == w.s.diagnostics + parsed.lowering_diagnostics
            }
        }),
{
    reveal(semantics::eval_source);
    let r = semantics::eval_source(e, target, path, content, sandbox, f, w);
    if parsed.diagnostics.len() > 0 {
        assert(r.w.s.diagnostics.take(w.s.diagnostics.len() as int) =~= w.s.diagnostics);
    }
}

/// What is said of a resource that the host does not give ends in what the host says of it, and
/// says which resource is not text.
pub proof fn lemma_access_told(error: AccessErrorView)
    ensures
        ({
            let told = resources::access_message(error);
            match error {
                AccessErrorView::UnsupportedReference { reference } => ends_in(told, reference),
                AccessErrorView::UnknownSource { source_id } => ends_in(
                    told,
                    text::decimal_text(source_id.0 as nat) + ")"@,
                ),
                AccessErrorView::Boundary { message } => ends_in(told, message),
                AccessErrorView::NotFound { path } => ends_in(told, path),
                AccessErrorView::InvalidUtf8 { path, message } => ends_in(
                    told,
                    path + ": "@ + message,
                ),
            }
        }),
{
    let told = resources::access_message(error);
    match error {
        AccessErrorView::UnsupportedReference { reference } => {
            assert(told.skip(told.len() - reference.len()) =~= reference);
        },
        AccessErrorView::UnknownSource { source_id } => {
            let end = text::decimal_text(source_id.0 as nat) + ")"@;
            assert(told.skip(told.len() - end.len()) =~= end);
        },
        AccessErrorView::Boundary { message } => {
            assert(told.skip(told.len() - message.len()) =~= message);
        },
        AccessErrorView::NotFound { path } => {
            assert(told.skip(told.len() - path.len()) =~= path);
        },
        AccessErrorView::InvalidUtf8 { path, message } => {
            let end = path + ": "@ + message;
            assert(told.skip(told.len() - end.len()) =~= end);
        },
    }
}

/// Whether a text ends in another.
pub open spec fn ends_in(s: Seq<char>, end: Seq<char>) -> bool {
    end.len() <= s.len() && s.skip(s.len() - end.len()) == end
}

} // verus!
