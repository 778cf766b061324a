//! More answers and higher limits keep what is settled: resources.

use vstd::prelude::*;

use crate::growth;
use crate::growth::Growth;
use crate::growth_helpers;
use crate::growth_sequences;
use crate::host::{AccessErrorView, QueryView, SessionView};
use crate::ir::{NamedArgView, SourceId, SourceSpan, ValueView};
use crate::json;
use crate::json::JsonView;
use crate::lines;
use crate::resources;
use crate::resources::IncludeSandbox;
use crate::scope;
use crate::scope::ContextView;
use crate::semantics;
use crate::semantics::{CallView, Evaluator, World};

verus! {

broadcast use growth::group_within;

/// What `eval_resource` comes to is kept.
pub(crate) proof fn lemma_eval_resource(
    e: Evaluator,
    call: CallView,
    f: nat,
    w: World,
    grow: Growth,
)
    requires
        growth::fits(e, grow),
    ensures
        growth::kept(
            w,
            semantics::eval_resource(e, call, f, w),
            semantics::eval_resource(
                growth::evaluator(e, grow),
                call,
                f + grow.depth,
                growth::world(w, grow),
            ),
            grow,
        ),
    decreases f, 6int, e, 0int,
{
    reveal(semantics::eval_resource);
    reveal(semantics::eval_include);
    reveal(semantics::eval_json);
    reveal(semantics::eval_read);
    if call.body is Some {
    } else {
        growth_sequences::lemma_eval_values(e, call.positional, call.span, f, w, grow);
        let values = semantics::eval_values(e, call.positional, call.span, f, w);
        match values.out {
            None => {},
            Some(positional) => {
                growth_sequences::lemma_eval_named(e, call.named, call.span, f, values.w, grow);
                let args = semantics::eval_named(e, call.named, call.span, f, values.w);
                match args.out {
                    None => {},
                    Some(named) => {
                        if call.name == "read"@ {
                            lemma_eval_read(positional, named, call.span, args.w, grow);
                        } else {
                            if call.name == "json"@ {
                                lemma_eval_json(positional, named, call.span, args.w, grow);
                            } else {
                                if call.name == "include"@ {
                                    lemma_eval_include(
                                        e,
                                        positional,
                                        named,
                                        call.span,
                                        f,
                                        args.w,
                                        grow,
                                    );
                                }
                            }
                        }
                    },
                }
            },
        }
    }
}

/// What `eval_read` comes to is kept.
pub(crate) proof fn lemma_eval_read(
    positional: Seq<ValueView>,
    named: Seq<NamedArgView>,
    span: SourceSpan,
    w: World,
    grow: Growth,
)
    ensures
        growth::kept(
            w,
            semantics::eval_read(positional, named, span, w),
            semantics::eval_read(positional, named, span, growth::world(w, grow)),
            grow,
        ),
{
    reveal(semantics::eval_read);
    growth_helpers::lemma_resource_path("read"@, positional, named, span, w.s, grow);
    match resources::resource_path("read"@, positional, named, span, w.s) {
        (None, s) => {},
        (Some(reference), s) => {
            growth_helpers::lemma_lines_argument(named, s, grow);
            match resources::lines_argument(named, s) {
                (None, t) => {},
                (Some(lines), t) => {
                    growth_helpers::lemma_calling_source(w.c, span, t, grow);
                },
            }
        },
    }
}

/// What `eval_json` comes to is kept.
pub(crate) proof fn lemma_eval_json(
    positional: Seq<ValueView>,
    named: Seq<NamedArgView>,
    span: SourceSpan,
    w: World,
    grow: Growth,
)
    ensures
        growth::kept(
            w,
            semantics::eval_json(positional, named, span, w),
            semantics::eval_json(positional, named, span, growth::world(w, grow)),
            grow,
        ),
{
    reveal(semantics::eval_json);
    reveal(semantics::json_outcome);
    growth_helpers::lemma_resource_path("json"@, positional, named, span, w.s, grow);
    match resources::resource_path("json"@, positional, named, span, w.s) {
        (None, s) => {},
        (Some(reference), s) => {
            if named.len() > 0 {
            } else {
                growth_helpers::lemma_calling_source(w.c, span, s, grow);
                match resources::calling_source(w.c, span, s) {
                    (None, u) => {},
                    (Some(source_id), u) => {
                        match u.ask_resource(QueryView::ReadText { source_id, reference }) {
                            (None, v) => {},
                            (Some(Err(error)), v) => {},
                            (Some(Ok(resource)), v) => {
                                lemma_json_outcome(
                                    resource.path,
                                    json::json_parse(resource.text),
                                    span,
                                    w.on(v),
                                    grow,
                                );
                            },
                        }
                    },
                }
            }
        },
    }
}

/// What `json_outcome` comes to is kept.
pub(crate) proof fn lemma_json_outcome(
    path: Seq<char>,
    parsed: Result<json::JsonView,
    Seq<char>>,
    span: SourceSpan,
    w: World,
    grow: Growth,
)
    ensures
        growth::kept(
            w,
            semantics::json_outcome(path, parsed, span, w),
            semantics::json_outcome(path, parsed, span, growth::world(w, grow)),
            grow,
        ),
{
    reveal(semantics::json_outcome);

}

/// What `source_paths` comes to is kept.
pub(crate) proof fn lemma_source_paths(sources: Seq<SourceId>, s: SessionView, grow: Growth)
    ensures
        growth::kept_answer(
            s,
            semantics::source_paths(sources, s),
            semantics::source_paths(sources, growth::session(s, grow)),
            grow,
        ),
    decreases sources.len(),
{
    reveal(semantics::source_paths);
    if sources.len() == 0 {
    } else {
        lemma_source_paths(sources.drop_last(), s, grow);
    }
}

/// What `eval_include` comes to is kept.
pub(crate) proof fn lemma_eval_include(
    e: Evaluator,
    positional: Seq<ValueView>,
    named: Seq<NamedArgView>,
    span: SourceSpan,
    f: nat,
    w: World,
    grow: Growth,
)
    requires
        growth::fits(e, grow),
    ensures
        growth::kept(
            w,
            semantics::eval_include(e, positional, named, span, f, w),
            semantics::eval_include(
                growth::evaluator(e, grow),
                positional,
                named,
                span,
                f + grow.depth,
                growth::world(w, grow),
            ),
            grow,
        ),
    decreases f, 5int, e, 1int,
{
    reveal(semantics::eval_include);
    reveal(semantics::eval_source);
    reveal(semantics::source_paths);
    growth_helpers::lemma_resource_path("include"@, positional, named, span, w.s, grow);
    match resources::resource_path("include"@, positional, named, span, w.s) {
        (None, s) => {},
        (Some(reference), s) => {
            growth_helpers::lemma_sandbox_argument(named, s, grow);
            match resources::sandbox_argument(named, s) {
                (None, t) => {},
                (Some(sandbox), t) => {
                    growth_helpers::lemma_calling_source(w.c, span, t, grow);
                    match resources::calling_source(w.c, span, t) {
                        (None, u) => {},
                        (Some(source_id), u) => {
                            match u.ask_source(QueryView::ReadSource { source_id, reference }) {
                                (None, v) => {},
                                (Some(Err(AccessErrorView::NotFound { path })), v) => {},
                                (Some(Err(error)), v) => {},
                                (Some(Ok(source)), v) => {
                                    match semantics::active_place(
                                        w.c.active_sources,
                                        source.source_id,
                                    ) {
                                        Some(i) => {
                                            lemma_source_paths(w.c.active_sources.skip(i), v, grow);
                                        },
                                        None => {
                                            lemma_eval_source(
                                                e,
                                                source.source_id,
                                                source.path,
                                                source.text,
                                                match sandbox {
                                                    Some(sandbox) => sandbox,
                                                    None => IncludeSandbox::Share,
                                                },
                                                f,
                                                w.on(v),
                                                grow,
                                            );
                                        },
                                    }
                                },
                            }
                        },
                    }
                },
            }
        },
    }
}

/// What `eval_source` comes to is kept.
pub(crate) proof fn lemma_eval_source(
    e: Evaluator,
    target: SourceId,
    path: Seq<char>,
    content: Seq<char>,
    sandbox: IncludeSandbox,
    f: nat,
    w: World,
    grow: Growth,
)
    requires
        growth::fits(e, grow),
    ensures
        growth::kept(
            w,
            semantics::eval_source(e, target, path, content, sandbox, f, w),
            semantics::eval_source(
                growth::evaluator(e, grow),
                target,
                path,
                content,
                sandbox,
                f + grow.depth,
                growth::world(w, grow),
            ),
            grow,
        ),
    decreases f, 5int, e, 0int,
{
    reveal(semantics::eval_source);
    match w.s.ask_parsed(QueryView::Parse {
        source_id: target,
        text: content,
        mode: lines::mode_of_path(path),
        metadata_defaults: w.c.metadata_defaults,
    }) {
        (None, s) => {},
        (Some(parsed), s) => {
            if parsed.diagnostics.len() > 0 {
            } else {
                if parsed.lowering_diagnostics.len() > 0 {
                } else {
                    let inner = match sandbox {
                        IncludeSandbox::Share => ContextView {
                            current_source: Some(target),
                            active_sources: w.c.active_sources.push(target),
                            ..w.c
                        },
                        _ => ContextView {
                            current_source: Some(target),
                            active_sources: w.c.active_sources.push(target),
                            ..scope::child_context(ContextView {
                                active_sources: w.c.active_sources.push(target),
                                ..w.c
                            })
                        },
                    };
                    growth_sequences::lemma_eval_nodes(
                        e,
                        parsed.nodes,
                        f,
                        World { s, c: inner },
                        grow,
                    );
                }
            }
        },
    }
}

} // verus!
