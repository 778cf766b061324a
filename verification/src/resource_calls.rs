//! Calls that read resources of the project.

use vstd::prelude::*;

use crate::diagnostic;
use crate::diagnostic::{Diagnostic, Severity};
use crate::evaluator::Call;
use crate::host;
use crate::host::{
    IncludedSource, ParseDiagnostic, ParsedSource, Query, ResourceAccessError, Session, SessionView,
};
use crate::ir;
use crate::ir::{IrNamedArg, IrValue, SourceId, SourceSpan};
use crate::json;
use crate::json::{json_value_to_ir, parse_json, JsonValue};
use crate::lines;
use crate::lines::{normalize_line_separators, select_lines, source_mode_for_resource_path};
use crate::metadata::copy_defaults;
use crate::outcome::CallOutcome;
use crate::resources;
use crate::resources::{
    include_sandbox_argument, resource_access_diagnostic, resource_context, resource_lines_argument,
    resource_path_argument, IncludeSandbox,
};
use crate::scope;
use crate::scope::{copy_source_ids, EvaluationContext};
use crate::semantics;
use crate::semantics::{Ev, Evaluator, World};
use crate::sequences;
use crate::text::{join3, join4, same_text};
use crate::views;

verus! {

broadcast use {
    crate::ir::group_ir_views,
    crate::host::group_host_views,
    crate::diagnostic::group_diagnostic_views,
    host::group_follows,
    scope::group_stays,
};

/// The first place of a source among those that are active.
pub fn place_of_source(active: &Vec<SourceId>, source: SourceId) -> (r: Option<usize>)
    ensures
        (match r {
            Some(i) => Some(i as int),
            None => None,
        }) == semantics::active_place(active@, source),
        r matches Some(i) ==> i < active@.len(),
{
    let mut i: usize = 0;
    assert(active@.take(0) =~= Seq::empty());
    while i < active.len()
        invariant
            0 <= i <= active@.len(),
            semantics::active_place(active@.take(i as int), source) is None,
        decreases active@.len() - i,
    {
        proof {
            sequences::lemma_take_step(active@, i as int);
        }
        if active[i].0 == source.0 {
            proof {
                lemma_active_place_stays(active@, source, i + 1);
            }
            return Some(i);
        }
        i += 1;
    }
    proof {
        sequences::lemma_take_all(active@);
    }
    None
}

/// The first place stays the first, however many sources follow.
proof fn lemma_active_place_stays(active: Seq<SourceId>, source: SourceId, i: int)
    requires
        0 <= i <= active.len(),
        semantics::active_place(active.take(i), source) is Some,
    ensures
        semantics::active_place(active, source) == semantics::active_place(
            active.take(i),
            source,
        ),
    decreases active.len() - i,
{
    if i == active.len() {
        sequences::lemma_take_all(active);
    } else {
        sequences::lemma_take_step(active, i);
        lemma_active_place_stays(active, source, i + 1);
    }
}

/// The paths of the active sources from a place on, joined by arrows.
fn join_source_paths(
    active: &Vec<SourceId>,
    from: usize,
    session: &mut Session,
) -> (r: Option<String>)
    requires
        from <= active@.len(),
    ensures
        (match r {
            Some(paths) => Some(paths@),
            None => None,
        }, final(session)@) == semantics::source_paths(
            active@.skip(from as int),
            old(session)@,
        ),
        host::follows(old(session)@, final(session)@),
{
    proof {
        reveal(semantics::source_paths);
    }
    let ghost all = active@.skip(from as int);
    let ghost s0 = session@;
    let mut paths: String = "".to_owned();
    let mut i: usize = from;
    assert(all.take(0) =~= Seq::empty());
    proof {
        reveal_strlit("");
        assert(paths@ =~= Seq::empty());
    }
    while i < active.len()
        invariant
            host::follows(old(session)@, session@),
            from <= i <= active@.len(),
            all == active@.skip(from as int),
            s0 == old(session)@,
            semantics::source_paths(all.take(i - from), s0) == (Some(paths@), session@),
        decreases active@.len() - i,
    {
        proof {
            reveal(semantics::source_paths);
            sequences::lemma_take_step(all, i - from);
        }
        match session.ask_text(Query::SourcePath { source_id: active[i] }) {
            None => {
                proof {
                    lemma_source_paths_stops(all, i - from + 1, s0);
                }
                return None;
            },
            Some(None) => {},
            Some(Some(path)) => {
                paths = join3(paths.as_str(), path.as_str(), " -> ");
            },
        }
        i += 1;
    }
    proof {
        sequences::lemma_take_all(all);
    }
    Some(paths)
}

/// Where the host has not answered yet, nothing behind it is asked.
proof fn lemma_source_paths_stops(all: Seq<SourceId>, i: int, s: SessionView)
    requires
        0 <= i <= all.len(),
        semantics::source_paths(all.take(i), s).0 is None,
    ensures
        semantics::source_paths(all, s) == semantics::source_paths(all.take(i), s),
    decreases all.len() - i,
{
    reveal(semantics::source_paths);
    if i == all.len() {
        sequences::lemma_take_all(all);
    } else {
        sequences::lemma_take_step(all, i);
        lemma_source_paths_stops(all, i + 1, s);
    }
}

/// Reports what the parser found wrong.
fn report_parser(found: &Vec<ParseDiagnostic>, source_id: SourceId, session: &mut Session)
    ensures
        final(session)@ == (SessionView {
            diagnostics: old(session)@.diagnostics + semantics::parser_diagnostics(
                host::parse_diagnostics_view(found@),
                source_id,
            ),
            ..old(session)@
        }),
        host::follows(old(session)@, final(session)@),
{
    let ghost want = semantics::parser_diagnostics(
        host::parse_diagnostics_view(found@),
        source_id,
    );
    let ghost s0 = session@;
    let mut i: usize = 0;
    assert(s0.diagnostics + want.take(0) =~= s0.diagnostics);
    while i < found.len()
        invariant
            host::follows(old(session)@, session@),
            0 <= i <= found@.len(),
            want == semantics::parser_diagnostics(
                host::parse_diagnostics_view(found@),
                source_id,
            ),
            session@ == (SessionView { diagnostics: s0.diagnostics + want.take(i as int), ..s0 }),
        decreases found@.len() - i,
    {
        let d = &found[i];
        let report = Diagnostic {
            code: d.code.clone(),
            severity: Severity::Error,
            message: d.message.clone(),
            primary: Some(SourceSpan { source_id, start: d.start, end: d.end }),
            secondary: Vec::new(),
            hints: Vec::new(),
        };
        proof {
            assert(report@.secondary =~= Seq::empty());
            assert(report@.hints =~= Seq::empty());
            assert(report@ == want[i as int]);
        }
        session.report(report);
        i += 1;
        assert(s0.diagnostics + want.take(i as int) =~= (s0.diagnostics + want.take(i - 1)).push(
            want[i - 1],
        ));
    }
    assert(want.take(i as int) =~= want);
}

/// Evaluates what a JSON text was parsed to.
pub fn evaluate_json_text(
    path: &str,
    parsed: Result<JsonValue, String>,
    span: SourceSpan,
    session: &mut Session,
) -> (r: CallOutcome)
    ensures
        forall|c: scope::ContextView|
            (Ev { out: r@, w: World { s: final(session)@, c } })
                == #[trigger] semantics::json_outcome(
                path@,
                views::parsed(parsed),
                span,
                World { s: old(session)@, c },
            ),
        host::follows(old(session)@, final(session)@),
{
    proof {
        reveal(semantics::json_outcome);
    }
    match parsed {
        Err(error) => {
            session.complain(
                "E3001",
                join4("`.json` could not parse `", path, "`: ", error.as_str()),
                span,
                "Provide valid UTF-8 JSON in the logical project resource.",
            );
            CallOutcome::Failed
        },
        Ok(tree) => match json_value_to_ir(&tree, span) {
            Ok(value) => CallOutcome::Value(value),
            Err(message) => {
                session.complain(
                    "E3001",
                    join4("`.json` value in `", path, "` is unsupported: ", message.as_str()),
                    span,
                    "Use JSON values representable by Scribium's typed evaluator model.",
                );
                CallOutcome::Failed
            },
        },
    }
}

impl Evaluator {
    /// Evaluates `.read`, `.json` and `.include`.
    pub fn evaluate_resource_builtin(
        &self,
        call: &Call,
        frames: usize,
        session: &mut Session,
        context: &mut EvaluationContext,
    ) -> (r: CallOutcome)
        ensures
            (Ev { out: r@, w: World { s: final(session)@, c: final(context)@ } })
                == semantics::eval_resource(
                *self,
                call@,
                frames as nat,
                World { s: old(session)@, c: old(context)@ },
            ),
            host::follows(old(session)@, final(session)@),
            scope::stays(old(context)@, final(context)@),
        decreases frames, 6int, self, 0int,
    {
        proof {
            reveal(semantics::eval_resource);
            reveal(semantics::eval_include);
        }
        if call.body.is_some() {
            session.complain(
                "E3003",
                join3("`.", call.name, "` does not accept a block body"),
                call.span,
                "Pass the logical project resource path as an argument.",
            );
            return CallOutcome::Failed;
        }
        let positional = match self.evaluate_values(
            call.positional,
            call.span,
            frames,
            session,
            context,
        ) {
            Some(values) => values,
            None => return CallOutcome::Failed,
        };
        let named = match self.evaluate_named(call.named, call.span, frames, session, context) {
            Some(values) => values,
            None => return CallOutcome::Failed,
        };
        if same_text(call.name, "read") {
            self.evaluate_read(&positional, &named, call.span, session, context)
        } else if same_text(call.name, "json") {
            self.evaluate_json(&positional, &named, call.span, session, context)
        } else if same_text(call.name, "include") {
            self.evaluate_include(&positional, &named, call.span, frames, session, context)
        } else {
            CallOutcome::Failed
        }
    }

    /// Evaluates `.read`.
    pub fn evaluate_read(
        &self,
        positional: &Vec<IrValue>,
        named: &Vec<IrNamedArg>,
        span: SourceSpan,
        session: &mut Session,
        context: &EvaluationContext,
    ) -> (r: CallOutcome)
        ensures
            (Ev { out: r@, w: World { s: final(session)@, c: context@ } }) == semantics::eval_read(
                ir::values_view(positional@),
                ir::named_args_view(named@),
                span,
                World { s: old(session)@, c: context@ },
            ),
            host::follows(old(session)@, final(session)@),
    {
        proof {
            reveal(semantics::eval_read);
        }
        let reference = match resource_path_argument("read", positional, named, span, session) {
            Some(reference) => reference,
            None => return CallOutcome::Failed,
        };
        let lines = match resource_lines_argument(named, session) {
            Some(lines) => lines,
            None => return CallOutcome::Failed,
        };
        let source_id = match resource_context(context, span, session) {
            Some(source_id) => source_id,
            None => return CallOutcome::Failed,
        };
        let resource = match session.ask_resource(Query::ReadText { source_id, reference }) {
            None => return CallOutcome::Failed,
            Some(Err(error)) => {
                session.report(resource_access_diagnostic("read", &error, span));
                return CallOutcome::Failed;
            },
            Some(Ok(resource)) => resource,
        };
        match lines {
            None => CallOutcome::Value(
                IrValue::String(normalize_line_separators(resource.text.as_str())),
            ),
            Some(range) => match select_lines(resource.text.as_str(), range) {
                Ok(content) => CallOutcome::Value(IrValue::String(content)),
                Err(message) => {
                    session.complain(
                        "E3001",
                        join4(
                            "`.read` cannot select lines from `",
                            resource.path.as_str(),
                            "`: ",
                            message.as_str(),
                        ),
                        span,
                        "Use a one-based, inclusive line range within the resource.",
                    );
                    CallOutcome::Failed
                },
            },
        }
    }

    /// Evaluates `.json`.
    pub fn evaluate_json(
        &self,
        positional: &Vec<IrValue>,
        named: &Vec<IrNamedArg>,
        span: SourceSpan,
        session: &mut Session,
        context: &EvaluationContext,
    ) -> (r: CallOutcome)
        ensures
            (Ev { out: r@, w: World { s: final(session)@, c: context@ } }) == semantics::eval_json(
                ir::values_view(positional@),
                ir::named_args_view(named@),
                span,
                World { s: old(session)@, c: context@ },
            ),
            host::follows(old(session)@, final(session)@),
    {
        proof {
            reveal(semantics::eval_json);
        }
        let reference = match resource_path_argument("json", positional, named, span, session) {
            Some(reference) => reference,
            None => return CallOutcome::Failed,
        };
        if named.len() > 0 {
            assert(ir::named_args_view(named@)[0] == named@[0]@);
            session.complain(
                "E3003",
                "`.json` does not support named arguments".to_owned(),
                named[0].name_span,
                "Pass exactly one logical project resource path.",
            );
            return CallOutcome::Failed;
        }
        let source_id = match resource_context(context, span, session) {
            Some(source_id) => source_id,
            None => return CallOutcome::Failed,
        };
        match session.ask_resource(Query::ReadText { source_id, reference }) {
            None => CallOutcome::Failed,
            Some(Err(error)) => {
                session.report(resource_access_diagnostic("json", &error, span));
                CallOutcome::Failed
            },
            Some(Ok(resource)) => evaluate_json_text(
                resource.path.as_str(),
                parse_json(resource.text.as_str()),
                span,
                session,
            ),
        }
    }

    /// Evaluates `.include`.
    pub fn evaluate_include(
        &self,
        positional: &Vec<IrValue>,
        named: &Vec<IrNamedArg>,
        span: SourceSpan,
        frames: usize,
        session: &mut Session,
        context: &mut EvaluationContext,
    ) -> (r: CallOutcome)
        ensures
            (Ev { out: r@, w: World { s: final(session)@, c: final(context)@ } })
                == semantics::eval_include(
                *self,
                ir::values_view(positional@),
                ir::named_args_view(named@),
                span,
                frames as nat,
                World { s: old(session)@, c: old(context)@ },
            ),
            host::follows(old(session)@, final(session)@),
            scope::stays(old(context)@, final(context)@),
        decreases frames, 5int, self, 1int,
    {
        proof {
            reveal(semantics::eval_include);
            reveal(semantics::eval_source);
        }
        let reference = match resource_path_argument("include", positional, named, span, session) {
            Some(reference) => reference,
            None => return CallOutcome::Failed,
        };
        let sandbox = match include_sandbox_argument(named, session) {
            Some(Some(sandbox)) => sandbox,
            Some(None) => IncludeSandbox::Share,
            None => return CallOutcome::Failed,
        };
        let source_id = match resource_context(context, span, session) {
            Some(source_id) => source_id,
            None => return CallOutcome::Failed,
        };
        let source = match session.ask_source(Query::ReadSource { source_id, reference }) {
            None => return CallOutcome::Failed,
            Some(Err(ResourceAccessError::NotFound { path })) => {
                session.complain(
                    "E3001",
                    join3("`.include` resource not found: `", path.as_str(), "`"),
                    span,
                    "Add the target source to the VirtualProject supplied by the host.",
                );
                return CallOutcome::Failed;
            },
            Some(Err(error)) => {
                session.report(resource_access_diagnostic("include", &error, span));
                return CallOutcome::Failed;
            },
            Some(Ok(source)) => source,
        };
        if let Some(i) = place_of_source(&context.active_sources, source.source_id) {
            return match join_source_paths(&context.active_sources, i, session) {
                None => CallOutcome::Failed,
                Some(paths) => {
                    session.complain(
                        "E3001",
                        join3(
                            "`.include` cycle detected: ",
                            paths.as_str(),
                            source.path.as_str(),
                        ),
                        span,
                        "An active include may not include a source already on its call stack.",
                    );
                    CallOutcome::Failed
                },
            };
        }
        self.evaluate_source(source, sandbox, frames, session, context)
    }

    /// Evaluates a source in place.
    fn evaluate_source(
        &self,
        source: IncludedSource,
        sandbox: IncludeSandbox,
        frames: usize,
        session: &mut Session,
        context: &mut EvaluationContext,
    ) -> (r: CallOutcome)
        ensures
            (Ev { out: r@, w: World { s: final(session)@, c: final(context)@ } })
                == semantics::eval_source(
                *self,
                source@.source_id,
                source@.path,
                source@.text,
                sandbox,
                frames as nat,
                World { s: old(session)@, c: old(context)@ },
            ),
            host::follows(old(session)@, final(session)@),
            scope::stays(old(context)@, final(context)@),
        decreases frames, 5int, self, 0int,
    {
        proof {
            reveal(semantics::eval_source);
            reveal(host::follows);
            reveal(scope::stays);
        }
        let target = source.source_id;
        let mode = source_mode_for_resource_path(source.path.as_str());
        let parsed = match session.ask_parsed(
            Query::Parse {
                source_id: target,
                text: source.text,
                mode,
                metadata_defaults: copy_defaults(&context.metadata_defaults),
            },
        ) {
            Some(parsed) => parsed,
            None => return CallOutcome::Failed,
        };
        let ParsedSource { diagnostics, lowering_diagnostics, nodes } = parsed;
        if diagnostics.len() > 0 {
            report_parser(&diagnostics, target, session);
            return CallOutcome::Failed;
        }
        if lowering_diagnostics.len() > 0 {
            let mut lowering = lowering_diagnostics;
            session.diagnostics.append(&mut lowering);
            return CallOutcome::Failed;
        }
        let before = session.diagnostics.len();
        let active = copy_source_ids(&context.active_sources);
        context.active_sources.push(target);
        let out = match sandbox {
            IncludeSandbox::Share => {
                let current = context.current_source;
                context.current_source = Some(target);
                let out = self.evaluate_nodes(&nodes, frames, session, context);
                context.current_source = current;
                out
            },
            _ => {
                let mut child = context.child();
                child.current_source = Some(target);
                child.active_sources = copy_source_ids(&context.active_sources);
                self.evaluate_nodes(&nodes, frames, session, &mut child)
            },
        };
        context.active_sources = active;
        if session.diagnostics.len() != before {
            CallOutcome::Failed
        } else {
            CallOutcome::Value(IrValue::Content(out))
        }
    }
}

} // verus!
