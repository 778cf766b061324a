//! Laws of inclusion and of the arguments of resource builtins.

use vstd::prelude::*;

use crate::host::{IncludedSourceView, QueryView, ReplyView, SessionView};
use crate::ir::{IrRange, NamedArgView, SourceId, SourceSpan, ValueView};
use crate::laws_arguments;
use crate::laws_leaves;
use crate::laws_resources;
use crate::resources;
use crate::resources::IncludeSandbox;
use crate::semantics;
use crate::semantics::{CallView, Evaluator, World};

verus! {

/// A named argument at a place.
pub open spec fn named_at(name: Seq<char>, value: ValueView, at: SourceSpan) -> NamedArgView {
    NamedArgView { name, name_span: at, value, span: at }
}

/// The path of a resource is the positional argument or the argument `path`, and not both; without
/// either it is missing. More positional arguments are too many.
pub proof fn lemma_path_argument(
    builtin: Seq<char>,
    value: ValueView,
    at: SourceSpan,
    span: SourceSpan,
    s: SessionView,
)
    ensures
        resources::resource_path(
            builtin,
            Seq::empty(),
            seq![named_at("path"@, value, at)],
            span,
            s,
        ) == resources::resource_path(builtin, seq![value], Seq::empty(), span, s),
        ({
            let r = resources::resource_path(
                builtin,
                seq![value],
                seq![named_at("path"@, value, at)],
                span,
                s,
            );
            r.0 is None && laws_leaves::reported(s, r.1, "E3003"@, span)
        }),
        ({
            let r = resources::resource_path(
                builtin,
                Seq::empty(),
                seq![named_at("path"@, value, at), named_at("path"@, value, at)],
                span,
                s,
            );
            r.0 is None && laws_leaves::reported(s, r.1, "E3003"@, at)
        }),
        ({
            let r = resources::resource_path(builtin, Seq::empty(), Seq::empty(), span, s);
            r.0 is None && laws_leaves::reported(s, r.1, "E3003"@, span)
        }),
        ({
            let r = resources::resource_path(builtin, seq![value, value], Seq::empty(), span, s);
            r.0 is None && laws_leaves::reported(s, r.1, "E3003"@, span)
        }),
{
    let arg = named_at("path"@, value, at);
    let one = seq![arg];
    let two = seq![arg, arg];
    assert(one.drop_last() =~= Seq::empty());
    assert(two.drop_last() =~= one);
    let empty = Seq::<NamedArgView>::empty();
    assert(resources::named_path(builtin, empty, s) == (Some(None::<ValueView>), s));
    assert(resources::named_path(builtin, one, s) == (Some(Some(value)), s));
    let n = s.diagnostics.len() as int;
    let a = resources::resource_path(builtin, seq![value], one, span, s);
    assert(a.1.diagnostics.take(n) =~= s.diagnostics);
    let b = resources::resource_path(builtin, Seq::empty(), two, span, s);
    assert(b.1.diagnostics.take(n) =~= s.diagnostics);
    let c = resources::resource_path(builtin, Seq::empty(), empty, span, s);
    assert(c.1.diagnostics.take(n) =~= s.diagnostics);
    let d = resources::resource_path(builtin, seq![value, value], empty, span, s);
    assert(d.1.diagnostics.take(n) =~= s.diagnostics);
}

/// `.read` alone knows the argument `lines` and `.include` alone the argument `sandbox`; any other
/// name is reported where it is written.
pub proof fn lemma_options_known(
    builtin: Seq<char>,
    name: Seq<char>,
    value: ValueView,
    at: SourceSpan,
    s: SessionView,
)
    requires
        name != "path"@,
    ensures
        ({
            let known = (builtin == "read"@ && name == "lines"@) || (builtin == "include"@ && name
                == "sandbox"@);
            let r = resources::named_path(builtin, seq![named_at(name, value, at)], s);
            if known {
                r == (Some(None::<ValueView>), s)
            } else {
                r.0 is None && laws_leaves::reported(s, r.1, "E3003"@, at)
            }
        }),
{
    let one = seq![named_at(name, value, at)];
    assert(one.drop_last() =~= Seq::empty());
    let empty = Seq::<NamedArgView>::empty();
    assert(resources::named_path(builtin, empty, s) == (Some(None::<ValueView>), s));
    let r = resources::named_path(builtin, one, s);
    if r.0 is None {
        assert(r.1.diagnostics.take(s.diagnostics.len() as int) =~= s.diagnostics);
    }
}

/// The argument `lines` is a range; any other value of it is reported.
pub proof fn lemma_lines_argument(value: ValueView, at: SourceSpan, s: SessionView)
    ensures
        ({
            let r = resources::lines_argument(seq![named_at("lines"@, value, at)], s);
            match value {
                ValueView::Range(range) => r == (Some(Some(range)), s),
                _ => r.0 is None && laws_leaves::reported(s, r.1, "E3003"@, at),
            }
        }),
        resources::lines_argument(Seq::empty(), s) == (Some(None::<IrRange>), s),
{
    let one = seq![named_at("lines"@, value, at)];
    assert(one.drop_last() =~= Seq::empty());
    let empty = Seq::<NamedArgView>::empty();
    assert(resources::lines_argument(empty, s) == (Some(None::<IrRange>), s));
    let r = resources::lines_argument(one, s);
    if r.0 is None {
        assert(r.1.diagnostics.take(s.diagnostics.len() as int) =~= s.diagnostics);
    }
}

/// The argument `sandbox` is the mode that the text of its value names; a text that names none is
/// reported, and so is a value without a text.
pub proof fn lemma_sandbox_argument(
    value: ValueView,
    word: Seq<char>,
    at: SourceSpan,
    s: SessionView,
)
    requires
        s.pending is None,
    ensures
        ({
            let r = resources::sandbox_argument(seq![named_at("sandbox"@, value, at)], s);
            let told = SessionView { used: s.used + 1, ..s };
            &&& s.used >= s.replies.len() ==> r.0 is None && r.1.pending == Some(
                QueryView::AdaptString { value },
            )
            &&& s.used < s.replies.len() && s.replies[s.used as int] == ReplyView::Text(Some(word))
                ==> match resources::sandbox_named(word) {
                Some(mode) => r == (Some(Some(mode)), told),
                None => r.0 is None && laws_leaves::reported(told, r.1, "E3003"@, at),
            }
            &&& s.used < s.replies.len() && s.replies[s.used as int] == ReplyView::Text(None)
                ==> r.0 is None && laws_leaves::reported(told, r.1, "E3003"@, at)
        }),
        resources::sandbox_argument(Seq::empty(), s) == (Some(None::<IncludeSandbox>), s),
{
    let one = seq![named_at("sandbox"@, value, at)];
    assert(one.drop_last() =~= Seq::empty());
    let empty = Seq::<NamedArgView>::empty();
    assert(resources::sandbox_argument(empty, s) == (Some(None::<IncludeSandbox>), s));
    let r = resources::sandbox_argument(one, s);
    if r.0 is None {
        assert(r.1.diagnostics.take(s.diagnostics.len() as int) =~= s.diagnostics);
    }
}

/// `.read`, `.json` and `.include` are given the values of their arguments; none of them takes a
/// body.
pub proof fn lemma_resource_called(
    e: Evaluator,
    name: Seq<char>,
    value: ValueView,
    call: CallView,
    span: SourceSpan,
    f: nat,
    w: World,
)
    requires
        !(value is Content),
        !(value is Callable),
    ensures
        ({
            let one = CallView {
                name,
                positional: seq![value],
                named: Seq::empty(),
                lambda: None,
                body: None,
                span,
                first_origin: None,
            };
            let r = semantics::eval_resource(e, one, f, w);
            &&& name == "read"@ ==> r == semantics::eval_read(seq![value], Seq::empty(), span, w)
            &&& name == "json"@ ==> r == semantics::eval_json(seq![value], Seq::empty(), span, w)
            &&& name == "include"@ ==> r == semantics::eval_include(
                e,
                seq![value],
                Seq::empty(),
                span,
                f,
                w,
            )
        }),
        call.body is Some ==> {
            let r = semantics::eval_resource(e, call, f, w);
            &&& r.out is Failed && r.w.c == w.c
            &&& laws_leaves::reported(w.s, r.w.s, "E3003"@, call.span)
        },
{
    reveal(semantics::source_paths);
    reveal(semantics::eval_include);
    reveal(semantics::eval_resource);
    reveal_strlit("read");
    reveal_strlit("json");
    reveal_strlit("include");
    assert("read"@.len() == 4 && "json"@.len() == 4 && "include"@.len() == 7);
    assert("read"@[0] == 'r' && "json"@[0] == 'j');
    laws_arguments::lemma_values_in_order(e, Seq::empty(), value, span, f, w);
    laws_arguments::lemma_literal_evaluated(e, value, span, f, w);
    laws_arguments::lemma_named_in_order(
        e,
        Seq::empty(),
        named_at(name, value, span),
        span,
        f,
        w,
    );
    assert(seq![value] =~= Seq::empty().push(value));
    if call.body is Some {
        let r = semantics::eval_resource(e, call, f, w);
        assert(r.w.s.diagnostics.take(w.s.diagnostics.len() as int) =~= w.s.diagnostics);
    }
}

/// `.include` asks for the source by the source that the call stands in and by its path, and
/// inserts it; without a sandbox it shares the scope of the call.
pub proof fn lemma_source_included(
    e: Evaluator,
    path: ValueView,
    reference: Seq<char>,
    included: IncludedSourceView,
    source: SourceId,
    span: SourceSpan,
    f: nat,
    w: World,
)
    requires
        laws_resources::supplied(w.c, source),
        w.s.pending is None,
        w.s.used < w.s.replies.len(),
        w.s.replies[w.s.used as int] == ReplyView::Text(Some(reference)),
        !w.c.active_sources.contains(included.source_id),
    ensures
        ({
            let r = semantics::eval_include(e, seq![path], Seq::empty(), span, f, w);
            &&& w.s.used + 1 == w.s.replies.len() ==> r.w.s.pending == Some(
                QueryView::ReadSource { source_id: source, reference },
            )
            &&& w.s.used + 1 < w.s.replies.len() && w.s.replies[w.s.used as int + 1]
                == ReplyView::Source(Ok(included)) ==> r == semantics::eval_source(
                e,
                included.source_id,
                included.path,
                included.text,
                IncludeSandbox::Share,
                f,
                World { s: SessionView { used: w.s.used + 2, ..w.s }, c: w.c },
            )
        }),
{
    reveal(semantics::source_paths);
    reveal(semantics::eval_include);
    let empty = Seq::<NamedArgView>::empty();
    assert(resources::named_path("include"@, empty, w.s) == (Some(None::<ValueView>), w.s));
    let told = SessionView { used: w.s.used + 1, ..w.s };
    assert(resources::resource_path("include"@, seq![path], empty, span, w.s) == (
        Some(reference),
        told,
    ));
    assert(resources::sandbox_argument(empty, told) == (Some(None::<IncludeSandbox>), told));
    lemma_not_active(w.c.active_sources, included.source_id);
}

proof fn lemma_not_active(active: Seq<SourceId>, source: SourceId)
    requires
        !active.contains(source),
    ensures
        semantics::active_place(active, source) is None,
    decreases active.len(),
{
    if active.len() > 0 {
        let front = active.drop_last();
        assert forall|i: int| 0 <= i < front.len() implies front[i] != source by {
            assert(active.contains(active[i]));
        }
        lemma_not_active(front, source);
        assert(active.contains(active.last()));
    }
}

/// The paths of sources are told in the order of the sources, each with an arrow behind it; a
/// source without a path is left out.
pub proof fn lemma_paths_in_order(sources: Seq<SourceId>, last: SourceId, s: SessionView)
    ensures
        ({
            let before = semantics::source_paths(sources, s);
            let all = semantics::source_paths(sources.push(last), s);
            match before.0 {
                None => all == before,
                Some(paths) => {
                    let asked = before.1.ask_text(QueryView::SourcePath { source_id: last });
                    &&& all.1 == asked.1
                    &&& match asked.0 {
                        None => all.0 is None,
                        Some(None) => all.0 == Some(paths),
                        Some(Some(path)) => {
                            let n = paths.len() as int;
                            &&& all.0 is Some
                            &&& all.0->0.take(n) == paths
                            &&& all.0->0.skip(n) == path + " -> "@
                        },
                    }
                },
            }
        }),
        semantics::source_paths(Seq::empty(), s).0 == Some(Seq::<char>::empty()),
{
    reveal(semantics::source_paths);
    assert(sources.push(last).drop_last() =~= sources);
    let before = semantics::source_paths(sources, s);
    let all = semantics::source_paths(sources.push(last), s);
    if let Some(paths) = before.0 {
        let asked = before.1.ask_text(QueryView::SourcePath { source_id: last });
        if let Some(Some(path)) = asked.0 {
            assert(all.0 == Some(paths + path + " -> "@));
            let n = paths.len() as int;
            assert(all.0->0.take(n) =~= paths);
            assert(all.0->0.skip(n) =~= path + " -> "@);
        }
    }
}

} // verus!
