//! Laws of evaluation: what a call leaves alone, what it refuses, and what a later call sees of
//! an earlier one.

use vstd::prelude::*;

use crate::binding;
use crate::calls;
use crate::calls::BoundView;
use crate::collection;
use crate::diagnostic;
use crate::diagnostic::Fault;
use crate::document;
use crate::document::Progress;
use crate::growth;
use crate::growth::Growth;
use crate::growth_sequences;
use crate::growth_values;
use crate::host::{
    ClosedEnumTarget, InvocationNamedView, InvocationValueView, QueryView, ReplyView, SessionView,
};
use crate::ir::{
    CallSegmentView, CallableView, InlineView, IrEnumValue, ListItemView, NamedArgView, NodeView,
    ParameterView, SourceId, SourceSpan, ValueView,
};
use crate::laws_collections;
use crate::laws_scope;
use crate::limits::Capability;
use crate::lines;
use crate::metadata;
use crate::metadata::{DocumentView, MetadataView};
use crate::natives;
use crate::natives::NativeDispatchOwner;
use crate::outcome::OutcomeView;
use crate::resources;
use crate::resources::IncludeSandbox;
use crate::scope;
use crate::scope::{ContextView, FunctionBindingView, LambdaParametersView};
use crate::semantics;
use crate::semantics::{BodyView, CallView, Ev, Evaluator, World};
use crate::text;

verus! {

/// `.if` takes its branch exactly where `.ifnot` does not.
pub proof fn lemma_conditionals_complement(condition: bool)
    ensures
        semantics::branch_taken("if"@, condition) != semantics::branch_taken("ifnot"@, condition),
{
    reveal_strlit("if");
    reveal_strlit("ifnot");
    assert("if"@.len() != "ifnot"@.len());
}

/// A conditional without a condition, or with one that is no truth value, fails with one report
/// and its content is not evaluated.
pub proof fn lemma_bad_condition(e: Evaluator, call: CallView, f: nat, w: World)
    ensures
        ({
            let r = semantics::condition_argument(e, call, f, w);
            let out = semantics::eval_conditional(e, call, f, w);
            &&& semantics::raw_condition(call) is None ==> out == semantics::failed(
                semantics::bad_condition(w, call.name, call.span),
            )
            &&& r.out is Some && calls::condition_value(r.out->0, r.w.s).0 == Some(
                None::<bool>,
            ) ==> out == semantics::failed(
                semantics::bad_condition(
                    r.w.on(calls::condition_value(r.out->0, r.w.s).1),
                    call.name,
                    call.span,
                ),
            )
        }),
{
    reveal(semantics::eval_conditional);
    reveal(semantics::condition_argument);
}

/// A branch that is not taken is not evaluated: a conditional with another body comes to the
/// same, and that is empty content.
pub proof fn lemma_untaken_branch(
    e: Evaluator,
    call: CallView,
    body: Option<BodyView>,
    f: nat,
    w: World,
)
    requires
        semantics::condition_argument(e, call, f, w).out is Some,
        calls::condition_value(
            semantics::condition_argument(e, call, f, w).out->0,
            semantics::condition_argument(e, call, f, w).w.s,
        ).0 matches Some(Some(condition)) && !semantics::branch_taken(call.name, condition),
    ensures
        semantics::eval_conditional(e, call, f, w).out == OutcomeView::Value(
            ValueView::Content(Seq::empty()),
        ),
        semantics::eval_conditional(e, CallView { body, ..call }, f, w)
            == semantics::eval_conditional(e, call, f, w),
{
    reveal(semantics::eval_conditional);
    reveal(semantics::condition_argument);
}

/// Without the capability for native content `.html` and `.markdown` evaluate nothing, and the
/// refusal is all that is reported.
pub proof fn lemma_native_content_denied(e: Evaluator, call: CallView, f: nat, w: World)
    requires
        !e.capabilities.grants(Capability::NativeContent),
    ensures
        semantics::eval_html(e, call, f, w) == semantics::fails(
            w,
            Fault::HtmlDenied,
            "NativeContent capability is required for `.html`"@,
            call.span,
        ),
        semantics::eval_markdown(e, call, f, w) == semantics::fails(
            w,
            Fault::MarkdownDenied,
            "NativeContent capability is required for `.markdown`"@,
            call.span,
        ),
{
    reveal(semantics::eval_html);
    reveal(semantics::eval_markdown);
}

/// Where no frame is left, calls and callables fail with the depth limit and do nothing else.
pub proof fn lemma_depth_limit(
    e: Evaluator,
    call: CallView,
    callable: CallableView,
    arguments: Seq<ValueView>,
    destructuring: bool,
    span: SourceSpan,
    w: World,
)
    ensures
        semantics::eval_call(e, call, 0, w) == semantics::fails(
            w,
            Fault::DepthLimit,
            semantics::depth_message(e.limits.max_evaluation_depth as nat),
            call.span,
        ),
        semantics::invoke(e, callable, arguments, destructuring, span, 0, w) == semantics::fails(
            w,
            Fault::DepthLimit,
            semantics::depth_message(e.limits.max_evaluation_depth as nat),
            span,
        ),
{
    reveal(semantics::eval_call);
    reveal(semantics::invoke);
}

/// A callable leaves the scope of its caller as it is: what it assigns and declares stays
/// inside.
pub proof fn lemma_invocation_keeps_scope(
    e: Evaluator,
    callable: CallableView,
    arguments: Seq<ValueView>,
    destructuring: bool,
    span: SourceSpan,
    f: nat,
    w: World,
)
    ensures
        semantics::invoke(e, callable, arguments, destructuring, span, f, w).w.c == w.c,
{
    reveal(semantics::invoke);
    reveal(semantics::invoke_bound);
}

/// A function of the document leaves the scope of its caller as it is, once its arguments
/// are bound.
pub proof fn lemma_function_keeps_scope(
    e: Evaluator,
    callable: CallableView,
    bound: BoundView,
    f: nat,
    w: World,
)
    ensures
        semantics::invoke_bound(e, callable, bound, f, w).w.c == w.c,
{
    reveal(semantics::invoke_bound);
}

/// `.let` leaves the scope as evaluating its value left it: its parameter and what its body
/// declares are gone.
pub proof fn lemma_let_keeps_scope(e: Evaluator, call: CallView, f: nat, w: World)
    ensures
        semantics::eval_let(e, call, f, w).w.c == w.c || semantics::eval_let(e, call, f, w).w.c
            == semantics::required(e, call.positional[0], call.span, f, w).w.c,
{
    reveal(semantics::eval_let);
    reveal(semantics::invoke);
    let r = semantics::required(e, call.positional[0], call.span, f, w);
    if let Some(value) = r.out {
        lemma_invocation_keeps_scope(
            e,
            semantics::callable_here(
                call.lambda,
                semantics::block_of(call),
                call.span,
                r.w.c,
            ),
            seq![value],
            false,
            call.span,
            f,
            r.w,
        );
    }
}

/// A call that nothing answers to stays in the document as it is written, where it has no
/// arguments and no body.
pub proof fn lemma_unknown_call_stays(e: Evaluator, node: NodeView, f: nat, w: World)
    requires
        node matches NodeView::FunctionCall { positional_args, named_args, body, .. }
            && positional_args.len() == 0 && named_args.len() == 0 && body is None,
        semantics::eval_call(e, semantics::call_of_node(node), f, w).out is Unresolved,
    ensures
        semantics::eval_node(e, node, f, w) == (Ev {
            out: seq![node],
            w: semantics::eval_call(e, semantics::call_of_node(node), f, w).w,
        }),
{
    reveal(semantics::eval_node);
    reveal(semantics::eval_call);
    reveal(semantics::preserve_call);
    let after = semantics::eval_call(e, semantics::call_of_node(node), f, w).w;
    lemma_bare_call_kept(e, node, f, after);
}

proof fn lemma_bare_call_kept(e: Evaluator, node: NodeView, f: nat, w: World)
    requires
        node matches NodeView::FunctionCall { positional_args, named_args, body, .. }
            && positional_args.len() == 0 && named_args.len() == 0 && body is None,
    ensures
        semantics::preserve_call(e, node, f, w) == semantics::something(seq![node], w),
{
    reveal(semantics::preserve_call);
    reveal(semantics::keep_values);
    reveal(semantics::keep_named);
    match node {
        NodeView::FunctionCall { positional_args, named_args, span, .. } => {
            lemma_nothing_kept(e, positional_args, named_args, span, f, w);
        },
        _ => {},
    }
}

proof fn lemma_nothing_kept(
    e: Evaluator,
    values: Seq<ValueView>,
    named: Seq<NamedArgView>,
    span: SourceSpan,
    f: nat,
    w: World,
)
    requires
        values.len() == 0,
        named.len() == 0,
    ensures
        semantics::keep_values(e, values, span, f, w) == semantics::something(values, w),
        semantics::keep_named(e, named, span, f, w) == semantics::something(named, w),
{
    reveal(semantics::keep_values);
    reveal(semantics::keep_named);
    assert(Seq::<ValueView>::empty() =~= values);
    assert(Seq::<NamedArgView>::empty() =~= named);
}

/// What gives no value leaves nothing in the document, and reports nothing more.
pub proof fn lemma_no_value_leaves_nothing(out: OutcomeView, span: SourceSpan, w: World)
    requires
        !(out is Value),
    ensures
        semantics::block_outcome(out, span, w) == (Ev { out: Seq::<NodeView>::empty(), w }),
        semantics::inline_outcome(out, span, w) == (Ev { out: Seq::<InlineView>::empty(), w }),
{
    reveal(semantics::block_outcome);
    reveal(semantics::inline_outcome);
}

/// `.foreach`, `.repeat` and `.map` leave the scope that they iterate in as it is.
pub proof fn lemma_mapping_keeps_scope(
    e: Evaluator,
    elements: Seq<ValueView>,
    callable: CallableView,
    destructuring: bool,
    span: SourceSpan,
    f: nat,
    w: World,
)
    ensures
        semantics::map_values(e, elements, callable, destructuring, span, f, w).w.c == w.c,
        semantics::map_values(
            e,
            elements,
            callable,
            destructuring,
            span,
            f,
            w,
        ).out matches Ok(values) ==> values.len() == elements.len(),
    decreases elements.len(),
{
    reveal(semantics::map_values);
    reveal(semantics::invoke);
    if elements.len() > 0 {
        lemma_mapping_keeps_scope(
            e,
            elements.drop_last(),
            callable,
            destructuring,
            span,
            f,
            w,
        );
        let before = semantics::map_values(
            e,
            elements.drop_last(),
            callable,
            destructuring,
            span,
            f,
            w,
        );
        lemma_invocation_keeps_scope(
            e,
            callable,
            seq![elements.last()],
            destructuring,
            span,
            f,
            before.w,
        );
    }
}

/// Whether a sequence holds some of the values of another, in their order.
pub open spec fn picked_from(some: Seq<ValueView>, all: Seq<ValueView>) -> bool
    decreases all.len(),
{
    if all.len() == 0 {
        some.len() == 0
    } else {
        ||| picked_from(some, all.drop_last())
        ||| some.len() > 0 && some.last() == all.last() && picked_from(
            some.drop_last(),
            all.drop_last(),
        )
    }
}

/// The words that mean a truth value mean the same in upper and lower case.
pub proof fn lemma_boolean_words(name: Seq<char>)
    ensures
        calls::boolean_meaning(ValueView::Identifier(text::lower(name))) == calls::boolean_meaning(
            ValueView::Identifier(name),
        ),
{
    assert(text::lower(text::lower(name)) =~= text::lower(name));
}

/// `.filter` keeps an element exactly where its predicate means truth, and fails where the
/// predicate means no truth value.
pub proof fn lemma_filter_decides(
    e: Evaluator,
    elements: Seq<ValueView>,
    callable: CallableView,
    span: SourceSpan,
    f: nat,
    w: World,
)
    requires
        elements.len() > 0,
        semantics::filter_values(e, elements.drop_last(), callable, span, f, w).out is Ok,
    ensures
        ({
            let before = semantics::filter_values(e, elements.drop_last(), callable, span, f, w);
            let element = elements.last();
            let asked = semantics::invoke(e, callable, seq![element], true, span, f, before.w);
            asked.out matches OutcomeView::Value(v) ==> semantics::filter_values(
                e,
                elements,
                callable,
                span,
                f,
                w,
            ).out == match calls::boolean_meaning(v) {
                Some(true) => Ok::<Seq<ValueView>, OutcomeView>(before.out->Ok_0.push(element)),
                Some(false) => before.out,
                None => Err(OutcomeView::Failed),
            }
        }),
{
    reveal(semantics::filter_values);
    reveal(semantics::invoke);
}

/// `.ifpresent` asks its callback of no missing value, `.takeif` of every value.
pub proof fn lemma_callback_of_nothing(e: Evaluator, call: CallView, f: nat, w: World)
    requires
        call.name == "ifpresent"@ || call.name == "takeif"@,
    ensures
        ({
            let parts = binding::optionality_parts(
                call.name,
                call.positional,
                call.named,
                call.body is Some,
                call.span,
                w.s,
            );
            let r = semantics::required(e, (parts.0->0).0, call.span, f, w.on(parts.1));
            let c = semantics::optionality_callback(e, call, (parts.0->0).1, f, r.w);
            parts.0 is Some && r.out == Some(ValueView::Nothing) ==> semantics::eval_optionality(
                e,
                call,
                f,
                w,
            ) == if call.name == "ifpresent"@ {
                semantics::gives(ValueView::Nothing, r.w)
            } else if c.out is Some {
                semantics::optionality_outcome(e, call, ValueView::Nothing, c.out->0, f, c.w)
            } else {
                semantics::failed(c.w)
            }
        }),
{
    reveal(semantics::eval_optionality);
    reveal(semantics::optionality_callback);
    reveal(semantics::optionality_outcome);
    reveal_strlit("takeif");
    reveal_strlit("ifpresent");
    assert("takeif"@.len() != "ifpresent"@.len());
}

/// `.takeif` gives its value exactly where its condition means truth, nothing where it means
/// the opposite, and fails where it means no truth value.
pub proof fn lemma_takeif_decides(
    e: Evaluator,
    call: CallView,
    value: ValueView,
    callable: CallableView,
    f: nat,
    w: World,
)
    requires
        call.name == "takeif"@,
    ensures
        ({
            let asked = semantics::invoke(e, callable, seq![value], false, call.span, f, w);
            asked.out matches OutcomeView::Value(v) ==> semantics::optionality_outcome(
                e,
                call,
                value,
                callable,
                f,
                w,
            ).out == match calls::boolean_meaning(v) {
                Some(true) => OutcomeView::Value(value),
                Some(false) => OutcomeView::Value(ValueView::Nothing),
                None => OutcomeView::Failed,
            }
        }),
{
    reveal(semantics::optionality_outcome);
    reveal(semantics::invoke);
    reveal_strlit("takeif");
    reveal_strlit("ifpresent");
    assert("takeif"@.len() != "ifpresent"@.len());
}

/// `.filter` keeps the order of its elements, adds none, and leaves the scope as it is.
pub proof fn lemma_filter_picks(
    e: Evaluator,
    elements: Seq<ValueView>,
    callable: CallableView,
    span: SourceSpan,
    f: nat,
    w: World,
)
    ensures
        semantics::filter_values(e, elements, callable, span, f, w).w.c == w.c,
        semantics::filter_values(e, elements, callable, span, f, w).out matches Ok(values)
            ==> picked_from(values, elements),
    decreases elements.len(),
{
    reveal(semantics::filter_values);
    reveal(semantics::invoke);
    if elements.len() > 0 {
        lemma_filter_picks(e, elements.drop_last(), callable, span, f, w);
        let before = semantics::filter_values(e, elements.drop_last(), callable, span, f, w);
        lemma_invocation_keeps_scope(
            e,
            callable,
            seq![elements.last()],
            true,
            span,
            f,
            before.w,
        );
        if let Ok(done) = before.out {
            assert(done.push(elements.last()).drop_last() =~= done);
        }
    }
}

proof fn lemma_sort_value_keeps_scope(
    e: Evaluator,
    element: ValueView,
    callable: Option<CallableView>,
    span: SourceSpan,
    f: nat,
    w: World,
)
    ensures
        semantics::sort_value(e, element, callable, span, f, w).w.c == w.c,
{
    reveal(semantics::sort_value);
    reveal(semantics::invoke);
    if let Some(callable) = callable {
        lemma_invocation_keeps_scope(e, callable, seq![element], true, span, f, w);
    }
}

/// `.sorted` asks for the key of each element once, in order, and leaves the scope as it is.
pub proof fn lemma_keys_keep_elements(
    e: Evaluator,
    elements: Seq<ValueView>,
    callable: Option<CallableView>,
    span: SourceSpan,
    f: nat,
    w: World,
)
    ensures
        semantics::key_values(e, elements, callable, span, f, w).w.c == w.c,
        semantics::key_values(e, elements, callable, span, f, w).out matches Ok(keyed)
            ==> keyed.len() == elements.len() && forall|i: int|
            0 <= i < keyed.len() ==> (#[trigger] keyed[i]).value == elements[i],
    decreases elements.len(),
{
    reveal(semantics::key_values);
    reveal(semantics::sort_value);
    if elements.len() > 0 {
        lemma_keys_keep_elements(e, elements.drop_last(), callable, span, f, w);
        let before = semantics::key_values(e, elements.drop_last(), callable, span, f, w);
        lemma_sort_value_keeps_scope(e, elements.last(), callable, span, f, before.w);
    }
}

proof fn lemma_active_place(active: Seq<SourceId>, source: SourceId)
    ensures
        semantics::active_place(active, source) is Some <==> active.contains(source),
    decreases active.len(),
{
    if active.len() > 0 {
        lemma_active_place(active.drop_last(), source);
        if active.contains(source) {
            let i = choose|i: int| 0 <= i < active.len() && active[i] == source;
            if i < active.len() - 1 {
                assert(active.drop_last()[i] == source);
            }
        }
        if active.drop_last().contains(source) {
            let i = choose|i: int|
                0 <= i < active.len() - 1 && active.drop_last()[i] == source;
            assert(active[i] == source);
        }
        if active.last() == source {
            assert(active[active.len() - 1] == source);
        }
    }
}

/// A source that is being evaluated cannot be included again: the call fails, and the scope
/// stays as it is.
pub proof fn lemma_include_cycle(
    e: Evaluator,
    positional: Seq<ValueView>,
    named: Seq<NamedArgView>,
    span: SourceSpan,
    f: nat,
    w: World,
)
    requires
        ({
            let (path, s) = resources::resource_path("include"@, positional, named, span, w.s);
            let (sandbox, t) = resources::sandbox_argument(named, s);
            let (calling, u) = resources::calling_source(w.c, span, t);
            &&& path is Some
            &&& sandbox is Some
            &&& calling is Some
            &&& u.ask_source(
                QueryView::ReadSource { source_id: calling->0, reference: path->0 },
            ).0 matches Some(Ok(source)) && w.c.active_sources.contains(source.source_id)
        }),
    ensures
        semantics::eval_include(e, positional, named, span, f, w).out is Failed,
        semantics::eval_include(e, positional, named, span, f, w).w.c == w.c,
{
    reveal(semantics::eval_include);
    let (path, s) = resources::resource_path("include"@, positional, named, span, w.s);
    let (sandbox, t) = resources::sandbox_argument(named, s);
    let (calling, u) = resources::calling_source(w.c, span, t);
    let (answer, v) = u.ask_source(
        QueryView::ReadSource { source_id: calling->0, reference: path->0 },
    );
    lemma_active_place(w.c.active_sources, answer->0->Ok_0.source_id);
}

/// An included source that does not share its scope leaves the scope as it is; one that does
/// leaves the sources that are active as they are.
pub proof fn lemma_include_restores(
    e: Evaluator,
    target: SourceId,
    path: Seq<char>,
    content: Seq<char>,
    sandbox: IncludeSandbox,
    f: nat,
    w: World,
)
    ensures
        ({
            let after = semantics::eval_source(e, target, path, content, sandbox, f, w).w.c;
            &&& sandbox !is Share ==> after == w.c
            &&& after.active_sources == w.c.active_sources
            &&& after.current_source == w.c.current_source
        }),
{
    reveal(semantics::eval_source);
}

/// Whether a step that gives nothing waits for an answer or reports why, and one that gives
/// something reports nothing.
pub open spec fn told<A>(s: SessionView, r: (Option<A>, SessionView)) -> bool {
    match r.0 {
        Some(_) => r.1.diagnostics == s.diagnostics,
        None => r.1.pending is Some || r.1.diagnostics.len() > s.diagnostics.len(),
    }
}

proof fn lemma_named_path_told(builtin: Seq<char>, named: Seq<NamedArgView>, s: SessionView)
    ensures
        told(s, resources::named_path(builtin, named, s)),
    decreases named.len(),
{
    if named.len() > 0 {
        lemma_named_path_told(builtin, named.drop_last(), s);
    }
}

proof fn lemma_sandbox_told(named: Seq<NamedArgView>, s: SessionView)
    ensures
        told(s, resources::sandbox_argument(named, s)),
    decreases named.len(),
{
    if named.len() > 0 {
        lemma_sandbox_told(named.drop_last(), s);
    }
}

proof fn lemma_source_paths_told(sources: Seq<SourceId>, s: SessionView)
    ensures
        semantics::source_paths(sources, s).1.diagnostics == s.diagnostics,
        told(s, semantics::source_paths(sources, s)),
    decreases sources.len(),
{
    reveal(semantics::source_paths);
    if sources.len() > 0 {
        lemma_source_paths_told(sources.drop_last(), s);
    }
}

/// Whether an outcome is content.
pub open spec fn is_content(out: OutcomeView) -> bool {
    match out {
        OutcomeView::Value(ValueView::Content(_)) => true,
        _ => false,
    }
}

/// A source that is inserted fails exactly where something in it is reported, once no answer is
/// missing; else it gives content.
pub proof fn lemma_source_told(
    e: Evaluator,
    target: SourceId,
    path: Seq<char>,
    content: Seq<char>,
    sandbox: IncludeSandbox,
    f: nat,
    w: World,
)
    ensures
        ({
            let r = semantics::eval_source(e, target, path, content, sandbox, f, w);
            &&& r.w.s.pending is None ==> (r.out is Failed <==> r.w.reported() > w.reported())
            &&& !(r.out is Failed) ==> is_content(r.out)
        }),
{
    reveal(semantics::eval_source);
    let asked = w.s.ask_parsed(
        QueryView::Parse {
            source_id: target,
            text: content,
            mode: lines::mode_of_path(path),
            metadata_defaults: w.c.metadata_defaults,
        },
    );
    if let Some(parsed) = asked.0 {
        let grow = Growth { answers: Seq::empty(), depth: 0, elements: 0 };
        let own = ContextView {
            current_source: Some(target),
            active_sources: w.c.active_sources.push(target),
            ..w.c
        };
        let apart = ContextView {
            current_source: Some(target),
            active_sources: w.c.active_sources.push(target),
            ..scope::child_context(
                ContextView { active_sources: w.c.active_sources.push(target), ..w.c },
            )
        };
        growth_sequences::lemma_eval_nodes(e, parsed.nodes, f, World { s: asked.1, c: own }, grow);
        growth_sequences::lemma_eval_nodes(
            e,
            parsed.nodes,
            f,
            World { s: asked.1, c: apart },
            grow,
        );
    }
}

/// `.include` fails exactly where something is reported, once no answer is missing, and else
/// gives content. It leaves the sources that are active as they are, and the whole scope where
/// it was asked not to share it.
pub proof fn lemma_include_told(
    e: Evaluator,
    positional: Seq<ValueView>,
    named: Seq<NamedArgView>,
    span: SourceSpan,
    f: nat,
    w: World,
)
    ensures
        ({
            let r = semantics::eval_include(e, positional, named, span, f, w);
            let reference = resources::resource_path("include"@, positional, named, span, w.s);
            let sandbox = resources::sandbox_argument(named, reference.1).0;
            &&& r.w.s.pending is None ==> (r.out is Failed <==> r.w.reported() > w.reported())
            &&& !(r.out is Failed) ==> is_content(r.out)
            &&& r.w.c.active_sources == w.c.active_sources
            &&& r.w.c.current_source == w.c.current_source
            &&& sandbox is Some && sandbox->0 is Some && sandbox->0->0 !is Share ==> r.w.c == w.c
        }),
{
    reveal(semantics::eval_include);
    reveal(semantics::eval_source);
    lemma_named_path_told("include"@, named, w.s);
    let (reference, s) = resources::resource_path("include"@, positional, named, span, w.s);
    lemma_sandbox_told(named, s);
    let (sandbox, t) = resources::sandbox_argument(named, s);
    let (caller, u) = resources::calling_source(w.c, span, t);
    if reference is Some && sandbox is Some && caller is Some {
        let (answer, v) = u.ask_source(
            QueryView::ReadSource { source_id: caller->0, reference: reference->0 },
        );
        if let Some(Ok(source)) = answer {
            match semantics::active_place(w.c.active_sources, source.source_id) {
                Some(i) => {
                    lemma_source_paths_told(w.c.active_sources.skip(i), v);
                },
                None => {
                    let mode = match sandbox->0 {
                        Some(mode) => mode,
                        None => IncludeSandbox::Share,
                    };
                    lemma_source_told(
                        e,
                        source.source_id,
                        source.path,
                        source.text,
                        mode,
                        f,
                        w.on(v),
                    );
                    lemma_include_restores(
                        e,
                        source.source_id,
                        source.path,
                        source.text,
                        mode,
                        f,
                        w.on(v),
                    );
                },
            }
        }
    }
}

/// What `.docname` and `.docdescription` write is what they read afterwards.
pub proof fn lemma_document_text_written(
    e: Evaluator,
    call: CallView,
    values: Seq<InvocationValueView>,
    named: Seq<InvocationNamedView>,
    read: CallView,
    f: nat,
    w: World,
)
    requires
        call.name == "docname"@ || call.name == "docdescription"@,
        semantics::set_document_text(call, values, named, w).out is NoValue,
        read.name == call.name,
        read.positional.len() == 0,
        read.named.len() == 0,
        read.body is None,
    ensures
        ({
            let after = semantics::set_document_text(call, values, named, w).w;
            w.s.ask_text(QueryView::ScalarString { argument: values[0] }).0 matches Some(
                Some(content),
            ) && semantics::eval_document_state(e, read, f, after) == semantics::gives(
                ValueView::String(content),
                after,
            )
        }),
{
    reveal(semantics::set_document_text);
    reveal(semantics::eval_document_state);
    reveal_strlit("docname");
    reveal_strlit("docdescription");
    assert("docname"@.len() != "docdescription"@.len());
}

/// `.docname` and `.docdescription` write nothing where they fail, and else one text alone.
pub proof fn lemma_document_text_atomic(
    call: CallView,
    values: Seq<InvocationValueView>,
    named: Seq<InvocationNamedView>,
    w: World,
)
    ensures
        ({
            let r = semantics::set_document_text(call, values, named, w);
            let before = w.s.document_state;
            let after = r.w.s.document_state;
            &&& r.out is Failed || r.out is NoValue
            &&& r.out is Failed ==> after == before
            &&& after.document_type == before.document_type
            &&& call.name == "docname"@ ==> after.description == before.description
            &&& call.name != "docname"@ ==> after.name == before.name
            &&& r.w.c == w.c
        }),
{
    reveal(semantics::set_document_text);
}

/// What `.doctype` writes is what it reads afterwards, and a call that fails writes nothing.
pub proof fn lemma_document_type_written(
    e: Evaluator,
    call: CallView,
    values: Seq<InvocationValueView>,
    named: Seq<InvocationNamedView>,
    read: CallView,
    f: nat,
    w: World,
)
    requires
        read.name == "doctype"@,
        read.positional.len() == 0,
        read.named.len() == 0,
        read.body is None,
    ensures
        ({
            let r = semantics::set_document_type(call, values, named, w);
            let kept = semantics::state_value("doctype"@, w.s.document_state);
            match r.out {
                OutcomeView::NoValue => (if values.len() == 1 {
                    calls::closed_enum(values[0], ClosedEnumTarget::DocumentType, w.s)
                } else {
                    calls::closed_enum(
                        InvocationValueView {
                            value: named[0].arg.value,
                            origin: named[0].origin,
                        },
                        ClosedEnumTarget::DocumentType,
                        w.s,
                    )
                }).0 matches Some(Ok(IrEnumValue::DocumentType(written)))
                    && semantics::eval_document_state(e, read, f, r.w) == semantics::gives(
                    ValueView::String(metadata::document_type_name(written)),
                    r.w,
                ),
                _ => r.out is Failed && semantics::eval_document_state(e, read, f, r.w)
                    == semantics::gives(kept, r.w),
            }
        }),
{
    reveal(semantics::set_document_type);
    reveal(semantics::eval_document_state);
    reveal_strlit("docname");
    reveal_strlit("docdescription");
    reveal_strlit("doctype");
    assert("docname"@.len() == "doctype"@.len());
    assert("docname"@[3] != "doctype"@[3]);
    assert("docdescription"@.len() != "doctype"@.len());
}

/// A variable that was assigned gives the value back to a call that passes nothing.
pub proof fn lemma_variable_written(
    e: Evaluator,
    name: Seq<char>,
    value: ValueView,
    span: SourceSpan,
    read: CallView,
    f: nat,
    w: World,
)
    requires
        semantics::assign_argument(e, name, value, span, f, w).out is NoValue,
        read.name == name,
        read.positional.len() == 0,
        read.named.len() == 0,
        read.body is None,
    ensures
        ({
            let after = semantics::assign_argument(e, name, value, span, f, w).w;
            semantics::required(e, value, span, f, w).out matches Some(evaluated)
                && semantics::dispatch_bound(e, read, f, after) == semantics::gives(
                evaluated,
                after,
            )
        }),
{
    reveal(semantics::assign_argument);
    reveal(semantics::dispatch_bound);
    let r = semantics::required(e, value, span, f, w);
    if let Some(evaluated) = r.out {
        laws_scope::lemma_assignment(r.w.c, name, evaluated, name);
        laws_scope::lemma_value_round_trip(evaluated);
    }
}

proof fn lemma_no_duplicate(parameters: Seq<ParameterView>, done: nat)
    requires
        done <= parameters.len(),
    ensures
        semantics::first_duplicate(parameters, done) is None <==> forall|i: int, j: int|
            0 <= i < j < done ==> (#[trigger] parameters[i]).name != (
            #[trigger] parameters[j]).name,
    decreases done,
{
    if done > 0 {
        lemma_no_duplicate(parameters, (done - 1) as nat);
    }
}

/// A declaration either reports one error and leaves the scope as it is, or declares the
/// function and reports nothing; it declares where the name is a call name, the body is not
/// empty and no two parameters share a name.
pub proof fn lemma_function_declared(
    name: ValueView,
    parameters: Seq<ParameterView>,
    body: Seq<NodeView>,
    span: SourceSpan,
    w: World,
)
    ensures
        ({
            let after = semantics::declare_function(name, parameters, body, span, w);
            let sound = semantics::declared_name(name) is Some && text::is_call_name(
                semantics::declared_name(name)->0,
            ) && body.len() > 0 && forall|i: int, j: int|
                0 <= i < j < parameters.len() ==> (#[trigger] parameters[i]).name != (
                #[trigger] parameters[j]).name;
            &&& sound ==> after.s == w.s && scope::visible_function(
                after.c,
                semantics::declared_name(name)->0,
            ) == Some(
                FunctionBindingView {
                    parameters: if parameters.len() == 0 {
                        LambdaParametersView::Implicit
                    } else {
                        LambdaParametersView::Explicit(parameters)
                    },
                    body,
                    declaration_span: span,
                    capture: Some(Box::new(scope::capture_of(w.c))),
                },
            )
            &&& !sound ==> after.c == w.c && after.s.diagnostics.len() == w.s.diagnostics.len() + 1
        }),
{
    reveal(semantics::declare_function);
    lemma_no_duplicate(parameters, parameters.len());
    if let Some(n) = semantics::declared_name(name) {
        let binding = FunctionBindingView {
            parameters: if parameters.len() == 0 {
                LambdaParametersView::Implicit
            } else {
                LambdaParametersView::Explicit(parameters)
            },
            body,
            declaration_span: span,
            capture: Some(Box::new(scope::capture_of(w.c))),
        };
        laws_scope::lemma_declaration(w.c, n, binding, n);
    }
}

/// A function of the document stands in for a builtin of the layout, of data or of the host.
pub proof fn lemma_function_stands_in(
    e: Evaluator,
    call: CallView,
    binding: FunctionBindingView,
    f: nat,
    w: World,
)
    requires
        scope::visible_variable(w.c, call.name) is None,
        scope::visible_function(w.c, call.name) == Some(binding),
    ensures
        semantics::dispatch_bound(e, call, f, w) == semantics::eval_user_function(
            e,
            binding,
            call,
            f,
            w,
        ),
{
    reveal(semantics::dispatch_bound);
}

/// What a call comes to where its name belongs to a part of the evaluator that comes before
/// the variables and functions of a document.
pub open spec fn reserved_outcome(
    owner: NativeDispatchOwner,
    e: Evaluator,
    call: CallView,
    f: nat,
    w: World,
) -> Option<Ev<OutcomeView>> {
    match owner {
        NativeDispatchOwner::Conditional => Some(semantics::eval_conditional(e, call, f, w)),
        NativeDispatchOwner::DocumentState => Some(semantics::eval_document_state(e, call, f, w)),
        NativeDispatchOwner::Html => Some(semantics::eval_html(e, call, f, w)),
        NativeDispatchOwner::Markdown => Some(semantics::eval_markdown(e, call, f, w)),
        NativeDispatchOwner::Resource => Some(semantics::eval_resource(e, call, f, w)),
        NativeDispatchOwner::Let => Some(semantics::eval_let(e, call, f, w)),
        NativeDispatchOwner::Foreach => Some(semantics::eval_foreach(e, call, f, w)),
        NativeDispatchOwner::Repeat => Some(semantics::eval_repeat(e, call, f, w)),
        NativeDispatchOwner::OptionalityCallback => Some(
            semantics::eval_optionality(e, call, f, w),
        ),
        NativeDispatchOwner::CollectionTransform => Some(
            semantics::eval_transform(e, call, f, w),
        ),
        NativeDispatchOwner::VariableState => Some(semantics::eval_var(e, call, f, w)),
        _ => None,
    }
}

/// Names of these parts of the evaluator are reserved: whatever variables and functions a
/// document has, the part that owns the name answers, unless a lambda parameter does.
pub proof fn lemma_reserved_names(
    owner: NativeDispatchOwner,
    e: Evaluator,
    call: CallView,
    f: nat,
    w: World,
)
    requires
        natives::owns(owner, call.name),
        reserved_outcome(owner, e, call, f, w) is Some,
        scope::positional_value(w.c, call.name) is None,
    ensures
        Some(semantics::dispatch(e, call, f, w)) == reserved_outcome(owner, e, call, f, w),
{
    reveal(semantics::eval_optionality);
    reveal(semantics::dispatch);
    reveal(semantics::eval_conditional);
    reveal(semantics::eval_document_state);
    reveal(semantics::eval_html);
    reveal(semantics::eval_markdown);
    reveal(semantics::eval_let);
    assert forall|other: NativeDispatchOwner| #[trigger]
        natives::owns(other, call.name) implies other == owner by {
        natives::lemma_one_owner(owner, other, call.name);
    }
    if natives::deferred_names().contains(call.name) {
        natives::lemma_deferred_unowned(owner, call.name);
    }
}

/// `.foreach`, `.repeat` and `.map` give no more elements than the limit allows.
pub proof fn lemma_mapping_within_limit(
    e: Evaluator,
    elements: Seq<ValueView>,
    callable: CallableView,
    destructuring: bool,
    span: SourceSpan,
    f: nat,
    w: World,
)
    ensures
        semantics::map_outcome(e, elements, callable, destructuring, span, f, w).out matches
            OutcomeView::Value(value) ==> value matches ValueView::Collection(values)
            && values.len() == elements.len() && values.len()
            <= e.limits.max_materialized_elements,
{
    reveal(semantics::map_outcome);
    reveal(semantics::map_values);
    let (allowed, s) = collection::check_elements(
        e.limits.max_materialized_elements as nat,
        elements.len(),
        span,
        w.s,
    );
    lemma_mapping_keeps_scope(e, elements, callable, destructuring, span, f, w.on(s));
    lemma_mapping_gives_values(e, elements, callable, destructuring, span, f, w.on(s));
}

proof fn lemma_mapping_gives_values(
    e: Evaluator,
    elements: Seq<ValueView>,
    callable: CallableView,
    destructuring: bool,
    span: SourceSpan,
    f: nat,
    w: World,
)
    ensures
        semantics::map_values(
            e,
            elements,
            callable,
            destructuring,
            span,
            f,
            w,
        ).out matches Err(out) ==> out !is Value,
    decreases elements.len(),
{
    reveal(semantics::map_values);
    reveal(semantics::invoke);
    if elements.len() > 0 {
        lemma_mapping_gives_values(
            e,
            elements.drop_last(),
            callable,
            destructuring,
            span,
            f,
            w,
        );
    }
}

proof fn lemma_chain_prefix_stops(
    e: Evaluator,
    head: CallSegmentView,
    chain: Seq<CallSegmentView>,
    i: nat,
    done: nat,
    body: Option<BodyView>,
    f: nat,
    w: World,
)
    requires
        i <= done,
        !(semantics::chain_prefix(e, head, chain, i, body, f, w).out.0 is Value),
    ensures
        semantics::chain_prefix(e, head, chain, done, body, f, w) == semantics::chain_prefix(
            e,
            head,
            chain,
            i,
            body,
            f,
            w,
        ),
    decreases done,
{
    if i < done {
        lemma_chain_prefix_stops(e, head, chain, i, (done - 1) as nat, body, f, w);
        reveal(semantics::chain_prefix);
        reveal(semantics::eval_call);
    }
}

/// A chain stops at the first segment that gives no value: nothing behind it is called.
pub proof fn lemma_chain_stops(
    e: Evaluator,
    head: CallSegmentView,
    chain: Seq<CallSegmentView>,
    i: nat,
    body: Option<BodyView>,
    f: nat,
    w: World,
)
    requires
        i <= chain.len(),
        !(semantics::chain_prefix(e, head, chain, i, body, f, w).out.0 is Value),
    ensures
        ({
            let r = semantics::chain_prefix(e, head, chain, i, body, f, w);
            semantics::eval_chain(e, head, chain, body, f, w) == (Ev { out: r.out.0, w: r.w })
        }),
{
    reveal(semantics::eval_chain);
    reveal(semantics::chain_prefix);
    lemma_chain_prefix_stops(e, head, chain, i, chain.len(), body, f, w);
}

proof fn lemma_entries_differ(
    e: Evaluator,
    items: Seq<ListItemView>,
    span: SourceSpan,
    f: nat,
    w: World,
)
    ensures
        semantics::entry_list(e, items, span, f, w).out matches Some(entries)
            ==> laws_collections::keys_differ(entries) && entries.len() <= items.len(),
    decreases items.len(),
{
    reveal(semantics::entry_list);
    if items.len() > 0 {
        lemma_entries_differ(e, items.drop_last(), span, f, w);
        let before = semantics::entry_list(e, items.drop_last(), span, f, w);
        let r = semantics::dictionary_entry(e, items.last(), span, f, before.w);
        if let (Some(entries), Some((key, value))) = (before.out, r.out) {
            laws_collections::lemma_written_entry(entries, key, value, items.last().span);
        }
    }
}

/// Every dictionary that `.dictionary` gives has texts for keys, no two of them the same.
pub proof fn lemma_dictionary_keys(e: Evaluator, call: CallView, f: nat, w: World)
    ensures
        semantics::eval_dictionary(e, call, f, w).out matches OutcomeView::Value(value)
            ==> value matches ValueView::Dictionary(dictionary)
            && laws_collections::keys_differ(dictionary.entries),
{
    reveal(semantics::eval_dictionary);
    reveal(semantics::dictionary_entries);
    lemma_dictionary_entries(e, semantics::block_of(call), call.span, f, w);
}

proof fn lemma_dictionary_entries(
    e: Evaluator,
    nodes: Seq<NodeView>,
    span: SourceSpan,
    f: nat,
    w: World,
)
    ensures
        semantics::dictionary_entries(e, nodes, span, f, w).out matches Some(entries)
            ==> laws_collections::keys_differ(entries),
{
    reveal(semantics::dictionary_entries);
    reveal(semantics::entry_list);
    if let Some(items) = collection::only_list(nodes) {
        let (allowed, s) = collection::check_elements(
            e.limits.max_materialized_elements as nat,
            items.len(),
            span,
            w.s,
        );
        lemma_entries_differ(e, items, span, f, w.on(s));
    }
}

/// Evaluation changes nothing of a document's metadata but its state.
pub proof fn lemma_metadata_kept(
    e: Evaluator,
    document: DocumentView,
    s: SessionView,
    c: ContextView,
)
    ensures
        ({
            let (evaluated, after) = semantics::eval_document(e, document, s, c);
            evaluated.metadata == (MetadataView {
                document_state: after.document_state,
                ..document.metadata
            })
        }),
{
    reveal(semantics::eval_document);
}

/// A question that is answered is answered the same where more answers are behind.
pub proof fn lemma_answers_stay(s: SessionView, query: QueryView, more: Seq<ReplyView>)
    requires
        s.ask(query).0 is Some,
    ensures
        ({
            let (reply, after) = s.ask(query);
            (SessionView { replies: s.replies + more, ..s }).ask(query) == (
                reply,
                SessionView { replies: after.replies + more, ..after },
            )
        }),
{
}

/// A session that waits for an answer stays with that question and uses no further answer.
pub proof fn lemma_waiting_stays(s: SessionView, query: QueryView)
    requires
        s.pending is Some,
    ensures
        s.ask(query) == (None::<ReplyView>, s),
{
}

/// Whether two evaluations are finished with the same document and the same reports.
pub open spec fn same_result(first: Progress, again: Progress) -> bool {
    match (first, again) {
        (
            Progress::Done { document: a, diagnostics: x },
            Progress::Done { document: b, diagnostics: y },
        ) => a@ == b@ && diagnostic::diagnostics_view(x@) == diagnostic::diagnostics_view(y@),
        _ => false,
    }
}

/// A finished evaluation stays: with more answers behind it comes to the same document and the
/// same reports, so answers can be kept and handed over again.
pub proof fn lemma_finished_stays(
    first: Progress,
    again: Progress,
    e: Evaluator,
    document: DocumentView,
    replies: Seq<ReplyView>,
    more: Seq<ReplyView>,
    c: ContextView,
)
    requires
        document::is_progress(first, e, document, replies, c),
        document::is_progress(again, e, document, replies + more, c),
        first is Done,
    ensures
        same_result(first, again),
{
    growth_values::lemma_eval_document(
        e,
        document,
        document::fresh_session(replies),
        c,
        Growth { answers: more, depth: 0, elements: 0 },
    );
}

/// Limits only guard: an evaluation that is finished and reports no exceeded limit comes to the
/// same document and the same reports with higher limits.
pub proof fn lemma_limits_guard(
    first: Progress,
    again: Progress,
    e: Evaluator,
    higher: Evaluator,
    document: DocumentView,
    replies: Seq<ReplyView>,
    c: ContextView,
)
    requires
        document::is_progress(first, e, document, replies, c),
        document::is_progress(again, higher, document, replies, c),
        higher.capabilities == e.capabilities,
        higher.limits.max_materialized_elements >= e.limits.max_materialized_elements,
        higher.limits.max_evaluation_depth >= e.limits.max_evaluation_depth,
        first matches Progress::Done { diagnostics, .. } && growth::within(
            diagnostic::diagnostics_view(diagnostics@),
        ),
    ensures
        same_result(first, again),
{
    let grow = Growth {
        answers: Seq::empty(),
        depth: (higher.limits.max_evaluation_depth - e.limits.max_evaluation_depth) as nat,
        elements: (higher.limits.max_materialized_elements
            - e.limits.max_materialized_elements) as nat,
    };
    assert(growth::evaluator(e, grow) == higher);
    assert(replies + grow.answers == replies);
    growth_values::lemma_eval_document(e, document, document::fresh_session(replies), c, grow);
}

} // verus!
