//! Laws of calls that nothing answers to: they are kept as they are written.

use vstd::prelude::*;

use crate::ir::{InlineView, NamedArgView, NodeView, ParameterView, SourceSpan, ValueView};
use crate::laws_arguments;
use crate::materialize;
use crate::outcome::OutcomeView;
use crate::semantics;
use crate::semantics::{Evaluator, World};

verus! {

/// Whether a value is written out, and stays as it is in a call that is kept.
pub open spec fn plain(value: ValueView) -> bool {
    value is String || value is Number || value is Boolean || value is Identifier
        || value is Nothing
}

/// Whether all arguments of a call are written out.
pub open spec fn plain_arguments(values: Seq<ValueView>, named: Seq<NamedArgView>) -> bool {
    &&& forall|i: int| 0 <= i < values.len() ==> plain(#[trigger] values[i])
    &&& forall|i: int| 0 <= i < named.len() ==> plain((#[trigger] named[i]).value)
}

proof fn lemma_values_kept(
    e: Evaluator,
    values: Seq<ValueView>,
    span: SourceSpan,
    f: nat,
    w: World,
)
    requires
        forall|i: int| 0 <= i < values.len() ==> plain(#[trigger] values[i]),
    ensures
        semantics::keep_values(e, values, span, f, w).out == Some(values),
        semantics::keep_values(e, values, span, f, w).w == w,
    decreases values.len(),
{
    reveal(semantics::keep_named);
    reveal(semantics::preserve_call);
    reveal(semantics::preserve_value);
    reveal(semantics::keep_values);
    reveal(semantics::kept);
    if values.len() > 0 {
        let front = values.drop_last();
        assert forall|i: int| 0 <= i < front.len() implies plain(#[trigger] front[i]) by {
            assert(front[i] == values[i]);
        }
        lemma_values_kept(e, front, span, f, w);
        assert(plain(values[values.len() - 1]));
        laws_arguments::lemma_literal_evaluated(e, values.last(), span, f, w);
        assert(w.on(w.s) == w);
        assert(semantics::kept(e, values.last(), span, f, w).out == Some(values.last()));
        assert(semantics::kept(e, values.last(), span, f, w).w == w);
        assert(front.push(values.last()) =~= values);
    } else {
        assert(values =~= Seq::empty());
    }
}

proof fn lemma_named_kept(
    e: Evaluator,
    named: Seq<NamedArgView>,
    span: SourceSpan,
    f: nat,
    w: World,
)
    requires
        forall|i: int| 0 <= i < named.len() ==> plain((#[trigger] named[i]).value),
    ensures
        semantics::keep_named(e, named, span, f, w).out == Some(named),
        semantics::keep_named(e, named, span, f, w).w == w,
    decreases named.len(),
{
    reveal(semantics::keep_values);
    reveal(semantics::preserve_call);
    reveal(semantics::preserve_value);
    reveal(semantics::keep_named);
    reveal(semantics::kept);
    if named.len() > 0 {
        let front = named.drop_last();
        assert forall|i: int| 0 <= i < front.len() implies plain((#[trigger] front[i]).value) by {
            assert(front[i] == named[i]);
        }
        lemma_named_kept(e, front, span, f, w);
        assert(plain(named[named.len() - 1].value));
        laws_arguments::lemma_literal_evaluated(e, named.last().value, span, f, w);
        assert(w.on(w.s) == w);
        let r = semantics::kept(e, named.last().value, span, f, w);
        assert(r.out == Some(named.last().value) && r.w == w);
        assert(front.push(named.last()) =~= named);
    } else {
        assert(named =~= Seq::empty());
    }
}

/// The arguments of a call that is kept are evaluated in order, each in the world that those before
/// it leave, and stand in the same order with their names; where one cannot be kept, none is.
pub proof fn lemma_kept_in_order(
    e: Evaluator,
    values: Seq<ValueView>,
    last: ValueView,
    named: Seq<NamedArgView>,
    arg: NamedArgView,
    span: SourceSpan,
    f: nat,
    w: World,
)
    ensures
        ({
            let before = semantics::keep_values(e, values, span, f, w);
            let r = semantics::kept(e, last, span, f, before.w);
            let all = semantics::keep_values(e, values.push(last), span, f, w);
            if before.out is None {
                all.out is None && all.w == before.w
            } else if r.out is None {
                all.out is None && all.w == r.w
            } else {
                all.out == Some(before.out->0.push(r.out->0)) && all.w == r.w
            }
        }),
        ({
            let before = semantics::keep_named(e, named, span, f, w);
            let r = semantics::kept(e, arg.value, span, f, before.w);
            let all = semantics::keep_named(e, named.push(arg), span, f, w);
            if before.out is None {
                all.out is None && all.w == before.w
            } else if r.out is None {
                all.out is None && all.w == r.w
            } else {
                &&& all.w == r.w
                &&& all.out == Some(
                    before.out->0.push(
                        NamedArgView {
                            name: arg.name,
                            name_span: arg.name_span,
                            value: r.out->0,
                            span: arg.span,
                        },
                    ),
                )
            }
        }),
{
    reveal(semantics::preserve_call);
    reveal(semantics::preserve_value);
    reveal(semantics::kept);
    reveal(semantics::keep_values);
    reveal(semantics::keep_named);
    assert(values.push(last).drop_last() =~= values);
    assert(named.push(arg).drop_last() =~= named);
}

/// An argument of a call that is kept is its value where that can be kept.
pub proof fn lemma_kept_value(
    e: Evaluator,
    value: ValueView,
    span: SourceSpan,
    f: nat,
    w: World,
)
    ensures
        ({
            let given = semantics::eval_value(e, value, f, w);
            let r = semantics::kept(e, value, span, f, w);
            match given.out {
                OutcomeView::Value(v) => {
                    let fits = materialize::preservable(v, given.w.s);
                    &&& r.w.c == given.w.c && r.w.s == fits.1
                    &&& fits.0 ==> r.out == Some(v)
                    &&& !fits.0 ==> r.out is None
                },
                OutcomeView::Failed => r.out is None && r.w == given.w,
                OutcomeView::NoValue => r.out is None && r.w.s.diagnostics.len()
                    == given.w.s.diagnostics.len() + 1,
                OutcomeView::Unresolved => r == semantics::preserve_value(e, value, f, given.w),
            }
        }),
{
    reveal(semantics::keep_named);
    reveal(semantics::keep_values);
    reveal(semantics::preserve_call);
    reveal(semantics::preserve_value);
    reveal(semantics::kept);
}

/// A call that is kept stays as it is written where its arguments are written out: with its name,
/// its arguments, its parameters and its place. Its body is evaluated, and stays its body.
pub proof fn lemma_call_kept(
    e: Evaluator,
    name: Seq<char>,
    values: Seq<ValueView>,
    named: Seq<NamedArgView>,
    lambda: Option<Seq<ParameterView>>,
    nodes: Seq<NodeView>,
    span: SourceSpan,
    f: nat,
    w: World,
)
    requires
        plain_arguments(values, named),
    ensures
        ({
            let node = NodeView::FunctionCall {
                name,
                positional_args: values,
                named_args: named,
                lambda_parameters: lambda,
                body: None,
                span,
            };
            let r = semantics::preserve_call(e, node, f, w);
            r.out == Some(seq![node]) && r.w == w
        }),
        ({
            let node = NodeView::FunctionCall {
                name,
                positional_args: values,
                named_args: named,
                lambda_parameters: lambda,
                body: Some(nodes),
                span,
            };
            let inside = semantics::eval_nodes(e, nodes, f, w);
            let r = semantics::preserve_call(e, node, f, w);
            &&& r.w == inside.w
            &&& inside.w.s.diagnostics.len() == w.s.diagnostics.len() ==> r.out == Some(
                seq![
                    NodeView::FunctionCall {
                        name,
                        positional_args: values,
                        named_args: named,
                        lambda_parameters: lambda,
                        body: Some(inside.out),
                        span,
                    },
                ],
            )
            &&& inside.w.s.diagnostics.len() != w.s.diagnostics.len() ==> r.out is None
        }),
{
    reveal(semantics::preserve_value);
    reveal(semantics::keep_named);
    reveal(semantics::keep_values);
    reveal(semantics::kept);
    reveal(semantics::preserve_call);
    lemma_values_kept(e, values, span, f, w);
    lemma_named_kept(e, named, span, f, w);
}

/// Whatever its arguments are, a call that is kept has its positional arguments kept first, then
/// its named ones, and then its body evaluated, each in the world that the one before leaves.
pub proof fn lemma_call_kept_in_order(
    e: Evaluator,
    name: Seq<char>,
    values: Seq<ValueView>,
    named: Seq<NamedArgView>,
    lambda: Option<Seq<ParameterView>>,
    nodes: Seq<NodeView>,
    span: SourceSpan,
    f: nat,
    w: World,
)
    ensures
        ({
            let node = NodeView::FunctionCall {
                name,
                positional_args: values,
                named_args: named,
                lambda_parameters: lambda,
                body: Some(nodes),
                span,
            };
            let first = semantics::keep_values(e, values, span, f, w);
            let second = semantics::keep_named(e, named, span, f, first.w);
            let inside = semantics::eval_nodes(e, nodes, f, second.w);
            let r = semantics::preserve_call(e, node, f, w);
            if first.out is None {
                r.out is None && r.w == first.w
            } else if second.out is None {
                r.out is None && r.w == second.w
            } else if inside.w.s.diagnostics.len() != second.w.s.diagnostics.len() {
                r.out is None && r.w == inside.w
            } else {
                &&& r.w == inside.w
                &&& r.out == Some(
                    seq![
                        NodeView::FunctionCall {
                            name,
                            positional_args: first.out->0,
                            named_args: second.out->0,
                            lambda_parameters: lambda,
                            body: Some(inside.out),
                            span,
                        },
                    ],
                )
            }
        }),
{
    reveal(semantics::preserve_value);
    reveal(semantics::keep_named);
    reveal(semantics::keep_values);
    reveal(semantics::kept);
    reveal(semantics::preserve_call);
}

/// So it is with a call in a line.
pub proof fn lemma_line_call_kept(
    e: Evaluator,
    name: Seq<char>,
    values: Seq<ValueView>,
    named: Seq<NamedArgView>,
    line: Seq<InlineView>,
    span: SourceSpan,
    f: nat,
    w: World,
)
    requires
        plain_arguments(values, named),
    ensures
        ({
            let inline = InlineView::DirectiveCall {
                name,
                positional_args: values,
                named_args: named,
                body: None,
                span,
            };
            let r = semantics::preserve_inline_call(e, inline, f, w);
            r.out == Some(seq![inline]) && r.w == w
        }),
        ({
            let inline = InlineView::DirectiveCall {
                name,
                positional_args: values,
                named_args: named,
                body: Some(line),
                span,
            };
            let inside = semantics::eval_inlines(e, line, f, w);
            let r = semantics::preserve_inline_call(e, inline, f, w);
            &&& r.w == inside.w
            &&& inside.w.s.diagnostics.len() == w.s.diagnostics.len() ==> r.out == Some(
                seq![
                    InlineView::DirectiveCall {
                        name,
                        positional_args: values,
                        named_args: named,
                        body: Some(inside.out),
                        span,
                    },
                ],
            )
            &&& inside.w.s.diagnostics.len() != w.s.diagnostics.len() ==> r.out is None
        }),
{
    reveal(semantics::preserve_call);
    reveal(semantics::preserve_value);
    reveal(semantics::keep_named);
    reveal(semantics::keep_values);
    reveal(semantics::kept);
    reveal(semantics::preserve_inline_call);
    lemma_values_kept(e, values, span, f, w);
    lemma_named_kept(e, named, span, f, w);
}

/// What can be kept in a call: a range and a callable cannot, wherever they stand in a value, and
/// any other value can.
pub proof fn lemma_keepable(value: ValueView, s: crate::host::SessionView)
    ensures
        plain(value) || value is Content || value is Size || value is Color || value is Enum
            || value is Component ==> materialize::preservable(value, s) == (true, s),
        value is Range || value is Callable ==> {
            let r = materialize::preservable(value, s);
            !r.0 && r.1.diagnostics.len() == s.diagnostics.len() + 1
                && r.1.diagnostics.last().code == "E3001"@
        },
        value matches ValueView::Pair(pair) ==> {
            let first = materialize::preservable(*pair.first, s);
            let second = materialize::preservable(*pair.second, first.1);
            materialize::preservable(value, s) == (if first.0 {
                second
            } else {
                first
            })
        },
        value matches ValueView::Collection(values) ==> values.len() > 0 ==> {
            let before = materialize::preservable(ValueView::Collection(values.drop_last()), s);
            let last = materialize::preservable(values.last(), before.1);
            materialize::preservable(value, s) == (if before.0 {
                last
            } else {
                before
            })
        },
{
    reveal_with_fuel(materialize::preservable, 3);
    reveal_with_fuel(materialize::all_preservable, 3);
    reveal_with_fuel(materialize::pair_preservable, 3);
}

/// Content that is kept is what evaluating it gives, where that reports nothing; otherwise there is
/// nothing to keep.
pub proof fn lemma_content_kept(e: Evaluator, nodes: Seq<NodeView>, f: nat, w: World)
    requires
        !(nodes.len() == 1 && nodes[0] is FunctionCall),
    ensures
        ({
            let r = semantics::preserve_value(e, ValueView::Content(nodes), f, w);
            let evaluated = semantics::eval_nodes(e, nodes, f, w);
            &&& r.w == evaluated.w
            &&& evaluated.w.s.diagnostics.len() == w.s.diagnostics.len() ==> r.out == Some(
                ValueView::Content(evaluated.out),
            )
            &&& evaluated.w.s.diagnostics.len() > w.s.diagnostics.len() ==> r.out is None
        }),
{
    reveal(semantics::keep_named);
    reveal(semantics::keep_values);
    reveal(semantics::kept);
    reveal(semantics::preserve_call);
    reveal(semantics::preserve_value);
}

} // verus!
