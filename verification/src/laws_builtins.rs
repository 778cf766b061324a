//! Laws of pairs, ranges, `.let` and the builtins of the host.

use vstd::prelude::*;

use crate::calls;
use crate::host::{
    BuiltinBodyPolicy, InvocationValueView, QueryView, ReplyView, ScalarTarget, ScalarValueView,
    SessionView, ValueOrigin,
};
use crate::ir::{NodeView, PairView, ParameterView, SourceSpan, ValueView};
use crate::laws_arguments;
use crate::laws_data;
use crate::laws_iteration;
use crate::laws_leaves;
use crate::number::Number;
use crate::outcome::OutcomeView;
use crate::semantics;
use crate::semantics::{BodyView, CallView, Evaluator, World};

verus! {

/// A call with positional arguments and nothing else.
pub open spec fn positional_call(
    name: Seq<char>,
    positional: Seq<ValueView>,
    span: SourceSpan,
) -> CallView {
    CallView {
        name,
        positional,
        named: Seq::empty(),
        lambda: None,
        body: None,
        span,
        first_origin: None,
    }
}

/// Whether a value stands for itself.
pub open spec fn literal(value: ValueView) -> bool {
    !(value is Content) && !(value is Callable)
}

/// `.pair` has its first argument first and its second argument second.
pub proof fn lemma_pair_made(
    e: Evaluator,
    first: ValueView,
    second: ValueView,
    span: SourceSpan,
    f: nat,
    w: World,
)
    requires
        literal(first),
        literal(second),
    ensures
        ({
            let r = semantics::eval_pair(
                e,
                positional_call("pair"@, seq![first, second], span),
                f,
                w,
            );
            &&& r.w == w
            &&& r.out == OutcomeView::Value(
                ValueView::Pair(
                    PairView { first: Box::new(first), second: Box::new(second), span },
                ),
            )
        }),
{
    reveal(semantics::eval_pair);
    assert(seq![first, second] =~= Seq::empty().push(first).push(second));
    laws_arguments::lemma_values_in_order(e, Seq::empty(), first, span, f, w);
    laws_arguments::lemma_values_in_order(e, Seq::empty().push(first), second, span, f, w);
    laws_arguments::lemma_literal_evaluated(e, first, span, f, w);
    laws_arguments::lemma_literal_evaluated(e, second, span, f, w);
}

/// `.range` starts at its first argument and ends at its second, as far as the host reads numbers
/// from them.
pub proof fn lemma_range_made(
    e: Evaluator,
    from: Number,
    to: Number,
    a: Number,
    b: Number,
    span: SourceSpan,
    f: nat,
    w: World,
)
    requires
        w.s.pending is None,
        w.s.used + 1 < w.s.replies.len(),
        w.s.replies[w.s.used as int] == ReplyView::Scalar(Ok(ScalarValueView::Number(a))),
        w.s.replies[w.s.used as int + 1] == ReplyView::Scalar(Ok(ScalarValueView::Number(b))),
    ensures
        ({
            let call = positional_call(
                "range"@,
                seq![ValueView::Number(from), ValueView::Number(to)],
                span,
            );
            let r = semantics::eval_range(e, call, f, w);
            &&& r.w.c == w.c
            &&& r.w.s == SessionView { used: w.s.used + 2, ..w.s }
            &&& r.out is Value && r.out->Value_0 is Range
            &&& r.out->Value_0->Range_0.start is Some
            &&& r.out->Value_0->Range_0.start->0 == calls::endpoint_of(a)
            &&& r.out->Value_0->Range_0.end is Some
            &&& r.out->Value_0->Range_0.end->0 == calls::endpoint_of(b)
            &&& r.out->Value_0->Range_0.span == span
        }),
{
    reveal(semantics::eval_range);
    reveal(semantics::range_bound);
    let x = ValueView::Number(from);
    let y = ValueView::Number(to);
    laws_data::lemma_range_arguments(x, y, span, span, w.s);
    assert(w.on(w.s) == w);
    laws_arguments::lemma_argument_alone(e, x, span, None, f, w);
    let told = World { s: SessionView { used: w.s.used + 1, ..w.s }, c: w.c };
    assert(w.on(told.s) == told);
    laws_arguments::lemma_argument_alone(e, y, span, None, f, told);
    assert(i32::MIN <= calls::endpoint_of(a) <= i32::MAX);
    assert(i32::MIN <= calls::endpoint_of(b) <= i32::MAX);
}

/// What the host is asked of the start of a range is its value as a number.
pub proof fn lemma_range_asked(
    e: Evaluator,
    from: Number,
    span: SourceSpan,
    f: nat,
    w: World,
)
    requires
        w.s.pending is None,
        w.s.used >= w.s.replies.len(),
    ensures
        semantics::eval_range(
            e,
            positional_call("range"@, seq![ValueView::Number(from)], span),
            f,
            w,
        ).w.s.pending == Some(
            QueryView::Scalar {
                argument: InvocationValueView {
                    value: ValueView::Number(from),
                    origin: ValueOrigin::Static,
                },
                target: ScalarTarget::Number,
            },
        ),
{
    reveal(semantics::eval_range);
    reveal(semantics::range_bound);
    let x = ValueView::Number(from);
    laws_data::lemma_range_arguments(x, x, span, span, w.s);
    assert(w.on(w.s) == w);
    laws_arguments::lemma_argument_alone(e, x, span, None, f, w);
}

/// `.let` applies its body to its value, once, and gives what that gives.
pub proof fn lemma_let_applied(
    e: Evaluator,
    value: ValueView,
    lambda: Option<Seq<ParameterView>>,
    nodes: Seq<NodeView>,
    span: SourceSpan,
    f: nat,
    w: World,
)
    requires
        literal(value),
        lambda is Some ==> lambda->0.len() == 1,
    ensures
        semantics::eval_let(
            e,
            laws_iteration::body_call("let"@, value, lambda, nodes, span),
            f,
            w,
        ) == semantics::invoke(
            e,
            laws_iteration::body_callable(lambda, nodes, span, w),
            seq![value],
            false,
            span,
            f,
            w,
        ),
{
    reveal(semantics::eval_let);
    reveal(semantics::lambda_call_error);
    laws_arguments::lemma_literal_evaluated(e, value, span, f, w);
}

/// A name that nothing else answers to is a builtin of the host: the host says whether it has one
/// of that name, and where it has none the call stays unresolved.
pub proof fn lemma_builtin_known(
    e: Evaluator,
    name: Seq<char>,
    positional: Seq<ValueView>,
    span: SourceSpan,
    f: nat,
    w: World,
)
    requires
        w.s.pending is None,
    ensures
        ({
            let r = semantics::eval_builtin(e, positional_call(name, positional, span), f, w);
            &&& w.s.used >= w.s.replies.len() ==> r.out is Failed && r.w.s.pending == Some(
                QueryView::BuiltinPolicy { name },
            )
            &&& w.s.used < w.s.replies.len() && w.s.replies[w.s.used as int] == ReplyView::Policy(
                None,
            ) ==> r.out is Unresolved && r.w.s == SessionView { used: w.s.used + 1, ..w.s }
                && r.w.c == w.c
        }),
{
    reveal(semantics::body_value);
    reveal(semantics::builtin_values);
    reveal(semantics::eval_builtin);
}

/// A builtin of the host is called with its name and the value of its argument, and gives what the
/// host gives; an error of the host is reported where the call stands.
pub proof fn lemma_builtin_called(
    e: Evaluator,
    name: Seq<char>,
    value: ValueView,
    policy: BuiltinBodyPolicy,
    result: Result<ValueView, Seq<char>>,
    span: SourceSpan,
    f: nat,
    w: World,
)
    requires
        literal(value),
        w.s.pending is None,
        w.s.used < w.s.replies.len(),
        w.s.replies[w.s.used as int] == ReplyView::Policy(Some(policy)),
    ensures
        ({
            let r = semantics::eval_builtin(e, positional_call(name, seq![value], span), f, w);
            &&& w.s.used + 1 == w.s.replies.len() ==> r.w.s.pending == Some(
                QueryView::BuiltinCall {
                    name,
                    positional: seq![
                        InvocationValueView {
                            value,
                            origin: laws_arguments::literal_origin(value),
                        },
                    ],
                    named: Seq::empty(),
                    has_body: false,
                },
            )
            &&& w.s.used + 1 < w.s.replies.len() && w.s.replies[w.s.used as int + 1]
                == ReplyView::Value(result) ==> {
                let told = SessionView { used: w.s.used + 2, ..w.s };
                &&& r.w.c == w.c
                &&& result is Ok ==> r.out == OutcomeView::Value(result->Ok_0) && r.w.s == told
                &&& result is Err ==> r.out is Failed && laws_leaves::reported(
                    told,
                    r.w.s,
                    "E3001"@,
                    span,
                ) && r.w.s.diagnostics.last().message == result->Err_0
            }
        }),
{
    reveal(semantics::body_value);
    reveal(semantics::eval_builtin);
    reveal(semantics::builtin_values);
    let told = World { s: SessionView { used: w.s.used + 1, ..w.s }, c: w.c };
    assert(w.on(told.s) == told);
    assert(seq![value] =~= Seq::empty().push(value));
    laws_arguments::lemma_arguments_in_order(e, Seq::empty(), value, span, None, f, told);
    laws_arguments::lemma_named_arguments_in_order(
        e,
        Seq::empty(),
        crate::ir::NamedArgView { name, name_span: span, value, span },
        span,
        f,
        told,
    );
    let values = semantics::invocation_values(e, seq![value], span, None, f, told).out->0;
    assert(values =~= seq![
        InvocationValueView { value, origin: laws_arguments::literal_origin(value) },
    ]);
    let named = semantics::invocation_named(e, Seq::empty(), span, f, told).out->0;
    assert(named =~= Seq::empty());
    let r = semantics::eval_builtin(e, positional_call(name, seq![value], span), f, w);
    if w.s.used + 1 < w.s.replies.len() && w.s.replies[w.s.used as int + 1] == ReplyView::Value(
        result,
    ) && result is Err {
        let n = w.s.diagnostics.len() as int;
        assert(r.w.s.diagnostics.take(n) =~= w.s.diagnostics);
    }
}

/// A body of a builtin that takes content is its last argument: the content that it evaluates to.
/// A builtin that takes none is told that there is one.
pub proof fn lemma_builtin_body(
    e: Evaluator,
    call: CallView,
    f: nat,
    w: World,
)
    requires
        call.body is Some,
        call.positional.len() == 0,
    ensures
        ({
            let bound = semantics::builtin_values(
                e,
                call,
                BuiltinBodyPolicy::BindEvaluatedContent,
                f,
                w,
            );
            let body = semantics::body_content(e, call.body->0, call.span, f, w);
            &&& bound.w == body.w
            &&& body.out is Some ==> bound.out == Some(
                seq![
                    InvocationValueView {
                        value: ValueView::Content(body.out->0),
                        origin: ValueOrigin::Static,
                    },
                ],
            )
            &&& body.out is None ==> bound.out is None
        }),
        ({
            let bound = semantics::builtin_values(e, call, BuiltinBodyPolicy::Reject, f, w);
            bound.out is Some && bound.out->0.len() == 0 && bound.w == w
        }),
{
    reveal(semantics::builtin_values);
    reveal(semantics::body_value);
    assert(call.positional =~= Seq::empty());
    laws_arguments::lemma_arguments_in_order(
        e,
        Seq::empty(),
        ValueView::Nothing,
        call.span,
        call.first_origin,
        f,
        w,
    );
    let body = semantics::body_content(e, call.body->0, call.span, f, w);
    if body.out is Some {
        let one = InvocationValueView {
            value: ValueView::Content(body.out->0),
            origin: ValueOrigin::Static,
        };
        let bound = semantics::builtin_values(
            e,
            call,
            BuiltinBodyPolicy::BindEvaluatedContent,
            f,
            w,
        );
        assert(bound.out->0 =~= seq![one]);
    }
}

/// A builtin that takes no body is told of the body that it is given; one that takes content is
/// given the content, and told of no body.
pub proof fn lemma_builtin_told_of_body(
    e: Evaluator,
    name: Seq<char>,
    nodes: Seq<NodeView>,
    span: SourceSpan,
    f: nat,
    w: World,
)
    requires
        w.s.pending is None,
        w.s.used + 1 == w.s.replies.len(),
    ensures
        ({
            let call = CallView {
                body: Some(BodyView::Block(nodes)),
                ..positional_call(name, Seq::empty(), span)
            };
            let told = World { s: SessionView { used: w.s.used + 1, ..w.s }, c: w.c };
            let body = semantics::body_content(e, BodyView::Block(nodes), span, f, told);
            let r = semantics::eval_builtin(e, call, f, w);
            &&& w.s.replies[w.s.used as int] == ReplyView::Policy(Some(BuiltinBodyPolicy::Reject))
                ==> r.w.s.pending == Some(
                QueryView::BuiltinCall {
                    name,
                    positional: Seq::empty(),
                    named: Seq::empty(),
                    has_body: true,
                },
            )
            &&& w.s.replies[w.s.used as int] == ReplyView::Policy(
                Some(BuiltinBodyPolicy::BindEvaluatedContent),
            ) && body.out is Some && body.w.s == told.s ==> r.w.s.pending == Some(
                QueryView::BuiltinCall {
                    name,
                    positional: seq![
                        InvocationValueView {
                            value: ValueView::Content(body.out->0),
                            origin: ValueOrigin::Static,
                        },
                    ],
                    named: Seq::empty(),
                    has_body: false,
                },
            )
        }),
{
    reveal(semantics::body_value);
    reveal(semantics::builtin_values);
    reveal(semantics::eval_builtin);
    let call = CallView {
        body: Some(BodyView::Block(nodes)),
        ..positional_call(name, Seq::empty(), span)
    };
    let told = World { s: SessionView { used: w.s.used + 1, ..w.s }, c: w.c };
    assert(w.on(told.s) == told);
    lemma_builtin_body(e, call, f, told);
    let body = semantics::body_content(e, BodyView::Block(nodes), span, f, told);
    let arg = crate::ir::NamedArgView {
        name,
        name_span: span,
        value: ValueView::Nothing,
        span,
    };
    laws_arguments::lemma_named_arguments_in_order(e, Seq::empty(), arg, span, f, told);
    laws_arguments::lemma_named_arguments_in_order(e, Seq::empty(), arg, span, f, body.w);
    let none = semantics::invocation_named(e, Seq::empty(), span, f, told).out->0;
    assert(none =~= Seq::empty());
    let later = semantics::invocation_named(e, Seq::empty(), span, f, body.w).out->0;
    assert(later =~= Seq::empty());
    let rejected = semantics::builtin_values(e, call, BuiltinBodyPolicy::Reject, f, told);
    assert(rejected.out->0 =~= Seq::empty());
}

} // verus!
