//! Laws of `.if` and `.ifnot`: which of them show their content, and which content that is.

use vstd::prelude::*;

use crate::host::{
    InvocationValueView, QueryView, ReplyView, ScalarTarget, ScalarValueView, SessionView,
    ValueOrigin,
};
use crate::ir::{NamedArgView, NodeView, SourceSpan, ValueView};
use crate::materialize;
use crate::outcome::OutcomeView;
use crate::scope;
use crate::scope::VariableValueView;
use crate::semantics;
use crate::semantics::{BodyView, CallView, Evaluator, World};

verus! {

/// A conditional with a condition and a body.
pub open spec fn conditional(
    name: Seq<char>,
    condition: ValueView,
    nodes: Seq<NodeView>,
    span: SourceSpan,
) -> CallView {
    CallView {
        name,
        positional: seq![condition],
        named: Seq::empty(),
        lambda: None,
        body: Some(BodyView::Block(nodes)),
        span,
        first_origin: None,
    }
}

/// `.if` shows its body where the condition is true, and `.ifnot` where it is false; the other one
/// shows no content. The condition is what the host says of the value as a boolean.
pub proof fn lemma_conditional_decides(
    e: Evaluator,
    condition: ValueView,
    truth: bool,
    nodes: Seq<NodeView>,
    span: SourceSpan,
    f: nat,
    w: World,
)
    requires
        !(condition is Content),
        !(condition is Callable),
        !(condition is Identifier),
        w.s.pending is None,
        w.s.used < w.s.replies.len(),
        w.s.replies[w.s.used as int] == ReplyView::Scalar(Ok(ScalarValueView::Boolean(truth))),
    ensures
        ({
            let told = World { s: SessionView { used: w.s.used + 1, ..w.s }, c: w.c };
            let body = semantics::body_content(e, BodyView::Block(nodes), span, f, told);
            let when = semantics::eval_conditional(
                e,
                conditional("if"@, condition, nodes, span),
                f,
                w,
            );
            let unless = semantics::eval_conditional(
                e,
                conditional("ifnot"@, condition, nodes, span),
                f,
                w,
            );
            let (taken, left) = if truth {
                (when, unless)
            } else {
                (unless, when)
            };
            &&& left.out == OutcomeView::Value(ValueView::Content(Seq::empty()))
            &&& left.w == told
            &&& taken.w == body.w
            &&& body.out is Some ==> taken.out == OutcomeView::Value(
                ValueView::Content(body.out->0),
            )
            &&& body.out is None ==> taken.out is Failed
        }),
{
    reveal(semantics::content_argument);
    reveal(semantics::eval_conditional);
    reveal(semantics::condition_argument);
    reveal(semantics::conditional_content);
    reveal(semantics::eval_body);
    crate::laws_arguments::lemma_argument_alone(e, condition, span, None, f, w);
    reveal_strlit("if");
    reveal_strlit("ifnot");
    assert(!("ifnot"@ =~= "if"@)) by {
        assert("ifnot"@.len() != "if"@.len());
    }
    let told = World { s: SessionView { used: w.s.used + 1, ..w.s }, c: w.c };
    assert(w.on(told.s) == told);
}

/// What the host is asked of a condition is its value as a boolean.
pub proof fn lemma_condition_asked(
    e: Evaluator,
    name: Seq<char>,
    condition: ValueView,
    nodes: Seq<NodeView>,
    span: SourceSpan,
    f: nat,
    w: World,
)
    requires
        condition is Boolean || condition is String || condition is Number,
        w.s.pending is None,
        w.s.used >= w.s.replies.len(),
    ensures
        ({
            let r = semantics::eval_conditional(e, conditional(name, condition, nodes, span), f, w);
            &&& r.out is Failed
            &&& r.w.c == w.c
            &&& r.w.s.pending == Some(
                QueryView::Scalar {
                    argument: InvocationValueView {
                        value: condition,
                        origin: if condition is String {
                            ValueOrigin::Dynamic
                        } else {
                            ValueOrigin::Static
                        },
                    },
                    target: ScalarTarget::Boolean,
                },
            )
        }),
{
    reveal(semantics::content_argument);
    reveal(semantics::eval_conditional);
    reveal(semantics::condition_argument);
    reveal(semantics::conditional_content);
    reveal(semantics::eval_body);
    crate::laws_arguments::lemma_argument_alone(e, condition, span, None, f, w);
}

/// A condition that is a word is the value of the variable of that name where there is one, and
/// else the word itself.
pub proof fn lemma_condition_word(
    e: Evaluator,
    name: Seq<char>,
    word: Seq<char>,
    value: ValueView,
    nodes: Seq<NodeView>,
    span: SourceSpan,
    f: nat,
    w: World,
)
    requires
        w.s.pending is None,
        w.s.used >= w.s.replies.len(),
    ensures
        ({
            let condition = ValueView::Identifier(word);
            let r = semantics::eval_conditional(e, conditional(name, condition, nodes, span), f, w);
            &&& scope::visible_variable(w.c, word) == Some(VariableValueView::Scalar(value))
                ==> r.w.s.pending == Some(
                QueryView::Scalar {
                    argument: InvocationValueView { value, origin: ValueOrigin::Dynamic },
                    target: ScalarTarget::Boolean,
                },
            )
            &&& scope::visible_variable(w.c, word) is None ==> r.w.s.pending == Some(
                QueryView::Scalar {
                    argument: InvocationValueView {
                        value: condition,
                        origin: ValueOrigin::Dynamic,
                    },
                    target: ScalarTarget::Boolean,
                },
            )
        }),
{
    reveal(semantics::content_argument);
    reveal(semantics::eval_conditional);
    reveal(semantics::condition_argument);
    reveal(semantics::conditional_content);
    reveal(semantics::eval_body);
    let none = Seq::<NamedArgView>::empty();
    assert(crate::calls::named_index(none, "condition"@) is None);
}

/// The argument `condition` is the condition wherever it stands; without it the first positional
/// argument is, and without any the call is reported.
pub proof fn lemma_condition_found(e: Evaluator, call: CallView, i: int, f: nat, w: World)
    ensures
        0 <= i < call.named.len() && call.named[i].name == "condition"@ && (forall|j: int|
            0 <= j < i ==> (#[trigger] call.named[j]).name != "condition"@) && !(
        call.named[i].value is Identifier) ==> semantics::condition_argument(e, call, f, w)
            == semantics::invocation_value(e, call.named[i].value, call.span, None, f, w),
        (forall|j: int|
            0 <= j < call.named.len() ==> (#[trigger] call.named[j]).name != "condition"@)
            && call.positional.len() > 0 && !(call.positional[0] is Identifier)
            ==> semantics::condition_argument(e, call, f, w) == semantics::invocation_value(
            e,
            call.positional[0],
            call.span,
            call.first_origin,
            f,
            w,
        ),
        (forall|j: int|
            0 <= j < call.named.len() ==> (#[trigger] call.named[j]).name != "condition"@)
            && call.positional.len() == 0 ==> {
            let r = semantics::condition_argument(e, call, f, w);
            &&& r.out is None && r.w.c == w.c
            &&& r.w.s.diagnostics.len() == w.s.diagnostics.len() + 1
            &&& r.w.s.diagnostics.last().code == "E3001"@
            &&& r.w.s.diagnostics.last().primary == Some(call.span)
        },
{
    reveal(semantics::condition_argument);
    lemma_named_index(call, "condition"@, i);
}

/// The content of a conditional is its body; without one it is the argument `body`; without that
/// it is the second argument, and without any there is none.
pub proof fn lemma_conditional_content(e: Evaluator, call: CallView, i: int, f: nat, w: World)
    ensures
        call.body is Some ==> {
            let body = semantics::body_content(e, call.body->0, call.span, f, w);
            let r = semantics::conditional_content(e, call, f, w);
            &&& r.w == body.w
            &&& body.out is Some ==> r.out == OutcomeView::Value(ValueView::Content(body.out->0))
            &&& body.out is None ==> r.out is Failed
        },
        call.body is None && 0 <= i < call.named.len() && call.named[i].name == "body"@ && (forall|
            j: int,
        |
            0 <= j < i ==> (#[trigger] call.named[j]).name != "body"@)
            ==> semantics::conditional_content(e, call, f, w) == semantics::content_argument(
            e,
            call.named[i].value,
            call.span,
            f,
            w,
        ),
        call.body is None && (forall|j: int|
            0 <= j < call.named.len() ==> (#[trigger] call.named[j]).name != "body"@)
            && call.positional.len() > 1 ==> semantics::conditional_content(e, call, f, w)
            == semantics::content_argument(e, call.positional[1], call.span, f, w),
        call.body is None && (forall|j: int|
            0 <= j < call.named.len() ==> (#[trigger] call.named[j]).name != "body"@)
            && call.positional.len() <= 1 ==> {
            let r = semantics::conditional_content(e, call, f, w);
            r.out == OutcomeView::Value(ValueView::Content(Seq::empty())) && r.w == w
        },
{
    reveal(semantics::content_argument);
    reveal(semantics::conditional_content);
    reveal(semantics::eval_body);
    lemma_named_index(call, "body"@, i);
}

proof fn lemma_named_index(call: CallView, name: Seq<char>, i: int)
    ensures
        0 <= i < call.named.len() && call.named[i].name == name && (forall|j: int|
            0 <= j < i ==> (#[trigger] call.named[j]).name != name)
            ==> crate::calls::named_index(call.named, name) == Some(i),
        (forall|j: int| 0 <= j < call.named.len() ==> (#[trigger] call.named[j]).name != name)
            ==> crate::calls::named_index(call.named, name) is None,
{
    if 0 <= i < call.named.len() && call.named[i].name == name && (forall|j: int|
        0 <= j < i ==> (#[trigger] call.named[j]).name != name) {
        assert(crate::calls::is_named(call.named, name, i));
        let k = choose|k: int| crate::calls::is_named(call.named, name, k);
        assert(crate::calls::is_named(call.named, name, k));
        if k < i {
            assert(call.named[k].name != name);
        } else if i < k {
            assert(call.named[i].name != name);
        }
    }
}

/// An argument that is to be content is what its value is shown as.
pub proof fn lemma_argument_as_content(
    e: Evaluator,
    value: ValueView,
    span: SourceSpan,
    f: nat,
    w: World,
)
    requires
        !(value is Content),
        !(value is Callable),
    ensures
        ({
            let shown = materialize::content_nodes(value, span, w.s);
            let r = semantics::content_argument(e, value, span, f, w);
            &&& r.w.s == shown.1 && r.w.c == w.c
            &&& shown.0 is Some ==> r.out == OutcomeView::Value(ValueView::Content(shown.0->0))
            &&& shown.0 is None ==> r.out is Failed
        }),
{
    reveal(semantics::content_argument);
    crate::laws_arguments::lemma_literal_evaluated(e, value, span, f, w);
}

} // verus!
