//! Laws of calls: what a variable that is called gives.

use vstd::prelude::*;

use crate::ir::{InlineView, NamedArgView, NodeView, ParameterView, SourceSpan, ValueView};
use crate::natives;
use crate::natives::NativeDispatchOwner;
use crate::outcome::OutcomeView;
use crate::scope;
use crate::scope::VariableValueView;
use crate::semantics;
use crate::semantics::{BodyView, CallView, Evaluator, World};

verus! {

/// The call that a block writes.
pub open spec fn block_call(
    name: Seq<char>,
    positional: Seq<ValueView>,
    named: Seq<NamedArgView>,
    lambda: Option<Seq<ParameterView>>,
    body: Option<Seq<NodeView>>,
    span: SourceSpan,
) -> CallView {
    CallView {
        name,
        positional,
        named,
        lambda,
        body: if body is Some {
            Some(BodyView::Block(body->0))
        } else {
            None
        },
        span,
        first_origin: None,
    }
}

/// The call that a part of a line writes.
pub open spec fn line_call(
    name: Seq<char>,
    positional: Seq<ValueView>,
    named: Seq<NamedArgView>,
    body: Option<Seq<InlineView>>,
    span: SourceSpan,
) -> CallView {
    CallView {
        name,
        positional,
        named,
        lambda: None,
        body: if body is Some {
            Some(BodyView::Inline(body->0))
        } else {
            None
        },
        span,
        first_origin: None,
    }
}

/// Whether a name is free for variables and functions of a document: no part of the evaluator
/// comes before them, and it is no positional parameter.
pub open spec fn free_name(name: Seq<char>) -> bool {
    &&& forall|owner: NativeDispatchOwner| !natives::owns(owner, name)
    &&& !natives::deferred_names().contains(name)
    &&& scope::parameter_index(name) is None
}

/// A variable that is called without arguments gives what was assigned to it, and nothing changes.
pub proof fn lemma_variable_called(
    e: Evaluator,
    name: Seq<char>,
    variable: VariableValueView,
    lambda: Option<Seq<ParameterView>>,
    span: SourceSpan,
    f: nat,
    w: World,
)
    requires
        free_name(name),
        scope::visible_variable(w.c, name) == Some(variable),
        f > 0,
    ensures
        ({
            let call = semantics::eval_call(
                e,
                block_call(name, Seq::empty(), Seq::empty(), lambda, None, span),
                f,
                w,
            );
            &&& call.w == w
            &&& variable matches VariableValueView::Scalar(value) ==> call.out
                == OutcomeView::Value(value)
            &&& variable matches VariableValueView::Content(nodes) ==> call.out
                == OutcomeView::Value(ValueView::Content(nodes))
        }),
{
    reveal(semantics::eval_call);
    reveal(semantics::dispatch);
    reveal(semantics::dispatch_bound);
    assert(!natives::owns(NativeDispatchOwner::Conditional, name));
    assert(!natives::owns(NativeDispatchOwner::DocumentState, name));
    assert(!natives::owns(NativeDispatchOwner::Html, name));
    assert(!natives::owns(NativeDispatchOwner::Markdown, name));
    assert(!natives::owns(NativeDispatchOwner::Resource, name));
    assert(!natives::owns(NativeDispatchOwner::Let, name));
    assert(!natives::owns(NativeDispatchOwner::Foreach, name));
    assert(!natives::owns(NativeDispatchOwner::Repeat, name));
    assert(!natives::owns(NativeDispatchOwner::OptionalityCallback, name));
    assert(!natives::owns(NativeDispatchOwner::CollectionTransform, name));
    assert(!natives::owns(NativeDispatchOwner::VariableState, name));
    lemma_no_position(w.c, name);
}

proof fn lemma_no_position(c: scope::ContextView, name: Seq<char>)
    requires
        scope::parameter_index(name) is None,
    ensures
        scope::positional_value(c, name) is None,
{
}

} // verus!
