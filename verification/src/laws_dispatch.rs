//! Laws of names: which part of the evaluator answers to a call.

use vstd::prelude::*;

use crate::natives;
use crate::natives::NativeDispatchOwner;
use crate::outcome::OutcomeView;
use crate::scope;
use crate::semantics;
use crate::semantics::{CallView, Evaluator, World};

verus! {

/// A reserved name is answered by the part of the evaluator that owns it, in a frame of its own,
/// whatever is bound in the document.
pub proof fn lemma_reserved_name_answered(
    e: Evaluator,
    call: CallView,
    owner: NativeDispatchOwner,
    f: nat,
    w: World,
)
    requires
        natives::owns(owner, call.name),
        scope::parameter_index(call.name) is None,
    ensures
        ({
            let r = semantics::eval_call(e, call, f + 1, w);
            match owner {
                NativeDispatchOwner::Conditional => r == semantics::eval_conditional(
                    e,
                    call,
                    f,
                    w,
                ),
                NativeDispatchOwner::DocumentState => r == semantics::eval_document_state(
                    e,
                    call,
                    f,
                    w,
                ),
                NativeDispatchOwner::Html => r == semantics::eval_html(e, call, f, w),
                NativeDispatchOwner::Markdown => r == semantics::eval_markdown(e, call, f, w),
                NativeDispatchOwner::Resource => r == semantics::eval_resource(e, call, f, w),
                NativeDispatchOwner::Let => r == semantics::eval_let(e, call, f, w),
                NativeDispatchOwner::Foreach => r == semantics::eval_foreach(e, call, f, w),
                NativeDispatchOwner::Repeat => r == semantics::eval_repeat(e, call, f, w),
                NativeDispatchOwner::OptionalityCallback => r == semantics::eval_optionality(
                    e,
                    call,
                    f,
                    w,
                ),
                NativeDispatchOwner::CollectionTransform => r == semantics::eval_transform(
                    e,
                    call,
                    f,
                    w,
                ),
                NativeDispatchOwner::VariableState => r == semantics::eval_var(e, call, f, w),
                _ => true,
            }
        }),
{
    reveal(semantics::dispatch_bound);
    reveal(semantics::dispatch_native);
    reveal(semantics::eval_call);
    reveal(semantics::dispatch);
    assert forall|other: NativeDispatchOwner| #[trigger]
        natives::owns(other, call.name) implies other == owner by {
        natives::lemma_one_owner(other, owner, call.name);
    }
    if natives::deferred_names().contains(call.name) {
        natives::lemma_deferred_unowned(owner, call.name);
    }
}

/// Any other native name is answered by the part of the evaluator that owns it, where the document
/// binds it to nothing.
pub proof fn lemma_native_name_answered(
    e: Evaluator,
    call: CallView,
    owner: NativeDispatchOwner,
    f: nat,
    w: World,
)
    requires
        natives::owns(owner, call.name),
        scope::parameter_index(call.name) is None,
        scope::visible_variable(w.c, call.name) is None,
        scope::visible_function(w.c, call.name) is None,
    ensures
        ({
            let r = semantics::eval_call(e, call, f + 1, w);
            match owner {
                NativeDispatchOwner::Center => r == semantics::eval_center(e, call, f, w),
                NativeDispatchOwner::Align => r == semantics::eval_align(e, call, f, w),
                NativeDispatchOwner::Container => r == semantics::eval_container(e, call, f, w),
                NativeDispatchOwner::Landscape => r == semantics::eval_landscape(e, call, f, w),
                NativeDispatchOwner::Br => r == semantics::eval_br(call, w),
                NativeDispatchOwner::Whitespace => r == semantics::eval_whitespace(e, call, f, w),
                NativeDispatchOwner::StackedLayout => r == semantics::eval_stacked(e, call, f, w),
                NativeDispatchOwner::Range => r == semantics::eval_range(e, call, f, w),
                NativeDispatchOwner::Pair => r == semantics::eval_pair(e, call, f, w),
                NativeDispatchOwner::Dictionary => r == semantics::eval_dictionary(e, call, f, w),
                NativeDispatchOwner::CollectionAccess => r == semantics::eval_access(
                    e,
                    call,
                    f,
                    w,
                ),
                _ => true,
            }
        }),
{
    reveal(semantics::eval_call);
    reveal(semantics::dispatch);
    reveal(semantics::dispatch_bound);
    reveal(semantics::dispatch_native);
    assert forall|other: NativeDispatchOwner| #[trigger]
        natives::owns(other, call.name) implies other == owner by {
        natives::lemma_one_owner(other, owner, call.name);
    }
    if natives::deferred_names().contains(call.name) {
        natives::lemma_deferred_unowned(owner, call.name);
    }
}

/// A positional parameter is answered by the lambda around the call: it gives the argument at its
/// place, and where that lambda has none there the call fails.
pub proof fn lemma_position_answered(e: Evaluator, call: CallView, f: nat, w: World)
    requires
        scope::positional_value(w.c, call.name) is Some,
    ensures
        ({
            let r = semantics::eval_call(e, call, f + 1, w);
            match scope::positional_value(w.c, call.name)->0 {
                Ok(value) => r.out == OutcomeView::Value(value) && r.w == w,
                Err(_) => r.out is Failed && r.w.c == w.c && r.w.s.diagnostics.len()
                    == w.s.diagnostics.len() + 1 && r.w.s.diagnostics.last().code == "E3003"@
                    && r.w.s.diagnostics.last().primary == Some(call.span),
            }
        }),
{
    reveal(semantics::dispatch_bound);
    reveal(semantics::dispatch_native);
    reveal(semantics::eval_call);
    reveal(semantics::dispatch);
}

/// A function of the document is called with the call as it is written, in the scope of the call.
pub proof fn lemma_function_answered(e: Evaluator, call: CallView, f: nat, w: World)
    requires
        crate::laws_calls::free_name(call.name),
        scope::visible_variable(w.c, call.name) is None,
        scope::visible_function(w.c, call.name) is Some,
    ensures
        semantics::eval_call(e, call, f + 1, w) == semantics::eval_user_function(
            e,
            scope::visible_function(w.c, call.name)->0,
            call,
            f,
            w,
        ),
{
    reveal(semantics::dispatch_native);
    reveal(semantics::eval_call);
    reveal(semantics::dispatch);
    reveal(semantics::dispatch_bound);
    let name = call.name;
    assert(!natives::owns(NativeDispatchOwner::Conditional, name));
    assert(!natives::owns(NativeDispatchOwner::DocumentState, name));
    assert(!natives::owns(NativeDispatchOwner::Html, name));
    assert(!natives::owns(NativeDispatchOwner::Markdown, name));
    assert(!natives::owns(NativeDispatchOwner::Resource, name));
    assert(!natives::owns(NativeDispatchOwner::Let, name));
    assert(!natives::owns(NativeDispatchOwner::Foreach, name));
    assert(!natives::owns(NativeDispatchOwner::Repeat, name));
    assert(!natives::owns(NativeDispatchOwner::OptionalityCallback, name));
    assert(!natives::owns(NativeDispatchOwner::CollectionTransform, name));
    assert(!natives::owns(NativeDispatchOwner::VariableState, name));
}

} // verus!
