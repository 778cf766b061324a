//! Laws of the operations that read a collection, by name, and of the scopes that evaluations
//! start in.

use vstd::prelude::*;

use crate::collection;
use crate::host::{InvocationNamedView, InvocationValueView, SessionView, ValueOrigin};
use crate::ir::{CallableView, NamedArgView, NodeView, SourceId, SourceSpan, ValueView};
use crate::metadata::DefaultsView;
use crate::number;
use crate::outcome::OutcomeView;
use crate::scope;
use crate::scope::{ContextView, FunctionBindingView};
use crate::semantics;
use crate::semantics::{CallView, Evaluator, World};

verus! {

/// `.size` gives how many elements there are, `.sumall` their sum and `.average` their average;
/// `.distinct` gives the distinct ones, `.reversed` all of them from the last to the first, and
/// `.groupvalues` their groups.
pub proof fn lemma_operations(elements: Seq<ValueView>, span: SourceSpan, s: SessionView)
    requires
        elements.len() <= 0x20_0000_0000_0000,
    ensures
        semantics::elements_outcome("size"@, elements, span, s) == (
            OutcomeView::Value(ValueView::Number(number::number_of(elements.len() as int))),
            s,
        ),
        ({
            let r = semantics::elements_outcome("sumall"@, elements, span, s);
            let sum = collection::sum_of(elements, s);
            r.1 == sum.1 && (sum.0 is Some ==> r.0 == OutcomeView::Value(
                ValueView::Number(sum.0->0),
            )) && (sum.0 is None ==> r.0 is Failed)
        }),
        ({
            let r = semantics::elements_outcome("average"@, elements, span, s);
            let average = collection::average_of(elements, span, s);
            r.1 == average.1 && (average.0 is Some ==> r.0 == OutcomeView::Value(
                ValueView::Number(average.0->0),
            )) && (average.0 is None ==> r.0 is Failed)
        }),
        semantics::elements_outcome("distinct"@, elements, span, s) == (
            OutcomeView::Value(ValueView::Collection(collection::distinct_values(elements))),
            s,
        ),
        ({
            let r = semantics::elements_outcome("reversed"@, elements, span, s);
            &&& r.1 == s
            &&& r.0 is Value && r.0->Value_0 is Collection
            &&& r.0->Value_0->Collection_0.len() == elements.len()
            &&& forall|i: int|
                0 <= i < elements.len() ==> #[trigger] r.0->Value_0->Collection_0[i]
                    == elements[elements.len() - 1 - i]
        }),
        ({
            let r = semantics::elements_outcome("groupvalues"@, elements, span, s);
            let groups = collection::grouped_values(elements);
            &&& r.1 == s
            &&& r.0 is Value && r.0->Value_0 is Collection
            &&& r.0->Value_0->Collection_0.len() == groups.len()
            &&& forall|i: int|
                0 <= i < groups.len() ==> #[trigger] r.0->Value_0->Collection_0[i]
                    == ValueView::Collection(groups[i])
        }),
{
    reveal(semantics::elements_outcome);
    reveal_strlit("size");
    reveal_strlit("first");
    reveal_strlit("second");
    reveal_strlit("third");
    reveal_strlit("last");
    reveal_strlit("sumall");
    reveal_strlit("average");
    reveal_strlit("distinct");
    reveal_strlit("reversed");
    reveal_strlit("groupvalues");
    assert("size"@.len() == 4 && "first"@.len() == 5 && "second"@.len() == 6);
    assert("third"@.len() == 5 && "last"@.len() == 4 && "sumall"@.len() == 6);
    assert("average"@.len() == 7 && "distinct"@.len() == 8 && "reversed"@.len() == 8);
    assert("groupvalues"@.len() == 11);
    assert("second"@[1] == 'e' && "sumall"@[1] == 'u');
    assert("distinct"@[0] == 'd' && "reversed"@[0] == 'r');
}

/// `.size` knows its collection as `of`, and every other operation knows it as `from`: named so, it
/// means the same as the positional argument.
pub proof fn lemma_operand_names(
    limit: nat,
    name: Seq<char>,
    value: InvocationValueView,
    at: SourceSpan,
    span: SourceSpan,
    s: SessionView,
)
    requires
        name != "getat"@,
    ensures
        ({
            let arg = InvocationNamedView {
                arg: NamedArgView {
                    name: if name == "size"@ {
                        "of"@
                    } else {
                        "from"@
                    },
                    name_span: at,
                    value: value.value,
                    span: at,
                },
                origin: value.origin,
            };
            semantics::access_outcome(limit, name, Seq::empty(), seq![arg], span, s)
                == semantics::access_outcome(limit, name, seq![value], Seq::empty(), span, s)
        }),
{
    reveal(semantics::elements_outcome);
    reveal(semantics::access_outcome);
    let parameter = if name == "size"@ {
        "of"@
    } else {
        "from"@
    };
    let arg = InvocationNamedView {
        arg: NamedArgView { name: parameter, name_span: at, value: value.value, span: at },
        origin: value.origin,
    };
    crate::laws_invocations::lemma_operand_given(name, parameter, value, arg, span, s);
}

/// `.getat` gives the value that stands in where the collection has no element at its index, and
/// the element where it has one.
pub proof fn lemma_fallback_given(
    limit: nat,
    elements: Seq<ValueView>,
    k: int,
    fallback: ValueView,
    origin: ValueOrigin,
    at: SourceSpan,
    span: SourceSpan,
    s: SessionView,
)
    requires
        elements.len() <= limit,
        elements.len() <= 0x20_0000_0000_0000,
        -0x20_0000_0000_0000 < k <= 0x20_0000_0000_0000,
    ensures
        ({
            let from = InvocationValueView { value: ValueView::Collection(elements), origin };
            let index = InvocationValueView {
                value: ValueView::Number(number::number_of(k)),
                origin,
            };
            let orelse = InvocationNamedView {
                arg: NamedArgView {
                    name: "orelse"@,
                    name_span: at,
                    value: fallback,
                    span: at,
                },
                origin: ValueOrigin::Static,
            };
            semantics::access_outcome(
                limit,
                "getat"@,
                seq![from, index],
                seq![orelse],
                span,
                s,
            ) == (
                OutcomeView::Value(
                    if 1 <= k <= elements.len() {
                        elements[k - 1]
                    } else {
                        fallback
                    },
                ),
                s,
            )
        }),
{
    reveal(semantics::elements_outcome);
    reveal(semantics::access_outcome);
    let from = InvocationValueView { value: ValueView::Collection(elements), origin };
    let index = InvocationValueView { value: ValueView::Number(number::number_of(k)), origin };
    crate::laws_invocations::lemma_getat_arguments(from, index, at, fallback, span, s);
    number::lemma_number_of_is_exact(k);
}

/// A project is evaluated in a scope without bindings: with its resources, from its first source
/// on, and with the defaults of its metadata. Without a project there are none of these.
pub proof fn lemma_starting_scopes(source: SourceId, defaults: DefaultsView, name: Seq<char>)
    ensures
        ({
            let c = scope::project_context(source, defaults);
            &&& c.has_resources
            &&& c.current_source == Some(source)
            &&& c.active_sources == seq![source]
            &&& c.metadata_defaults == defaults
            &&& scope::visible_variable(c, name) is None
            &&& scope::visible_function(c, name) is None
            &&& scope::visible_lambda_scope(c) is None
        }),
        ({
            let c = scope::root_context();
            &&& !c.has_resources
            &&& c.current_source is None
            &&& c.active_sources.len() == 0
            &&& scope::visible_variable(c, name) is None
            &&& scope::visible_function(c, name) is None
            &&& scope::visible_lambda_scope(c) is None
        }),
{
}

/// A child scope knows the resources, the source and the defaults of its parent, and has no
/// bindings of its own.
pub proof fn lemma_child_scope(c: ContextView)
    ensures
        ({
            let child = scope::child_context(c);
            &&& child.parent == Some(Box::new(c))
            &&& child.variables.len() == 0 && child.functions.len() == 0
            &&& child.has_resources == c.has_resources
            &&& child.current_source == c.current_source
            &&& child.active_sources == c.active_sources
            &&& child.metadata_defaults == c.metadata_defaults
        }),
{
}

/// A function is a callable with the same parameters, body, place and capture, and back again.
pub proof fn lemma_functions_are_callables(binding: FunctionBindingView, callable: CallableView)
    ensures
        scope::binding_of(scope::callable_of(binding)) == binding,
        scope::callable_of(scope::binding_of(callable)) == callable,
        scope::callable_of(binding).body == binding.body,
        scope::callable_of(binding).capture == binding.capture,
        scope::callable_of(binding).span == binding.declaration_span,
{
}

/// A call of a variable or a function of the document has a value of the document; a call of a
/// builtin has a value with a type of its own.
pub proof fn lemma_origin_of_call(c: ContextView, node: NodeView)
    requires
        node is FunctionCall,
    ensures
        ({
            let name = node->FunctionCall_name;
            let bound = scope::visible_variable(c, name) is Some || scope::visible_function(
                c,
                name,
            ) is Some;
            scope::argument_origin(c, ValueView::Content(seq![node])) == (if bound {
                ValueOrigin::Dynamic
            } else {
                ValueOrigin::Static
            })
        }),
        scope::argument_origin(c, ValueView::Content(Seq::empty())) == ValueOrigin::Static,
{
}

/// Under the bindings of a caller the positional parameters are those of the caller.
pub proof fn lemma_overlay_positions(definition: ContextView, caller: ContextView)
    requires
        scope::visible_lambda_scope(caller) is Some,
    ensures
        scope::visible_lambda_scope(scope::overlaid_context(definition, caller))
            == scope::visible_lambda_scope(caller),
{
}

/// A variable is read by a call without arguments and assigned by a call with one: with anything
/// else a call of its name is a call of the function of that name, or of a builtin where there is
/// none.
pub proof fn lemma_variable_not_called(
    e: Evaluator,
    call: CallView,
    f: nat,
    w: World,
)
    requires
        call.positional.len() > 1 || call.named.len() > 0 || call.body is Some,
    ensures
        ({
            let r = semantics::dispatch_bound(e, call, f, w);
            match scope::visible_function(w.c, call.name) {
                Some(binding) => r == semantics::eval_user_function(e, binding, call, f, w),
                None => r == semantics::dispatch_native(e, call, f, w),
            }
        }),
{
    reveal(semantics::dispatch_bound);
}

} // verus!
