//! Laws of scopes: what a name means after an assignment, in a child, in a capture and under
//! the bindings of a caller.

use vstd::prelude::*;

use crate::ir::{CapturedFunctionView, CapturedVariableView, ValueView};
use crate::scope;
use crate::scope::{
    ContextView, FunctionBindingView, ImplicitParameterError, ImplicitParameterIndex,
    LambdaScopeView, NamedFunctionView, VariableBindingView, VariableValueView,
};

verus! {

/// A variable gives back the value that was assigned to it.
pub proof fn lemma_value_round_trip(value: ValueView)
    ensures
        scope::value_of(scope::variable_of(value)) == value,
{
}

proof fn lemma_find_put_variable(
    s: Seq<VariableBindingView>,
    name: Seq<char>,
    value: VariableValueView,
    other: Seq<char>,
)
    ensures
        scope::find_variable(scope::put_variable(s, name, value), other) == (if other == name {
            Some(value)
        } else {
            scope::find_variable(s, other)
        }),
    decreases s.len(),
{
    let put = scope::put_variable(s, name, value);
    if s.len() == 0 || crate::text::text_less(s.last().name, name) {
        assert(put.drop_last() =~= s);
    } else if s.last().name == name {
        assert(put.drop_last() =~= s.drop_last());
    } else {
        lemma_find_put_variable(s.drop_last(), name, value, other);
        assert(put.drop_last() =~= scope::put_variable(s.drop_last(), name, value));
    }
}

proof fn lemma_find_put_function(
    s: Seq<NamedFunctionView>,
    name: Seq<char>,
    binding: FunctionBindingView,
    other: Seq<char>,
)
    ensures
        scope::find_function(scope::put_function(s, name, binding), other) == (if other == name {
            Some(binding)
        } else {
            scope::find_function(s, other)
        }),
    decreases s.len(),
{
    let put = scope::put_function(s, name, binding);
    if s.len() == 0 || crate::text::text_less(s.last().name, name) {
        assert(put.drop_last() =~= s);
    } else if s.last().name == name {
        assert(put.drop_last() =~= s.drop_last());
    } else {
        lemma_find_put_function(s.drop_last(), name, binding, other);
        assert(put.drop_last() =~= scope::put_function(s.drop_last(), name, binding));
    }
}

/// After an assignment the name means the value, and every other name means what it meant.
pub proof fn lemma_assignment(c: ContextView, name: Seq<char>, value: ValueView, other: Seq<char>)
    ensures
        scope::visible_variable(c.assign(name, value), name) == Some(scope::variable_of(value)),
        other != name ==> scope::visible_variable(c.assign(name, value), other)
            == scope::visible_variable(c, other),
        scope::visible_function(c.assign(name, value), other) == scope::visible_function(c, other),
        scope::positional_value(c.assign(name, value), other) == scope::positional_value(c, other),
{
    lemma_find_put_variable(c.variables, name, scope::variable_of(value), name);
    lemma_find_put_variable(c.variables, name, scope::variable_of(value), other);
}

/// After a declaration the name means the function, and every other name means what it meant.
pub proof fn lemma_declaration(
    c: ContextView,
    name: Seq<char>,
    binding: FunctionBindingView,
    other: Seq<char>,
)
    ensures
        scope::visible_function(c.declare(name, binding), name) == Some(binding),
        other != name ==> scope::visible_function(c.declare(name, binding), other)
            == scope::visible_function(c, other),
        scope::visible_variable(c.declare(name, binding), other) == scope::visible_variable(
            c,
            other,
        ),
        scope::positional_value(c.declare(name, binding), other) == scope::positional_value(
            c,
            other,
        ),
{
    lemma_find_put_function(c.functions, name, binding, name);
    lemma_find_put_function(c.functions, name, binding, other);
}

/// A child scope shows what its parent shows.
pub proof fn lemma_child_inherits(c: ContextView, name: Seq<char>)
    ensures
        scope::visible_variable(scope::child_context(c), name) == scope::visible_variable(c, name),
        scope::visible_function(scope::child_context(c), name) == scope::visible_function(c, name),
        scope::positional_value(scope::child_context(c), name) == scope::positional_value(c, name),
{
    reveal_with_fuel(scope::visible_variable, 2);
    reveal_with_fuel(scope::visible_function, 2);
    reveal_with_fuel(scope::positional_value, 2);
}

/// What a child scope assigns and declares shadows its parent and leaves the parent as it was.
pub proof fn lemma_child_isolates(
    c: ContextView,
    name: Seq<char>,
    value: ValueView,
    binding: FunctionBindingView,
)
    ensures
        scope::child_context(c).assign(name, value).declare(name, binding).parent == Some(
            Box::new(c),
        ),
        scope::visible_variable(scope::child_context(c).assign(name, value), name) == Some(
            scope::variable_of(value),
        ),
        scope::visible_function(scope::child_context(c).declare(name, binding), name) == Some(
            binding,
        ),
{
    lemma_assignment(scope::child_context(c), name, value, name);
    lemma_declaration(scope::child_context(c), name, binding, name);
}

/// A lambda with named parameters hides the positional parameters of the lambdas around it.
pub proof fn lemma_explicit_masks(c: ContextView, name: Seq<char>)
    requires
        scope::visible_lambda_scope(c) == Some(LambdaScopeView::Explicit),
        scope::parameter_index(name) is Some,
    ensures
        scope::positional_value(c, name) == Some(
            Err::<ValueView, ImplicitParameterError>(ImplicitParameterError::Missing),
        ),
    decreases c,
{
    if c.lambda_scope is None {
        lemma_explicit_masks(*c.parent->0, name);
    }
}

/// A positional parameter means the argument at its place in the nearest lambda; where that
/// lambda has none there the parameter is missing, whatever the lambdas around it have.
pub proof fn lemma_nearest_positional(
    c: ContextView,
    name: Seq<char>,
    arguments: Seq<ValueView>,
    position: usize,
)
    requires
        scope::visible_lambda_scope(c) == Some(LambdaScopeView::Implicit(arguments)),
        scope::parameter_index(name) == Some(ImplicitParameterIndex::Valid(position)),
    ensures
        scope::positional_value(c, name) == Some(
            if position <= arguments.len() {
                Ok::<ValueView, ImplicitParameterError>(arguments[position - 1])
            } else {
                Err(ImplicitParameterError::Missing)
            },
        ),
    decreases c,
{
    if c.lambda_scope is None {
        lemma_nearest_positional(*c.parent->0, name, arguments, position);
    }
}

/// Positional parameters see one lambda alone: where the nearest is the same, so are they.
pub proof fn lemma_positional_from_nearest(c: ContextView, d: ContextView, name: Seq<char>)
    requires
        scope::visible_lambda_scope(c) == scope::visible_lambda_scope(d),
    ensures
        scope::positional_value(c, name) == scope::positional_value(d, name),
    decreases c, d,
{
    if c.lambda_scope is None && c.parent is Some {
        lemma_positional_from_nearest(*c.parent->0, d, name);
    } else if d.lambda_scope is None && d.parent is Some {
        lemma_positional_from_nearest(c, *d.parent->0, name);
    }
}

proof fn lemma_find_put_all_variables(
    s: Seq<VariableBindingView>,
    more: Seq<VariableBindingView>,
    name: Seq<char>,
)
    ensures
        scope::find_variable(scope::put_all_variables(s, more), name)
            == (match scope::find_variable(more, name) {
            Some(value) => Some(value),
            None => scope::find_variable(s, name),
        }),
    decreases more.len(),
{
    if more.len() > 0 {
        lemma_find_put_all_variables(s, more.drop_last(), name);
        lemma_find_put_variable(
            scope::put_all_variables(s, more.drop_last()),
            more.last().name,
            more.last().value,
            name,
        );
    }
}

proof fn lemma_find_put_all_functions(
    s: Seq<NamedFunctionView>,
    more: Seq<NamedFunctionView>,
    name: Seq<char>,
)
    ensures
        scope::find_function(scope::put_all_functions(s, more), name)
            == (match scope::find_function(more, name) {
            Some(binding) => Some(binding),
            None => scope::find_function(s, name),
        }),
    decreases more.len(),
{
    if more.len() > 0 {
        lemma_find_put_all_functions(s, more.drop_last(), name);
        lemma_find_put_function(
            scope::put_all_functions(s, more.drop_last()),
            more.last().name,
            more.last().binding,
            name,
        );
    }
}

/// The bindings of a scope and of all scopes around it show what the scope shows.
pub proof fn lemma_all_bindings(c: ContextView, name: Seq<char>)
    ensures
        scope::find_variable(scope::all_variables(c), name) == scope::visible_variable(c, name),
        scope::find_function(scope::all_functions(c), name) == scope::visible_function(c, name),
    decreases c,
{
    let variables = match c.parent {
        Some(parent) => scope::all_variables(*parent),
        None => Seq::empty(),
    };
    let functions = match c.parent {
        Some(parent) => scope::all_functions(*parent),
        None => Seq::empty(),
    };
    if let Some(parent) = c.parent {
        lemma_all_bindings(*parent, name);
    }
    lemma_find_put_all_variables(variables, c.variables, name);
    lemma_find_put_all_functions(functions, c.functions, name);
}

proof fn lemma_find_mapped_variable(s: Seq<VariableBindingView>, name: Seq<char>)
    ensures
        scope::find_variable(
            s.map_values(
                |b: VariableBindingView|
                    VariableBindingView {
                        name: b.name,
                        value: scope::variable_of(scope::value_of(b.value)),
                    },
            ),
            name,
        ) == (match scope::find_variable(s, name) {
            Some(value) => Some(scope::variable_of(scope::value_of(value))),
            None => None,
        }),
    decreases s.len(),
{
    let f = |b: VariableBindingView|
        VariableBindingView {
            name: b.name,
            value: scope::variable_of(scope::value_of(b.value)),
        };
    if s.len() > 0 {
        lemma_find_mapped_variable(s.drop_last(), name);
        assert(s.map_values(f).drop_last() =~= s.drop_last().map_values(f));
    }
}

/// A callable that is applied sees the bindings of its caller first, and behind them those of
/// the scope that it was made in.
pub proof fn lemma_caller_overlay(definition: ContextView, caller: ContextView, name: Seq<char>)
    ensures
        scope::visible_variable(scope::overlaid_context(definition, caller), name)
            == (match scope::visible_variable(caller, name) {
            Some(value) => Some(scope::variable_of(scope::value_of(value))),
            None => scope::visible_variable(definition, name),
        }),
        scope::visible_function(scope::overlaid_context(definition, caller), name)
            == (match scope::visible_function(caller, name) {
            Some(binding) => Some(binding),
            None => scope::visible_function(definition, name),
        }),
{
    reveal_with_fuel(scope::visible_variable, 2);
    reveal_with_fuel(scope::visible_function, 2);
    lemma_all_bindings(caller, name);
    lemma_find_mapped_variable(scope::all_variables(caller), name);
}

proof fn lemma_find_captured_variable(s: Seq<VariableBindingView>, name: Seq<char>)
    ensures
        scope::find_variable(
            scope::captured_bindings(
                s.map_values(
                    |b: VariableBindingView|
                        CapturedVariableView { name: b.name, value: scope::value_of(b.value) },
                ),
            ),
            name,
        ) == (match scope::find_variable(s, name) {
            Some(value) => Some(scope::variable_of(scope::value_of(value))),
            None => None,
        }),
    decreases s.len(),
{
    let f = |b: VariableBindingView|
        CapturedVariableView { name: b.name, value: scope::value_of(b.value) };
    if s.len() > 0 {
        lemma_find_captured_variable(s.drop_last(), name);
        assert(scope::captured_bindings(s.map_values(f)).drop_last() =~= scope::captured_bindings(
            s.drop_last().map_values(f),
        ));
    }
}

/// A capture shows the values that the variables of its scope had when it was taken, however
/// the scope changes afterwards.
pub proof fn lemma_capture(c: ContextView, name: Seq<char>)
    ensures
        scope::visible_variable(scope::context_of(scope::capture_of(c)), name)
            == (match scope::visible_variable(c, name) {
            Some(value) => Some(scope::variable_of(scope::value_of(value))),
            None => None,
        }),
{
    lemma_all_bindings(c, name);
    lemma_find_captured_variable(scope::all_variables(c), name);
    lemma_find_put_all_variables(
        Seq::empty(),
        scope::captured_bindings(scope::capture_of(c).variables),
        name,
    );
}

proof fn lemma_find_captured_function(s: Seq<NamedFunctionView>, name: Seq<char>)
    ensures
        scope::find_function(
            scope::captured_named_functions(
                s.map_values(
                    |b: NamedFunctionView|
                        CapturedFunctionView {
                            name: b.name,
                            callable: scope::callable_of(b.binding),
                        },
                ),
            ),
            name,
        ) == scope::find_function(s, name),
    decreases s.len(),
{
    let f = |b: NamedFunctionView|
        CapturedFunctionView { name: b.name, callable: scope::callable_of(b.binding) };
    if s.len() > 0 {
        lemma_find_captured_function(s.drop_last(), name);
        assert(scope::captured_named_functions(s.map_values(f)).drop_last()
            =~= scope::captured_named_functions(s.drop_last().map_values(f)));
        assert(scope::captured_named_functions(s.map_values(f)).last() == s.last());
    }
}

/// A capture shows the functions that its scope showed when it was taken.
pub proof fn lemma_functions_captured(c: ContextView, name: Seq<char>)
    ensures
        scope::visible_function(scope::context_of(scope::capture_of(c)), name)
            == scope::visible_function(c, name),
{
    lemma_all_bindings(c, name);
    lemma_find_captured_function(scope::all_functions(c), name);
    lemma_find_put_all_functions(
        Seq::empty(),
        scope::captured_named_functions(scope::capture_of(c).functions),
        name,
    );
}

} // verus!
