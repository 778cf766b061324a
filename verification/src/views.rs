//! The mathematical values of results that may be absent.

use vstd::prelude::*;

use crate::host;
use crate::host::{InvocationNamedArg, InvocationNamedView, InvocationValue, InvocationValueView};
use crate::ir;
use crate::ir::{
    CallableView, InlineView, IrCallable, IrInline, IrNamedArg, IrNode, IrPair, IrParameter,
    IrValue, NamedArgView, NodeView, PairView, ParameterView, ValueView,
};
use crate::json::{JsonValue, JsonView};

verus! {

/// Optional blocks.
pub open spec fn nodes(r: Option<Vec<IrNode>>) -> Option<Seq<NodeView>> {
    match r {
        Some(nodes) => Some(ir::nodes_view(nodes@)),
        None => None,
    }
}

/// Optional inlines.
pub open spec fn inlines(r: Option<Vec<IrInline>>) -> Option<Seq<InlineView>> {
    match r {
        Some(inlines) => Some(ir::inlines_view(inlines@)),
        None => None,
    }
}

/// An optional value.
pub open spec fn value(r: Option<IrValue>) -> Option<ValueView> {
    match r {
        Some(value) => Some(value@),
        None => None,
    }
}

/// Optional values.
pub open spec fn values(r: Option<Vec<IrValue>>) -> Option<Seq<ValueView>> {
    match r {
        Some(values) => Some(ir::values_view(values@)),
        None => None,
    }
}

/// Optional named arguments.
pub open spec fn named_args(r: Option<Vec<IrNamedArg>>) -> Option<Seq<NamedArgView>> {
    match r {
        Some(named) => Some(ir::named_args_view(named@)),
        None => None,
    }
}

/// An optional evaluated argument.
pub open spec fn invocation(r: Option<InvocationValue>) -> Option<InvocationValueView> {
    match r {
        Some(value) => Some(value@),
        None => None,
    }
}

/// Optional evaluated arguments.
pub open spec fn invocations(r: Option<Vec<InvocationValue>>) -> Option<Seq<InvocationValueView>> {
    match r {
        Some(values) => Some(host::invocation_values_view(values@)),
        None => None,
    }
}

/// Optional evaluated named arguments.
pub open spec fn invocation_named(r: Option<Vec<InvocationNamedArg>>) -> Option<
    Seq<InvocationNamedView>,
> {
    match r {
        Some(named) => Some(host::invocation_named_args_view(named@)),
        None => None,
    }
}

/// Optional arguments of a call.
pub open spec fn arguments(r: Option<(Vec<InvocationValue>, Vec<InvocationNamedArg>)>) -> Option<
    (Seq<InvocationValueView>, Seq<InvocationNamedView>),
> {
    match r {
        Some((values, named)) => Some(
            (host::invocation_values_view(values@), host::invocation_named_args_view(named@)),
        ),
        None => None,
    }
}

/// An optional callable.
pub open spec fn callable(r: Option<IrCallable>) -> Option<CallableView> {
    match r {
        Some(callable) => Some(callable@),
        None => None,
    }
}

/// Optional pairs.
pub open spec fn pairs(r: Option<Vec<IrPair>>) -> Option<Seq<PairView>> {
    match r {
        Some(pairs) => Some(ir::pairs_view(pairs@)),
        None => None,
    }
}

/// A parsed JSON text.
pub open spec fn parsed(r: Result<JsonValue, String>) -> Result<JsonView, Seq<char>> {
    match r {
        Ok(tree) => Ok(tree@),
        Err(message) => Err(message@),
    }
}

/// Optional parameters.
pub open spec fn parameters(r: Option<&Vec<IrParameter>>) -> Option<Seq<ParameterView>> {
    match r {
        Some(list) => Some(ir::parameters_view(list@)),
        None => None,
    }
}

} // verus!
