//! What a call comes to.

use vstd::prelude::*;

use crate::ir;
use crate::ir::{IrValue, ValueView};

verus! {

/// What a call comes to.
#[derive(Debug, PartialEq)]
pub enum CallOutcome {
    /// The call produced a value.
    Value(IrValue),
    /// The call is legal and produces nothing.
    NoValue,
    /// The call failed; what went wrong has been reported.
    Failed,
    /// Nothing answers to the name.
    Unresolved,
}

/// The mathematical value of [`CallOutcome`].
#[verifier::ext_equal]
pub enum OutcomeView {
    Value(ValueView),
    NoValue,
    Failed,
    Unresolved,
}

impl View for CallOutcome {
    type V = OutcomeView;

    open spec fn view(&self) -> OutcomeView {
        match *self {
            CallOutcome::Value(v) => OutcomeView::Value(ir::value_view(v)),
            CallOutcome::NoValue => OutcomeView::NoValue,
            CallOutcome::Failed => OutcomeView::Failed,
            CallOutcome::Unresolved => OutcomeView::Unresolved,
        }
    }
}

} // verus!
