//! What an evaluation may use and do.

use vstd::prelude::*;

verus! {

/// Deterministic limits of one evaluation: counts of semantic work, not time, memory or depth
/// of the machine's stack.
#[derive(Debug, Clone, Copy, PartialEq, Eq, Structural)]
pub struct EvaluationLimits {
    /// The number of elements that one materialisation may produce.
    pub max_materialized_elements: usize,
    /// The number of evaluator frames that may be active at once.
    pub max_evaluation_depth: usize,
}

impl Default for EvaluationLimits {
    fn default() -> (r: Self)
        ensures
            r == (EvaluationLimits {
                max_materialized_elements: 1_000_000,
                max_evaluation_depth: 256,
            }),
    {
        EvaluationLimits { max_materialized_elements: 1_000_000, max_evaluation_depth: 256 }
    }
}

/// A capability that authorises target-specific behaviour in the evaluator.
#[derive(Debug, Clone, Copy, PartialEq, Eq, Structural)]
pub enum Capability {
    /// Permit target-specific native content constructors such as `.html`.
    NativeContent,
}

/// The capabilities of one evaluation, fixed when it starts.
#[derive(Debug, Clone, Copy, PartialEq, Eq, Structural)]
pub struct Capabilities {
    pub native_content: bool,
}

impl Capabilities {
    /// Whether a capability is granted.
    pub open spec fn grants(self, capability: Capability) -> bool {
        match capability {
            Capability::NativeContent => self.native_content,
        }
    }

    /// The compatibility profile: native content is granted.
    pub fn compatibility_default() -> (r: Capabilities)
        ensures
            forall|capability: Capability| #[trigger] r.grants(capability),
            r == (Capabilities { native_content: true }),
    {
        Capabilities { native_content: true }
    }

    /// A capability set that grants nothing.
    pub fn none() -> (r: Capabilities)
        ensures
            forall|capability: Capability| !#[trigger] r.grants(capability),
            r == (Capabilities { native_content: false }),
    {
        Capabilities { native_content: false }
    }

    /// The same set with native content explicitly granted or denied.
    pub fn with_native_content(self, granted: bool) -> (r: Capabilities)
        ensures
            r.grants(Capability::NativeContent) == granted,
            forall|capability: Capability|
                capability != Capability::NativeContent ==> #[trigger] r.grants(capability)
                    == self.grants(capability),
            r == (Capabilities { native_content: granted }),
    {
        Capabilities { native_content: granted }
    }

    /// Whether a capability is granted.
    pub fn allows(self, capability: Capability) -> (r: bool)
        ensures
            r == self.grants(capability),
    {
        match capability {
            Capability::NativeContent => self.native_content,
        }
    }
}

impl Default for Capabilities {
    fn default() -> (r: Self)
        ensures
            r == (Capabilities { native_content: true }),
    {
        Capabilities::compatibility_default()
    }
}

} // verus!
