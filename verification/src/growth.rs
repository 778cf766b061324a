//! More answers and higher limits keep what is settled: what it means.

use vstd::prelude::*;

use crate::diagnostic;
use crate::diagnostic::{DiagnosticView, Fault};
use crate::host::{ReplyView, SessionView};
use crate::limits::EvaluationLimits;
use crate::semantics::{Ev, Evaluator, World};

verus! {

/// What an evaluation is given beyond what it had.
pub struct Growth {
    /// The answers behind those that it has.
    pub answers: Seq<ReplyView>,
    /// By how much calls may nest deeper.
    pub depth: nat,
    /// How many elements more an operation may ask for.
    pub elements: nat,
}

impl Growth {
    /// Whether a limit is higher.
    pub open spec fn lifts(self) -> bool {
        self.depth > 0 || self.elements > 0
    }
}

/// A session with more answers behind those that it has.
pub open spec fn session(s: SessionView, grow: Growth) -> SessionView {
    SessionView { replies: s.replies + grow.answers, ..s }
}

/// A world with more answers behind those that it has.
pub open spec fn world(w: World, grow: Growth) -> World {
    World { s: session(w.s, grow), c: w.c }
}

/// An evaluator with higher limits.
pub open spec fn evaluator(e: Evaluator, grow: Growth) -> Evaluator {
    Evaluator {
        limits: EvaluationLimits {
            max_materialized_elements: (e.limits.max_materialized_elements
                + grow.elements) as usize,
            max_evaluation_depth: (e.limits.max_evaluation_depth + grow.depth) as usize,
        },
        ..e
    }
}

/// Whether the machine can hold the higher limits.
pub open spec fn fits(e: Evaluator, grow: Growth) -> bool {
    &&& e.limits.max_materialized_elements + grow.elements <= usize::MAX
    &&& e.limits.max_evaluation_depth + grow.depth <= usize::MAX
}

/// Whether no report says that a limit was exceeded; reports of both limits have one code.
#[verifier::opaque]
pub open spec fn within(d: Seq<DiagnosticView>) -> bool {
    forall|i: int|
        0 <= i < d.len() ==> (#[trigger] d[i]).code != diagnostic::fault_code(Fault::DepthLimit)
}

/// One report more.
pub broadcast proof fn within_push(d: Seq<DiagnosticView>, report: DiagnosticView)
    ensures
        #[trigger] within(d.push(report)) == (within(d) && report.code != diagnostic::fault_code(
            Fault::DepthLimit,
        )),
{
    reveal(within);
    let all = d.push(report);
    if within(all) {
        assert(all[d.len() as int] == report);
        assert forall|i: int| 0 <= i < d.len() implies (#[trigger] d[i]).code
            != diagnostic::fault_code(Fault::DepthLimit) by {
            assert(all[i] == d[i]);
        }
    }
}

/// More reports.
pub broadcast proof fn within_add(d: Seq<DiagnosticView>, reports: Seq<DiagnosticView>)
    ensures
        #[trigger] within(d + reports) ==> within(d),
{
    reveal(within);
    let all = d + reports;
    if within(all) {
        assert forall|i: int| 0 <= i < d.len() implies (#[trigger] d[i]).code
            != diagnostic::fault_code(Fault::DepthLimit) by {
            assert(all[i] == d[i]);
        }
    }
}

pub broadcast group group_within {
    within_push,
    within_add,
}

/// Whether a session waits for no answer and, where a limit is higher, exceeded none.
pub open spec fn settled(s: SessionView, grow: Growth) -> bool {
    s.pending is None && (grow.lifts() ==> within(s.diagnostics))
}

/// Whether a step takes back no report and, where it ends settled, starts so and comes to the
/// same.
pub open spec fn kept<A>(before: World, a: Ev<A>, b: Ev<A>, grow: Growth) -> bool {
    &&& before.reported() <= a.w.reported()
    &&& settled(a.w.s, grow) ==> settled(before.s, grow) && b == (Ev {
        out: a.out,
        w: world(a.w, grow),
    })
}

/// Whether a step that leaves a world takes back no report and, where it leaves the world
/// settled, starts so and leaves the same.
pub open spec fn kept_world(before: World, a: World, b: World, grow: Growth) -> bool {
    &&& before.reported() <= a.reported()
    &&& settled(a.s, grow) ==> settled(before.s, grow) && b == world(a, grow)
}

/// Whether a step that gives something and leaves a session takes back no report and, where it
/// leaves the session settled, starts so and comes to the same.
pub open spec fn kept_answer<A>(
    before: SessionView,
    a: (A, SessionView),
    b: (A, SessionView),
    grow: Growth,
) -> bool {
    &&& before.diagnostics.len() <= a.1.diagnostics.len()
    &&& settled(a.1, grow) ==> settled(before, grow) && b == (a.0, session(a.1, grow))
}

} // verus!
