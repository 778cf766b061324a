//! Laws of chains: each call receives the value of the one before it.

use vstd::prelude::*;

use crate::ir::CallSegmentView;
use crate::laws_leaves;
use crate::outcome::OutcomeView;
use crate::scope;
use crate::semantics;
use crate::semantics::{BodyView, CallView, Evaluator, World};

verus! {

/// A chain of one call is that call, without a value passed on to it.
pub proof fn lemma_chain_of_one(
    e: Evaluator,
    head: CallSegmentView,
    body: Option<BodyView>,
    f: nat,
    w: World,
)
    ensures
        ({
            let call = CallView {
                name: head.name,
                positional: head.positional_args,
                named: head.named_args,
                lambda: None,
                body: None,
                span: head.span,
                first_origin: None,
            };
            let alone = semantics::eval_call(e, call, f, w);
            let chain = semantics::eval_chain(e, head, Seq::empty(), body, f, w);
            if alone.out is Unresolved {
                &&& chain.out is Failed && chain.w.c == alone.w.c
                &&& laws_leaves::reported(alone.w.s, chain.w.s, "E3001"@, head.name_span)
            } else {
                chain.out == alone.out && chain.w == alone.w
            }
        }),
{
    reveal(semantics::eval_chain);
    reveal(semantics::chain_prefix);
    reveal(semantics::segment_outcome);
    let call = semantics::call_of_segment(head, None, None);
    let alone = semantics::eval_call(e, call, f, w);
    let chain = semantics::eval_chain(e, head, Seq::empty(), body, f, w);
    if alone.out is Unresolved {
        let n = alone.w.s.diagnostics.len() as int;
        assert(chain.w.s.diagnostics.take(n) =~= alone.w.s.diagnostics);
    }
}

proof fn lemma_prefix_same(
    e: Evaluator,
    head: CallSegmentView,
    chain: Seq<CallSegmentView>,
    segment: CallSegmentView,
    done: nat,
    body: Option<BodyView>,
    f: nat,
    w: World,
)
    requires
        done <= chain.len(),
    ensures
        ({
            let short = semantics::chain_prefix(e, head, chain, done, None, f, w);
            let long = semantics::chain_prefix(e, head, chain.push(segment), done, body, f, w);
            &&& short.out.0 is Value ==> long == short
            &&& short.out.0 is Failed ==> long.out.0 is Failed && long.w == short.w
            &&& short.out.0 is Value ==> short.out.1 == (if done == 0 {
                scope::result_origin(w.c, head.name)
            } else {
                scope::result_origin(short.w.c, chain[done - 1].name)
            })
            &&& !(short.out.0 is Unresolved)
            &&& short.out.0 is NoValue ==> done == chain.len()
            &&& short.out.0 is NoValue ==> {
                let at = if chain.len() == 0 {
                    head.name_span
                } else {
                    chain.last().name_span
                };
                &&& long.out.0 is Failed && long.w.c == short.w.c
                &&& laws_leaves::reported(short.w.s, long.w.s, "E3001"@, at)
            }
        }),
    decreases done,
{
    reveal(semantics::chain_prefix);
    reveal(semantics::segment_outcome);
    if done > 0 {
        lemma_prefix_same(e, head, chain, segment, (done - 1) as nat, body, f, w);
        assert(chain.push(segment)[done - 1] == chain[done - 1]);
    }
    let short = semantics::chain_prefix(e, head, chain, done, None, f, w);
    let long = semantics::chain_prefix(e, head, chain.push(segment), done, body, f, w);
    if short.out.0 is NoValue {
        let n = short.w.s.diagnostics.len() as int;
        assert(long.w.s.diagnostics.take(n) =~= short.w.s.diagnostics);
    }
}

/// One more call at the end of a chain receives the value of the chain as its first argument, in
/// the world that the chain leaves, with the body of the whole behind its own arguments. Where the
/// chain fails, so does the longer one; where it gives no value, that is reported at the name of
/// the call that gave none.
pub proof fn lemma_chain_passes_on(
    e: Evaluator,
    head: CallSegmentView,
    chain: Seq<CallSegmentView>,
    segment: CallSegmentView,
    body: Option<BodyView>,
    f: nat,
    w: World,
)
    ensures
        ({
            let before = semantics::eval_chain(e, head, chain, None, f, w);
            let after = semantics::eval_chain(e, head, chain.push(segment), body, f, w);
            &&& before.out matches OutcomeView::Value(value) ==> {
                let call = CallView {
                    name: segment.name,
                    positional: seq![value] + segment.positional_args,
                    named: segment.named_args,
                    lambda: None,
                    body,
                    span: segment.span,
                    first_origin: Some(
                        if chain.len() == 0 {
                            scope::result_origin(w.c, head.name)
                        } else {
                            scope::result_origin(before.w.c, chain.last().name)
                        },
                    ),
                };
                let last = semantics::eval_call(e, call, f, before.w);
                if last.out is Unresolved {
                    &&& after.out is Failed && after.w.c == last.w.c
                    &&& laws_leaves::reported(last.w.s, after.w.s, "E3001"@, segment.name_span)
                } else {
                    after.out == last.out && after.w == last.w
                }
            }
            &&& before.out is Failed ==> after.out is Failed && after.w == before.w
            &&& before.out is NoValue ==> {
                let at = if chain.len() == 0 {
                    head.name_span
                } else {
                    chain.last().name_span
                };
                &&& after.out is Failed && after.w.c == before.w.c
                &&& laws_leaves::reported(before.w.s, after.w.s, "E3001"@, at)
            }
        }),
{
    reveal(semantics::eval_chain);
    reveal(semantics::chain_prefix);
    reveal(semantics::segment_outcome);
    lemma_prefix_same(e, head, chain, segment, chain.len(), body, f, w);
    let longer = chain.push(segment);
    assert(longer[longer.len() - 1] == segment);
    let before = semantics::eval_chain(e, head, chain, None, f, w);
    let after = semantics::eval_chain(e, head, longer, body, f, w);
    if before.out is Value {
        let origin = semantics::chain_prefix(e, head, chain, chain.len(), None, f, w).out.1;
        let call = semantics::call_of_segment(segment, Some((before.out->Value_0, origin)), body);
        let last = semantics::eval_call(e, call, f, before.w);
        if last.out is Unresolved {
            let n = last.w.s.diagnostics.len() as int;
            assert(after.w.s.diagnostics.take(n) =~= last.w.s.diagnostics);
        }
    }
}

} // verus!
