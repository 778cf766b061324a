//! Laws of functions of a document: what their parameters are bound to.

use vstd::prelude::*;

use crate::binding;
use crate::binding::ArgumentView;
use crate::calls::BoundView;
use crate::host::SessionView;
use crate::ir::{NamedArgView, ParameterView, ValueView};
use crate::laws_binding;
use crate::laws_leaves;
use crate::scope::LambdaParametersView;
use crate::semantics;
use crate::semantics::{CallView, Evaluator, World};

verus! {

/// Whether every parameter from one place up to another may be left out.
pub open spec fn optional_between(list: Seq<ParameterView>, from: int, to: int) -> bool {
    forall|i: int| from <= i < to && 0 <= i < list.len() ==> (#[trigger] list[i]).optional
}

/// Whether a parameter has been given nothing and may not be left out, and is the first of those.
pub open spec fn first_missing(
    list: Seq<ParameterView>,
    slots: Seq<Option<ArgumentView>>,
    i: int,
) -> bool {
    &&& 0 <= i < list.len()
    &&& slots[i] is None && !list[i].optional
    &&& forall|j: int| 0 <= j < i ==> slots[j] is Some || (#[trigger] list[j]).optional
}

proof fn lemma_filled(
    list: Seq<ParameterView>,
    slots: Seq<Option<ArgumentView>>,
    done: nat,
    s: SessionView,
)
    requires
        slots.len() == list.len(),
        done <= list.len(),
    ensures
        ({
            let r = semantics::filled(list, slots, done, s);
            let all = forall|i: int|
                0 <= i < done ==> slots[i] is Some || (#[trigger] list[i]).optional;
            if all {
                &&& r.1 == s
                &&& r.0 is Some && r.0->0.len() == done
                &&& forall|i: int|
                    0 <= i < done ==> #[trigger] r.0->0[i] == (match slots[i] {
                        Some(argument) => argument.value.value,
                        None => ValueView::Nothing,
                    })
            } else {
                &&& r.0 is None
                &&& exists|i: int|
                    0 <= i < done && first_missing(list, slots, i) && laws_leaves::reported(
                        s,
                        r.1,
                        "E3003"@,
                        list[i].name_span,
                    )
            }
        }),
    decreases done,
{
    reveal(semantics::filled);
    if done > 0 {
        let d = (done - 1) as nat;
        lemma_filled(list, slots, d, s);
        let before = semantics::filled(list, slots, d, s);
        let r = semantics::filled(list, slots, done, s);
        let all = forall|i: int|
            0 <= i < done ==> slots[i] is Some || (#[trigger] list[i]).optional;
        if before.0 is None {
            assert(!all);
        } else if slots[d as int] is None && !list[d as int].optional {
            assert(!all);
            let n = s.diagnostics.len() as int;
            assert(r.1.diagnostics.take(n) =~= s.diagnostics);
            assert(first_missing(list, slots, d as int));
            assert(laws_leaves::reported(s, r.1, "E3003"@, list[d as int].name_span));
        } else {
            assert(all);
        }
    }
}

/// A function that is called with positional arguments and a block argument has its first
/// parameters bound to the arguments in order and its last parameter to the content of the block.
/// The parameters between them are bound to nothing, where all of them may be left out; else the
/// call is refused.
pub proof fn lemma_block_argument_bound(
    e: Evaluator,
    list: Seq<ParameterView>,
    positional: Seq<ValueView>,
    call: CallView,
    f: nat,
    w: World,
)
    requires
        positional.len() < list.len(),
        call.body is Some,
    ensures
        ({
            let n = list.len();
            let k = positional.len();
            let content = semantics::body_content(e, call.body->0, call.span, f, w);
            let r = semantics::bind_parameters(
                e,
                LambdaParametersView::Explicit(list),
                positional,
                Seq::empty(),
                call,
                f,
                w,
            );
            if content.out is None {
                r.out is None && r.w == content.w
            } else if optional_between(list, k as int, n - 1) {
                &&& r.w == content.w
                &&& r.out is Some && r.out->0 is Explicit
                &&& r.out->0->Explicit_0.len() == n
                &&& r.out->0->Explicit_0[n - 1] == ValueView::Content(content.out->0)
                &&& forall|i: int|
                    0 <= i < k ==> #[trigger] r.out->0->Explicit_0[i] == positional[i]
                &&& forall|i: int|
                    k <= i < n - 1 ==> #[trigger] r.out->0->Explicit_0[i] == ValueView::Nothing
            } else {
                r.out is None && r.w.c == content.w.c && r.w.s.diagnostics.len()
                    == content.w.s.diagnostics.len() + 1
            }
        }),
{
    reveal(semantics::filled);
    reveal(semantics::bind_parameters);
    reveal(semantics::bind_body);
    reveal(semantics::body_value);
    let n = list.len();
    let k = positional.len();
    let names = semantics::parameter_names(list);
    let arguments = binding::static_arguments(positional, call.span);
    let too_many = "Function call has too many positional arguments (received at least "@
        + crate::text::decimal_text(n + 1) + ")"@;
    laws_binding::lemma_positional_bound(
        crate::binding::Style::Parameters,
        call.name,
        names,
        too_many,
        arguments,
        call.span,
        w.s,
    );
    assert(binding::static_named(Seq::empty()) =~= Seq::empty());
    let bound = binding::bind_arguments(
        crate::binding::Style::Parameters,
        call.name,
        names,
        too_many,
        arguments,
        Seq::empty(),
        call.span,
        w.s,
    );
    let slots = bound.0->0;
    assert(slots[n - 1] is None);
    assert(w.on(w.s) == w);
    let content = semantics::body_content(e, call.body->0, call.span, f, w);
    if content.out is Some {
        let b = semantics::bind_body(e, slots, call, f, w);
        let given = b.out->0;
        assert(forall|i: int| 0 <= i < n - 1 ==> given[i] == slots[i]);
        lemma_filled(list, given, n, content.w.s);
        assert(content.w.on(content.w.s) == content.w);
        if optional_between(list, k as int, n - 1) {
            assert forall|i: int| 0 <= i < n implies given[i] is Some || (
            #[trigger] list[i]).optional by {}
        } else {
            let i = choose|i: int|
                k as int <= i < n - 1 && 0 <= i < list.len() && !(#[trigger] list[i]).optional;
            assert(given[i] is None);
        }
    }
}

/// A block argument for a function whose last parameter is bound already is refused where the call
/// stands, and so is one for a function without parameters.
pub proof fn lemma_block_argument_refused(
    e: Evaluator,
    list: Seq<ParameterView>,
    positional: Seq<ValueView>,
    call: CallView,
    f: nat,
    w: World,
)
    requires
        positional.len() == list.len(),
        call.body is Some,
    ensures
        ({
            let r = semantics::bind_parameters(
                e,
                LambdaParametersView::Explicit(list),
                positional,
                Seq::empty(),
                call,
                f,
                w,
            );
            &&& r.out is None && r.w.c == w.c
            &&& laws_leaves::reported(w.s, r.w.s, "E3003"@, call.span)
        }),
{
    reveal(semantics::filled);
    reveal(semantics::bind_parameters);
    reveal(semantics::bind_body);
    reveal(semantics::body_value);
    let n = list.len();
    let names = semantics::parameter_names(list);
    let arguments = binding::static_arguments(positional, call.span);
    let too_many = "Function call has too many positional arguments (received at least "@
        + crate::text::decimal_text(n + 1) + ")"@;
    laws_binding::lemma_positional_bound(
        crate::binding::Style::Parameters,
        call.name,
        names,
        too_many,
        arguments,
        call.span,
        w.s,
    );
    assert(binding::static_named(Seq::empty()) =~= Seq::empty());
    assert(w.on(w.s) == w);
    let r = semantics::bind_parameters(
        e,
        LambdaParametersView::Explicit(list),
        positional,
        Seq::empty(),
        call,
        f,
        w,
    );
    assert(r.w.s.diagnostics.take(w.s.diagnostics.len() as int) =~= w.s.diagnostics);
}

/// A function that is called with positional arguments alone has its first parameters bound to
/// them in order, and the others to nothing. A parameter that may not be left out is reported at
/// its name, and more arguments than parameters are reported at the call.
pub proof fn lemma_arguments_bound(
    e: Evaluator,
    list: Seq<ParameterView>,
    positional: Seq<ValueView>,
    call: CallView,
    f: nat,
    w: World,
)
    requires
        call.body is None,
    ensures
        ({
            let n = list.len();
            let k = positional.len();
            let r = semantics::bind_parameters(
                e,
                LambdaParametersView::Explicit(list),
                positional,
                Seq::empty(),
                call,
                f,
                w,
            );
            if k > n {
                &&& r.out is None && r.w.c == w.c
                &&& laws_leaves::reported(w.s, r.w.s, "E3003"@, call.span)
            } else if optional_between(list, k as int, n as int) {
                &&& r.w == w
                &&& r.out is Some && r.out->0 is Explicit
                &&& r.out->0->Explicit_0.len() == n
                &&& forall|i: int|
                    0 <= i < k ==> #[trigger] r.out->0->Explicit_0[i] == positional[i]
                &&& forall|i: int|
                    k <= i < n ==> #[trigger] r.out->0->Explicit_0[i] == ValueView::Nothing
            } else {
                &&& r.out is None && r.w.c == w.c
                &&& exists|i: int|
                    k <= i < n && !(#[trigger] list[i]).optional && optional_between(
                        list,
                        k as int,
                        i,
                    ) && laws_leaves::reported(w.s, r.w.s, "E3003"@, list[i].name_span)
            }
        }),
{
    reveal(semantics::filled);
    reveal(semantics::bind_parameters);
    reveal(semantics::bind_body);
    reveal(semantics::body_value);
    let n = list.len();
    let k = positional.len();
    let names = semantics::parameter_names(list);
    let arguments = binding::static_arguments(positional, call.span);
    let too_many = "Function call has too many positional arguments (received at least "@
        + crate::text::decimal_text(n + 1) + ")"@;
    laws_binding::lemma_positional_bound(
        crate::binding::Style::Parameters,
        call.name,
        names,
        too_many,
        arguments,
        call.span,
        w.s,
    );
    assert(binding::static_named(Seq::empty()) =~= Seq::empty());
    assert(w.on(w.s) == w);
    let bound = binding::bind_arguments(
        crate::binding::Style::Parameters,
        call.name,
        names,
        too_many,
        arguments,
        Seq::empty(),
        call.span,
        w.s,
    );
    if k <= n {
        let slots = bound.0->0;
        lemma_filled(list, slots, n, w.s);
        if optional_between(list, k as int, n as int) {
            assert forall|i: int| 0 <= i < n implies slots[i] is Some || (
            #[trigger] list[i]).optional by {}
        } else {
            let j = choose|j: int|
                k as int <= j < n as int && 0 <= j < list.len() && !(#[trigger] list[j]).optional;
            assert(slots[j] is None);
            let t = semantics::filled(list, slots, n, w.s).1;
            let i = choose|i: int|
                0 <= i < n && first_missing(list, slots, i) && laws_leaves::reported(
                    w.s,
                    t,
                    "E3003"@,
                    list[i].name_span,
                );
            assert(slots[i] is None);
            assert forall|m: int| k as int <= m < i && 0 <= m < list.len() implies (
            #[trigger] list[m]).optional by {
                assert(slots[m] is None);
            }
            assert(optional_between(list, k as int, i));
            assert(!list[i].optional);
        }
    }
}

/// A named argument is bound to the parameter of its name, behind positional ones that keep their
/// places.
pub proof fn lemma_named_argument_bound(
    e: Evaluator,
    list: Seq<ParameterView>,
    positional: Seq<ValueView>,
    arg: NamedArgView,
    j: int,
    call: CallView,
    f: nat,
    w: World,
)
    requires
        call.body is None,
        positional.len() <= j < list.len(),
        list[j].name == arg.name,
        forall|a: int, b: int| 0 <= a < b < list.len() ==> list[a].name != list[b].name,
        optional_between(list, positional.len() as int, j),
        optional_between(list, j + 1, list.len() as int),
    ensures
        ({
            let n = list.len();
            let k = positional.len();
            let r = semantics::bind_parameters(
                e,
                LambdaParametersView::Explicit(list),
                positional,
                seq![arg],
                call,
                f,
                w,
            );
            &&& r.w == w
            &&& r.out is Some && r.out->0 is Explicit
            &&& r.out->0->Explicit_0.len() == n
            &&& r.out->0->Explicit_0[j] == arg.value
            &&& forall|i: int| 0 <= i < k ==> #[trigger] r.out->0->Explicit_0[i] == positional[i]
            &&& forall|i: int|
                k <= i < n && i != j ==> #[trigger] r.out->0->Explicit_0[i] == ValueView::Nothing
        }),
{
    reveal(semantics::filled);
    reveal(semantics::bind_parameters);
    reveal(semantics::bind_body);
    reveal(semantics::body_value);
    let n = list.len();
    let k = positional.len();
    let names = semantics::parameter_names(list);
    let arguments = binding::static_arguments(positional, call.span);
    let too_many = "Function call has too many positional arguments (received at least "@
        + crate::text::decimal_text(n + 1) + ")"@;
    let style = crate::binding::Style::Parameters;
    laws_binding::lemma_positional_bound(
        style,
        call.name,
        names,
        too_many,
        arguments,
        call.span,
        w.s,
    );
    let named = binding::static_named(seq![arg]);
    assert(named =~= Seq::empty().push(named[0]));
    assert(names[j] == arg.name);
    assert forall|a: int, b: int| 0 <= a < b < names.len() implies names[a] != names[b] by {
        assert(names[a] == list[a].name && names[b] == list[b].name);
    }
    laws_binding::lemma_named_bound(
        style,
        call.name,
        names,
        too_many,
        arguments,
        Seq::empty(),
        named[0],
        j,
        call.span,
        w.s,
    );
    assert(w.on(w.s) == w);
    let slots = binding::bind_arguments(
        style,
        call.name,
        names,
        too_many,
        arguments,
        named,
        call.span,
        w.s,
    ).0->0;
    lemma_filled(list, slots, n, w.s);
    assert forall|i: int| 0 <= i < n implies slots[i] is Some || (#[trigger] list[i]).optional by {}
}

/// A function without named parameters takes its positional arguments as they are, with the
/// content of a block argument behind them; it takes no named ones.
pub proof fn lemma_implicit_arguments_bound(
    e: Evaluator,
    positional: Seq<ValueView>,
    named: Seq<NamedArgView>,
    call: CallView,
    f: nat,
    w: World,
)
    ensures
        ({
            let r = semantics::bind_parameters(
                e,
                LambdaParametersView::Implicit,
                positional,
                named,
                call,
                f,
                w,
            );
            if named.len() > 0 {
                &&& r.out is None && r.w.c == w.c
                &&& laws_leaves::reported(w.s, r.w.s, "E3003"@, named[0].name_span)
            } else if call.body is None {
                r.out == Some(BoundView::Implicit(positional)) && r.w == w
            } else {
                let content = semantics::body_content(e, call.body->0, call.span, f, w);
                &&& r.w == content.w
                &&& content.out is None ==> r.out is None
                &&& content.out is Some ==> r.out == Some(
                    BoundView::Implicit(positional.push(ValueView::Content(content.out->0))),
                )
            }
        }),
{
    reveal(semantics::filled);
    reveal(semantics::bind_parameters);
    reveal(semantics::bind_body);
    reveal(semantics::body_value);
    let r = semantics::bind_parameters(
        e,
        LambdaParametersView::Implicit,
        positional,
        named,
        call,
        f,
        w,
    );
    if named.len() > 0 {
        assert(r.w.s.diagnostics.take(w.s.diagnostics.len() as int) =~= w.s.diagnostics);
    }
}

} // verus!
