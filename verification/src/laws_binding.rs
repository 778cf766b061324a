//! Laws of arguments: which parameter an argument is bound to.

use vstd::prelude::*;

use crate::binding;
use crate::binding::{ArgumentView, Style};
use crate::host::{InvocationNamedView, SessionView};
use crate::ir::SourceSpan;
use crate::laws_leaves;

verus! {

/// The code of an error in the arguments of a call.
pub open spec fn argument_code(style: Style) -> Seq<char> {
    match style {
        Style::Whitespace => "E3003"@,
        Style::Align => "E3003"@,
        Style::Parameters => "E3003"@,
        Style::Container => "E3001"@,
        Style::Stacked => "E3001"@,
        Style::Transform => "E3001"@,
        Style::Range => "E3001"@,
        Style::GetAt => "E3001"@,
    }
}

/// Positional arguments are bound to the first parameters in order, and the rest are left open.
/// More arguments than parameters are refused where the call stands.
pub proof fn lemma_positional_bound(
    style: Style,
    call: Seq<char>,
    names: Seq<Seq<char>>,
    too_many: Seq<char>,
    positional: Seq<ArgumentView>,
    span: SourceSpan,
    s: SessionView,
)
    ensures
        ({
            let bound = binding::bind_arguments(
                style,
                call,
                names,
                too_many,
                positional,
                Seq::empty(),
                span,
                s,
            );
            if positional.len() <= names.len() {
                &&& bound.1 == s
                &&& bound.0 is Some && bound.0->0.len() == names.len()
                &&& forall|i: int|
                    0 <= i < names.len() ==> #[trigger] bound.0->0[i] == (if i < positional.len() {
                        Some(positional[i])
                    } else {
                        None
                    })
            } else {
                &&& bound.0 is None
                &&& laws_leaves::reported(s, bound.1, argument_code(style), span)
                &&& bound.1.diagnostics.last().message == too_many
            }
        }),
{
    if positional.len() > names.len() {
        let bound = binding::bind_arguments(
            style,
            call,
            names,
            too_many,
            positional,
            Seq::empty(),
            span,
            s,
        );
        assert(bound.1.diagnostics.take(s.diagnostics.len() as int) =~= s.diagnostics);
    }
}

proof fn lemma_slot_of(names: Seq<Seq<char>>, name: Seq<char>)
    ensures
        match binding::slot_of(names, name) {
            Some(i) => 0 <= i < names.len() && names[i] == name && forall|j: int|
                0 <= j < i ==> #[trigger] names[j] != name,
            None => !names.contains(name),
        },
    decreases names.len(),
{
    if names.len() > 0 {
        let front = names.drop_last();
        lemma_slot_of(front, name);
        match binding::slot_of(front, name) {
            Some(i) => {
                assert(names[i] == front[i]);
                assert forall|j: int| 0 <= j < i implies #[trigger] names[j] != name by {
                    assert(front[j] == names[j]);
                }
            },
            None => {
                assert forall|j: int| 0 <= j < front.len() implies #[trigger] names[j] != name by {
                    assert(front[j] == names[j]);
                    assert(front.contains(front[j]));
                }
            },
        }
    }
}

/// A named argument is bound to the parameter of its name, and no other parameter is touched by
/// it. One that names no parameter is refused at its name, and so is one whose parameter has been
/// bound before.
pub proof fn lemma_named_bound(
    style: Style,
    call: Seq<char>,
    names: Seq<Seq<char>>,
    too_many: Seq<char>,
    positional: Seq<ArgumentView>,
    named: Seq<InvocationNamedView>,
    arg: InvocationNamedView,
    i: int,
    span: SourceSpan,
    s: SessionView,
)
    requires
        binding::bind_arguments(
            style,
            call,
            names,
            too_many,
            positional,
            named,
            span,
            s,
        ).0 is Some,
        style != Style::Container,
        forall|j: int, k: int| 0 <= j < k < names.len() ==> names[j] != names[k],
    ensures
        ({
            let before = binding::bind_arguments(
                style,
                call,
                names,
                too_many,
                positional,
                named,
                span,
                s,
            );
            let after = binding::bind_arguments(
                style,
                call,
                names,
                too_many,
                positional,
                named.push(arg),
                span,
                s,
            );
            let slots = before.0->0;
            &&& slots.len() == names.len()
            &&& 0 <= i < names.len() && names[i] == arg.arg.name && slots[i] is None ==> {
                &&& after.1 == before.1
                &&& after.0 is Some && after.0->0.len() == slots.len()
                &&& after.0->0[i] is Some
                &&& after.0->0[i]->0.value.value == arg.arg.value
                &&& after.0->0[i]->0.value.origin == arg.origin
                &&& after.0->0[i]->0.span == arg.arg.span
                &&& forall|j: int|
                    0 <= j < slots.len() && j != i ==> #[trigger] after.0->0[j] == slots[j]
            }
            &&& 0 <= i < names.len() && names[i] == arg.arg.name && slots[i] is Some ==> {
                &&& after.0 is None
                &&& laws_leaves::reported(
                    before.1,
                    after.1,
                    argument_code(style),
                    arg.arg.name_span,
                )
            }
            &&& !names.contains(arg.arg.name) ==> {
                &&& after.0 is None
                &&& laws_leaves::reported(
                    before.1,
                    after.1,
                    argument_code(style),
                    arg.arg.name_span,
                )
            }
        }),
{
    let before = binding::bind_arguments(
        style,
        call,
        names,
        too_many,
        positional,
        named,
        span,
        s,
    );
    let after = binding::bind_arguments(
        style,
        call,
        names,
        too_many,
        positional,
        named.push(arg),
        span,
        s,
    );
    assert(named.push(arg).drop_last() =~= named);
    lemma_slot_of(names, arg.arg.name);
    lemma_slots_kept(
        style,
        call,
        names,
        binding::bind_positional(names.len(), positional),
        named,
        s,
    );
    match binding::slot_of(names, arg.arg.name) {
        Some(k) => {
            assert(names.contains(names[k]));
            if 0 <= i < names.len() && names[i] == arg.arg.name {
                assert(i == k) by {
                    if i < k {
                        assert(names[i] != names[k]);
                    } else if k < i {
                        assert(names[k] != names[i]);
                    }
                }
            }
        },
        None => {
            if 0 <= i < names.len() {
                assert(names.contains(names[i]));
            }
        },
    }
    if after.0 is None {
        let n = before.1.diagnostics.len() as int;
        assert(after.1.diagnostics.take(n) =~= before.1.diagnostics);
    }
}

proof fn lemma_slots_kept(
    style: Style,
    call: Seq<char>,
    names: Seq<Seq<char>>,
    slots: Seq<Option<ArgumentView>>,
    named: Seq<InvocationNamedView>,
    s: SessionView,
)
    requires
        slots.len() == names.len(),
    ensures
        ({
            let bound = binding::bind_named(style, call, names, slots, named, s);
            bound.0 is Some ==> bound.0->0.len() == slots.len()
        }),
    decreases named.len(),
{
    if named.len() > 0 {
        lemma_slots_kept(style, call, names, slots, named.drop_last(), s);
        lemma_slot_of(names, named.last().arg.name);
    }
}

} // verus!
