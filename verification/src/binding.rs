//! Which argument goes to which parameter.

use vstd::prelude::*;

use crate::diagnostic::Fault;
use crate::host;
use crate::host::{
    copy_invocation_value, InvocationNamedArg, InvocationNamedView, InvocationValue,
    InvocationValueView, Session, SessionView, ValueOrigin,
};
use crate::ir;
use crate::ir::{IrNamedArg, IrValue, NamedArgView, SourceSpan, ValueView};
use crate::ir_copy::{copy_named_arg, copy_value};
use crate::materialize;
use crate::materialize::value_source_span;
use crate::natives;
use crate::natives::{is_collection_transform, is_stacked_layout, NativeDispatchOwner};
use crate::outcome::{CallOutcome, OutcomeView};
use crate::sequences;
use crate::text;
use crate::text::{decimal, join3, join5, same_text};

verus! {

broadcast use {
    ir::group_ir_views,
    host::group_host_views,
    host::group_follows,
    host::group_halts,
};

/// An argument and where it was written.
pub struct Argument {
    pub value: InvocationValue,
    pub span: SourceSpan,
}

/// The mathematical value of [`Argument`].
#[verifier::ext_equal]
pub struct ArgumentView {
    pub value: InvocationValueView,
    pub span: SourceSpan,
}

impl View for Argument {
    type V = ArgumentView;

    open spec fn view(&self) -> ArgumentView {
        ArgumentView { value: self.value@, span: self.span }
    }
}

/// The value of a parameter that may have no argument.
pub open spec fn slot_view(slot: Option<Argument>) -> Option<ArgumentView> {
    match slot {
        Some(argument) => Some(argument@),
        None => None,
    }
}

/// The values of parameters that may have no argument.
pub open spec fn slots_view(slots: Seq<Option<Argument>>) -> Seq<Option<ArgumentView>> {
    Seq::new(slots.len(), |i: int| slot_view(slots[i]))
}

/// The values of arguments.
pub open spec fn arguments_view(s: Seq<Argument>) -> Seq<ArgumentView> {
    Seq::new(s.len(), |i: int| s[i]@)
}

/// Whose parameters are bound.
#[derive(Debug, Clone, Copy, PartialEq, Eq, Structural)]
pub enum Style {
    Whitespace,
    Align,
    Container,
    Stacked,
    Transform,
    Range,
    GetAt,
    Parameters,
}

/// The family of the errors of binding.
pub open spec fn style_fault(style: Style) -> Fault {
    match style {
        Style::Whitespace => Fault::WhitespaceArgument,
        Style::Align => Fault::AlignArgument,
        Style::Container => Fault::ContainerArgument,
        Style::Stacked => Fault::StackedArgument,
        Style::Transform => Fault::Iteration,
        Style::Range => Fault::Iteration,
        Style::GetAt => Fault::Iteration,
        Style::Parameters => Fault::Function,
    }
}

/// The error of a named argument that fits no parameter.
pub open spec fn unknown_message(style: Style, call: Seq<char>, name: Seq<char>) -> Seq<char> {
    match style {
        Style::Transform => "Unknown named argument `"@ + name + "` for `."@ + call + "`"@,
        Style::Range => "Unknown named argument `"@ + name + "` for `."@ + call + "`"@,
        Style::GetAt => "Unknown named argument `"@ + name + "` for `."@ + call + "`"@,
        Style::Parameters => "Unknown named parameter `"@ + name + "`"@,
        _ => "Unknown named argument `"@ + name + "`"@,
    }
}

/// The error of a named argument for a parameter that has one already.
pub open spec fn duplicate_message(
    style: Style,
    call: Seq<char>,
    name: Seq<char>,
    slot: int,
) -> Seq<char> {
    match style {
        Style::Transform => if slot == 0 {
            "`."@ + call + "` received the iterable argument more than once"@
        } else {
            "`."@ + call + "` received the callback argument more than once"@
        },
        Style::Range => "`.range` received `"@ + name + "` more than once"@,
        Style::GetAt => if slot == 0 {
            "`.getat` received the iterable argument more than once"@
        } else if slot == 1 {
            "`.getat` received the index argument more than once"@
        } else {
            "`.getat` received the `orelse` argument more than once"@
        },
        Style::Parameters => "Parameter `"@ + name + "` was bound more than once"@,
        _ => "Argument `"@ + name + "` was bound more than once"@,
    }
}

/// The container parameters that are known but not supported.
pub open spec fn deferred_container_parameters() -> Seq<Seq<char>> {
    seq![
        "float"@,
        "fullspan"@,
        "classname"@,
        "foreground"@,
        "background"@,
        "border"@,
        "borderwidth"@,
        "borderstyle"@,
        "alignment"@,
        "textalignment"@,
        "margin"@,
        "padding"@,
        "radius"@,
        "fontsize"@,
        "fontweight"@,
        "fontstyle"@,
        "fontvariant"@,
        "textdecoration"@,
        "textcase"@,
    ]
}

/// The parameter that has a name.
pub open spec fn slot_of(names: Seq<Seq<char>>, name: Seq<char>) -> Option<int>
    decreases names.len(),
{
    if names.len() == 0 {
        None
    } else {
        match slot_of(names.drop_last(), name) {
            Some(i) => Some(i),
            None => if names.last() == name {
                Some(names.len() - 1)
            } else {
                None
            },
        }
    }
}

/// Parameters once named arguments have been given to them.
pub open spec fn bind_named(
    style: Style,
    call: Seq<char>,
    names: Seq<Seq<char>>,
    slots: Seq<Option<ArgumentView>>,
    named: Seq<InvocationNamedView>,
    s: SessionView,
) -> (Option<Seq<Option<ArgumentView>>>, SessionView)
    decreases named.len(),
{
    if named.len() == 0 {
        (Some(slots), s)
    } else {
        match bind_named(style, call, names, slots, named.drop_last(), s) {
            (None, t) => (None, t),
            (Some(slots), t) => {
                let name = named.last().arg.name;
                let span = named.last().arg.name_span;
                if style == Style::Container && deferred_container_parameters().contains(name) {
                    (
                        None,
                        t.fault(
                            Fault::ContainerArgument,
                            "`.container` parameter `"@ + name
                                + "` is not supported by the bounded container sizing slice"@,
                            span,
                        ),
                    )
                } else {
                    match slot_of(names, name) {
                        None => (
                            None,
                            t.fault(style_fault(style), unknown_message(style, call, name), span),
                        ),
                        Some(i) => if slots[i] is Some {
                            (
                                None,
                                t.fault(
                                    style_fault(style),
                                    duplicate_message(style, call, name, i),
                                    span,
                                ),
                            )
                        } else {
                            (
                                Some(
                                    slots.update(
                                        i,
                                        Some(
                                            ArgumentView {
                                                value: InvocationValueView {
                                                    value: named.last().arg.value,
                                                    origin: named.last().origin,
                                                },
                                                span: named.last().arg.span,
                                            },
                                        ),
                                    ),
                                ),
                                t,
                            )
                        },
                    }
                }
            },
        }
    }
}

/// Parameters once positional arguments have been given to the first of them.
pub open spec fn bind_positional(count: nat, positional: Seq<ArgumentView>) -> Seq<
    Option<ArgumentView>,
> {
    Seq::new(
        count,
        |i: int|
            if i < positional.len() {
                Some(positional[i])
            } else {
                None
            },
    )
}

/// Parameters with their arguments; nothing where there are too many positional ones.
pub open spec fn bind_arguments(
    style: Style,
    call: Seq<char>,
    names: Seq<Seq<char>>,
    too_many: Seq<char>,
    positional: Seq<ArgumentView>,
    named: Seq<InvocationNamedView>,
    span: SourceSpan,
    s: SessionView,
) -> (Option<Seq<Option<ArgumentView>>>, SessionView) {
    if positional.len() > names.len() {
        (None, s.fault(style_fault(style), too_many, span))
    } else {
        bind_named(style, call, names, bind_positional(names.len(), positional), named, s)
    }
}

impl Style {
    /// The family of the errors of binding.
    fn fault(self) -> (r: Fault)
        ensures
            r == style_fault(self),
    {
        match self {
            Style::Whitespace => Fault::WhitespaceArgument,
            Style::Align => Fault::AlignArgument,
            Style::Container => Fault::ContainerArgument,
            Style::Stacked => Fault::StackedArgument,
            Style::Transform => Fault::Iteration,
            Style::Range => Fault::Iteration,
            Style::GetAt => Fault::Iteration,
            Style::Parameters => Fault::Function,
        }
    }

    /// The error of a named argument that fits no parameter.
    fn unknown(self, call: &str, name: &str) -> (r: String)
        ensures
            r@ == unknown_message(self, call@, name@),
    {
        match self {
            Style::Transform | Style::Range | Style::GetAt => join5(
                "Unknown named argument `",
                name,
                "` for `.",
                call,
                "`",
            ),
            Style::Parameters => join3("Unknown named parameter `", name, "`"),
            _ => join3("Unknown named argument `", name, "`"),
        }
    }

    /// The error of a named argument for a parameter that has one already.
    fn duplicate(self, call: &str, name: &str, slot: usize) -> (r: String)
        ensures
            r@ == duplicate_message(self, call@, name@, slot as int),
    {
        match self {
            Style::Transform => if slot == 0 {
                join3("`.", call, "` received the iterable argument more than once")
            } else {
                join3("`.", call, "` received the callback argument more than once")
            },
            Style::Range => join3("`.range` received `", name, "` more than once"),
            Style::GetAt => if slot == 0 {
                "`.getat` received the iterable argument more than once".to_owned()
            } else if slot == 1 {
                "`.getat` received the index argument more than once".to_owned()
            } else {
                "`.getat` received the `orelse` argument more than once".to_owned()
            },
            Style::Parameters => join3("Parameter `", name, "` was bound more than once"),
            _ => join3("Argument `", name, "` was bound more than once"),
        }
    }
}

/// Whether a container parameter is known but not supported.
pub fn is_deferred_container_parameter(name: &str) -> (r: bool)
    ensures
        r == deferred_container_parameters().contains(name@),
{
    let names: Vec<&'static str> = vec![
        "float",
        "fullspan",
        "classname",
        "foreground",
        "background",
        "border",
        "borderwidth",
        "borderstyle",
        "alignment",
        "textalignment",
        "margin",
        "padding",
        "radius",
        "fontsize",
        "fontweight",
        "fontstyle",
        "fontvariant",
        "textdecoration",
        "textcase",
    ];
    let ghost all = deferred_container_parameters();
    assert(names@.len() == all.len());
    assert forall|i: int| 0 <= i < all.len() implies (#[trigger] names@[i])@ == all[i] by {}
    let mut i: usize = 0;
    while i < names.len()
        invariant
            0 <= i <= names@.len(),
            all == deferred_container_parameters(),
            names@.len() == all.len(),
            forall|j: int| 0 <= j < all.len() ==> (#[trigger] names@[j])@ == all[j],
            forall|j: int| 0 <= j < i ==> #[trigger] all[j] != name@,
        decreases names@.len() - i,
    {
        if same_text(names[i], name) {
            assert(all[i as int] == name@);
            return true;
        }
        i += 1;
    }
    false
}

/// The parameter that has a name.
fn find_slot(names: &Vec<String>, name: &str) -> (r: Option<usize>)
    ensures
        (match r {
            Some(i) => Some(i as int),
            None => None,
        }) == slot_of(text::strings_view(names@), name@),
        r matches Some(i) ==> i < names@.len(),
{
    let ghost all = text::strings_view(names@);
    let mut found: Option<usize> = None;
    let mut i: usize = 0;
    assert(all.take(0) =~= Seq::empty());
    while i < names.len()
        invariant
            0 <= i <= names@.len(),
            all == text::strings_view(names@),
            (match found {
                Some(k) => Some(k as int),
                None => None,
            }) == slot_of(all.take(i as int), name@),
            found matches Some(k) ==> k < i,
        decreases names@.len() - i,
    {
        proof {
            sequences::lemma_take_step(all, i as int);
        }
        if found.is_none() && same_text(names[i].as_str(), name) {
            found = Some(i);
        }
        i += 1;
    }
    proof {
        sequences::lemma_take_all(all);
    }
    found
}

proof fn lemma_bind_named_stops(
    style: Style,
    call: Seq<char>,
    names: Seq<Seq<char>>,
    slots: Seq<Option<ArgumentView>>,
    named: Seq<InvocationNamedView>,
    s: SessionView,
    i: int,
)
    requires
        0 <= i <= named.len(),
        bind_named(style, call, names, slots, named.take(i), s).0 is None,
    ensures
        bind_named(style, call, names, slots, named, s) == bind_named(
            style,
            call,
            names,
            slots,
            named.take(i),
            s,
        ),
    decreases named.len() - i,
{
    if i < named.len() {
        sequences::lemma_take_step(named, i);
        lemma_bind_named_stops(style, call, names, slots, named, s, i + 1);
    } else {
        sequences::lemma_take_all(named);
    }
}

/// Binds arguments to parameters; nothing where that fails, and then the reason is
/// reported.
pub fn bind(
    style: Style,
    call: &str,
    names: &Vec<String>,
    too_many: String,
    positional: Vec<Argument>,
    named: &Vec<InvocationNamedArg>,
    span: SourceSpan,
    session: &mut Session,
) -> (r: Option<Vec<Option<Argument>>>)
    ensures
        (match r {
            Some(slots) => Some(slots_view(slots@)),
            None => None,
        }, final(session)@) == bind_arguments(
            style,
            call@,
            text::strings_view(names@),
            too_many@,
            arguments_view(positional@),
            host::invocation_named_args_view(named@),
            span,
            old(session)@,
        ),
        r matches Some(slots) ==> slots@.len() == names@.len(),
        host::follows(old(session)@, final(session)@),
        r is None ==> host::halts(old(session)@, final(session)@),
{
    if positional.len() > names.len() {
        session.fault(style.fault(), too_many, span);
        return None;
    }
    let ghost given = arguments_view(positional@);
    let mut slots: Vec<Option<Argument>> = Vec::new();
    let count: usize = positional.len();
    for argument in it: positional
        invariant
            host::follows(old(session)@, session@),
            it.seq() == positional@,
            given == arguments_view(positional@),
            slots@.len() == it.index(),
            forall|j: int| 0 <= j < slots@.len() ==> slot_view(#[trigger] slots@[j]) == Some(given[
                j
            ]),
    {
        slots.push(Some(argument));
    }
    while slots.len() < names.len()
        invariant
            host::follows(old(session)@, session@),
            count <= slots@.len() <= names@.len(),
            count == given.len(),
            forall|j: int|
                0 <= j < slots@.len() ==> slot_view(#[trigger] slots@[j]) == (if j < count {
                    Some(given[j])
                } else {
                    None
                }),
        decreases names@.len() - slots@.len(),
    {
        slots.push(None);
    }
    let ghost first = bind_positional(names@.len(), given);
    assert(slots_view(slots@) =~= first);
    let ghost texts = text::strings_view(names@);
    let ghost all = host::invocation_named_args_view(named@);
    let mut i: usize = 0;
    assert(all.take(0) =~= Seq::empty());
    while i < named.len()
        invariant
            host::follows(old(session)@, session@),
            0 <= i <= named@.len(),
            all == host::invocation_named_args_view(named@),
            given == arguments_view(positional@),
            texts == text::strings_view(names@),
            texts.len() == names@.len(),
            slots@.len() == names@.len(),
            (Some(slots_view(slots@)), session@) == bind_named(
                style,
                call@,
                texts,
                first,
                all.take(i as int),
                old(session)@,
            ),
            bind_arguments(
                style,
                call@,
                texts,
                too_many@,
                given,
                all,
                span,
                old(session)@,
            ) == bind_named(style, call@, texts, first, all, old(session)@),
        decreases named@.len() - i,
    {
        let argument = &named[i];
        let name = argument.arg.name.as_str();
        proof {
            sequences::lemma_take_step(all, i as int);
            assert(all[i as int].arg == argument.arg@);
            assert(argument.arg@.name == name@);
        }
        if style == Style::Container && is_deferred_container_parameter(name) {
            session.fault(
                Fault::ContainerArgument,
                join3(
                    "`.container` parameter `",
                    name,
                    "` is not supported by the bounded container sizing slice",
                ),
                argument.arg.name_span,
            );
            proof {
                lemma_bind_named_stops(style, call@, texts, first, all, old(session)@, i + 1);
            }
            return None;
        }
        match find_slot(names, name) {
            None => {
                session.fault(style.fault(), style.unknown(call, name), argument.arg.name_span);
                proof {
                    lemma_bind_named_stops(style, call@, texts, first, all, old(session)@, i + 1);
                }
                return None;
            },
            Some(k) => {
                assert(slots_view(slots@)[k as int] == slot_view(slots@[k as int]));
                if slots[k].is_some() {
                    session.fault(
                        style.fault(),
                        style.duplicate(call, name, k),
                        argument.arg.name_span,
                    );
                    proof {
                        lemma_bind_named_stops(
                            style,
                            call@,
                            texts,
                            first,
                            all,
                            old(session)@,
                            i + 1,
                        );
                    }
                    return None;
                }
                let ghost before = slots_view(slots@);
                let value = Argument {
                    value: InvocationValue {
                        value: copy_value(&argument.arg.value),
                        origin: argument.origin,
                    },
                    span: argument.arg.span,
                };
                let ghost put = value@;
                slots.set(k, Some(value));
                assert(slots_view(slots@) =~= before.update(k as int, Some(put)));
            },
        }
        i += 1;
    }
    proof {
        sequences::lemma_take_all(all);
    }
    Some(slots)
}

/// Evaluated arguments and where they were written.
pub open spec fn arguments_of(
    values: Seq<InvocationValueView>,
    sources: Seq<ValueView>,
    span: SourceSpan,
) -> Seq<ArgumentView> {
    Seq::new(
        values.len(),
        |i: int|
            ArgumentView { value: values[i], span: materialize::value_span(sources[i], span) },
    )
}

/// Evaluated arguments and where they were written.
pub fn arguments_from(values: Vec<InvocationValue>, sources: &Vec<IrValue>, span: SourceSpan) -> (r:
    Vec<Argument>)
    requires
        values@.len() == sources@.len(),
    ensures
        arguments_view(r@) == arguments_of(
            host::invocation_values_view(values@),
            ir::values_view(sources@),
            span,
        ),
{
    let ghost given = values@;
    let mut r: Vec<Argument> = Vec::new();
    for value in it: values
        invariant
            it.seq() == given,
            given.len() == sources@.len(),
            r@.len() == it.index(),
            forall|j: int|
                0 <= j < r@.len() ==> (#[trigger] r@[j])@ == (ArgumentView {
                    value: given[j]@,
                    span: materialize::value_span(ir::values_view(sources@)[j], span),
                }),
    {
        let i: usize = r.len();
        r.push(Argument { value, span: value_source_span(&sources[i], span) });
    }
    assert(arguments_view(r@) =~= arguments_of(
        host::invocation_values_view(given),
        ir::values_view(sources@),
        span,
    ));
    r
}

/// Values as they were written down.
pub open spec fn static_arguments(values: Seq<ValueView>, span: SourceSpan) -> Seq<ArgumentView> {
    values.map_values(
        |value: ValueView|
            ArgumentView {
                value: InvocationValueView { value, origin: ValueOrigin::Static },
                span,
            },
    )
}

/// Named values as they were written down.
pub open spec fn static_named(named: Seq<NamedArgView>) -> Seq<InvocationNamedView> {
    named.map_values(
        |arg: NamedArgView| InvocationNamedView { arg, origin: ValueOrigin::Static },
    )
}

/// Values as they were written down.
pub fn raw_arguments(values: &Vec<IrValue>, span: SourceSpan) -> (r: Vec<Argument>)
    ensures
        arguments_view(r@) == static_arguments(ir::values_view(values@), span),
{
    let mut r: Vec<Argument> = Vec::new();
    let mut i: usize = 0;
    while i < values.len()
        invariant
            0 <= i <= values@.len(),
            r@.len() == i,
            forall|j: int|
                0 <= j < i ==> (#[trigger] r@[j])@ == (ArgumentView {
                    value: InvocationValueView {
                        value: ir::values_view(values@)[j],
                        origin: ValueOrigin::Static,
                    },
                    span,
                }),
        decreases values@.len() - i,
    {
        r.push(
            Argument { value: InvocationValue::static_value(copy_value(&values[i])), span },
        );
        i += 1;
    }
    assert(arguments_view(r@) =~= static_arguments(ir::values_view(values@), span));
    r
}

/// Named values as they were written down.
pub fn raw_named(named: &Vec<IrNamedArg>) -> (r: Vec<InvocationNamedArg>)
    ensures
        host::invocation_named_args_view(r@) == static_named(ir::named_args_view(named@)),
{
    let ghost want = static_named(ir::named_args_view(named@));
    let mut r: Vec<InvocationNamedArg> = Vec::new();
    let mut i: usize = 0;
    assert(want.take(0) =~= Seq::empty());
    while i < named.len()
        invariant
            0 <= i <= named@.len(),
            want == static_named(ir::named_args_view(named@)),
            host::invocation_named_args_view(r@) == want.take(i as int),
        decreases named@.len() - i,
    {
        r.push(
            InvocationNamedArg { arg: copy_named_arg(&named[i]), origin: ValueOrigin::Static },
        );
        i += 1;
        assert(want.take(i as int) =~= want.take(i - 1).push(want[i - 1]));
    }
    assert(want.take(i as int) =~= want);
    r
}

/// The names as strings.
fn name_list(names: Vec<&'static str>) -> (r: Vec<String>)
    ensures
        text::strings_view(r@) == crate::natives::slices_view(names@),
{
    let mut r: Vec<String> = Vec::new();
    let mut i: usize = 0;
    while i < names.len()
        invariant
            0 <= i <= names@.len(),
            r@.len() == i,
            forall|j: int| 0 <= j < i ==> (#[trigger] r@[j])@ == names@[j]@,
        decreases names@.len() - i,
    {
        r.push(names[i].to_owned());
        i += 1;
    }
    assert(text::strings_view(r@) =~= crate::natives::slices_view(names@));
    r
}

/// The parameters of `.whitespace`.
pub open spec fn whitespace_names() -> Seq<Seq<char>> {
    seq!["width"@, "height"@]
}

/// The parameters of `.container`.
pub open spec fn container_names() -> Seq<Seq<char>> {
    seq!["width"@, "height"@, "fullwidth"@]
}

/// The parameters of `.row`, `.column` and `.grid`.
pub open spec fn stacked_names(grid: bool) -> Seq<Seq<char>> {
    if grid {
        seq!["columns"@, "alignment"@, "cross"@, "gap"@, "vgap"@, "hgap"@]
    } else {
        seq!["alignment"@, "cross"@, "gap"@]
    }
}

/// Binds the arguments of `.whitespace`.
pub fn bind_whitespace_arguments(
    positional: Vec<Argument>,
    named: &Vec<InvocationNamedArg>,
    span: SourceSpan,
    session: &mut Session,
) -> (r: Option<Vec<Option<Argument>>>)
    ensures
        (match r {
            Some(slots) => Some(slots_view(slots@)),
            None => None,
        }, final(session)@) == bind_arguments(
            Style::Whitespace,
            "whitespace"@,
            whitespace_names(),
            "`.whitespace` accepts at most two positional arguments"@,
            arguments_view(positional@),
            host::invocation_named_args_view(named@),
            span,
            old(session)@,
        ),
        r matches Some(slots) ==> slots@.len() == 2,
        host::follows(old(session)@, final(session)@),
        r is None ==> host::halts(old(session)@, final(session)@),
{
    let names = name_list(vec!["width", "height"]);
    assert(text::strings_view(names@) =~= whitespace_names());
    bind(
        Style::Whitespace,
        "whitespace",
        &names,
        "`.whitespace` accepts at most two positional arguments".to_owned(),
        positional,
        named,
        span,
        session,
    )
}

/// Binds the arguments of `.container`.
pub fn bind_container_arguments(
    positional: Vec<Argument>,
    named: &Vec<InvocationNamedArg>,
    span: SourceSpan,
    session: &mut Session,
) -> (r: Option<Vec<Option<Argument>>>)
    ensures
        (match r {
            Some(slots) => Some(slots_view(slots@)),
            None => None,
        }, final(session)@) == bind_arguments(
            Style::Container,
            "container"@,
            container_names(),
            "`.container` accepts at most three positional arguments"@,
            arguments_view(positional@),
            host::invocation_named_args_view(named@),
            span,
            old(session)@,
        ),
        r matches Some(slots) ==> slots@.len() == 3,
        host::follows(old(session)@, final(session)@),
        r is None ==> host::halts(old(session)@, final(session)@),
{
    let names = name_list(vec!["width", "height", "fullwidth"]);
    assert(text::strings_view(names@) =~= container_names());
    bind(
        Style::Container,
        "container",
        &names,
        "`.container` accepts at most three positional arguments".to_owned(),
        positional,
        named,
        span,
        session,
    )
}

/// The argument of `.align`.
pub open spec fn bind_align(
    positional: Seq<ArgumentView>,
    named: Seq<InvocationNamedView>,
    span: SourceSpan,
    s: SessionView,
) -> (Option<ArgumentView>, SessionView) {
    match bind_arguments(
        Style::Align,
        "align"@,
        seq!["alignment"@],
        "`.align` accepts exactly one `alignment` argument"@,
        positional,
        named,
        span,
        s,
    ) {
        (None, t) => (None, t),
        (Some(slots), t) => match slots[0] {
            Some(argument) => (Some(argument), t),
            None => (
                None,
                t.fault(
                    Fault::AlignArgument,
                    "`.align` requires the `alignment` argument"@,
                    span,
                ),
            ),
        },
    }
}

/// Binds the argument of `.align`.
pub fn bind_align_argument(
    positional: Vec<Argument>,
    named: &Vec<InvocationNamedArg>,
    span: SourceSpan,
    session: &mut Session,
) -> (r: Option<Argument>)
    ensures
        (slot_view(r), final(session)@) == bind_align(
            arguments_view(positional@),
            host::invocation_named_args_view(named@),
            span,
            old(session)@,
        ),
        host::follows(old(session)@, final(session)@),
        r is None ==> host::halts(old(session)@, final(session)@),
{
    let names = name_list(vec!["alignment"]);
    assert(text::strings_view(names@) =~= seq!["alignment"@]);
    match bind(
        Style::Align,
        "align",
        &names,
        "`.align` accepts exactly one `alignment` argument".to_owned(),
        positional,
        named,
        span,
        session,
    ) {
        None => None,
        Some(mut slots) => {
            assert(slots_view(slots@)[0] == slot_view(slots@[0]));
            match slots.remove(0) {
                Some(argument) => Some(argument),
                None => {
                    session.fault(
                        Fault::AlignArgument,
                        "`.align` requires the `alignment` argument".to_owned(),
                        span,
                    );
                    None
                },
            }
        },
    }
}

/// The arguments of `.row`, `.column` and `.grid`, each in its place; a call of any other name
/// stays unresolved.
pub open spec fn stacked_parts(
    name: Seq<char>,
    positional: Seq<ArgumentView>,
    named: Seq<InvocationNamedView>,
    span: SourceSpan,
    s: SessionView,
) -> (Result<Seq<Option<ArgumentView>>, OutcomeView>, SessionView) {
    if !natives::owns(NativeDispatchOwner::StackedLayout, name) {
        (Err(OutcomeView::Unresolved), s)
    } else {
        match bind_arguments(
            Style::Stacked,
            name,
            stacked_names(name == "grid"@),
            "`."@ + name + "` parameter `positional`: too many positional arguments"@,
            positional,
            named,
            span,
            s,
        ) {
            (None, t) => (Err(OutcomeView::Failed), t),
            (Some(slots), t) => (Ok(slots), t),
        }
    }
}

/// Binds the arguments of `.row`, `.column` and `.grid`.
pub fn bind_stacked_arguments(
    name: &str,
    positional: Vec<Argument>,
    named: &Vec<InvocationNamedArg>,
    span: SourceSpan,
    session: &mut Session,
) -> (r: Result<Vec<Option<Argument>>, CallOutcome>)
    ensures
        (match r {
            Ok(slots) => Ok(slots_view(slots@)),
            Err(out) => Err(out@),
        }, final(session)@) == stacked_parts(
            name@,
            arguments_view(positional@),
            host::invocation_named_args_view(named@),
            span,
            old(session)@,
        ),
        r matches Ok(slots) ==> slots@.len() == stacked_names(name@ == "grid"@).len(),
        host::follows(old(session)@, final(session)@),
        r matches Err(out) && out is Failed ==> host::halts(old(session)@, final(session)@),
{
    if !is_stacked_layout(name) {
        return Err(CallOutcome::Unresolved);
    }
    let grid = same_text(name, "grid");
    let names = if grid {
        name_list(vec!["columns", "alignment", "cross", "gap", "vgap", "hgap"])
    } else {
        name_list(vec!["alignment", "cross", "gap"])
    };
    assert(text::strings_view(names@) =~= stacked_names(grid));
    match bind(
        Style::Stacked,
        name,
        &names,
        join3("`.", name, "` parameter `positional`: too many positional arguments"),
        positional,
        named,
        span,
        session,
    ) {
        Some(slots) => Ok(slots),
        None => Err(CallOutcome::Failed),
    }
}

/// The value that a parameter was given.
pub open spec fn given(slot: Option<ArgumentView>) -> Option<ValueView> {
    match slot {
        Some(argument) => Some(argument.value.value),
        None => None,
    }
}

/// The value that a parameter was given.
pub fn given_value(slot: &Option<Argument>) -> (r: Option<IrValue>)
    ensures
        (match r {
            Some(value) => Some(value@),
            None => None,
        }) == given(slot_view(*slot)),
{
    match slot {
        Some(argument) => Some(copy_value(&argument.value.value)),
        None => None,
    }
}

/// The parameters of a collection transform: the callback has a name where the transform is
/// known, else it can be given by its place alone.
pub open spec fn transform_names(name: Seq<char>) -> Seq<Seq<char>> {
    if natives::owns(NativeDispatchOwner::CollectionTransform, name) {
        seq!["from"@, "by"@]
    } else {
        seq!["from"@, "from"@]
    }
}

/// The iterable and the callback of a collection transform.
pub open spec fn transform_parts(
    name: Seq<char>,
    positional: Seq<ValueView>,
    named: Seq<NamedArgView>,
    has_body: bool,
    span: SourceSpan,
    s: SessionView,
) -> (Option<(ValueView, Option<ValueView>)>, SessionView) {
    match bind_arguments(
        Style::Transform,
        name,
        transform_names(name),
        "`."@ + name + "` accepts an iterable and at most one callback"@,
        static_arguments(positional, span),
        static_named(named),
        span,
        s,
    ) {
        (None, t) => (None, t),
        (Some(slots), t) => match given(slots[0]) {
            None => (
                None,
                t.fault(Fault::Iteration, "`."@ + name + "` requires an iterable argument"@, span),
            ),
            Some(collection) => if has_body && slots[1] is Some {
                (
                    None,
                    t.fault(
                        Fault::Iteration,
                        "`."@ + name + "` received both a callback argument and a block body"@,
                        span,
                    ),
                )
            } else {
                (Some((collection, given(slots[1]))), t)
            },
        },
    }
}

/// The iterable and the callback of a collection transform.
pub fn transform_operands(
    name: &str,
    positional: &Vec<IrValue>,
    named: &Vec<IrNamedArg>,
    has_body: bool,
    span: SourceSpan,
    session: &mut Session,
) -> (r: Option<(IrValue, Option<IrValue>)>)
    ensures
        (match r {
            Some((collection, Some(callback))) => Some((collection@, Some(callback@))),
            Some((collection, None)) => Some((collection@, None)),
            None => None,
        }, final(session)@) == transform_parts(
            name@,
            ir::values_view(positional@),
            ir::named_args_view(named@),
            has_body,
            span,
            old(session)@,
        ),
        host::follows(old(session)@, final(session)@),
        r is None ==> host::halts(old(session)@, final(session)@),
{
    let names = if is_collection_transform(name) {
        name_list(vec!["from", "by"])
    } else {
        name_list(vec!["from", "from"])
    };
    assert(text::strings_view(names@) =~= transform_names(name@));
    let slots = match bind(
        Style::Transform,
        name,
        &names,
        join3("`.", name, "` accepts an iterable and at most one callback"),
        raw_arguments(positional, span),
        &raw_named(named),
        span,
        session,
    ) {
        Some(slots) => slots,
        None => {
            return None;
        },
    };
    assert(slots_view(slots@)[0] == slot_view(slots@[0]));
    assert(slots_view(slots@)[1] == slot_view(slots@[1]));
    match given_value(&slots[0]) {
        None => {
            session.fault(
                Fault::Iteration,
                join3("`.", name, "` requires an iterable argument"),
                span,
            );
            None
        },
        Some(collection) => {
            if has_body && slots[1].is_some() {
                session.fault(
                    Fault::Iteration,
                    join3("`.", name, "` received both a callback argument and a block body"),
                    span,
                );
                None
            } else {
                Some((collection, given_value(&slots[1])))
            }
        },
    }
}

/// The name of the callback parameter of `.ifpresent` and `.takeif`.
pub open spec fn callback_name(name: Seq<char>) -> Seq<char> {
    if name == "ifpresent"@ {
        "mapping"@
    } else {
        "condition"@
    }
}

/// The value and the callback of `.ifpresent` and `.takeif`.
pub open spec fn optionality_parts(
    name: Seq<char>,
    positional: Seq<ValueView>,
    named: Seq<NamedArgView>,
    has_body: bool,
    span: SourceSpan,
    s: SessionView,
) -> (Option<(ValueView, Option<ValueView>)>, SessionView) {
    match bind_arguments(
        Style::Parameters,
        name,
        seq!["value"@, callback_name(name)],
        "`."@ + name + "` accepts a value and one callback"@,
        static_arguments(positional, span),
        static_named(named),
        span,
        s,
    ) {
        (None, t) => (None, t),
        (Some(slots), t) => match given(slots[0]) {
            None => (
                None,
                t.fault(Fault::Function, "`."@ + name + "` requires a value argument"@, span),
            ),
            Some(value) => if has_body && slots[1] is Some {
                (
                    None,
                    t.fault(
                        Fault::Function,
                        "`."@ + name + "` received both a callback argument and a block body"@,
                        span,
                    ),
                )
            } else if !has_body && slots[1] is None {
                (
                    None,
                    t.fault(Fault::Function, "`."@ + name + "` requires a callback lambda"@, span),
                )
            } else {
                (Some((value, given(slots[1]))), t)
            },
        },
    }
}

/// The value and the callback of `.ifpresent` and `.takeif`.
pub fn optionality_operands(
    name: &str,
    positional: &Vec<IrValue>,
    named: &Vec<IrNamedArg>,
    has_body: bool,
    span: SourceSpan,
    session: &mut Session,
) -> (r: Option<(IrValue, Option<IrValue>)>)
    ensures
        (match r {
            Some((value, Some(callback))) => Some((value@, Some(callback@))),
            Some((value, None)) => Some((value@, None)),
            None => None,
        }, final(session)@) == optionality_parts(
            name@,
            ir::values_view(positional@),
            ir::named_args_view(named@),
            has_body,
            span,
            old(session)@,
        ),
        host::follows(old(session)@, final(session)@),
        r is None ==> host::halts(old(session)@, final(session)@),
{
    let names = if same_text(name, "ifpresent") {
        name_list(vec!["value", "mapping"])
    } else {
        name_list(vec!["value", "condition"])
    };
    assert(text::strings_view(names@) =~= seq!["value"@, callback_name(name@)]);
    let slots = match bind(
        Style::Parameters,
        name,
        &names,
        join3("`.", name, "` accepts a value and one callback"),
        raw_arguments(positional, span),
        &raw_named(named),
        span,
        session,
    ) {
        Some(slots) => slots,
        None => {
            return None;
        },
    };
    assert(slots_view(slots@)[0] == slot_view(slots@[0]));
    assert(slots_view(slots@)[1] == slot_view(slots@[1]));
    match given_value(&slots[0]) {
        None => {
            session.fault(Fault::Function, join3("`.", name, "` requires a value argument"), span);
            None
        },
        Some(value) => {
            if has_body && slots[1].is_some() {
                session.fault(
                    Fault::Function,
                    join3("`.", name, "` received both a callback argument and a block body"),
                    span,
                );
                None
            } else if !has_body && slots[1].is_none() {
                session.fault(
                    Fault::Function,
                    join3("`.", name, "` requires a callback lambda"),
                    span,
                );
                None
            } else {
                Some((value, given_value(&slots[1])))
            }
        },
    }
}

/// The bounds of `.range`.
pub open spec fn range_parts(
    positional: Seq<ValueView>,
    named: Seq<NamedArgView>,
    span: SourceSpan,
    s: SessionView,
) -> (Option<(Option<ValueView>, Option<ValueView>)>, SessionView) {
    match bind_arguments(
        Style::Range,
        "range"@,
        seq!["from"@, "to"@],
        "`.range` accepts at most two positional bounds (received "@ + text::decimal_text(
            positional.len(),
        ) + ")"@,
        static_arguments(positional, span),
        static_named(named),
        span,
        s,
    ) {
        (None, t) => (None, t),
        (Some(slots), t) => (Some((given(slots[0]), given(slots[1]))), t),
    }
}

/// The bounds of `.range`.
pub fn range_arguments(
    positional: &Vec<IrValue>,
    named: &Vec<IrNamedArg>,
    span: SourceSpan,
    session: &mut Session,
) -> (r: Option<(Option<IrValue>, Option<IrValue>)>)
    ensures
        (match r {
            Some((from, to)) => Some(
                (
                    match from {
                        Some(v) => Some(v@),
                        None => None,
                    },
                    match to {
                        Some(v) => Some(v@),
                        None => None,
                    },
                ),
            ),
            None => None,
        }, final(session)@) == range_parts(
            ir::values_view(positional@),
            ir::named_args_view(named@),
            span,
            old(session)@,
        ),
        host::follows(old(session)@, final(session)@),
        r is None ==> host::halts(old(session)@, final(session)@),
{
    let names = name_list(vec!["from", "to"]);
    assert(text::strings_view(names@) =~= seq!["from"@, "to"@]);
    match bind(
        Style::Range,
        "range",
        &names,
        join3(
            "`.range` accepts at most two positional bounds (received ",
            decimal(positional.len() as u64).as_str(),
            ")",
        ),
        raw_arguments(positional, span),
        &raw_named(named),
        span,
        session,
    ) {
        Some(slots) => {
            assert(slots_view(slots@)[0] == slot_view(slots@[0]));
            assert(slots_view(slots@)[1] == slot_view(slots@[1]));
            Some((given_value(&slots[0]), given_value(&slots[1])))
        },
        None => None,
    }
}

/// Evaluated values without a place of their own.
pub open spec fn placed(values: Seq<InvocationValueView>, span: SourceSpan) -> Seq<ArgumentView> {
    values.map_values(|value: InvocationValueView| ArgumentView { value, span })
}

/// The iterable, the index and the fallback of `.getat`.
pub open spec fn getat_parts(
    positional: Seq<InvocationValueView>,
    named: Seq<InvocationNamedView>,
    span: SourceSpan,
    s: SessionView,
) -> (Option<(InvocationValueView, ValueView, ValueView)>, SessionView) {
    if positional.len() > 2 {
        (
            None,
            s.fault(
                Fault::Iteration,
                "`.getat` accepts an iterable and an index (received "@ + text::decimal_text(
                    positional.len(),
                ) + " positional arguments)"@,
                span,
            ),
        )
    } else {
        match bind_arguments(
            Style::GetAt,
            "getat"@,
            seq!["from"@, "index"@, "orelse"@],
            ""@,
            placed(positional, span),
            named,
            span,
            s,
        ) {
            (None, t) => (None, t),
            (Some(slots), t) => match slots[0] {
                None => (
                    None,
                    t.fault(Fault::Iteration, "`.getat` requires an iterable argument"@, span),
                ),
                Some(collection) => match slots[1] {
                    None => (
                        None,
                        t.fault(Fault::Iteration, "`.getat` requires an integer index"@, span),
                    ),
                    Some(index) => (
                        Some(
                            (
                                collection.value,
                                index.value.value,
                                match given(slots[2]) {
                                    Some(fallback) => fallback,
                                    None => ValueView::Nothing,
                                },
                            ),
                        ),
                        t,
                    ),
                },
            },
        }
    }
}

/// The iterable, the index and the fallback of `.getat`.
pub fn getat_operands(
    positional: &Vec<InvocationValue>,
    named: &Vec<InvocationNamedArg>,
    span: SourceSpan,
    session: &mut Session,
) -> (r: Option<(InvocationValue, IrValue, IrValue)>)
    ensures
        (match r {
            Some((collection, index, fallback)) => Some((collection@, index@, fallback@)),
            None => None,
        }, final(session)@) == getat_parts(
            host::invocation_values_view(positional@),
            host::invocation_named_args_view(named@),
            span,
            old(session)@,
        ),
        host::follows(old(session)@, final(session)@),
        r is None ==> host::halts(old(session)@, final(session)@),
{
    if positional.len() > 2 {
        session.fault(
            Fault::Iteration,
            join3(
                "`.getat` accepts an iterable and an index (received ",
                decimal(positional.len() as u64).as_str(),
                " positional arguments)",
            ),
            span,
        );
        return None;
    }
    let mut arguments: Vec<Argument> = Vec::new();
    let mut i: usize = 0;
    while i < positional.len()
        invariant
            host::follows(old(session)@, session@),
            0 <= i <= positional@.len(),
            arguments@.len() == i,
            forall|j: int|
                0 <= j < i ==> (#[trigger] arguments@[j])@ == (ArgumentView {
                    value: positional@[j]@,
                    span,
                }),
        decreases positional@.len() - i,
    {
        arguments.push(Argument { value: copy_invocation_value(&positional[i]), span });
        i += 1;
    }
    assert(arguments_view(arguments@) =~= placed(host::invocation_values_view(positional@), span));
    let names = name_list(vec!["from", "index", "orelse"]);
    assert(text::strings_view(names@) =~= seq!["from"@, "index"@, "orelse"@]);
    let mut slots = match bind(
        Style::GetAt,
        "getat",
        &names,
        "".to_owned(),
        arguments,
        named,
        span,
        session,
    ) {
        Some(slots) => slots,
        None => {
            return None;
        },
    };
    assert(slots_view(slots@)[0] == slot_view(slots@[0]));
    assert(slots_view(slots@)[1] == slot_view(slots@[1]));
    assert(slots_view(slots@)[2] == slot_view(slots@[2]));
    let fallback = match given_value(&slots[2]) {
        Some(fallback) => fallback,
        None => IrValue::Nothing,
    };
    let index = given_value(&slots[1]);
    match slots.remove(0) {
        None => {
            session.fault(
                Fault::Iteration,
                "`.getat` requires an iterable argument".to_owned(),
                span,
            );
            None
        },
        Some(collection) => match index {
            None => {
                session.fault(
                    Fault::Iteration,
                    "`.getat` requires an integer index".to_owned(),
                    span,
                );
                None
            },
            Some(index) => Some((collection.value, index, fallback)),
        },
    }
}

} // verus!
