//! Laws of conversions, of callables that are applied, and of parameters by name.

use vstd::prelude::*;

use crate::binding;
use crate::calls;
use crate::calls::BoundView;
use crate::host::{
    ClosedEnumTarget, ConversionError, DomainTarget, DomainValue, InvocationNamedView,
    InvocationValueView, QueryView, ReplyView, ScalarTarget, ScalarValueView, SessionView,
    ValueOrigin,
};
use crate::ir::{
    IrContainerAlignment, IrCrossAxisAlignment, IrEnumValue, IrMainAxisAlignment, IrSize,
    NamedArgView, ParameterView, SourceSpan, ValueView,
};
use crate::laws_host;
use crate::laws_leaves;

verus! {

/// A callable takes its arguments in order; parameters that are left over are nothing where all of
/// them may be left out, and else the first that may not is reported at its name. More arguments
/// than parameters are reported at the call.
pub proof fn lemma_callable_arguments(
    list: Seq<ParameterView>,
    arguments: Seq<ValueView>,
    span: SourceSpan,
    s: SessionView,
)
    ensures
        calls::bind_invocation(None, arguments, false, span, s) == (
            Some(BoundView::Implicit(arguments)),
            s,
        ),
        calls::bind_invocation(None, arguments, true, span, s) == (
            Some(BoundView::Implicit(arguments)),
            s,
        ),
        ({
            let r = calls::bind_invocation(Some(list), arguments, false, span, s);
            let open = forall|i: int|
                arguments.len() <= i < list.len() ==> (#[trigger] list[i]).optional;
            &&& arguments.len() > list.len() ==> r.0 is None && laws_leaves::reported(
                s,
                r.1,
                "E3003"@,
                span,
            )
            &&& arguments.len() <= list.len() && open ==> {
                &&& r.1 == s
                &&& r.0 is Some && r.0->0 is Explicit
                &&& r.0->0->Explicit_0.len() == list.len()
                &&& forall|i: int|
                    0 <= i < arguments.len() ==> #[trigger] r.0->0->Explicit_0[i] == arguments[i]
                &&& forall|i: int|
                    arguments.len() <= i < list.len() ==> #[trigger] r.0->0->Explicit_0[i]
                        == ValueView::Nothing
            }
            &&& arguments.len() <= list.len() && !open ==> {
                &&& r.0 is None
                &&& exists|i: int|
                    arguments.len() <= i < list.len() && !(#[trigger] list[i]).optional
                        && laws_leaves::reported(s, r.1, "E3003"@, list[i].name_span)
            }
        }),
{
    let r = calls::bind_invocation(Some(list), arguments, false, span, s);
    if arguments.len() > list.len() {
        assert(r.1.diagnostics.take(s.diagnostics.len() as int) =~= s.diagnostics);
    } else {
        lemma_missing_filled(list, arguments, s);
    }
}

proof fn lemma_missing_filled(list: Seq<ParameterView>, values: Seq<ValueView>, s: SessionView)
    requires
        values.len() <= list.len(),
    ensures
        ({
            let r = calls::fill_missing(list, values, s);
            let open = forall|i: int|
                values.len() <= i < list.len() ==> (#[trigger] list[i]).optional;
            if open {
                &&& r.1 == s
                &&& r.0 is Some && r.0->0.len() == list.len()
                &&& forall|i: int| 0 <= i < values.len() ==> #[trigger] r.0->0[i] == values[i]
                &&& forall|i: int|
                    values.len() <= i < list.len() ==> #[trigger] r.0->0[i] == ValueView::Nothing
            } else {
                &&& r.0 is None
                &&& exists|i: int|
                    values.len() <= i < list.len() && !(#[trigger] list[i]).optional
                        && laws_leaves::reported(s, r.1, "E3003"@, list[i].name_span)
            }
        }),
    decreases list.len() - values.len(),
{
    if values.len() < list.len() {
        let n = values.len() as int;
        let r = calls::fill_missing(list, values, s);
        if list[n].optional {
            lemma_missing_filled(list, values.push(ValueView::Nothing), s);
            let open = forall|i: int|
                values.len() <= i < list.len() ==> (#[trigger] list[i]).optional;
            if open {
                assert forall|i: int| 0 <= i < values.len() implies #[trigger] r.0->0[i]
                    == values[i] by {
                    assert(r.0->0[i] == values.push(ValueView::Nothing)[i]);
                }
                assert(r.0->0[n] == values.push(ValueView::Nothing)[n]);
            } else {
                let j = choose|j: int| n <= j < list.len() && !(#[trigger] list[j]).optional;
                assert(j >= n + 1);
            }
        } else {
            assert(r.1.diagnostics.take(s.diagnostics.len() as int) =~= s.diagnostics);
        }
    }
}

/// What is a pair can be taken apart by two parameters, and nothing else can: that is reported.
pub proof fn lemma_taken_apart(
    list: Seq<ParameterView>,
    value: ValueView,
    span: SourceSpan,
    s: SessionView,
)
    requires
        list.len() == 2,
    ensures
        value matches ValueView::Pair(pair) ==> calls::bind_invocation(
            Some(list),
            seq![value],
            true,
            span,
            s,
        ) == (Some(BoundView::Explicit(seq![*pair.first, *pair.second])), s),
        !(value is Pair) ==> {
            let r = calls::bind_invocation(Some(list), seq![value], true, span, s);
            &&& r.0 is None
            &&& r.1.diagnostics.len() == s.diagnostics.len() + 1
            &&& r.1.diagnostics.last().code == "E3001"@
        },
{
}

/// A size that is left out or nothing is no size, and any other is what the host converts it to.
pub proof fn lemma_size_converted(argument: InvocationValueView, size: IrSize, s: SessionView)
    requires
        s.pending is None,
    ensures
        argument.value is Nothing ==> calls::optional_size(argument, s) == (
            Some(Ok::<Option<IrSize>, ConversionError>(None)),
            s,
        ),
        !(argument.value is Nothing) && s.used >= s.replies.len() ==> calls::optional_size(
            argument,
            s,
        ).1.pending == Some(QueryView::Domain { argument, target: DomainTarget::Size }),
        !(argument.value is Nothing) && s.used < s.replies.len() && s.replies[s.used as int]
            == ReplyView::Domain(Ok(DomainValue::Size(size))) ==> calls::optional_size(argument, s)
            == (
            Some(Ok::<Option<IrSize>, ConversionError>(Some(size))),
            laws_host::answered(s),
        ),
{
}

/// An alignment is what the host converts an argument to, in the set of words of its kind.
pub proof fn lemma_alignments_converted(
    argument: InvocationValueView,
    main: IrMainAxisAlignment,
    cross: IrCrossAxisAlignment,
    container: IrContainerAlignment,
    s: SessionView,
)
    requires
        s.pending is None,
    ensures
        s.used >= s.replies.len() ==> {
            &&& calls::main_axis(argument, s).1.pending == Some(
                QueryView::Domain {
                    argument,
                    target: DomainTarget::ClosedEnum(ClosedEnumTarget::StackedMainAxisAlignment),
                },
            )
            &&& calls::cross_axis(argument, s).1.pending == Some(
                QueryView::Domain {
                    argument,
                    target: DomainTarget::ClosedEnum(ClosedEnumTarget::StackedCrossAxisAlignment),
                },
            )
            &&& calls::container_alignment(argument, s).1.pending == Some(
                QueryView::Domain {
                    argument,
                    target: DomainTarget::ClosedEnum(ClosedEnumTarget::ContainerAlignment),
                },
            )
        },
        laws_host::has_reply(s) && s.replies[s.used as int] == ReplyView::Domain(
            Ok(DomainValue::Enum(IrEnumValue::StackedMainAxisAlignment(main))),
        ) ==> {
            &&& calls::main_axis(argument, s) == (
                Some(Ok::<IrMainAxisAlignment, ConversionError>(main)),
                laws_host::answered(s),
            )
            &&& calls::cross_axis(argument, s).0 == Some(
                Err::<IrCrossAxisAlignment, ConversionError>(ConversionError::UnsupportedValue),
            )
        },
        laws_host::has_reply(s) && s.replies[s.used as int] == ReplyView::Domain(
            Ok(DomainValue::Enum(IrEnumValue::StackedCrossAxisAlignment(cross))),
        ) ==> calls::cross_axis(argument, s) == (
            Some(Ok::<IrCrossAxisAlignment, ConversionError>(cross)),
            laws_host::answered(s),
        ),
        laws_host::has_reply(s) && s.replies[s.used as int] == ReplyView::Domain(
            Ok(DomainValue::Enum(IrEnumValue::ContainerAlignment(container))),
        ) ==> calls::container_alignment(argument, s) == (
            Some(Ok::<IrContainerAlignment, ConversionError>(container)),
            laws_host::answered(s),
        ),
{
}

/// A condition and a switch are what the host converts an argument to as a boolean.
pub proof fn lemma_booleans_converted(
    argument: InvocationValueView,
    truth: bool,
    error: ConversionError,
    s: SessionView,
)
    requires
        s.pending is None,
    ensures
        s.used >= s.replies.len() ==> calls::boolean_argument(argument, s).1.pending == Some(
            QueryView::Scalar { argument, target: ScalarTarget::Boolean },
        ),
        laws_host::has_reply(s) && s.replies[s.used as int] == ReplyView::Scalar(
            Ok(ScalarValueView::Boolean(truth)),
        ) ==> {
            &&& calls::boolean_argument(argument, s) == (
                Some(Ok::<bool, ConversionError>(truth)),
                laws_host::answered(s),
            )
            &&& calls::condition_value(argument, s) == (Some(Some(truth)), laws_host::answered(s))
        },
        laws_host::has_reply(s) && s.replies[s.used as int] == ReplyView::Scalar(Err(error)) ==> {
            &&& calls::boolean_argument(argument, s) == (
                Some(Err::<bool, ConversionError>(error)),
                laws_host::answered(s),
            )
            &&& calls::condition_value(argument, s) == (
                Some(None::<bool>),
                laws_host::answered(s),
            )
        },
{
}

/// The layout calls have their parameters in a fixed order.
pub proof fn lemma_parameter_order()
    ensures
        binding::whitespace_names() == seq!["width"@, "height"@],
        binding::container_names() == seq!["width"@, "height"@, "fullwidth"@],
        binding::stacked_names(false) == seq!["alignment"@, "cross"@, "gap"@],
        binding::stacked_names(true) == seq![
            "columns"@,
            "alignment"@,
            "cross"@,
            "gap"@,
            "vgap"@,
            "hgap"@,
        ],
        binding::callback_name("ifpresent"@) == "mapping"@,
        binding::callback_name("takeif"@) == "condition"@,
{
    reveal_strlit("ifpresent");
    reveal_strlit("takeif");
    assert("ifpresent"@.len() != "takeif"@.len());
}

/// An operation that reads a collection takes it as its one positional argument, or as the named
/// argument that it knows; a named argument that it does not know, or the collection twice, or no
/// collection at all is reported.
pub proof fn lemma_operand_given(
    name: Seq<char>,
    parameter: Seq<char>,
    value: InvocationValueView,
    arg: InvocationNamedView,
    span: SourceSpan,
    s: SessionView,
)
    ensures
        calls::access_operand(name, parameter, seq![value], Seq::empty(), span, s) == (
            Some(value),
            s,
        ),
        arg.arg.name == parameter ==> calls::access_operand(
            name,
            parameter,
            Seq::empty(),
            seq![arg],
            span,
            s,
        ) == (Some(InvocationValueView { value: arg.arg.value, origin: arg.origin }), s),
        arg.arg.name != parameter ==> {
            let r = calls::access_operand(name, parameter, Seq::empty(), seq![arg], span, s);
            r.0 is None && laws_leaves::reported(s, r.1, "E3001"@, arg.arg.name_span)
        },
        arg.arg.name == parameter ==> {
            let r = calls::access_operand(name, parameter, seq![value], seq![arg], span, s);
            r.0 is None && laws_leaves::reported(s, r.1, "E3001"@, arg.arg.name_span)
        },
        ({
            let r = calls::access_operand(name, parameter, Seq::empty(), Seq::empty(), span, s);
            r.0 is None && laws_leaves::reported(s, r.1, "E3001"@, span)
        }),
        ({
            let r = calls::access_operand(
                name,
                parameter,
                seq![value, value],
                Seq::empty(),
                span,
                s,
            );
            r.0 is None && laws_leaves::reported(s, r.1, "E3001"@, span)
        }),
{
    let n = s.diagnostics.len() as int;
    let one = seq![arg];
    if arg.arg.name != parameter {
        assert(calls::is_stranger(one, parameter, 0));
        let i = choose|i: int| calls::is_stranger(one, parameter, i);
        assert(calls::is_stranger(one, parameter, i));
        assert(i == 0);
        let r = calls::access_operand(name, parameter, Seq::empty(), one, span, s);
        assert(r.1.diagnostics.take(n) =~= s.diagnostics);
    } else {
        assert(!(exists|i: int| calls::is_stranger(one, parameter, i)));
        let r = calls::access_operand(name, parameter, seq![value], one, span, s);
        assert(r.1.diagnostics.take(n) =~= s.diagnostics);
    }
    let none = Seq::<InvocationNamedView>::empty();
    assert(!(exists|i: int| calls::is_stranger(none, parameter, i)));
    let missing = calls::access_operand(name, parameter, Seq::empty(), none, span, s);
    assert(missing.1.diagnostics.take(n) =~= s.diagnostics);
    let two = calls::access_operand(name, parameter, seq![value, value], none, span, s);
    assert(two.1.diagnostics.take(n) =~= s.diagnostics);
}

/// `.getat` takes a collection and an index, and the value that stands in where there is no such
/// element; without that it is nothing.
pub proof fn lemma_getat_arguments(
    from: InvocationValueView,
    index: InvocationValueView,
    at: SourceSpan,
    fallback: ValueView,
    span: SourceSpan,
    s: SessionView,
)
    ensures
        binding::getat_parts(seq![from, index], Seq::empty(), span, s) == (
            Some((from, index.value, ValueView::Nothing)),
            s,
        ),
        binding::getat_parts(
            seq![from, index],
            seq![
                InvocationNamedView {
                    arg: NamedArgView {
                        name: "orelse"@,
                        name_span: at,
                        value: fallback,
                        span: at,
                    },
                    origin: ValueOrigin::Static,
                },
            ],
            span,
            s,
        ) == (Some((from, index.value, fallback)), s),
{
    let names = seq!["from"@, "index"@, "orelse"@];
    let placed = binding::placed(seq![from, index], span);
    let style = binding::Style::GetAt;
    crate::laws_binding::lemma_positional_bound(style, "getat"@, names, ""@, placed, span, s);
    let arg = InvocationNamedView {
        arg: NamedArgView { name: "orelse"@, name_span: at, value: fallback, span: at },
        origin: ValueOrigin::Static,
    };
    reveal_strlit("from");
    reveal_strlit("index");
    reveal_strlit("orelse");
    assert("from"@.len() == 4 && "index"@.len() == 5 && "orelse"@.len() == 6);
    assert(seq![arg] =~= Seq::empty().push(arg));
    crate::laws_binding::lemma_named_bound(
        style,
        "getat"@,
        names,
        ""@,
        placed,
        Seq::empty(),
        arg,
        2,
        span,
        s,
    );
}

} // verus!
