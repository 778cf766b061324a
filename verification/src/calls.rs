//! What calls make of their arguments: conversions, operands and lambda bindings.

use vstd::prelude::*;

use crate::diagnostic::Fault;
use crate::host;
use crate::host::{
    copy_invocation_value, ClosedEnumTarget, ConversionError, DomainTarget, DomainValue,
    InvocationNamedArg, InvocationNamedView, InvocationValue, InvocationValueView, Query, QueryView,
    ScalarTarget, ScalarValue, ScalarValueView, Session, SessionView,
};
use crate::ir;
use crate::ir::{
    IrContainerAlignment, IrCrossAxisAlignment, IrEnumValue, IrMainAxisAlignment, IrNamedArg,
    IrParameter, IrSize, IrValue, NamedArgView, ParameterView, SourceSpan, ValueView,
};
use crate::ir_copy::copy_value;
use crate::materialize;
use crate::materialize::value_source_span;
use crate::number;
use crate::number::Number;
use crate::scope::ImplicitParameterError;
use crate::text;
use crate::text::{decimal, join3, join4, join5, lowered, same_text};

verus! {

broadcast use {
    ir::group_ir_views,
    host::group_host_views,
    host::group_follows,
    host::group_halts,
};

/// A converted value; nothing where the host has not answered yet.
pub open spec fn convert_domain(
    argument: InvocationValueView,
    target: DomainTarget,
    s: SessionView,
) -> (
    Option<Result<DomainValue, ConversionError>>,
    SessionView,
) {
    s.ask_domain(QueryView::Domain { argument, target })
}

/// An argument as a size, where it is one; the value that stands for nothing is no size.
pub open spec fn optional_size(argument: InvocationValueView, s: SessionView) -> (
    Option<Result<Option<IrSize>, ConversionError>>,
    SessionView,
) {
    if argument.value is Nothing {
        (Some(Ok(None)), s)
    } else {
        match convert_domain(argument, DomainTarget::Size, s) {
            (None, t) => (None, t),
            (Some(Ok(DomainValue::Size(size))), t) => (Some(Ok(Some(size))), t),
            (Some(Ok(_)), t) => (Some(Err(ConversionError::UnsupportedValue)), t),
            (Some(Err(error)), t) => (Some(Err(error)), t),
        }
    }
}

/// An argument as a size, where it is one.
pub fn convert_optional_size(argument: &InvocationValue, session: &mut Session) -> (r: Option<
    Result<Option<IrSize>, ConversionError>,
>)
    ensures
        (r, final(session)@) == optional_size(argument@, old(session)@),
        host::follows(old(session)@, final(session)@),
        r is None ==> host::halts(old(session)@, final(session)@),
{
    if let IrValue::Nothing = &argument.value {
        return Some(Ok(None));
    }
    match session.ask_domain(
        Query::Domain { argument: copy_invocation_value(argument), target: DomainTarget::Size },
    ) {
        None => None,
        Some(Ok(DomainValue::Size(size))) => Some(Ok(Some(size))),
        Some(Ok(_)) => Some(Err(ConversionError::UnsupportedValue)),
        Some(Err(error)) => Some(Err(error)),
    }
}

/// An argument as a value of a closed enumeration.
pub open spec fn closed_enum(
    argument: InvocationValueView,
    target: ClosedEnumTarget,
    s: SessionView,
) -> (
    Option<Result<IrEnumValue, ConversionError>>,
    SessionView,
) {
    match convert_domain(argument, DomainTarget::ClosedEnum(target), s) {
        (None, t) => (None, t),
        (Some(Ok(DomainValue::Enum(value))), t) => (Some(Ok(value)), t),
        (Some(Ok(_)), t) => (Some(Err(ConversionError::UnsupportedValue)), t),
        (Some(Err(error)), t) => (Some(Err(error)), t),
    }
}

/// An argument as a value of a closed enumeration.
pub fn convert_closed_enum(
    argument: &InvocationValue,
    target: ClosedEnumTarget,
    session: &mut Session,
) -> (r: Option<Result<IrEnumValue, ConversionError>>)
    ensures
        (r, final(session)@) == closed_enum(argument@, target, old(session)@),
        host::follows(old(session)@, final(session)@),
        r is None ==> host::halts(old(session)@, final(session)@),
{
    match session.ask_domain(
        Query::Domain {
            argument: copy_invocation_value(argument),
            target: DomainTarget::ClosedEnum(target),
        },
    ) {
        None => None,
        Some(Ok(DomainValue::Enum(value))) => Some(Ok(value)),
        Some(Ok(_)) => Some(Err(ConversionError::UnsupportedValue)),
        Some(Err(error)) => Some(Err(error)),
    }
}

/// An argument as a main axis alignment.
pub open spec fn main_axis(argument: InvocationValueView, s: SessionView) -> (
    Option<Result<IrMainAxisAlignment, ConversionError>>,
    SessionView,
) {
    match closed_enum(argument, ClosedEnumTarget::StackedMainAxisAlignment, s) {
        (None, t) => (None, t),
        (Some(Ok(IrEnumValue::StackedMainAxisAlignment(value))), t) => (Some(Ok(value)), t),
        (Some(Ok(_)), t) => (Some(Err(ConversionError::UnsupportedValue)), t),
        (Some(Err(error)), t) => (Some(Err(error)), t),
    }
}

/// An argument as a main axis alignment.
pub fn convert_stacked_main_axis(argument: &InvocationValue, session: &mut Session) -> (r: Option<
    Result<IrMainAxisAlignment, ConversionError>,
>)
    ensures
        (r, final(session)@) == main_axis(argument@, old(session)@),
        host::follows(old(session)@, final(session)@),
        r is None ==> host::halts(old(session)@, final(session)@),
{
    match convert_closed_enum(argument, ClosedEnumTarget::StackedMainAxisAlignment, session) {
        None => None,
        Some(Ok(IrEnumValue::StackedMainAxisAlignment(value))) => Some(Ok(value)),
        Some(Ok(_)) => Some(Err(ConversionError::UnsupportedValue)),
        Some(Err(error)) => Some(Err(error)),
    }
}

/// An argument as a cross axis alignment.
pub open spec fn cross_axis(argument: InvocationValueView, s: SessionView) -> (
    Option<Result<IrCrossAxisAlignment, ConversionError>>,
    SessionView,
) {
    match closed_enum(argument, ClosedEnumTarget::StackedCrossAxisAlignment, s) {
        (None, t) => (None, t),
        (Some(Ok(IrEnumValue::StackedCrossAxisAlignment(value))), t) => (Some(Ok(value)), t),
        (Some(Ok(_)), t) => (Some(Err(ConversionError::UnsupportedValue)), t),
        (Some(Err(error)), t) => (Some(Err(error)), t),
    }
}

/// An argument as a cross axis alignment.
pub fn convert_stacked_cross_axis(argument: &InvocationValue, session: &mut Session) -> (r: Option<
    Result<IrCrossAxisAlignment, ConversionError>,
>)
    ensures
        (r, final(session)@) == cross_axis(argument@, old(session)@),
        host::follows(old(session)@, final(session)@),
        r is None ==> host::halts(old(session)@, final(session)@),
{
    match convert_closed_enum(argument, ClosedEnumTarget::StackedCrossAxisAlignment, session) {
        None => None,
        Some(Ok(IrEnumValue::StackedCrossAxisAlignment(value))) => Some(Ok(value)),
        Some(Ok(_)) => Some(Err(ConversionError::UnsupportedValue)),
        Some(Err(error)) => Some(Err(error)),
    }
}

/// An argument as a container alignment.
pub open spec fn container_alignment(argument: InvocationValueView, s: SessionView) -> (
    Option<Result<IrContainerAlignment, ConversionError>>,
    SessionView,
) {
    match closed_enum(argument, ClosedEnumTarget::ContainerAlignment, s) {
        (None, t) => (None, t),
        (Some(Ok(IrEnumValue::ContainerAlignment(value))), t) => (Some(Ok(value)), t),
        (Some(Ok(_)), t) => (Some(Err(ConversionError::UnsupportedValue)), t),
        (Some(Err(error)), t) => (Some(Err(error)), t),
    }
}

/// An argument as a container alignment.
pub fn convert_align_alignment(argument: &InvocationValue, session: &mut Session) -> (r: Option<
    Result<IrContainerAlignment, ConversionError>,
>)
    ensures
        (r, final(session)@) == container_alignment(argument@, old(session)@),
        host::follows(old(session)@, final(session)@),
        r is None ==> host::halts(old(session)@, final(session)@),
{
    match convert_closed_enum(argument, ClosedEnumTarget::ContainerAlignment, session) {
        None => None,
        Some(Ok(IrEnumValue::ContainerAlignment(value))) => Some(Ok(value)),
        Some(Ok(_)) => Some(Err(ConversionError::UnsupportedValue)),
        Some(Err(error)) => Some(Err(error)),
    }
}

/// An argument as a truth value.
pub open spec fn boolean_argument(argument: InvocationValueView, s: SessionView) -> (
    Option<Result<bool, ConversionError>>,
    SessionView,
) {
    match s.ask_scalar(QueryView::Scalar { argument, target: ScalarTarget::Boolean }) {
        (None, t) => (None, t),
        (Some(Ok(ScalarValueView::Boolean(value))), t) => (Some(Ok(value)), t),
        (Some(Ok(_)), t) => (Some(Err(ConversionError::UnsupportedValue)), t),
        (Some(Err(error)), t) => (Some(Err(error)), t),
    }
}

/// An argument as a truth value.
pub fn convert_container_boolean(argument: &InvocationValue, session: &mut Session) -> (r: Option<
    Result<bool, ConversionError>,
>)
    ensures
        (r, final(session)@) == boolean_argument(argument@, old(session)@),
        host::follows(old(session)@, final(session)@),
        r is None ==> host::halts(old(session)@, final(session)@),
{
    match session.ask_scalar(
        Query::Scalar { argument: copy_invocation_value(argument), target: ScalarTarget::Boolean },
    ) {
        None => None,
        Some(Ok(ScalarValue::Boolean(value))) => Some(Ok(value)),
        Some(Ok(_)) => Some(Err(ConversionError::UnsupportedValue)),
        Some(Err(error)) => Some(Err(error)),
    }
}

/// The truth value that a value means by itself: a truth value, or an identifier that writes one
/// in upper or lower case.
pub open spec fn boolean_meaning(value: ValueView) -> Option<bool> {
    match value {
        ValueView::Boolean(b) => Some(b),
        ValueView::Identifier(name) => if text::lower(name) == "true"@ || text::lower(name)
            == "yes"@ {
            Some(true)
        } else if text::lower(name) == "false"@ || text::lower(name) == "no"@ {
            Some(false)
        } else {
            None
        },
        _ => None,
    }
}

/// The truth value that a value means by itself: `true` and `yes`, `false` and `no`.
pub fn scalar_boolean_value(value: &IrValue) -> (r: Option<bool>)
    ensures
        r == boolean_meaning(value@),
{
    match value {
        IrValue::Boolean(b) => Some(*b),
        IrValue::Identifier(name) => {
            let low = lowered(name.as_str());
            if same_text(low.as_str(), "true") || same_text(low.as_str(), "yes") {
                Some(true)
            } else if same_text(low.as_str(), "false") || same_text(low.as_str(), "no") {
                Some(false)
            } else {
                None
            }
        },
        _ => None,
    }
}

/// A condition as a truth value, where it is one.
pub open spec fn condition_value(argument: InvocationValueView, s: SessionView) -> (
    Option<Option<bool>>,
    SessionView,
) {
    match boolean_argument(argument, s) {
        (None, t) => (None, t),
        (Some(Ok(value)), t) => (Some(Some(value)), t),
        (Some(Err(_)), t) => (Some(None), t),
    }
}

/// A condition as a truth value, where it is one.
pub fn resolve_boolean_value(argument: &InvocationValue, session: &mut Session) -> (r: Option<
    Option<bool>,
>)
    ensures
        (r, final(session)@) == condition_value(argument@, old(session)@),
        host::follows(old(session)@, final(session)@),
        r is None ==> host::halts(old(session)@, final(session)@),
{
    match convert_container_boolean(argument, session) {
        None => None,
        Some(Ok(value)) => Some(Some(value)),
        Some(Err(_)) => Some(None),
    }
}

/// The bound of a range that a number stands for: NaN is zero, fractions are cut off, and
/// what is too large is the largest bound.
pub open spec fn endpoint_of(n: Number) -> int {
    if number::is_nan(n) {
        0
    } else if !number::is_finite(n) || number::truncated(n) > i32::MAX || number::truncated(n)
        < i32::MIN {
        if number::is_negative(n) {
            i32::MIN as int
        } else {
            i32::MAX as int
        }
    } else {
        number::truncated(n)
    }
}

/// The bound of a range that a number stands for.
pub fn endpoint_of_number(n: Number) -> (r: i32)
    ensures
        r == endpoint_of(n),
{
    if n.is_nan() {
        return 0;
    }
    if n.is_finite() {
        if let Some((k, _)) = n.whole_part() {
            if -0x8000_0000 <= k && k <= 0x7fff_ffff {
                return k as i32;
            }
        }
    }
    if n.is_negative() {
        i32::MIN
    } else {
        i32::MAX
    }
}

/// The bound of a range that an argument stands for, where it is a number.
pub open spec fn range_endpoint(argument: InvocationValueView, s: SessionView) -> (
    Option<Option<int>>,
    SessionView,
) {
    match s.ask_scalar(QueryView::Scalar { argument, target: ScalarTarget::Number }) {
        (None, t) => (None, t),
        (Some(Ok(ScalarValueView::Number(n))), t) => (Some(Some(endpoint_of(n))), t),
        (Some(_), t) => (Some(None), t),
    }
}

/// The bound of a range that an argument stands for, where it is a number.
pub fn number_to_range_endpoint(argument: &InvocationValue, session: &mut Session) -> (r: Option<
    Option<i32>,
>)
    ensures
        (match r {
            None => None,
            Some(None) => Some(None),
            Some(Some(k)) => Some(Some(k as int)),
        }, final(session)@) == range_endpoint(argument@, old(session)@),
        host::follows(old(session)@, final(session)@),
        r is None ==> host::halts(old(session)@, final(session)@),
{
    match session.ask_scalar(
        Query::Scalar { argument: copy_invocation_value(argument), target: ScalarTarget::Number },
    ) {
        None => None,
        Some(Ok(ScalarValue::Number(n))) => Some(Some(endpoint_of_number(n))),
        Some(_) => Some(None),
    }
}

/// How often `.repeat` repeats, or why it does not.
pub open spec fn count_of(value: ValueView) -> Result<int, Seq<char>> {
    match value {
        ValueView::Number(n) => if !number::is_finite(n) {
            Err("`.repeat` count must be finite"@)
        } else if number::is_negative(n) && number::magnitude(n) != 0 {
            Err("`.repeat` count must not be negative"@)
        } else if !number::is_whole(n) {
            Err("`.repeat` count must be an integer"@)
        } else if number::truncated(n) > i32::MAX {
            Err("`.repeat` count is outside the supported integer range"@)
        } else {
            Ok(number::truncated(n))
        },
        _ => Err("`.repeat` requires a semantic Number count"@),
    }
}

proof fn lemma_zero_is_zero(n: Number)
    requires
        number::magnitude(n) == 0,
    ensures
        number::floor_magnitude(n) == 0,
{
    let q = number::pow2(1074);
    vstd::arithmetic::power2::lemma_pow2_pos(1074);
    assert(0nat / q == 0) by (nonlinear_arith)
        requires
            q > 0,
    ;
}

/// How often `.repeat` repeats, or why it does not.
pub fn repeat_count(value: &IrValue) -> (r: Result<i32, &'static str>)
    ensures
        (match r {
            Ok(count) => Ok(count as int),
            Err(message) => Err(message@),
        }) == count_of(value@),
        r matches Ok(count) ==> count >= 0,
{
    let n = match value {
        IrValue::Number(n) => *n,
        _ => {
            return Err("`.repeat` requires a semantic Number count");
        },
    };
    if !n.is_finite() {
        return Err("`.repeat` count must be finite");
    }
    if n.is_negative() && n.magnitude_bits() != 0 {
        return Err("`.repeat` count must not be negative");
    }
    proof {
        if number::magnitude(n) == 0 {
            lemma_zero_is_zero(n);
        }
    }
    match n.whole_part() {
        Some((k, true)) => {
            if k > 0x7fff_ffff {
                Err("`.repeat` count is outside the supported integer range")
            } else {
                Ok(k as i32)
            }
        },
        Some(_) => Err("`.repeat` count must be an integer"),
        None => Err("`.repeat` count is outside the supported integer range"),
    }
}

/// The first argument that is passed by a name.
pub open spec fn is_named(named: Seq<NamedArgView>, name: Seq<char>, i: int) -> bool {
    &&& 0 <= i < named.len()
    &&& named[i].name == name
    &&& forall|j: int| 0 <= j < i ==> (#[trigger] named[j]).name != name
}

/// The place of the first argument that is passed by a name.
pub open spec fn named_index(named: Seq<NamedArgView>, name: Seq<char>) -> Option<int> {
    if exists|i: int| is_named(named, name, i) {
        Some(choose|i: int| is_named(named, name, i))
    } else {
        None
    }
}

/// The place of the first argument that is passed by a name.
pub fn find_named(named: &Vec<IrNamedArg>, name: &str) -> (r: Option<usize>)
    ensures
        (match r {
            Some(i) => Some(i as int),
            None => None,
        }) == named_index(ir::named_args_view(named@), name@),
        r matches Some(i) ==> i < named@.len(),
{
    let ghost all = ir::named_args_view(named@);
    let mut i: usize = 0;
    while i < named.len()
        invariant
            0 <= i <= named@.len(),
            all == ir::named_args_view(named@),
            forall|j: int| 0 <= j < i ==> (#[trigger] all[j]).name != name@,
        decreases named@.len() - i,
    {
        assert(all[i as int] == named@[i as int]@);
        assert(all[i as int].name == named@[i as int].name@);
        if same_text(named[i].name.as_str(), name) {
            proof {
                assert(is_named(all, name@, i as int));
                let k = choose|k: int| is_named(all, name@, k);
                assert(is_named(all, name@, k));
                if k < i {
                    assert(all[k].name != name@);
                } else if i < k {
                    assert(all[i as int].name != name@);
                }
            }
            return Some(i);
        }
        i += 1;
    }
    None
}

/// The first named argument with another name than the given one.
pub open spec fn is_stranger(named: Seq<InvocationNamedView>, name: Seq<char>, i: int) -> bool {
    &&& 0 <= i < named.len()
    &&& named[i].arg.name != name
    &&& forall|j: int| 0 <= j < i ==> (#[trigger] named[j]).arg.name == name
}

/// The iterable of a collection operation.
pub open spec fn access_operand(
    name: Seq<char>,
    parameter: Seq<char>,
    positional: Seq<InvocationValueView>,
    named: Seq<InvocationNamedView>,
    span: SourceSpan,
    s: SessionView,
) -> (Option<InvocationValueView>, SessionView) {
    if positional.len() > 1 {
        (
            None,
            s.fault(
                Fault::Iteration,
                "`."@ + name + "` requires exactly one iterable argument (received "@
                    + text::decimal_text(positional.len()) + ")"@,
                span,
            ),
        )
    } else if exists|i: int| is_stranger(named, parameter, i) {
        (None, unknown_access(name, named[choose|i: int| is_stranger(named, parameter, i)], s))
    } else if named.len() > 1 {
        (None, repeated_access(name, named[1], s))
    } else if positional.len() == 1 && named.len() == 1 {
        (None, repeated_access(name, named[0], s))
    } else if positional.len() == 1 {
        (Some(positional[0]), s)
    } else if named.len() == 1 {
        (
            Some(InvocationValueView { value: named[0].arg.value, origin: named[0].origin }),
            s,
        )
    } else {
        (
            None,
            s.fault(
                Fault::Iteration,
                "`."@ + name + "` requires exactly one iterable argument"@,
                span,
            ),
        )
    }
}

/// The session once a collection operation was given an argument it does not know.
pub open spec fn unknown_access(
    name: Seq<char>,
    argument: InvocationNamedView,
    s: SessionView,
) -> SessionView {
    s.fault(
        Fault::Iteration,
        "Unknown named argument `"@ + argument.arg.name + "` for `."@ + name + "`"@,
        argument.arg.name_span,
    )
}

/// The session once a collection operation was given its iterable twice.
pub open spec fn repeated_access(
    name: Seq<char>,
    argument: InvocationNamedView,
    s: SessionView,
) -> SessionView {
    s.fault(
        Fault::Iteration,
        "`."@ + name + "` received iterable argument more than once"@,
        argument.arg.name_span,
    )
}

/// The iterable of a collection operation.
pub fn collection_access_operand(
    name: &str,
    parameter: &str,
    positional: &Vec<InvocationValue>,
    named: &Vec<InvocationNamedArg>,
    span: SourceSpan,
    session: &mut Session,
) -> (r: Option<InvocationValue>)
    ensures
        (match r {
            Some(value) => Some(value@),
            None => None,
        }, final(session)@) == access_operand(
            name@,
            parameter@,
            host::invocation_values_view(positional@),
            host::invocation_named_args_view(named@),
            span,
            old(session)@,
        ),
        host::follows(old(session)@, final(session)@),
        r is None ==> host::halts(old(session)@, final(session)@),
{
    if positional.len() > 1 {
        session.fault(
            Fault::Iteration,
            join5(
                "`.",
                name,
                "` requires exactly one iterable argument (received ",
                decimal(positional.len() as u64).as_str(),
                ")",
            ),
            span,
        );
        return None;
    }
    let ghost all = host::invocation_named_args_view(named@);
    let mut i: usize = 0;
    while i < named.len()
        invariant
            host::follows(old(session)@, session@),
            0 <= i <= named@.len(),
            positional@.len() <= 1,
            all == host::invocation_named_args_view(named@),
            session@ == old(session)@,
            forall|j: int| 0 <= j < i ==> (#[trigger] all[j]).arg.name == parameter@,
        decreases named@.len() - i,
    {
        let argument = &named[i].arg;
        assert(all[i as int].arg == argument@);
        assert(argument@.name == argument.name@);
        if !same_text(argument.name.as_str(), parameter) {
            session.fault(
                Fault::Iteration,
                join5("Unknown named argument `", argument.name.as_str(), "` for `.", name, "`"),
                argument.name_span,
            );
            proof {
                assert(is_stranger(all, parameter@, i as int));
                let k = choose|k: int| is_stranger(all, parameter@, k);
                assert(is_stranger(all, parameter@, k));
                if k < i {
                    assert(all[k].arg.name == parameter@);
                } else if i < k {
                    assert(all[i as int].arg.name == parameter@);
                }
            }
            return None;
        }
        i += 1;
    }
    assert forall|k: int| !is_stranger(all, parameter@, k) by {
        if 0 <= k < all.len() {
            assert(all[k].arg.name == parameter@);
        }
    }
    if named.len() > 1 {
        assert(all[1].arg == named@[1].arg@);
        session.fault(
            Fault::Iteration,
            join3("`.", name, "` received iterable argument more than once"),
            named[1].arg.name_span,
        );
        return None;
    }
    if named.len() == 1 {
        assert(all[0].arg == named@[0].arg@);
        if positional.len() == 1 {
            session.fault(
                Fault::Iteration,
                join3("`.", name, "` received iterable argument more than once"),
                named[0].arg.name_span,
            );
            return None;
        }
        return Some(
            InvocationValue { value: copy_value(&named[0].arg.value), origin: named[0].origin },
        );
    }
    if positional.len() == 1 {
        return Some(copy_invocation_value(&positional[0]));
    }
    session.fault(
        Fault::Iteration,
        join3("`.", name, "` requires exactly one iterable argument"),
        span,
    );
    None
}

/// Whether the lambda of an iteration names its parameters as it may.
pub open spec fn iteration_lambda(
    parameters: Option<Seq<ParameterView>>,
    name: Seq<char>,
    destructuring: bool,
    span: SourceSpan,
    s: SessionView,
) -> (bool, SessionView) {
    match parameters {
        None => (true, s),
        Some(list) => if list.len() == 1 || (destructuring && list.len() == 2) {
            (true, s)
        } else {
            (
                false,
                s.fault(
                    Fault::Iteration,
                    "`."@ + name + "` requires one explicit parameter"@ + (if destructuring {
                        " or exactly two parameters for Pair destructuring"@
                    } else {
                        ""@
                    }),
                    if list.len() > 1 {
                        list[1].span
                    } else if list.len() > 0 {
                        list[0].span
                    } else {
                        span
                    },
                ),
            )
        },
    }
}

/// Whether the lambda of an iteration names its parameters as it may.
pub fn validate_iteration_lambda(
    parameters: Option<&Vec<IrParameter>>,
    name: &str,
    destructuring: bool,
    span: SourceSpan,
    session: &mut Session,
) -> (r: bool)
    ensures
        (r, final(session)@) == iteration_lambda(
            match parameters {
                Some(list) => Some(ir::parameters_view(list@)),
                None => None,
            },
            name@,
            destructuring,
            span,
            old(session)@,
        ),
        host::follows(old(session)@, final(session)@),
        !r ==> host::halts(old(session)@, final(session)@),
{
    match parameters {
        None => true,
        Some(list) => {
            if list.len() == 1 || (destructuring && list.len() == 2) {
                return true;
            }
            let place = if list.len() > 1 {
                assert(ir::parameters_view(list@)[1] == ir::parameter_view(list@[1]));
                list[1].span
            } else if list.len() > 0 {
                assert(ir::parameters_view(list@)[0] == ir::parameter_view(list@[0]));
                list[0].span
            } else {
                span
            };
            let more = if destructuring {
                " or exactly two parameters for Pair destructuring"
            } else {
                ""
            };
            session.fault(
                Fault::Iteration,
                join4("`.", name, "` requires one explicit parameter", more),
                place,
            );
            false
        },
    }
}

/// The arguments of a lambda, bound.
pub enum BoundLambdaArguments {
    /// One value for each parameter.
    Explicit(Vec<IrValue>),
    /// Values that the body reads by position.
    Implicit(Vec<IrValue>),
}

/// The mathematical value of [`BoundLambdaArguments`].
#[verifier::ext_equal]
pub enum BoundView {
    Explicit(Seq<ValueView>),
    Implicit(Seq<ValueView>),
}

impl View for BoundLambdaArguments {
    type V = BoundView;

    open spec fn view(&self) -> BoundView {
        match *self {
            BoundLambdaArguments::Explicit(values) => BoundView::Explicit(ir::values_view(values@)),
            BoundLambdaArguments::Implicit(values) => BoundView::Implicit(ir::values_view(values@)),
        }
    }
}

/// The two values of a pair for the two parameters of a lambda.
pub open spec fn destructured(
    value: ValueView,
    parameters: Seq<ParameterView>,
    span: SourceSpan,
    s: SessionView,
) -> (Option<Seq<ValueView>>, SessionView) {
    if parameters.len() == 2 {
        match value {
            ValueView::Pair(pair) => (Some(seq![*pair.first, *pair.second]), s),
            _ => (
                None,
                s.fault(
                    Fault::Iteration,
                    "Cannot destructure `.foreach` item as `"@ + parameters[0].name + "` and `"@
                        + parameters[1].name + "`: expected a Pair"@,
                    materialize::value_span(value, span),
                ),
            ),
        }
    } else {
        (
            None,
            s.fault(Fault::Iteration, "Unsupported scoped lambda parameter pattern"@, span),
        )
    }
}

/// The parameters of a callable once values that are left out are filled in.
pub open spec fn fill_missing(
    parameters: Seq<ParameterView>,
    values: Seq<ValueView>,
    s: SessionView,
) -> (Option<Seq<ValueView>>, SessionView)
    decreases parameters.len() - values.len(),
{
    if values.len() >= parameters.len() {
        (Some(values), s)
    } else {
        let parameter = parameters[values.len() as int];
        if parameter.optional {
            fill_missing(parameters, values.push(ValueView::Nothing), s)
        } else {
            (
                None,
                s.fault(
                    Fault::Function,
                    "Missing required callable argument `"@ + parameter.name + "`"@,
                    parameter.name_span,
                ),
            )
        }
    }
}

/// The arguments of a callable, bound to its parameters.
pub open spec fn bind_invocation(
    parameters: Option<Seq<ParameterView>>,
    arguments: Seq<ValueView>,
    destructuring: bool,
    span: SourceSpan,
    s: SessionView,
) -> (Option<BoundView>, SessionView) {
    match parameters {
        None => (Some(BoundView::Implicit(arguments)), s),
        Some(list) => if destructuring && list.len() > 1 && arguments.len() == 1 {
            match destructured(arguments[0], list, span, s) {
                (Some(values), t) => (Some(BoundView::Explicit(values)), t),
                (None, t) => (None, t),
            }
        } else if arguments.len() > list.len() {
            (
                None,
                s.fault(
                    Fault::Function,
                    "Callable received too many arguments (expected at most "@
                        + text::decimal_text(list.len()) + ", received "@ + text::decimal_text(
                        arguments.len(),
                    ) + ")"@,
                    span,
                ),
            )
        } else {
            match fill_missing(list, arguments, s) {
                (Some(values), t) => (Some(BoundView::Explicit(values)), t),
                (None, t) => (None, t),
            }
        },
    }
}

/// Binds the arguments of a callable to its parameters; nothing where that fails, and then the
/// reason is reported.
pub fn bind_invocation_arguments(
    parameters: Option<&Vec<IrParameter>>,
    arguments: Vec<IrValue>,
    destructuring: bool,
    span: SourceSpan,
    session: &mut Session,
) -> (r: Option<BoundLambdaArguments>)
    ensures
        (match r {
            Some(bound) => Some(bound@),
            None => None,
        }, final(session)@) == bind_invocation(
            match parameters {
                Some(list) => Some(ir::parameters_view(list@)),
                None => None,
            },
            ir::values_view(arguments@),
            destructuring,
            span,
            old(session)@,
        ),
        host::follows(old(session)@, final(session)@),
        r is None ==> host::halts(old(session)@, final(session)@),
{
    let list = match parameters {
        Some(list) => list,
        None => {
            return Some(BoundLambdaArguments::Implicit(arguments));
        },
    };
    let ghost all = ir::parameters_view(list@);
    let ghost given = ir::values_view(arguments@);
    if destructuring && list.len() > 1 && arguments.len() == 1 {
        if list.len() != 2 {
            session.fault(
                Fault::Iteration,
                "Unsupported scoped lambda parameter pattern".to_owned(),
                span,
            );
            return None;
        }
        assert(all[0] == ir::parameter_view(list@[0]) && all[1] == ir::parameter_view(list@[1]));
        assert(given[0] == arguments@[0]@);
        if let IrValue::Pair(pair) = &arguments[0] {
            assert(pair.first@ == *pair@.first && pair.second@ == *pair@.second);
            let mut values: Vec<IrValue> = Vec::new();
            values.push(copy_value(&pair.first));
            values.push(copy_value(&pair.second));
            assert(ir::values_view(values@) =~= seq![*pair@.first, *pair@.second]);
            return Some(BoundLambdaArguments::Explicit(values));
        }
        session.fault(
            Fault::Iteration,
            join5(
                "Cannot destructure `.foreach` item as `",
                list[0].name.as_str(),
                "` and `",
                list[1].name.as_str(),
                "`: expected a Pair",
            ),
            value_source_span(&arguments[0], span),
        );
        return None;
    }
    if arguments.len() > list.len() {
        session.fault(
            Fault::Function,
            join5(
                "Callable received too many arguments (expected at most ",
                decimal(list.len() as u64).as_str(),
                ", received ",
                decimal(arguments.len() as u64).as_str(),
                ")",
            ),
            span,
        );
        return None;
    }
    let mut values = arguments;
    while values.len() < list.len()
        invariant
            host::follows(old(session)@, session@),
            values@.len() <= list@.len(),
            all == ir::parameters_view(list@),
            given == ir::values_view(arguments@),
            parameters == Some(list),
            !(destructuring && list@.len() > 1 && given.len() == 1),
            given.len() <= list@.len(),
            session@ == old(session)@,
            fill_missing(all, given, old(session)@) == fill_missing(
                all,
                ir::values_view(values@),
                old(session)@,
            ),
        decreases list@.len() - values@.len(),
    {
        let parameter = &list[values.len()];
        assert(all[values@.len() as int] == ir::parameter_view(*parameter));
        if parameter.optional {
            values.push(IrValue::Nothing);
        } else {
            session.fault(
                Fault::Function,
                join3(
                    "Missing required callable argument `",
                    parameter.name.as_str(),
                    "`",
                ),
                parameter.name_span,
            );
            return None;
        }
    }
    Some(BoundLambdaArguments::Explicit(values))
}

/// Why a positional parameter has no value.
pub open spec fn implicit_message(name: Seq<char>, error: ImplicitParameterError) -> Seq<char> {
    match error {
        ImplicitParameterError::Missing => "Implicit lambda parameter `."@ + name
            + "` is not bound for this invocation"@,
        ImplicitParameterError::Overflow => "Implicit lambda parameter `."@ + name
            + "` is too large for this evaluator"@,
    }
}

/// Why a positional parameter has no value.
pub fn implicit_parameter_message(name: &str, error: ImplicitParameterError) -> (r: String)
    ensures
        r@ == implicit_message(name@, error),
{
    match error {
        ImplicitParameterError::Missing => join3(
            "Implicit lambda parameter `.",
            name,
            "` is not bound for this invocation",
        ),
        ImplicitParameterError::Overflow => join3(
            "Implicit lambda parameter `.",
            name,
            "` is too large for this evaluator",
        ),
    }
}

/// Why an argument does not convert.
pub open spec fn conversion_detail(error: ConversionError) -> Seq<char> {
    match error {
        ConversionError::InvalidText => "value is invalid for the typed parameter"@,
        ConversionError::UnsupportedValue => "value has the wrong typed domain or origin"@,
    }
}

/// Why an argument does not convert.
pub fn detail(error: ConversionError) -> (r: &'static str)
    ensures
        r@ == conversion_detail(error),
{
    match error {
        ConversionError::InvalidText => "value is invalid for the typed parameter",
        ConversionError::UnsupportedValue => "value has the wrong typed domain or origin",
    }
}

/// The error of a parameter of a call.
pub open spec fn parameter_message(
    call: Seq<char>,
    parameter: Seq<char>,
    message: Seq<char>,
) -> Seq<char> {
    "`."@ + call + "` parameter `"@ + parameter + "`: "@ + message
}

/// The error of a parameter of a call.
pub fn parameter_error(call: &str, parameter: &str, message: &str) -> (r: String)
    ensures
        r@ == parameter_message(call@, parameter@, message@),
{
    crate::text::join6("`.", call, "` parameter `", parameter, "`: ", message)
}

} // verus!
