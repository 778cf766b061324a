//! Layout calls: containers, rows, columns, grids, breaks and white space.

use vstd::prelude::*;

use crate::binding;
use crate::binding::{
    arguments_from, bind_align_argument, bind_container_arguments, bind_stacked_arguments,
    bind_whitespace_arguments, Argument,
};
use crate::calls;
use crate::calls::{
    convert_align_alignment, convert_container_boolean, convert_optional_size,
    convert_stacked_cross_axis, convert_stacked_main_axis, detail, parameter_error,
};
use crate::diagnostic::Fault;
use crate::evaluator::{Call, CallBody};
use crate::host;
use crate::host::{ConversionError, InvocationValue, Query, Session};
use crate::ir;
use crate::ir::{
    ComponentView, ContainerView, IrComponent, IrContainerAlignment, IrContainerComponent,
    IrCrossAxisAlignment, IrEnumValue, IrInline, IrLandscapeComponent, IrMainAxisAlignment, IrNode,
    IrParameter, IrSize, IrSizeUnit, IrStackedComponent, IrStackedLayout, IrValue, LandscapeView,
    SourceSpan, StackedView, ValueView,
};
use crate::materialize::{one_inline, one_node, value_source_span};
use crate::number::Number;
use crate::outcome::{CallOutcome, OutcomeView};
use crate::scope;
use crate::scope::EvaluationContext;
use crate::semantics;
use crate::semantics::{Ev, Evaluator, Stacking, World};
use crate::text::same_text;
use crate::views;

verus! {

broadcast use {
    crate::ir::group_ir_views,
    crate::host::group_host_views,
    host::group_follows,
    scope::group_stays,
};

/// Where a lambda list is written.
pub fn lambda_place(list: &Vec<IrParameter>, span: SourceSpan) -> (r: SourceSpan)
    ensures
        r == semantics::lambda_span(ir::parameters_view(list@), span),
{
    if list.len() > 0 {
        assert(ir::parameters_view(list@)[0] == list@[0]@);
        list[0].span
    } else {
        span
    }
}

/// The error of a call that takes no arguments and no lambda.
fn bare_call_problem(
    call: &Call,
    positional: &'static str,
    named: &'static str,
    lambda: &'static str,
) -> (r: Option<(&'static str, SourceSpan)>)
    ensures
        (match r {
            Some((message, span)) => Some((message@, span)),
            None => None,
        }) == semantics::bare_call_error(call@, positional@, named@, lambda@),
{
    proof {
        reveal(semantics::bare_call_error);
    }
    if call.positional.len() > 0 {
        assert(call@.positional[0] == call.positional@[0]@);
        return Some((positional, value_source_span(&call.positional[0], call.span)));
    }
    if call.named.len() > 0 {
        assert(call@.named[0] == call.named@[0]@);
        return Some((named, call.named[0].span));
    }
    match call.lambda {
        Some(list) => Some((lambda, lambda_place(list, call.span))),
        None => None,
    }
}

/// A container as an outcome.
fn container_value(container: IrContainerComponent) -> (r: CallOutcome)
    ensures
        r@ == OutcomeView::Value(
            ValueView::Component(
                ComponentView::Container(
                    ContainerView {
                        width: container.width,
                        height: container.height,
                        full_width: container.full_width,
                        alignment: container.alignment,
                        children: ir::nodes_view(container.children@),
                        span: container.span,
                    },
                ),
            ),
        ),
{
    proof {
        reveal_with_fuel(ir::value_view, 4);
    }
    CallOutcome::Value(IrValue::Component(IrComponent::Container(container)))
}

/// A landscape block as an outcome.
fn landscape_value(landscape: IrLandscapeComponent) -> (r: CallOutcome)
    ensures
        r@ == OutcomeView::Value(
            ValueView::Component(
                ComponentView::Landscape(
                    LandscapeView {
                        children: ir::nodes_view(landscape.children@),
                        span: landscape.span,
                    },
                ),
            ),
        ),
{
    proof {
        reveal_with_fuel(ir::value_view, 4);
    }
    CallOutcome::Value(IrValue::Component(IrComponent::Landscape(landscape)))
}

/// A stacked layout as an outcome.
fn stacked_value(stacked: IrStackedComponent) -> (r: CallOutcome)
    ensures
        r@ == OutcomeView::Value(
            ValueView::Component(
                ComponentView::Stacked(
                    StackedView {
                        layout: stacked.layout,
                        main_axis_alignment: stacked.main_axis_alignment,
                        cross_axis_alignment: stacked.cross_axis_alignment,
                        row_gap: stacked.row_gap,
                        column_gap: stacked.column_gap,
                        children: ir::nodes_view(stacked.children@),
                        span: stacked.span,
                    },
                ),
            ),
        ),
{
    proof {
        reveal_with_fuel(ir::value_view, 4);
    }
    CallOutcome::Value(IrValue::Component(IrComponent::Stacked(stacked)))
}

/// A container without sizes.
fn aligned_container(alignment: IrContainerAlignment, children: Vec<IrNode>, span: SourceSpan) -> (r:
    CallOutcome)
    ensures
        r@ == OutcomeView::Value(
            semantics::aligned(alignment, ir::nodes_view(children@), span),
        ),
{
    container_value(
        IrContainerComponent {
            width: None,
            height: None,
            full_width: true,
            alignment: Some(alignment),
            children,
            span,
        },
    )
}

/// The size that a parameter was given.
fn given_size(
    slot: &Option<Argument>,
    call: &str,
    parameter: &str,
    fault: Fault,
    session: &mut Session,
) -> (r: Option<Option<IrSize>>)
    ensures
        (r, final(session)@) == semantics::size_of(
            binding::slot_view(*slot),
            call@,
            parameter@,
            fault,
            old(session)@,
        ),
        host::follows(old(session)@, final(session)@),
{
    proof {
        reveal(semantics::size_of);
    }
    match slot {
        None => Some(None),
        Some(argument) => match convert_optional_size(&argument.value, session) {
            None => None,
            Some(Ok(size)) => Some(size),
            Some(Err(error)) => {
                let message = if fault == Fault::WhitespaceArgument && error
                    == ConversionError::InvalidText {
                    "value is invalid for the existing Size adapter"
                } else {
                    detail(error)
                };
                session.fault(fault, parameter_error(call, parameter, message), argument.span);
                None
            },
        },
    }
}

/// No size at all.
pub fn zero_whitespace_size() -> (r: IrSize)
    ensures
        r == semantics::zero_size(),
{
    IrSize { value: Number { bits: 0 }, unit: IrSizeUnit::Px }
}

/// Copies an argument, or stands in for one that was not given.
fn argument_or_default(slot: &Option<Argument>, value: IrValue, span: SourceSpan) -> (r: Argument)
    ensures
        r@ == semantics::or_default(binding::slot_view(*slot), value@, span),
{
    match slot {
        Some(argument) => Argument { value: argument.value.clone(), span: argument.span },
        None => Argument { value: InvocationValue::static_value(value), span },
    }
}

/// Reports an argument of a stacked layout that is wrong.
fn report_stacked(
    name: &str,
    parameter: &str,
    message: &str,
    span: SourceSpan,
    session: &mut Session,
)
    ensures
        final(session)@ == semantics::bad_stacked(
            name@,
            parameter@,
            message@,
            span,
            old(session)@,
        ),
        host::follows(old(session)@, final(session)@),
{
    session.fault(Fault::StackedArgument, parameter_error(name, parameter, message), span);
}

/// The alignments of a stacked layout.
fn convert_stacked_axes(
    name: &str,
    alignment: &Argument,
    cross: &Argument,
    session: &mut Session,
) -> (r: Option<(IrMainAxisAlignment, IrCrossAxisAlignment)>)
    ensures
        (r, final(session)@) == semantics::stacked_axes(
            name@,
            alignment@,
            cross@,
            old(session)@,
        ),
        host::follows(old(session)@, final(session)@),
{
    proof {
        reveal(semantics::stacked_axes);
    }
    let main = match convert_stacked_main_axis(&alignment.value, session) {
        None => return None,
        Some(Err(error)) => {
            report_stacked(name, "alignment", detail(error), alignment.span, session);
            return None;
        },
        Some(Ok(main)) => main,
    };
    match convert_stacked_cross_axis(&cross.value, session) {
        None => None,
        Some(Err(error)) => {
            report_stacked(name, "cross", detail(error), cross.span, session);
            None
        },
        Some(Ok(cross)) => Some((main, cross)),
    }
}

/// A gap of a stacked layout.
fn convert_stacked_gap(name: &str, parameter: &str, gap: &Argument, session: &mut Session) -> (r:
    Option<Option<IrSize>>)
    ensures
        (r, final(session)@) == semantics::stacked_gap(
            name@,
            parameter@,
            gap@,
            old(session)@,
        ),
        host::follows(old(session)@, final(session)@),
{
    proof {
        reveal(semantics::stacked_gap);
    }
    match convert_optional_size(&gap.value, session) {
        None => None,
        Some(Ok(size)) => Some(size),
        Some(Err(error)) => {
            report_stacked(name, parameter, detail(error), gap.span, session);
            None
        },
    }
}

/// How `.row` and `.column` place their children.
fn place_in_line(
    name: &str,
    slots: &Vec<Option<Argument>>,
    span: SourceSpan,
    session: &mut Session,
) -> (r: Option<Stacking>)
    requires
        slots@.len() == 3,
    ensures
        (r, final(session)@) == semantics::line_stacking(
            name@,
            binding::slots_view(slots@),
            span,
            old(session)@,
        ),
        host::follows(old(session)@, final(session)@),
{
    proof {
        reveal(semantics::line_stacking);
    }
    let alignment = argument_or_default(
        &slots[0],
        IrValue::Enum(IrEnumValue::StackedMainAxisAlignment(IrMainAxisAlignment::Start)),
        span,
    );
    let cross = argument_or_default(
        &slots[1],
        IrValue::Enum(IrEnumValue::StackedCrossAxisAlignment(IrCrossAxisAlignment::Center)),
        span,
    );
    let (main, cross) = match convert_stacked_axes(name, &alignment, &cross, session) {
        Some(axes) => axes,
        None => return None,
    };
    let gap = argument_or_default(&slots[2], IrValue::Nothing, span);
    let gap = match convert_stacked_gap(name, "gap", &gap, session) {
        Some(gap) => gap,
        None => return None,
    };
    if same_text(name, "row") {
        Some(
            Stacking {
                layout: IrStackedLayout::Row,
                main,
                cross,
                row_gap: None,
                column_gap: gap,
            },
        )
    } else {
        Some(
            Stacking {
                layout: IrStackedLayout::Column,
                main,
                cross,
                row_gap: gap,
                column_gap: None,
            },
        )
    }
}

/// The number of columns of a grid.
fn convert_columns(
    name: &str,
    slot: &Option<Argument>,
    span: SourceSpan,
    session: &mut Session,
) -> (r: Option<u32>)
    ensures
        (r, final(session)@) == semantics::grid_columns(
            name@,
            binding::slot_view(*slot),
            span,
            old(session)@,
        ),
        r matches Some(columns) ==> columns > 0,
        host::follows(old(session)@, final(session)@),
{
    proof {
        reveal(semantics::grid_columns);
    }
    match slot {
        None => {
            report_stacked(name, "columns", "required argument is missing", span, session);
            None
        },
        Some(columns) => match session.ask_integer(
            Query::Integer { argument: columns.value.clone() },
        ) {
            None => None,
            Some(Err(error)) => {
                report_stacked(name, "columns", detail(error), columns.span, session);
                None
            },
            Some(Ok(count)) => {
                if count <= 0 {
                    report_stacked(
                        name,
                        "columns",
                        "Column count must be at least 1",
                        span,
                        session,
                    );
                    None
                } else {
                    Some(count as u32)
                }
            },
        },
    }
}

/// How `.grid` places its children.
fn place_in_grid(
    name: &str,
    slots: &Vec<Option<Argument>>,
    span: SourceSpan,
    session: &mut Session,
) -> (r: Option<Stacking>)
    requires
        slots@.len() == 6,
    ensures
        (r, final(session)@) == semantics::grid_stacking(
            name@,
            binding::slots_view(slots@),
            span,
            old(session)@,
        ),
        host::follows(old(session)@, final(session)@),
{
    proof {
        reveal(semantics::grid_stacking);
    }
    let columns = match convert_columns(name, &slots[0], span, session) {
        Some(columns) => columns,
        None => return None,
    };
    let alignment = argument_or_default(
        &slots[1],
        IrValue::Enum(IrEnumValue::StackedMainAxisAlignment(IrMainAxisAlignment::Center)),
        span,
    );
    let cross = argument_or_default(
        &slots[2],
        IrValue::Enum(IrEnumValue::StackedCrossAxisAlignment(IrCrossAxisAlignment::Center)),
        span,
    );
    let (main, cross) = match convert_stacked_axes(name, &alignment, &cross, session) {
        Some(axes) => axes,
        None => return None,
    };
    let (row_gap, column_gap) = match convert_grid_gaps(name, slots, span, session) {
        Some(gaps) => gaps,
        None => return None,
    };
    Some(
        Stacking { layout: IrStackedLayout::Grid { columns }, main, cross, row_gap, column_gap },
    )
}

/// The gaps of a grid.
fn convert_grid_gaps(
    name: &str,
    slots: &Vec<Option<Argument>>,
    span: SourceSpan,
    session: &mut Session,
) -> (r: Option<(Option<IrSize>, Option<IrSize>)>)
    requires
        slots@.len() == 6,
    ensures
        (r, final(session)@) == semantics::grid_gaps(
            name@,
            binding::slots_view(slots@),
            span,
            old(session)@,
        ),
        host::follows(old(session)@, final(session)@),
{
    proof {
        reveal(semantics::grid_gaps);
    }
    let gap = argument_or_default(&slots[3], IrValue::Nothing, span);
    let gap = match convert_stacked_gap(name, "gap", &gap, session) {
        Some(gap) => gap,
        None => return None,
    };
    let vgap = argument_or_default(&slots[4], IrValue::Nothing, span);
    let vgap = match convert_stacked_gap(name, "vgap", &vgap, session) {
        Some(gap) => gap,
        None => return None,
    };
    let hgap = argument_or_default(&slots[5], IrValue::Nothing, span);
    let hgap = match convert_stacked_gap(name, "hgap", &hgap, session) {
        Some(gap) => gap,
        None => return None,
    };
    Some(
        (
            if vgap.is_some() {
                vgap
            } else {
                gap
            },
            if hgap.is_some() {
                hgap
            } else {
                gap
            },
        ),
    )
}

/// The sizes of a container, and whether it takes the full width.
fn convert_container_sizes(slots: &Vec<Option<Argument>>, session: &mut Session) -> (r: Option<
    (Option<IrSize>, Option<IrSize>, bool),
>)
    requires
        slots@.len() == 3,
    ensures
        (r, final(session)@) == semantics::container_sizes(
            binding::slots_view(slots@),
            old(session)@,
        ),
        host::follows(old(session)@, final(session)@),
{
    proof {
        reveal(semantics::container_sizes);
    }
    let width = match given_size(
        &slots[0],
        "container",
        "width",
        Fault::ContainerArgument,
        session,
    ) {
        Some(size) => size,
        None => return None,
    };
    let height = match given_size(
        &slots[1],
        "container",
        "height",
        Fault::ContainerArgument,
        session,
    ) {
        Some(size) => size,
        None => return None,
    };
    match &slots[2] {
        None => Some((width, height, false)),
        Some(argument) => match convert_container_boolean(&argument.value, session) {
            None => None,
            Some(Ok(full_width)) => Some((width, height, full_width)),
            Some(Err(error)) => {
                session.fault(
                    Fault::ContainerArgument,
                    parameter_error("container", "fullwidth", detail(error)),
                    argument.span,
                );
                None
            },
        },
    }
}

impl Evaluator {
    /// Evaluates the blocks of a component's body.
    fn evaluate_children(
        &self,
        call: &Call,
        fault: Fault,
        inline: &str,
        missing: Option<&str>,
        frames: usize,
        session: &mut Session,
        context: &mut EvaluationContext,
    ) -> (r: Option<Vec<IrNode>>)
        ensures
            (Ev { out: views::nodes(r), w: World { s: final(session)@, c: final(context)@ } })
                == semantics::children(
                *self,
                call@,
                fault,
                inline@,
                (match missing {
                    Some(message) => Some(message@),
                    None => None,
                }),
                frames as nat,
                World { s: old(session)@, c: old(context)@ },
            ),
            host::follows(old(session)@, final(session)@),
            scope::stays(old(context)@, final(context)@),
        decreases frames, 5int, self, 2int,
    {
        proof {
            reveal(semantics::children);
        }
        match call.body {
            Some(CallBody::Block(nodes)) => self.evaluate_body_content(
                CallBody::Block(nodes),
                call.span,
                frames, session, context,
            ),
            Some(CallBody::Inline(_)) => {
                session.fault(fault, inline.to_owned(), call.span);
                None
            },
            None => match missing {
                Some(message) => {
                    session.fault(fault, message.to_owned(), call.span);
                    None
                },
                None => Some(Vec::new()),
            },
        }
    }

    /// Evaluates `.center`.
    pub fn evaluate_center(
        &self,
        call: &Call,
        frames: usize,
        session: &mut Session,
        context: &mut EvaluationContext,
    ) -> (r: CallOutcome)
        ensures
            (Ev { out: r@, w: World { s: final(session)@, c: final(context)@ } })
                == semantics::eval_center(
                *self,
                call@,
                frames as nat,
                World { s: old(session)@, c: old(context)@ },
            ),
            host::follows(old(session)@, final(session)@),
            scope::stays(old(context)@, final(context)@),
        decreases frames, 6int, self, 0int,
    {
        proof {
            reveal(semantics::eval_center);
            reveal(semantics::children);
        }
        if let Some((message, span)) = bare_call_problem(
            call,
            "`.center` does not accept positional arguments",
            "`.center` does not accept named arguments",
            "`.center` body is a Markdown block, not a lambda",
        ) {
            return session.fail(Fault::CenterArgument, message.to_owned(), span);
        }
        match self.evaluate_children(
            call,
            Fault::CenterArgument,
            "`.center` is block-only",
            Some("`.center` requires a Markdown block body"),
            frames, session, context,
        ) {
            Some(children) => aligned_container(IrContainerAlignment::Center, children, call.span),
            None => CallOutcome::Failed,
        }
    }

    /// Evaluates `.landscape`.
    pub fn evaluate_landscape(
        &self,
        call: &Call,
        frames: usize,
        session: &mut Session,
        context: &mut EvaluationContext,
    ) -> (r: CallOutcome)
        ensures
            (Ev { out: r@, w: World { s: final(session)@, c: final(context)@ } })
                == semantics::eval_landscape(
                *self,
                call@,
                frames as nat,
                World { s: old(session)@, c: old(context)@ },
            ),
            host::follows(old(session)@, final(session)@),
            scope::stays(old(context)@, final(context)@),
        decreases frames, 6int, self, 0int,
    {
        proof {
            reveal(semantics::eval_landscape);
            reveal(semantics::children);
        }
        if let Some((message, span)) = bare_call_problem(
            call,
            "`.landscape` does not accept positional arguments",
            "`.landscape` does not accept named arguments",
            "`.landscape` body is a Markdown block, not a lambda",
        ) {
            return session.fail(Fault::LandscapeArgument, message.to_owned(), span);
        }
        match self.evaluate_children(
            call,
            Fault::LandscapeArgument,
            "`.landscape` is block-only",
            Some("`.landscape` requires a Markdown block body"),
            frames, session, context,
        ) {
            Some(children) => landscape_value(
                IrLandscapeComponent { children, span: call.span },
            ),
            None => CallOutcome::Failed,
        }
    }

    /// Evaluates `.br`.
    pub fn evaluate_br(&self, call: &Call, session: &mut Session, context: &EvaluationContext) -> (r:
        CallOutcome)
        ensures
            (Ev { out: r@, w: World { s: final(session)@, c: context@ } }) == semantics::eval_br(
                call@,
                World { s: old(session)@, c: context@ },
            ),
            host::follows(old(session)@, final(session)@),
    {
        proof {
            reveal(semantics::eval_br);
        }
        if let Some((message, span)) = bare_call_problem(
            call,
            "`.br` does not accept positional arguments",
            "`.br` does not accept named arguments",
            "`.br` does not accept a lambda body",
        ) {
            return session.fail(Fault::BrArgument, message.to_owned(), span);
        }
        if call.body.is_some() {
            return session.fail(
                Fault::BrArgument,
                "`.br` does not accept a body".to_owned(),
                call.span,
            );
        }
        CallOutcome::Value(
            IrValue::Content(
                one_node(
                    IrNode::Paragraph {
                        content: one_inline(IrInline::HardBreak { span: call.span }),
                        span: call.span,
                    },
                ),
            ),
        )
    }

    /// Evaluates `.whitespace`.
    pub fn evaluate_whitespace(
        &self,
        call: &Call,
        frames: usize,
        session: &mut Session,
        context: &mut EvaluationContext,
    ) -> (r: CallOutcome)
        ensures
            (Ev { out: r@, w: World { s: final(session)@, c: final(context)@ } })
                == semantics::eval_whitespace(
                *self,
                call@,
                frames as nat,
                World { s: old(session)@, c: old(context)@ },
            ),
            host::follows(old(session)@, final(session)@),
            scope::stays(old(context)@, final(context)@),
        decreases frames, 6int, self, 0int,
    {
        proof {
            reveal(semantics::eval_whitespace);
        }
        proof {
            reveal(semantics::whitespace_sizes);
        }
        let (values, named) = match self.evaluate_arguments(call, frames, session, context) {
            Some(arguments) => arguments,
            None => return CallOutcome::Failed,
        };
        let positional = arguments_from(values, call.positional, call.span);
        let slots = match bind_whitespace_arguments(positional, &named, call.span, session) {
            Some(slots) => slots,
            None => return CallOutcome::Failed,
        };
        assert(binding::slots_view(slots@)[0] == binding::slot_view(slots@[0]));
        assert(binding::slots_view(slots@)[1] == binding::slot_view(slots@[1]));
        let width = match given_size(
            &slots[0],
            "whitespace",
            "width",
            Fault::WhitespaceArgument,
            session,
        ) {
            Some(size) => size,
            None => return CallOutcome::Failed,
        };
        let height = match given_size(
            &slots[1],
            "whitespace",
            "height",
            Fault::WhitespaceArgument,
            session,
        ) {
            Some(size) => size,
            None => return CallOutcome::Failed,
        };
        if let Some(list) = call.lambda {
            return session.fail(
                Fault::WhitespaceArgument,
                "`.whitespace` does not accept a lambda body".to_owned(),
                lambda_place(list, call.span),
            );
        }
        if call.body.is_some() {
            return session.fail(
                Fault::WhitespaceArgument,
                "`.whitespace` does not accept a body".to_owned(),
                call.span,
            );
        }
        let (width, height): (Option<IrSize>, Option<IrSize>) = match (width, height) {
            (None, None) => (None, None),
            (width, height) => (
                Some(
                    match width {
                        Some(size) => size,
                        None => zero_whitespace_size(),
                    },
                ),
                Some(
                    match height {
                        Some(size) => size,
                        None => zero_whitespace_size(),
                    },
                ),
            ),
        };
        CallOutcome::Value(
            IrValue::Content(
                one_node(
                    IrNode::Paragraph {
                        content: one_inline(
                            IrInline::Whitespace { width, height, span: call.span },
                        ),
                        span: call.span,
                    },
                ),
            ),
        )
    }

    /// Evaluates `.align`.
    pub fn evaluate_align(
        &self,
        call: &Call,
        frames: usize,
        session: &mut Session,
        context: &mut EvaluationContext,
    ) -> (r: CallOutcome)
        ensures
            (Ev { out: r@, w: World { s: final(session)@, c: final(context)@ } })
                == semantics::eval_align(
                *self,
                call@,
                frames as nat,
                World { s: old(session)@, c: old(context)@ },
            ),
            host::follows(old(session)@, final(session)@),
            scope::stays(old(context)@, final(context)@),
        decreases frames, 6int, self, 0int,
    {
        proof {
            reveal(semantics::eval_align);
            reveal(semantics::children);
        }
        let (values, named) = match self.evaluate_arguments(call, frames, session, context) {
            Some(arguments) => arguments,
            None => return CallOutcome::Failed,
        };
        let positional = arguments_from(values, call.positional, call.span);
        let argument = match bind_align_argument(positional, &named, call.span, session) {
            Some(argument) => argument,
            None => return CallOutcome::Failed,
        };
        let alignment = match convert_align_alignment(&argument.value, session) {
            None => return CallOutcome::Failed,
            Some(Err(error)) => {
                let message = match error {
                    ConversionError::InvalidText => "`.align` alignment value is invalid",
                    ConversionError::UnsupportedValue => "`.align` alignment value has the wrong typed domain or origin",
                };
                return session.fail(Fault::AlignArgument, message.to_owned(), argument.span);
            },
            Some(Ok(alignment)) => alignment,
        };
        if let Some(list) = call.lambda {
            return session.fail(
                Fault::AlignArgument,
                "`.align` body is a Markdown block, not a lambda".to_owned(),
                lambda_place(list, call.span),
            );
        }
        match self.evaluate_children(
            call,
            Fault::AlignArgument,
            "`.align` is block-only",
            Some("`.align` requires a Markdown block body"),
            frames, session, context,
        ) {
            Some(children) => aligned_container(alignment, children, call.span),
            None => CallOutcome::Failed,
        }
    }

    /// Evaluates `.container`.
    pub fn evaluate_container(
        &self,
        call: &Call,
        frames: usize,
        session: &mut Session,
        context: &mut EvaluationContext,
    ) -> (r: CallOutcome)
        ensures
            (Ev { out: r@, w: World { s: final(session)@, c: final(context)@ } })
                == semantics::eval_container(
                *self,
                call@,
                frames as nat,
                World { s: old(session)@, c: old(context)@ },
            ),
            host::follows(old(session)@, final(session)@),
            scope::stays(old(context)@, final(context)@),
        decreases frames, 6int, self, 0int,
    {
        proof {
            reveal(semantics::eval_container);
            reveal(semantics::children);
        }
        let (values, named) = match self.evaluate_arguments(call, frames, session, context) {
            Some(arguments) => arguments,
            None => return CallOutcome::Failed,
        };
        let positional = arguments_from(values, call.positional, call.span);
        let slots = match bind_container_arguments(positional, &named, call.span, session) {
            Some(slots) => slots,
            None => return CallOutcome::Failed,
        };
        let (width, height, full_width) = match convert_container_sizes(&slots, session) {
            Some(sizes) => sizes,
            None => return CallOutcome::Failed,
        };
        if let Some(list) = call.lambda {
            return session.fail(
                Fault::ContainerArgument,
                "`.container` body is a Markdown block, not a lambda".to_owned(),
                lambda_place(list, call.span),
            );
        }
        match self.evaluate_children(
            call,
            Fault::ContainerArgument,
            "`.container` is block-only",
            None,
            frames, session, context,
        ) {
            Some(children) => container_value(
                IrContainerComponent {
                    width,
                    height,
                    full_width,
                    alignment: None,
                    children,
                    span: call.span,
                },
            ),
            None => CallOutcome::Failed,
        }
    }

    /// Evaluates `.row`, `.column` and `.grid`; a call of any other name stays unresolved.
    pub fn evaluate_stacked_layout(
        &self,
        call: &Call,
        frames: usize,
        session: &mut Session,
        context: &mut EvaluationContext,
    ) -> (r: CallOutcome)
        ensures
            (Ev { out: r@, w: World { s: final(session)@, c: final(context)@ } })
                == semantics::eval_stacked(
                *self,
                call@,
                frames as nat,
                World { s: old(session)@, c: old(context)@ },
            ),
            host::follows(old(session)@, final(session)@),
            scope::stays(old(context)@, final(context)@),
        decreases frames, 6int, self, 0int,
    {
        proof {
            reveal(semantics::eval_stacked);
            reveal(semantics::stacked_component);
        }
        let grid = same_text(call.name, "grid");
        let (values, named) = match self.evaluate_arguments(call, frames, session, context) {
            Some(arguments) => arguments,
            None => return CallOutcome::Failed,
        };
        let positional = arguments_from(values, call.positional, call.span);
        let slots = match bind_stacked_arguments(
            call.name,
            positional,
            &named,
            call.span,
            session,
        ) {
            Ok(slots) => slots,
            Err(out) => return out,
        };
        let stacking = if grid {
            place_in_grid(call.name, &slots, call.span, session)
        } else {
            place_in_line(call.name, &slots, call.span, session)
        };
        match stacking {
            Some(stacking) => self.evaluate_stacked_component(
                call,
                stacking,
                frames,
                session,
                context,
            ),
            None => CallOutcome::Failed,
        }
    }

    /// Evaluates a stacked component, once it is known how it places its children.
    fn evaluate_stacked_component(
        &self,
        call: &Call,
        stacking: Stacking,
        frames: usize,
        session: &mut Session,
        context: &mut EvaluationContext,
    ) -> (r: CallOutcome)
        ensures
            (Ev { out: r@, w: World { s: final(session)@, c: final(context)@ } })
                == semantics::stacked_component(
                *self,
                call@,
                stacking,
                frames as nat,
                World { s: old(session)@, c: old(context)@ },
            ),
            host::follows(old(session)@, final(session)@),
            scope::stays(old(context)@, final(context)@),
        decreases frames, 5int, self, 3int,
    {
        proof {
            reveal(semantics::stacked_component);
            reveal(semantics::children);
        }
        if let Some(list) = call.lambda {
            report_stacked(
                call.name,
                "body",
                "Stacked layout bodies are Markdown blocks, not lambda parameters",
                lambda_place(list, call.span),
                session,
            );
            return CallOutcome::Failed;
        }
        let inline = parameter_error(call.name, "body", "Stacked layout is block-only");
        let missing = parameter_error(call.name, "body", "A Markdown block body is required");
        match self.evaluate_children(
            call,
            Fault::StackedArgument,
            inline.as_str(),
            Some(missing.as_str()),
            frames, session, context,
        ) {
            Some(children) => stacked_value(
                IrStackedComponent {
                    layout: stacking.layout,
                    main_axis_alignment: stacking.main,
                    cross_axis_alignment: stacking.cross,
                    row_gap: stacking.row_gap,
                    column_gap: stacking.column_gap,
                    children,
                    span: call.span,
                },
            ),
            None => CallOutcome::Failed,
        }
    }
}

} // verus!
