//! More answers and higher limits keep what is settled: layout.

use vstd::prelude::*;

use crate::binding;
use crate::binding::{ArgumentView, Style};
use crate::calls;
use crate::diagnostic::Fault;
use crate::growth;
use crate::growth::Growth;
use crate::growth_helpers;
use crate::growth_values;
use crate::host::SessionView;
use crate::ir::{IrCrossAxisAlignment, IrEnumValue, IrMainAxisAlignment, SourceSpan, ValueView};
use crate::semantics;
use crate::semantics::{BodyView, CallView, Evaluator, Stacking, World};

verus! {

broadcast use growth::group_within;

/// What `children` comes to is kept.
pub(crate) proof fn lemma_children(
    e: Evaluator,
    call: CallView,
    fault: Fault,
    inline: Seq<char>,
    missing: Option<Seq<char>>,
    f: nat,
    w: World,
    grow: Growth,
)
    requires
        growth::fits(e, grow),
    ensures
        growth::kept(
            w,
            semantics::children(e, call, fault, inline, missing, f, w),
            semantics::children(
                growth::evaluator(e, grow),
                call,
                fault,
                inline,
                missing,
                f + grow.depth,
                growth::world(w, grow),
            ),
            grow,
        ),
    decreases f, 5int, e, 2int,
{
    reveal(semantics::children);
    match call.body {
        Some(BodyView::Block(nodes)) => {
            growth_values::lemma_body_content(e, BodyView::Block(nodes), call.span, f, w, grow);
        },
        Some(BodyView::Inline(_)) => {},
        None => {},
    }
}

/// What `eval_center` comes to is kept.
pub(crate) proof fn lemma_eval_center(e: Evaluator, call: CallView, f: nat, w: World, grow: Growth)
    requires
        growth::fits(e, grow),
    ensures
        growth::kept(
            w,
            semantics::eval_center(e, call, f, w),
            semantics::eval_center(
                growth::evaluator(e, grow),
                call,
                f + grow.depth,
                growth::world(w, grow),
            ),
            grow,
        ),
    decreases f, 6int, e, 0int,
{
    reveal(semantics::eval_center);
    reveal(semantics::children);
    match semantics::bare_call_error(
        call,
        "`.center` does not accept positional arguments"@,
        "`.center` does not accept named arguments"@,
        "`.center` body is a Markdown block, not a lambda"@,
    ) {
        Some((message, span)) => {},
        None => {
            lemma_children(
                e,
                call,
                Fault::CenterArgument,
                "`.center` is block-only"@,
                Some("`.center` requires a Markdown block body"@),
                f,
                w,
                grow,
            );
        },
    }
}

/// What `eval_landscape` comes to is kept.
pub(crate) proof fn lemma_eval_landscape(
    e: Evaluator,
    call: CallView,
    f: nat,
    w: World,
    grow: Growth,
)
    requires
        growth::fits(e, grow),
    ensures
        growth::kept(
            w,
            semantics::eval_landscape(e, call, f, w),
            semantics::eval_landscape(
                growth::evaluator(e, grow),
                call,
                f + grow.depth,
                growth::world(w, grow),
            ),
            grow,
        ),
    decreases f, 6int, e, 0int,
{
    reveal(semantics::eval_landscape);
    reveal(semantics::children);
    match semantics::bare_call_error(
        call,
        "`.landscape` does not accept positional arguments"@,
        "`.landscape` does not accept named arguments"@,
        "`.landscape` body is a Markdown block, not a lambda"@,
    ) {
        Some((message, span)) => {},
        None => {
            lemma_children(
                e,
                call,
                Fault::LandscapeArgument,
                "`.landscape` is block-only"@,
                Some("`.landscape` requires a Markdown block body"@),
                f,
                w,
                grow,
            );
        },
    }
}

/// What `eval_br` comes to is kept.
pub(crate) proof fn lemma_eval_br(call: CallView, w: World, grow: Growth)
    ensures
        growth::kept(
            w,
            semantics::eval_br(call, w),
            semantics::eval_br(call, growth::world(w, grow)),
            grow,
        ),
{
    reveal(semantics::eval_br);

}

/// What `size_of` comes to is kept.
pub(crate) proof fn lemma_size_of(
    slot: Option<ArgumentView>,
    call: Seq<char>,
    parameter: Seq<char>,
    fault: Fault,
    s: SessionView,
    grow: Growth,
)
    ensures
        growth::kept_answer(
            s,
            semantics::size_of(slot, call, parameter, fault, s),
            semantics::size_of(slot, call, parameter, fault, growth::session(s, grow)),
            grow,
        ),
{
    reveal(semantics::size_of);
    match slot {
        None => {},
        Some(argument) => {
            growth_helpers::lemma_optional_size(argument.value, s, grow);
        },
    }
}

/// What `eval_whitespace` comes to is kept.
pub(crate) proof fn lemma_eval_whitespace(
    e: Evaluator,
    call: CallView,
    f: nat,
    w: World,
    grow: Growth,
)
    requires
        growth::fits(e, grow),
    ensures
        growth::kept(
            w,
            semantics::eval_whitespace(e, call, f, w),
            semantics::eval_whitespace(
                growth::evaluator(e, grow),
                call,
                f + grow.depth,
                growth::world(w, grow),
            ),
            grow,
        ),
    decreases f, 6int, e, 0int,
{
    reveal(semantics::eval_whitespace);
    growth_values::lemma_call_arguments(e, call, f, w, grow);
    let args = semantics::call_arguments(e, call, f, w);
    match args.out {
        None => {},
        Some((values, named)) => {
            growth_helpers::lemma_bind_arguments(
                Style::Whitespace,
                "whitespace"@,
                binding::whitespace_names(),
                "`.whitespace` accepts at most two positional arguments"@,
                binding::arguments_of(values, call.positional, call.span),
                named,
                call.span,
                args.w.s,
                grow,
            );
            match binding::bind_arguments(
                Style::Whitespace,
                "whitespace"@,
                binding::whitespace_names(),
                "`.whitespace` accepts at most two positional arguments"@,
                binding::arguments_of(values, call.positional, call.span),
                named,
                call.span,
                args.w.s,
            ) {
                (None, s) => {},
                (Some(slots), s) => {
                    growth_values::lemma_whitespace_sizes(call, slots, args.w.on(s), grow);
                },
            }
        },
    }
}

/// What `eval_align` comes to is kept.
pub(crate) proof fn lemma_eval_align(e: Evaluator, call: CallView, f: nat, w: World, grow: Growth)
    requires
        growth::fits(e, grow),
    ensures
        growth::kept(
            w,
            semantics::eval_align(e, call, f, w),
            semantics::eval_align(
                growth::evaluator(e, grow),
                call,
                f + grow.depth,
                growth::world(w, grow),
            ),
            grow,
        ),
    decreases f, 6int, e, 0int,
{
    reveal(semantics::eval_align);
    reveal(semantics::children);
    growth_values::lemma_call_arguments(e, call, f, w, grow);
    let args = semantics::call_arguments(e, call, f, w);
    match args.out {
        None => {},
        Some((values, named)) => {
            growth_helpers::lemma_bind_align(
                binding::arguments_of(values, call.positional, call.span),
                named,
                call.span,
                args.w.s,
                grow,
            );
            match binding::bind_align(
                binding::arguments_of(values, call.positional, call.span),
                named,
                call.span,
                args.w.s,
            ) {
                (None, s) => {},
                (Some(argument), s) => {
                    growth_helpers::lemma_container_alignment(argument.value, s, grow);
                    match calls::container_alignment(argument.value, s) {
                        (None, t) => {},
                        (Some(Err(error)), t) => {},
                        (Some(Ok(alignment)), t) => {
                            match call.lambda {
                                Some(list) => {},
                                None => {
                                    lemma_children(
                                        e,
                                        call,
                                        Fault::AlignArgument,
                                        "`.align` is block-only"@,
                                        Some("`.align` requires a Markdown block body"@),
                                        f,
                                        args.w.on(t),
                                        grow,
                                    );
                                },
                            }
                        },
                    }
                },
            }
        },
    }
}

/// What `eval_container` comes to is kept.
pub(crate) proof fn lemma_eval_container(
    e: Evaluator,
    call: CallView,
    f: nat,
    w: World,
    grow: Growth,
)
    requires
        growth::fits(e, grow),
    ensures
        growth::kept(
            w,
            semantics::eval_container(e, call, f, w),
            semantics::eval_container(
                growth::evaluator(e, grow),
                call,
                f + grow.depth,
                growth::world(w, grow),
            ),
            grow,
        ),
    decreases f, 6int, e, 0int,
{
    reveal(semantics::eval_container);
    reveal(semantics::children);
    reveal(semantics::container_sizes);
    growth_values::lemma_call_arguments(e, call, f, w, grow);
    let args = semantics::call_arguments(e, call, f, w);
    match args.out {
        None => {},
        Some((values, named)) => {
            growth_helpers::lemma_bind_arguments(
                Style::Container,
                "container"@,
                binding::container_names(),
                "`.container` accepts at most three positional arguments"@,
                binding::arguments_of(values, call.positional, call.span),
                named,
                call.span,
                args.w.s,
                grow,
            );
            match binding::bind_arguments(
                Style::Container,
                "container"@,
                binding::container_names(),
                "`.container` accepts at most three positional arguments"@,
                binding::arguments_of(values, call.positional, call.span),
                named,
                call.span,
                args.w.s,
            ) {
                (None, s) => {},
                (Some(slots), s) => {
                    lemma_container_sizes(slots, s, grow);
                    match semantics::container_sizes(slots, s) {
                        (None, t) => {},
                        (Some((width, height, full_width)), t) => {
                            match call.lambda {
                                Some(list) => {},
                                None => {
                                    lemma_children(
                                        e,
                                        call,
                                        Fault::ContainerArgument,
                                        "`.container` is block-only"@,
                                        None,
                                        f,
                                        args.w.on(t),
                                        grow,
                                    );
                                },
                            }
                        },
                    }
                },
            }
        },
    }
}

/// What `container_sizes` comes to is kept.
pub(crate) proof fn lemma_container_sizes(
    slots: Seq<Option<ArgumentView>>,
    s: SessionView,
    grow: Growth,
)
    ensures
        growth::kept_answer(
            s,
            semantics::container_sizes(slots, s),
            semantics::container_sizes(slots, growth::session(s, grow)),
            grow,
        ),
{
    reveal(semantics::container_sizes);
    reveal(semantics::size_of);
    lemma_size_of(slots[0], "container"@, "width"@, Fault::ContainerArgument, s, grow);
    match semantics::size_of(slots[0], "container"@, "width"@, Fault::ContainerArgument, s) {
        (None, t) => {},
        (Some(width), t) => {
            lemma_size_of(slots[1], "container"@, "height"@, Fault::ContainerArgument, t, grow);
            match semantics::size_of(
                slots[1],
                "container"@,
                "height"@,
                Fault::ContainerArgument,
                t,
            ) {
                (None, u) => {},
                (Some(height), u) => {
                    match slots[2] {
                        None => {},
                        Some(argument) => {
                            growth_helpers::lemma_boolean_argument(argument.value, u, grow);
                        },
                    }
                },
            }
        },
    }
}

/// What `stacked_axes` comes to is kept.
pub(crate) proof fn lemma_stacked_axes(
    name: Seq<char>,
    alignment: ArgumentView,
    cross: ArgumentView,
    s: SessionView,
    grow: Growth,
)
    ensures
        growth::kept_answer(
            s,
            semantics::stacked_axes(name, alignment, cross, s),
            semantics::stacked_axes(name, alignment, cross, growth::session(s, grow)),
            grow,
        ),
{
    reveal(semantics::stacked_axes);
    growth_helpers::lemma_main_axis(alignment.value, s, grow);
    match calls::main_axis(alignment.value, s) {
        (None, t) => {},
        (Some(Err(error)), t) => {},
        (Some(Ok(main)), t) => {
            growth_helpers::lemma_cross_axis(cross.value, t, grow);
        },
    }
}

/// What `stacked_gap` comes to is kept.
pub(crate) proof fn lemma_stacked_gap(
    name: Seq<char>,
    parameter: Seq<char>,
    gap: ArgumentView,
    s: SessionView,
    grow: Growth,
)
    ensures
        growth::kept_answer(
            s,
            semantics::stacked_gap(name, parameter, gap, s),
            semantics::stacked_gap(name, parameter, gap, growth::session(s, grow)),
            grow,
        ),
{
    reveal(semantics::stacked_gap);
    growth_helpers::lemma_optional_size(gap.value, s, grow);
}

/// What `line_stacking` comes to is kept.
pub(crate) proof fn lemma_line_stacking(
    name: Seq<char>,
    slots: Seq<Option<ArgumentView>>,
    span: SourceSpan,
    s: SessionView,
    grow: Growth,
)
    ensures
        growth::kept_answer(
            s,
            semantics::line_stacking(name, slots, span, s),
            semantics::line_stacking(name, slots, span, growth::session(s, grow)),
            grow,
        ),
{
    reveal(semantics::line_stacking);
    reveal(semantics::stacked_axes);
    reveal(semantics::stacked_gap);
    let alignment = semantics::or_default(
        slots[0],
        ValueView::Enum(IrEnumValue::StackedMainAxisAlignment(IrMainAxisAlignment::Start)),
        span,
    );
    let cross = semantics::or_default(
        slots[1],
        ValueView::Enum(IrEnumValue::StackedCrossAxisAlignment(IrCrossAxisAlignment::Center)),
        span,
    );
    lemma_stacked_axes(name, alignment, cross, s, grow);
    match semantics::stacked_axes(name, alignment, cross, s) {
        (None, t) => {},
        (Some((main, cross)), t) => {
            lemma_stacked_gap(
                name,
                "gap"@,
                semantics::or_default(slots[2], ValueView::Nothing, span),
                t,
                grow,
            );
        },
    }
}

/// What `grid_columns` comes to is kept.
pub(crate) proof fn lemma_grid_columns(
    name: Seq<char>,
    slot: Option<ArgumentView>,
    span: SourceSpan,
    s: SessionView,
    grow: Growth,
)
    ensures
        growth::kept_answer(
            s,
            semantics::grid_columns(name, slot, span, s),
            semantics::grid_columns(name, slot, span, growth::session(s, grow)),
            grow,
        ),
{
    reveal(semantics::grid_columns);

}

/// What `grid_stacking` comes to is kept.
pub(crate) proof fn lemma_grid_stacking(
    name: Seq<char>,
    slots: Seq<Option<ArgumentView>>,
    span: SourceSpan,
    s: SessionView,
    grow: Growth,
)
    ensures
        growth::kept_answer(
            s,
            semantics::grid_stacking(name, slots, span, s),
            semantics::grid_stacking(name, slots, span, growth::session(s, grow)),
            grow,
        ),
{
    reveal(semantics::grid_stacking);
    reveal(semantics::grid_columns);
    reveal(semantics::grid_gaps);
    reveal(semantics::stacked_axes);
    let alignment = semantics::or_default(
        slots[1],
        ValueView::Enum(IrEnumValue::StackedMainAxisAlignment(IrMainAxisAlignment::Center)),
        span,
    );
    let cross = semantics::or_default(
        slots[2],
        ValueView::Enum(IrEnumValue::StackedCrossAxisAlignment(IrCrossAxisAlignment::Center)),
        span,
    );
    lemma_grid_columns(name, slots[0], span, s, grow);
    match semantics::grid_columns(name, slots[0], span, s) {
        (None, t) => {},
        (Some(columns), t) => {
            lemma_stacked_axes(name, alignment, cross, t, grow);
            match semantics::stacked_axes(name, alignment, cross, t) {
                (None, u) => {},
                (Some((main, cross)), u) => {
                    lemma_grid_gaps(name, slots, span, u, grow);
                },
            }
        },
    }
}

/// What `grid_gaps` comes to is kept.
pub(crate) proof fn lemma_grid_gaps(
    name: Seq<char>,
    slots: Seq<Option<ArgumentView>>,
    span: SourceSpan,
    s: SessionView,
    grow: Growth,
)
    ensures
        growth::kept_answer(
            s,
            semantics::grid_gaps(name, slots, span, s),
            semantics::grid_gaps(name, slots, span, growth::session(s, grow)),
            grow,
        ),
{
    reveal(semantics::grid_gaps);
    reveal(semantics::stacked_gap);
    lemma_stacked_gap(
        name,
        "gap"@,
        semantics::or_default(slots[3], ValueView::Nothing, span),
        s,
        grow,
    );
    match semantics::stacked_gap(
        name,
        "gap"@,
        semantics::or_default(slots[3], ValueView::Nothing, span),
        s,
    ) {
        (None, t) => {},
        (Some(gap), t) => {
            lemma_stacked_gap(
                name,
                "vgap"@,
                semantics::or_default(slots[4], ValueView::Nothing, span),
                t,
                grow,
            );
            match semantics::stacked_gap(
                name,
                "vgap"@,
                semantics::or_default(slots[4], ValueView::Nothing, span),
                t,
            ) {
                (None, u) => {},
                (Some(vgap), u) => {
                    lemma_stacked_gap(
                        name,
                        "hgap"@,
                        semantics::or_default(slots[5], ValueView::Nothing, span),
                        u,
                        grow,
                    );
                },
            }
        },
    }
}

/// What `eval_stacked` comes to is kept.
pub(crate) proof fn lemma_eval_stacked(e: Evaluator, call: CallView, f: nat, w: World, grow: Growth)
    requires
        growth::fits(e, grow),
    ensures
        growth::kept(
            w,
            semantics::eval_stacked(e, call, f, w),
            semantics::eval_stacked(
                growth::evaluator(e, grow),
                call,
                f + grow.depth,
                growth::world(w, grow),
            ),
            grow,
        ),
    decreases f, 6int, e, 0int,
{
    reveal(semantics::eval_stacked);
    reveal(semantics::grid_stacking);
    reveal(semantics::line_stacking);
    reveal(semantics::stacked_component);
    let grid = call.name == "grid"@;
    growth_values::lemma_call_arguments(e, call, f, w, grow);
    let args = semantics::call_arguments(e, call, f, w);
    match args.out {
        None => {},
        Some((values, named)) => {
            growth_helpers::lemma_stacked_parts(
                call.name,
                binding::arguments_of(values, call.positional, call.span),
                named,
                call.span,
                args.w.s,
                grow,
            );
            match binding::stacked_parts(
                call.name,
                binding::arguments_of(values, call.positional, call.span),
                named,
                call.span,
                args.w.s,
            ) {
                (Err(out), s) => {},
                (Ok(slots), s) => {
                    if grid {
                        lemma_grid_stacking(call.name, slots, call.span, s, grow);
                    } else {
                        lemma_line_stacking(call.name, slots, call.span, s, grow);
                    }
                    let chosen = if grid {
                        semantics::grid_stacking(call.name, slots, call.span, s)
                    } else {
                        semantics::line_stacking(call.name, slots, call.span, s)
                    };
                    match chosen {
                        (None, t) => {},
                        (Some(stacking), t) => {
                            lemma_stacked_component(e, call, stacking, f, args.w.on(t), grow);
                        },
                    }
                },
            }
        },
    }
}

/// What `stacked_component` comes to is kept.
pub(crate) proof fn lemma_stacked_component(
    e: Evaluator,
    call: CallView,
    stacking: Stacking,
    f: nat,
    w: World,
    grow: Growth,
)
    requires
        growth::fits(e, grow),
    ensures
        growth::kept(
            w,
            semantics::stacked_component(e, call, stacking, f, w),
            semantics::stacked_component(
                growth::evaluator(e, grow),
                call,
                stacking,
                f + grow.depth,
                growth::world(w, grow),
            ),
            grow,
        ),
    decreases f, 5int, e, 3int,
{
    reveal(semantics::stacked_component);
    reveal(semantics::children);
    match call.lambda {
        Some(list) => {},
        None => {
            lemma_children(
                e,
                call,
                Fault::StackedArgument,
                calls::parameter_message(call.name, "body"@, "Stacked layout is block-only"@),
                Some(calls::parameter_message(
                    call.name,
                    "body"@,
                    "A Markdown block body is required"@,
                )),
                f,
                w,
                grow,
            );
        },
    }
}

} // verus!
