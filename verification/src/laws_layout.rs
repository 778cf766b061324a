//! Laws of layout: what the layout calls build from their arguments and their bodies.

use vstd::prelude::*;

use crate::binding::ArgumentView;
use crate::host::{
    ClosedEnumTarget, DomainTarget, DomainValue, InvocationValueView, QueryView, ReplyView,
    ScalarValueView, SessionView, ValueOrigin,
};
use crate::ir::{
    InlineView, IrContainerAlignment, IrCrossAxisAlignment, IrEnumValue, IrMainAxisAlignment,
    IrSize, IrSizeUnit, IrStackedLayout, NodeView, SourceSpan, ValueView,
};
use crate::number::Number;
use crate::outcome::OutcomeView;
use crate::semantics;
use crate::semantics::{BodyView, CallView, Evaluator, Stacking, World};

verus! {

/// A call with a block body and nothing else.
pub open spec fn plain_block_call(
    name: Seq<char>,
    nodes: Seq<NodeView>,
    span: SourceSpan,
) -> CallView {
    CallView {
        name,
        positional: Seq::empty(),
        named: Seq::empty(),
        lambda: None,
        body: Some(BodyView::Block(nodes)),
        span,
        first_origin: None,
    }
}

/// `.center` puts the content of its body into a centered container of the full width, and
/// `.landscape` into a landscape page; both stand where the call stands.
pub proof fn lemma_body_wrapped(
    e: Evaluator,
    nodes: Seq<NodeView>,
    span: SourceSpan,
    f: nat,
    w: World,
)
    ensures
        ({
            let body = semantics::body_content(e, BodyView::Block(nodes), span, f, w);
            let center = semantics::eval_center(
                e,
                plain_block_call("center"@, nodes, span),
                f,
                w,
            );
            let landscape = semantics::eval_landscape(
                e,
                plain_block_call("landscape"@, nodes, span),
                f,
                w,
            );
            &&& center.w == body.w && landscape.w == body.w
            &&& body.out is None ==> center.out is Failed && landscape.out is Failed
            &&& body.out is Some ==> {
                let c = center.out->Value_0->Component_0;
                let l = landscape.out->Value_0->Component_0;
                &&& center.out is Value && center.out->Value_0 is Component && c is Container
                &&& c->Container_0.children == body.out->0
                &&& c->Container_0.alignment == Some(IrContainerAlignment::Center)
                &&& c->Container_0.full_width
                &&& c->Container_0.width is None && c->Container_0.height is None
                &&& c->Container_0.span == span
                &&& landscape.out is Value && landscape.out->Value_0 is Component
                &&& l is Landscape
                &&& l->Landscape_0.children == body.out->0
                &&& l->Landscape_0.span == span
            }
        }),
{
    reveal(semantics::eval_center);
    reveal(semantics::eval_landscape);
    reveal(semantics::children);
    reveal(semantics::bare_call_error);
}

/// `.br` is one hard line break.
pub proof fn lemma_line_break(name: Seq<char>, span: SourceSpan, w: World)
    ensures
        ({
            let call = CallView {
                name,
                positional: Seq::empty(),
                named: Seq::empty(),
                lambda: None,
                body: None,
                span,
                first_origin: None,
            };
            let r = semantics::eval_br(call, w);
            &&& r.w == w
            &&& r.out == OutcomeView::Value(
                ValueView::Content(
                    seq![
                        NodeView::Paragraph {
                            content: seq![InlineView::HardBreak { span }],
                            span,
                        },
                    ],
                ),
            )
        }),
{
    reveal(semantics::eval_br);
    reveal(semantics::bare_call_error);
}

/// Whether the host answers a question for a size with a size.
pub open spec fn size_told(s: SessionView, k: nat, size: IrSize) -> bool {
    &&& s.pending is None
    &&& s.used + k < s.replies.len()
    &&& s.replies[(s.used + k) as int] == ReplyView::Domain(Ok(DomainValue::Size(size)))
}

/// An argument that has a value.
pub open spec fn argument_given(slot: Option<ArgumentView>) -> bool {
    slot is Some && !(slot->0.value.value is Nothing)
}

/// `.whitespace` has the width and the height that it is given. Where only one of them is given
/// the other is no size at all, and without either it has none.
pub proof fn lemma_whitespace_sizes(
    call: CallView,
    width: Option<ArgumentView>,
    height: Option<ArgumentView>,
    a: IrSize,
    b: IrSize,
    w: World,
)
    requires
        call.lambda is None,
        call.body is None,
    ensures
        ({
            let zero = IrSize { value: Number { bits: 0 }, unit: IrSizeUnit::Px };
            let one = World { s: SessionView { used: w.s.used + 1, ..w.s }, c: w.c };
            let two = World { s: SessionView { used: w.s.used + 2, ..w.s }, c: w.c };
            let r = semantics::whitespace_sizes(call, seq![width, height], w);
            &&& width is None && height is None ==> r.w == w && r.out == whitespace(
                None,
                None,
                call.span,
            )
            &&& argument_given(width) && height is None && size_told(w.s, 0, a) ==> r.w == one
                && r.out == whitespace(Some(a), Some(zero), call.span)
            &&& width is None && argument_given(height) && size_told(w.s, 0, b) ==> r.w == one
                && r.out == whitespace(Some(zero), Some(b), call.span)
            &&& argument_given(width) && argument_given(height) && size_told(w.s, 0, a)
                && size_told(w.s, 1, b) ==> r.w == two && r.out == whitespace(
                Some(a),
                Some(b),
                call.span,
            )
        }),
{
    reveal(semantics::whitespace_sizes);
    reveal(semantics::size_of);
}

/// A space of a width and a height.
pub open spec fn whitespace(
    width: Option<IrSize>,
    height: Option<IrSize>,
    span: SourceSpan,
) -> OutcomeView {
    OutcomeView::Value(
        ValueView::Content(
            seq![
                NodeView::Paragraph {
                    content: seq![InlineView::Whitespace { width, height, span }],
                    span,
                },
            ],
        ),
    )
}

/// A container has the width and the height that it is given, and takes the full width where it
/// is told to; without arguments it has no sizes and does not take the full width.
pub proof fn lemma_container_sizes(
    width: Option<ArgumentView>,
    height: Option<ArgumentView>,
    full: Option<ArgumentView>,
    a: IrSize,
    b: IrSize,
    truth: bool,
    s: SessionView,
)
    ensures
        semantics::container_sizes(seq![None, None, None], s) == (
            Some((None::<IrSize>, None::<IrSize>, false)),
            s,
        ),
        argument_given(width) && argument_given(height) && full is None && size_told(s, 0, a)
            && size_told(s, 1, b) ==> semantics::container_sizes(seq![width, height, full], s) == (
            Some((Some(a), Some(b), false)),
            SessionView { used: s.used + 2, ..s },
        ),
        width is None && height is None && full is Some && s.pending is None && s.used
            < s.replies.len() && s.replies[s.used as int] == ReplyView::Scalar(
            Ok(ScalarValueView::Boolean(truth)),
        ) ==> semantics::container_sizes(seq![width, height, full], s) == (
            Some((None::<IrSize>, None::<IrSize>, truth)),
            SessionView { used: s.used + 1, ..s },
        ),
{
    reveal(semantics::container_sizes);
    reveal(semantics::size_of);
}

/// Whether the host answers two questions for alignments.
pub open spec fn axes_told(
    s: SessionView,
    k: nat,
    main: IrMainAxisAlignment,
    cross: IrCrossAxisAlignment,
) -> bool {
    &&& s.pending is None
    &&& s.used + k + 1 < s.replies.len()
    &&& s.replies[(s.used + k) as int] == ReplyView::Domain(
        Ok(DomainValue::Enum(IrEnumValue::StackedMainAxisAlignment(main))),
    )
    &&& s.replies[(s.used + k + 1) as int] == ReplyView::Domain(
        Ok(DomainValue::Enum(IrEnumValue::StackedCrossAxisAlignment(cross))),
    )
}

/// `.row` keeps its gap between columns and `.column` between rows; both have the alignments that
/// they are given.
pub proof fn lemma_line_stacking(
    slots: Seq<Option<ArgumentView>>,
    main: IrMainAxisAlignment,
    cross: IrCrossAxisAlignment,
    gap: IrSize,
    span: SourceSpan,
    s: SessionView,
)
    requires
        slots.len() == 3,
        axes_told(s, 0, main, cross),
    ensures
        argument_given(slots[2]) && size_told(s, 2, gap) ==> {
            let after = SessionView { used: s.used + 3, ..s };
            &&& semantics::line_stacking("row"@, slots, span, s) == (
                Some(
                    Stacking {
                        layout: IrStackedLayout::Row,
                        main,
                        cross,
                        row_gap: None,
                        column_gap: Some(gap),
                    },
                ),
                after,
            )
            &&& semantics::line_stacking("column"@, slots, span, s) == (
                Some(
                    Stacking {
                        layout: IrStackedLayout::Column,
                        main,
                        cross,
                        row_gap: Some(gap),
                        column_gap: None,
                    },
                ),
                after,
            )
        },
        slots[2] is None ==> {
            let after = SessionView { used: s.used + 2, ..s };
            &&& semantics::line_stacking("row"@, slots, span, s) == (
                Some(
                    Stacking {
                        layout: IrStackedLayout::Row,
                        main,
                        cross,
                        row_gap: None,
                        column_gap: None,
                    },
                ),
                after,
            )
            &&& semantics::line_stacking("column"@, slots, span, s) == (
                Some(
                    Stacking {
                        layout: IrStackedLayout::Column,
                        main,
                        cross,
                        row_gap: None,
                        column_gap: None,
                    },
                ),
                after,
            )
        },
{
    reveal(semantics::line_stacking);
    reveal(semantics::stacked_axes);
    reveal(semantics::stacked_gap);
    reveal_strlit("row");
    reveal_strlit("column");
    assert("row"@.len() != "column"@.len());
}

/// An argument that is not given stands for the start of the main axis of a row or a column, for
/// its center in a grid, and for the center of the cross axis.
pub proof fn lemma_default_axes(
    name: Seq<char>,
    columns: ArgumentView,
    count: i32,
    span: SourceSpan,
    s: SessionView,
)
    requires
        s.pending is None,
    ensures
        s.used >= s.replies.len() ==> semantics::line_stacking(
            name,
            seq![None, None, None],
            span,
            s,
        ).1.pending == Some(
            QueryView::Domain {
                argument: InvocationValueView {
                    value: ValueView::Enum(
                        IrEnumValue::StackedMainAxisAlignment(IrMainAxisAlignment::Start),
                    ),
                    origin: ValueOrigin::Static,
                },
                target: DomainTarget::ClosedEnum(ClosedEnumTarget::StackedMainAxisAlignment),
            },
        ),
        s.used + 1 == s.replies.len() && s.replies[s.used as int] == ReplyView::Domain(
            Ok(
                DomainValue::Enum(
                    IrEnumValue::StackedMainAxisAlignment(IrMainAxisAlignment::Start),
                ),
            ),
        ) ==> semantics::line_stacking(name, seq![None, None, None], span, s).1.pending == Some(
            QueryView::Domain {
                argument: InvocationValueView {
                    value: ValueView::Enum(
                        IrEnumValue::StackedCrossAxisAlignment(IrCrossAxisAlignment::Center),
                    ),
                    origin: ValueOrigin::Static,
                },
                target: DomainTarget::ClosedEnum(ClosedEnumTarget::StackedCrossAxisAlignment),
            },
        ),
        s.used + 1 == s.replies.len() && s.replies[s.used as int] == ReplyView::Integer(Ok(count))
            && count > 0 ==> semantics::grid_stacking(
            name,
            seq![Some(columns), None, None, None, None, None],
            span,
            s,
        ).1.pending == Some(
            QueryView::Domain {
                argument: InvocationValueView {
                    value: ValueView::Enum(
                        IrEnumValue::StackedMainAxisAlignment(IrMainAxisAlignment::Center),
                    ),
                    origin: ValueOrigin::Static,
                },
                target: DomainTarget::ClosedEnum(ClosedEnumTarget::StackedMainAxisAlignment),
            },
        ),
{
    reveal(semantics::grid_gaps);
    reveal(semantics::line_stacking);
    reveal(semantics::grid_stacking);
    reveal(semantics::grid_columns);
    reveal(semantics::stacked_axes);
    reveal(semantics::stacked_gap);
}

/// A grid has the number of columns that it is given, which must be positive. Its `vgap` lies
/// between rows and its `hgap` between columns, and `gap` stands for either that is left out.
pub proof fn lemma_grid_stacking(
    name: Seq<char>,
    columns: ArgumentView,
    count: i32,
    gap: Option<ArgumentView>,
    vgap: Option<ArgumentView>,
    hgap: Option<ArgumentView>,
    g: IrSize,
    v: IrSize,
    h: IrSize,
    main: IrMainAxisAlignment,
    cross: IrCrossAxisAlignment,
    span: SourceSpan,
    s: SessionView,
)
    requires
        s.pending is None,
        s.used < s.replies.len(),
        s.replies[s.used as int] == ReplyView::Integer(Ok(count)),
        count > 0 ==> axes_told(s, 1, main, cross),
    ensures
        ({
            let slots = seq![Some(columns), None, None, gap, vgap, hgap];
            let r = semantics::grid_stacking(name, slots, span, s);
            &&& count <= 0 ==> r.0 is None && r.1.diagnostics.len() == s.diagnostics.len() + 1
            &&& count > 0 && gap is None && vgap is None && hgap is None ==> r.0 == Some(
                grid(count as u32, main, cross, None, None),
            )
            &&& count > 0 && argument_given(gap) && vgap is None && hgap is None && size_told(
                s,
                3,
                g,
            ) ==> r.0 == Some(grid(count as u32, main, cross, Some(g), Some(g)))
            &&& count > 0 && gap is None && argument_given(vgap) && hgap is None && size_told(
                s,
                3,
                v,
            ) ==> r.0 == Some(grid(count as u32, main, cross, Some(v), None))
            &&& count > 0 && gap is None && vgap is None && argument_given(hgap) && size_told(
                s,
                3,
                h,
            ) ==> r.0 == Some(grid(count as u32, main, cross, None, Some(h)))
            &&& count > 0 && argument_given(gap) && argument_given(vgap) && argument_given(hgap)
                && size_told(s, 3, g) && size_told(s, 4, v) && size_told(s, 5, h) ==> r.0 == Some(
                grid(count as u32, main, cross, Some(v), Some(h)),
            )
        }),
{
    reveal(semantics::grid_stacking);
    reveal(semantics::grid_columns);
    reveal(semantics::grid_gaps);
    reveal(semantics::stacked_axes);
    reveal(semantics::stacked_gap);
}

/// How a grid with gaps between its rows and between its columns places its children.
pub open spec fn grid(
    columns: u32,
    main: IrMainAxisAlignment,
    cross: IrCrossAxisAlignment,
    between_rows: Option<IrSize>,
    between_columns: Option<IrSize>,
) -> Stacking {
    Stacking {
        layout: IrStackedLayout::Grid { columns },
        main,
        cross,
        row_gap: between_rows,
        column_gap: between_columns,
    }
}

/// A stacked component holds the content of its body, placed as it is told.
pub proof fn lemma_stacked_children(
    e: Evaluator,
    name: Seq<char>,
    nodes: Seq<NodeView>,
    stacking: Stacking,
    span: SourceSpan,
    f: nat,
    w: World,
)
    ensures
        ({
            let body = semantics::body_content(e, BodyView::Block(nodes), span, f, w);
            let r = semantics::stacked_component(
                e,
                plain_block_call(name, nodes, span),
                stacking,
                f,
                w,
            );
            &&& r.w == body.w
            &&& body.out is None ==> r.out is Failed
            &&& body.out is Some ==> {
                let c = r.out->Value_0->Component_0;
                &&& r.out is Value && r.out->Value_0 is Component && c is Stacked
                &&& c->Stacked_0.children == body.out->0
                &&& c->Stacked_0.layout == stacking.layout
                &&& c->Stacked_0.main_axis_alignment == stacking.main
                &&& c->Stacked_0.cross_axis_alignment == stacking.cross
                &&& c->Stacked_0.row_gap == stacking.row_gap
                &&& c->Stacked_0.column_gap == stacking.column_gap
                &&& c->Stacked_0.span == span
            }
        }),
{
    reveal(semantics::stacked_component);
    reveal(semantics::children);
}

} // verus!
