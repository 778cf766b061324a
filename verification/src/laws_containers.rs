//! Laws of `.align`, `.container`, `.whitespace` and the stacked layouts as whole calls.

use vstd::prelude::*;

use crate::binding;
use crate::binding::Style;
use crate::host::{DomainValue, ReplyView, SessionView};
use crate::ir::{
    IrContainerAlignment, IrCrossAxisAlignment, IrEnumValue, IrMainAxisAlignment, IrStackedLayout,
    NodeView, SourceSpan, ValueView,
};
use crate::laws_arguments;
use crate::laws_binding;
use crate::laws_layout;
use crate::natives;
use crate::natives::NativeDispatchOwner;
use crate::semantics;
use crate::semantics::{BodyView, CallView, Evaluator, World};

verus! {

proof fn lemma_no_arguments(e: Evaluator, call: CallView, f: nat, w: World)
    requires
        call.positional.len() == 0,
        call.named.len() == 0,
    ensures
        ({
            let r = semantics::call_arguments(e, call, f, w);
            let args = r.out->0;
            &&& r.w == w
            &&& r.out is Some && args.0.len() == 0 && args.1.len() == 0
        }),
{
    laws_arguments::lemma_call_arguments(e, call, f, w);
    assert(call.positional =~= Seq::empty());
    assert(call.named =~= Seq::empty());
    laws_arguments::lemma_arguments_in_order(
        e,
        Seq::empty(),
        ValueView::Nothing,
        call.span,
        call.first_origin,
        f,
        w,
    );
    laws_arguments::lemma_named_arguments_in_order(
        e,
        Seq::empty(),
        crate::ir::NamedArgView {
            name: call.name,
            name_span: call.span,
            value: ValueView::Nothing,
            span: call.span,
        },
        call.span,
        f,
        w,
    );
}

/// `.container` without arguments holds the content of its body, without sizes, without an
/// alignment, and not over the full width.
pub proof fn lemma_plain_container(
    e: Evaluator,
    nodes: Seq<NodeView>,
    span: SourceSpan,
    f: nat,
    w: World,
)
    ensures
        ({
            let body = semantics::body_content(e, BodyView::Block(nodes), span, f, w);
            let r = semantics::eval_container(
                e,
                laws_layout::plain_block_call("container"@, nodes, span),
                f,
                w,
            );
            &&& r.w == body.w
            &&& body.out is None ==> r.out is Failed
            &&& body.out is Some ==> {
                let c = r.out->Value_0->Component_0;
                &&& r.out is Value && r.out->Value_0 is Component && c is Container
                &&& c->Container_0.children == body.out->0
                &&& c->Container_0.width is None && c->Container_0.height is None
                &&& !c->Container_0.full_width
                &&& c->Container_0.alignment is None
                &&& c->Container_0.span == span
            }
        }),
{
    reveal(semantics::eval_container);
    reveal(semantics::container_sizes);
    reveal(semantics::size_of);
    reveal(semantics::children);
    let call = laws_layout::plain_block_call("container"@, nodes, span);
    lemma_no_arguments(e, call, f, w);
    let args = semantics::call_arguments(e, call, f, w).out->0;
    let placed = binding::arguments_of(args.0, call.positional, span);
    assert(args.1 =~= Seq::empty());
    laws_binding::lemma_positional_bound(
        Style::Container,
        "container"@,
        binding::container_names(),
        "`.container` accepts at most three positional arguments"@,
        placed,
        span,
        w.s,
    );
    assert(w.on(w.s) == w);
}

/// `.container` without a body holds nothing.
pub proof fn lemma_empty_container(e: Evaluator, span: SourceSpan, f: nat, w: World)
    ensures
        ({
            let call = CallView {
                body: None,
                ..laws_layout::plain_block_call("container"@, Seq::empty(), span)
            };
            let r = semantics::eval_container(e, call, f, w);
            let c = r.out->Value_0->Component_0;
            &&& r.w == w
            &&& r.out is Value && r.out->Value_0 is Component && c is Container
            &&& c->Container_0.children.len() == 0
            &&& c->Container_0.span == span
        }),
{
    reveal(semantics::eval_container);
    reveal(semantics::container_sizes);
    reveal(semantics::size_of);
    reveal(semantics::children);
    let call = CallView {
        body: None,
        ..laws_layout::plain_block_call("container"@, Seq::empty(), span)
    };
    lemma_no_arguments(e, call, f, w);
    let args = semantics::call_arguments(e, call, f, w).out->0;
    let placed = binding::arguments_of(args.0, call.positional, span);
    assert(args.1 =~= Seq::empty());
    laws_binding::lemma_positional_bound(
        Style::Container,
        "container"@,
        binding::container_names(),
        "`.container` accepts at most three positional arguments"@,
        placed,
        span,
        w.s,
    );
    assert(w.on(w.s) == w);
}

/// `.align` puts the content of its body into a container of the full width with the alignment
/// that it is given.
pub proof fn lemma_aligned_container(
    e: Evaluator,
    word: Seq<char>,
    alignment: IrContainerAlignment,
    nodes: Seq<NodeView>,
    span: SourceSpan,
    f: nat,
    w: World,
)
    requires
        w.s.pending is None,
        w.s.used < w.s.replies.len(),
        w.s.replies[w.s.used as int] == ReplyView::Domain(
            Ok(DomainValue::Enum(IrEnumValue::ContainerAlignment(alignment))),
        ),
    ensures
        ({
            let told = World { s: SessionView { used: w.s.used + 1, ..w.s }, c: w.c };
            let body = semantics::body_content(e, BodyView::Block(nodes), span, f, told);
            let call = CallView {
                positional: seq![ValueView::Identifier(word)],
                ..laws_layout::plain_block_call("align"@, nodes, span)
            };
            let r = semantics::eval_align(e, call, f, w);
            &&& r.w == body.w
            &&& body.out is None ==> r.out is Failed
            &&& body.out is Some ==> {
                let c = r.out->Value_0->Component_0;
                &&& r.out is Value && r.out->Value_0 is Component && c is Container
                &&& c->Container_0.children == body.out->0
                &&& c->Container_0.alignment == Some(alignment)
                &&& c->Container_0.full_width
                &&& c->Container_0.width is None && c->Container_0.height is None
                &&& c->Container_0.span == span
            }
        }),
{
    reveal(semantics::eval_align);
    reveal(semantics::children);
    let value = ValueView::Identifier(word);
    let call = CallView {
        positional: seq![value],
        ..laws_layout::plain_block_call("align"@, nodes, span)
    };
    laws_arguments::lemma_call_arguments(e, call, f, w);
    assert(call.positional =~= Seq::empty().push(value));
    laws_arguments::lemma_arguments_in_order(e, Seq::empty(), value, span, None, f, w);
    laws_arguments::lemma_named_arguments_in_order(
        e,
        Seq::empty(),
        crate::ir::NamedArgView { name: word, name_span: span, value, span },
        span,
        f,
        w,
    );
    let args = semantics::call_arguments(e, call, f, w).out->0;
    assert(args.1 =~= Seq::empty());
    let placed = binding::arguments_of(args.0, call.positional, span);
    laws_binding::lemma_positional_bound(
        Style::Align,
        "align"@,
        seq!["alignment"@],
        "`.align` accepts exactly one `alignment` argument"@,
        placed,
        span,
        w.s,
    );
    let told = World { s: SessionView { used: w.s.used + 1, ..w.s }, c: w.c };
    assert(w.on(told.s) == told);
}

/// `.row` and `.column` without arguments stack the content of their bodies without gaps, with the
/// alignments that the host gives.
pub proof fn lemma_plain_stack(
    e: Evaluator,
    row: bool,
    main: IrMainAxisAlignment,
    cross: IrCrossAxisAlignment,
    nodes: Seq<NodeView>,
    span: SourceSpan,
    f: nat,
    w: World,
)
    requires
        laws_layout::axes_told(w.s, 0, main, cross),
    ensures
        ({
            let name = if row {
                "row"@
            } else {
                "column"@
            };
            let told = World { s: SessionView { used: w.s.used + 2, ..w.s }, c: w.c };
            let body = semantics::body_content(e, BodyView::Block(nodes), span, f, told);
            let r = semantics::eval_stacked(
                e,
                laws_layout::plain_block_call(name, nodes, span),
                f,
                w,
            );
            &&& r.w == body.w
            &&& body.out is None ==> r.out is Failed
            &&& body.out is Some ==> {
                let c = r.out->Value_0->Component_0;
                &&& r.out is Value && r.out->Value_0 is Component && c is Stacked
                &&& c->Stacked_0.children == body.out->0
                &&& c->Stacked_0.layout == (if row {
                    IrStackedLayout::Row
                } else {
                    IrStackedLayout::Column
                })
                &&& c->Stacked_0.main_axis_alignment == main
                &&& c->Stacked_0.cross_axis_alignment == cross
                &&& c->Stacked_0.row_gap is None && c->Stacked_0.column_gap is None
                &&& c->Stacked_0.span == span
            }
        }),
{
    reveal(semantics::eval_stacked);
    let name = if row {
        "row"@
    } else {
        "column"@
    };
    let call = laws_layout::plain_block_call(name, nodes, span);
    reveal_strlit("row");
    reveal_strlit("column");
    reveal_strlit("grid");
    assert(name != "grid"@) by {
        if row {
            assert("row"@.len() != "grid"@.len());
        } else {
            assert("column"@.len() != "grid"@.len());
        }
    }
    let owned = natives::native_names(NativeDispatchOwner::StackedLayout);
    assert(owned[0] == "row"@ && owned[1] == "column"@);
    assert(owned.contains(owned[0]) && owned.contains(owned[1]));
    lemma_no_arguments(e, call, f, w);
    let args = semantics::call_arguments(e, call, f, w).out->0;
    assert(args.1 =~= Seq::empty());
    let placed = binding::arguments_of(args.0, call.positional, span);
    laws_binding::lemma_positional_bound(
        Style::Stacked,
        name,
        binding::stacked_names(false),
        "`."@ + name + "` parameter `positional`: too many positional arguments"@,
        placed,
        span,
        w.s,
    );
    let slots = binding::stacked_parts(name, placed, args.1, span, w.s).0->Ok_0;
    laws_layout::lemma_line_stacking(
        slots,
        main,
        cross,
        semantics::zero_size(),
        span,
        w.s,
    );
    let told = World { s: SessionView { used: w.s.used + 2, ..w.s }, c: w.c };
    assert(w.on(told.s) == told);
    laws_layout::lemma_stacked_children(
        e,
        name,
        nodes,
        semantics::line_stacking(name, slots, span, w.s).0->0,
        span,
        f,
        told,
    );
}

} // verus!
