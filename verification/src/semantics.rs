//! What evaluating a document means.
//!
//! Each function here gives the result of evaluating a piece of a document together with the
//! world that it leaves: the session, and the scope it was evaluated in. `f` is the number of
//! evaluator frames that may still be entered. Most of these functions are opaque, so that a
//! proof unfolds only those that it reveals.

use vstd::prelude::*;

use crate::binding;
use crate::binding::{ArgumentView, Style};
use crate::calls;
use crate::calls::BoundView;
use crate::collection;
use crate::collection::KeyedView;
use crate::diagnostic;
use crate::diagnostic::{DiagnosticView, Fault};
use crate::dictionary;
use crate::host::{
    AccessErrorView, BuiltinBodyPolicy, ClosedEnumTarget, ConversionError, InvocationNamedView,
    InvocationValueView, ParseDiagnosticView, QueryView, SessionView, ValueOrigin,
};
use crate::ir::{
    CallSegmentView, CallableView, ComponentView, ContainerView, DictionaryView, InlineView,
    IrContainerAlignment, IrCrossAxisAlignment, IrEnumValue, IrMainAxisAlignment, IrRange, IrSize,
    IrSizeUnit, IrStackedLayout, LandscapeView, ListItemView, NamedArgView, NativeTarget, NodeView,
    PairView, ParameterView, SourceId, SourceSpan, StackedView, TableCellView, TableRowView,
    TargetContentView, ValueView,
};
use crate::json;
use crate::limits::{Capabilities, Capability, EvaluationLimits};
use crate::lines;
use crate::materialize;
use crate::metadata;
use crate::metadata::{DocumentStateView, DocumentView, MetadataView};
use crate::native;
use crate::natives;
use crate::natives::NativeDispatchOwner;
use crate::number::Number;
use crate::outcome::OutcomeView;
use crate::resources;
use crate::resources::IncludeSandbox;
use crate::scope;
use crate::scope::{ContextView, FunctionBindingView, LambdaParametersView, LambdaScopeView};
use crate::text;

verus! {

/// Evaluates documents with the given capabilities and limits.
#[derive(Debug, Clone, Copy, PartialEq, Eq, Structural)]
pub struct Evaluator {
    pub capabilities: Capabilities,
    pub limits: EvaluationLimits,
}

/// The state of an evaluation: its session, and the scope at the current place.
pub struct World {
    pub s: SessionView,
    pub c: ContextView,
}

/// What an evaluation gives, and the world that it leaves.
pub struct Ev<A> {
    pub out: A,
    pub w: World,
}

/// The body of a call.
#[verifier::ext_equal]
pub enum BodyView {
    Block(Seq<NodeView>),
    Inline(Seq<InlineView>),
}

/// A call.
#[verifier::ext_equal]
pub struct CallView {
    pub name: Seq<char>,
    pub positional: Seq<ValueView>,
    pub named: Seq<NamedArgView>,
    pub lambda: Option<Seq<ParameterView>>,
    pub body: Option<BodyView>,
    pub span: SourceSpan,
    /// Where the first positional value comes from, where a chain passes it on.
    pub first_origin: Option<ValueOrigin>,
}

impl World {
    /// The world with another session.
    pub open spec fn on(self, s: SessionView) -> World {
        World { s, c: self.c }
    }

    /// The world once an error of a family has been reported.
    pub open spec fn fault(self, fault: Fault, message: Seq<char>, span: SourceSpan) -> World {
        self.on(self.s.fault(fault, message, span))
    }

    /// The world once an error with its own code and hint has been reported.
    pub open spec fn complaint(
        self,
        code: Seq<char>,
        message: Seq<char>,
        span: SourceSpan,
        hint: Seq<char>,
    ) -> World {
        self.on(self.s.complaint(code, message, span, hint))
    }

    /// The world once a value has been assigned to a name.
    pub open spec fn assign(self, name: Seq<char>, value: ValueView) -> World {
        World { s: self.s, c: self.c.assign(name, value) }
    }

    /// How much has been reported.
    pub open spec fn reported(self) -> nat {
        self.s.diagnostics.len()
    }
}

/// A call that gave a value.
pub open spec fn gives(value: ValueView, w: World) -> Ev<OutcomeView> {
    Ev { out: OutcomeView::Value(value), w }
}

/// A call that failed.
pub open spec fn failed(w: World) -> Ev<OutcomeView> {
    Ev { out: OutcomeView::Failed, w }
}

/// A call that failed with an error of a family.
pub open spec fn fails(w: World, fault: Fault, message: Seq<char>, span: SourceSpan) -> Ev<
    OutcomeView,
> {
    failed(w.fault(fault, message, span))
}

/// A step that gave nothing.
pub open spec fn nothing<A>(w: World) -> Ev<Option<A>> {
    Ev { out: None, w }
}

/// A step that gave something.
pub open spec fn something<A>(a: A, w: World) -> Ev<Option<A>> {
    Ev { out: Some(a), w }
}

/// What is said of a call without a value where one is needed.
pub open spec fn no_value_message() -> Seq<char> {
    "Call produced no value where a value is required for semantic composition"@
}

/// The world once a call that should give a value gave none.
pub open spec fn no_value(w: World, span: SourceSpan) -> World {
    w.fault(Fault::Chain, no_value_message(), span)
}

/// What is said where no frame is left.
pub open spec fn depth_message(limit: nat) -> Seq<char> {
    "evaluation depth limit exceeded: maximum is "@ + text::decimal_text(limit)
        + " active evaluator frame(s)"@
}

/// The call that a block is.
pub open spec fn call_of_node(node: NodeView) -> CallView {
    match node {
        NodeView::FunctionCall {
            name,
            positional_args,
            named_args,
            lambda_parameters,
            body,
            span,
        } => CallView {
            name,
            positional: positional_args,
            named: named_args,
            lambda: lambda_parameters,
            body: match body {
                Some(nodes) => Some(BodyView::Block(nodes)),
                None => None,
            },
            span,
            first_origin: None,
        },
        _ => arbitrary(),
    }
}

/// The call that an inline is.
pub open spec fn call_of_inline(inline: InlineView) -> CallView {
    match inline {
        InlineView::DirectiveCall { name, positional_args, named_args, body, span } => CallView {
            name,
            positional: positional_args,
            named: named_args,
            lambda: None,
            body: match body {
                Some(inlines) => Some(BodyView::Inline(inlines)),
                None => None,
            },
            span,
            first_origin: None,
        },
        _ => arbitrary(),
    }
}

/// The call that a segment of a chain is, given the value it receives.
pub open spec fn call_of_segment(
    segment: CallSegmentView,
    received: Option<(ValueView, ValueOrigin)>,
    body: Option<BodyView>,
) -> CallView {
    CallView {
        name: segment.name,
        positional: match received {
            Some((value, _)) => seq![value] + segment.positional_args,
            None => segment.positional_args,
        },
        named: segment.named_args,
        lambda: None,
        body,
        span: segment.span,
        first_origin: match received {
            Some((_, origin)) => Some(origin),
            None => None,
        },
    }
}

/// A value as blocks: what a call leaves in a document.
#[verifier::opaque]
pub open spec fn block_outcome(out: OutcomeView, span: SourceSpan, w: World) -> Ev<Seq<NodeView>> {
    match out {
        OutcomeView::Value(value) => match materialize::content_nodes(value, span, w.s) {
            (Some(nodes), s) => Ev { out: nodes, w: w.on(s) },
            (None, s) => Ev { out: Seq::empty(), w: w.on(s) },
        },
        _ => Ev { out: Seq::empty(), w },
    }
}

/// A value as inlines: what a call leaves in a line.
#[verifier::opaque]
pub open spec fn inline_outcome(out: OutcomeView, span: SourceSpan, w: World) -> Ev<
    Seq<InlineView>,
> {
    match out {
        OutcomeView::Value(value) => {
            let (inlines, s) = materialize::inline_content(value, span, w.s);
            Ev { out: inlines, w: w.on(s) }
        },
        _ => Ev { out: Seq::empty(), w },
    }
}

/// The blocks that blocks evaluate to, from the first on.
#[verifier::opaque]
pub open spec fn eval_nodes(e: Evaluator, nodes: Seq<NodeView>, f: nat, w: World) -> Ev<
    Seq<NodeView>,
>
    decreases f, 4int, nodes, 0int,
{
    if nodes.len() == 0 {
        Ev { out: Seq::empty(), w }
    } else {
        let before = eval_nodes(e, nodes.drop_last(), f, w);
        let last = eval_node(e, nodes.last(), f, before.w);
        Ev { out: before.out + last.out, w: last.w }
    }
}

/// The blocks that a block evaluates to.
#[verifier::opaque]
pub open spec fn eval_node(e: Evaluator, node: NodeView, f: nat, w: World) -> Ev<Seq<NodeView>>
    decreases f, 4int, node, 2int,
{
    match node {
        NodeView::FunctionDeclaration { name, parameters, body, span } => Ev {
            out: Seq::empty(),
            w: declare_function(name, parameters, body, span, w),
        },
        NodeView::FunctionCall { span, .. } => {
            let r = eval_call(e, call_of_node(node), f, w);
            if r.out is Unresolved {
                let kept = preserve_call(e, node, f, r.w);
                match kept.out {
                    Some(nodes) => Ev { out: nodes, w: kept.w },
                    None => Ev { out: Seq::empty(), w: kept.w },
                }
            } else {
                block_outcome(r.out, span, r.w)
            }
        },
        NodeView::ChainedFunctionCall { head, chain, body, span } => {
            let r = eval_chain(
                e,
                head,
                chain,
                match body {
                    Some(nodes) => Some(BodyView::Block(nodes)),
                    None => None,
                },
                f,
                w,
            );
            block_outcome(r.out, span, r.w)
        },
        NodeView::Heading { level, content, span } => {
            let r = eval_inlines(e, content, f, w);
            Ev { out: seq![NodeView::Heading { level, content: r.out, span }], w: r.w }
        },
        NodeView::Paragraph { content, span } => {
            let r = eval_inlines(e, content, f, w);
            Ev { out: seq![NodeView::Paragraph { content: r.out, span }], w: r.w }
        },
        NodeView::Blockquote { content, span } => {
            let r = eval_nodes(e, content, f, w);
            Ev { out: seq![NodeView::Blockquote { content: r.out, span }], w: r.w }
        },
        NodeView::UnorderedList { items, span } => {
            let r = eval_items(e, items, f, w);
            Ev { out: seq![NodeView::UnorderedList { items: r.out, span }], w: r.w }
        },
        NodeView::OrderedList { items, start, span } => {
            let r = eval_items(e, items, f, w);
            Ev { out: seq![NodeView::OrderedList { items: r.out, start, span }], w: r.w }
        },
        NodeView::Table { header, rows, span } => {
            let first = eval_row(e, header, f, w);
            let r = eval_rows(e, rows, f, first.w);
            Ev { out: seq![NodeView::Table { header: first.out, rows: r.out, span }], w: r.w }
        },
        NodeView::RawHtml { span, .. } => Ev { out: Seq::empty(), w: raw_html(w, span) },
        _ => Ev { out: seq![node], w },
    }
}

/// The world once raw HTML has been met where it may not be.
pub open spec fn raw_html(w: World, span: SourceSpan) -> World {
    w.fault(
        Fault::RawHtml,
        "Raw HTML is unsupported outside an owning target-specific function argument"@,
        span,
    )
}

/// List items, evaluated from the first on.
#[verifier::opaque]
pub open spec fn eval_items(e: Evaluator, items: Seq<ListItemView>, f: nat, w: World) -> Ev<
    Seq<ListItemView>,
>
    decreases f, 4int, items, 0int,
{
    if items.len() == 0 {
        Ev { out: Seq::empty(), w }
    } else {
        let before = eval_items(e, items.drop_last(), f, w);
        let item = items.last();
        let r = eval_nodes(e, item.nodes, f, before.w);
        Ev {
            out: before.out.push(
                ListItemView { nodes: r.out, task: item.task, span: item.span },
            ),
            w: r.w,
        }
    }
}

/// Table rows, evaluated from the first on.
#[verifier::opaque]
pub open spec fn eval_rows(e: Evaluator, rows: Seq<TableRowView>, f: nat, w: World) -> Ev<
    Seq<TableRowView>,
>
    decreases f, 4int, rows, 0int,
{
    if rows.len() == 0 {
        Ev { out: Seq::empty(), w }
    } else {
        let before = eval_rows(e, rows.drop_last(), f, w);
        let r = eval_row(e, rows.last(), f, before.w);
        Ev { out: before.out.push(r.out), w: r.w }
    }
}

/// A table row, evaluated.
#[verifier::opaque]
pub open spec fn eval_row(e: Evaluator, row: TableRowView, f: nat, w: World) -> Ev<TableRowView>
    decreases f, 4int, row, 0int,
{
    let r = eval_cells(e, row.cells, f, w);
    Ev { out: TableRowView { cells: r.out, span: row.span }, w: r.w }
}

/// Table cells, evaluated from the first on.
#[verifier::opaque]
pub open spec fn eval_cells(e: Evaluator, cells: Seq<TableCellView>, f: nat, w: World) -> Ev<
    Seq<TableCellView>,
>
    decreases f, 4int, cells, 0int,
{
    if cells.len() == 0 {
        Ev { out: Seq::empty(), w }
    } else {
        let before = eval_cells(e, cells.drop_last(), f, w);
        let cell = cells.last();
        let r = eval_inlines(e, cell.content, f, before.w);
        Ev {
            out: before.out.push(
                TableCellView { content: r.out, alignment: cell.alignment, span: cell.span },
            ),
            w: r.w,
        }
    }
}

/// The inlines that inlines evaluate to, from the first on.
#[verifier::opaque]
pub open spec fn eval_inlines(e: Evaluator, inlines: Seq<InlineView>, f: nat, w: World) -> Ev<
    Seq<InlineView>,
>
    decreases f, 4int, inlines, 0int,
{
    if inlines.len() == 0 {
        Ev { out: Seq::empty(), w }
    } else {
        let before = eval_inlines(e, inlines.drop_last(), f, w);
        let last = eval_inline(e, inlines.last(), f, before.w);
        Ev { out: before.out + last.out, w: last.w }
    }
}

/// The block-only call that a name stands for in a line, if it is one.
#[verifier::opaque]
pub open spec fn block_only(name: Seq<char>, c: ContextView) -> Option<(Fault, Seq<char>)> {
    if natives::owns(NativeDispatchOwner::StackedLayout, name) {
        Some((Fault::StackedInline, "Stacked layout is block-only"@))
    } else if scope::visible_function(c, name) is Some {
        None
    } else if natives::owns(NativeDispatchOwner::Center, name) {
        Some((Fault::CenterInline, "`.center` is block-only"@))
    } else if natives::owns(NativeDispatchOwner::Align, name) {
        Some((Fault::AlignInline, "`.align` is block-only"@))
    } else if natives::owns(NativeDispatchOwner::Container, name) {
        Some((Fault::ContainerInline, "`.container` is block-only"@))
    } else if natives::owns(NativeDispatchOwner::Landscape, name) {
        Some((Fault::LandscapeInline, "`.landscape` is block-only"@))
    } else {
        None
    }
}

/// The inlines that an inline evaluates to.
#[verifier::opaque]
pub open spec fn eval_inline(e: Evaluator, inline: InlineView, f: nat, w: World) -> Ev<
    Seq<InlineView>,
>
    decreases f, 4int, inline, 2int,
{
    match inline {
        InlineView::Emphasis { content, span } => {
            let r = eval_inlines(e, content, f, w);
            Ev { out: seq![InlineView::Emphasis { content: r.out, span }], w: r.w }
        },
        InlineView::Strong { content, span } => {
            let r = eval_inlines(e, content, f, w);
            Ev { out: seq![InlineView::Strong { content: r.out, span }], w: r.w }
        },
        InlineView::Strikethrough { content, span } => {
            let r = eval_inlines(e, content, f, w);
            Ev { out: seq![InlineView::Strikethrough { content: r.out, span }], w: r.w }
        },
        InlineView::Link { content, destination, title, span } => {
            let r = eval_inlines(e, content, f, w);
            Ev { out: seq![InlineView::Link { content: r.out, destination, title, span }], w: r.w }
        },
        InlineView::DirectiveCall { name, span, .. } => match block_only(name, w.c) {
            Some((fault, message)) => Ev { out: Seq::empty(), w: w.fault(fault, message, span) },
            None => {
                let r = eval_call(e, call_of_inline(inline), f, w);
                if r.out is Unresolved {
                    let kept = preserve_inline_call(e, inline, f, r.w);
                    match kept.out {
                        Some(inlines) => Ev { out: inlines, w: kept.w },
                        None => Ev { out: Seq::empty(), w: kept.w },
                    }
                } else {
                    inline_outcome(r.out, span, r.w)
                }
            },
        },
        InlineView::ChainedDirectiveCall { head, chain, body, span } => {
            let r = eval_chain(
                e,
                head,
                chain,
                match body {
                    Some(inlines) => Some(BodyView::Inline(inlines)),
                    None => None,
                },
                f,
                w,
            );
            inline_outcome(r.out, span, r.w)
        },
        InlineView::RawHtml { span, .. } => Ev { out: Seq::empty(), w: raw_html(w, span) },
        _ => Ev { out: seq![inline], w },
    }
}

/// Whether the blocks declare a function.
pub open spec fn declares(nodes: Seq<NodeView>) -> bool {
    exists|i: int| 0 <= i < nodes.len() && (#[trigger] nodes[i]) is FunctionDeclaration
}

/// What a value evaluates to.
#[verifier::opaque]
pub open spec fn eval_value(e: Evaluator, value: ValueView, f: nat, w: World) -> Ev<OutcomeView>
    decreases f, 4int, value, 1int,
{
    match value {
        ValueView::Content(nodes) => if nodes.len() == 1 && nodes[0] is FunctionCall {
            eval_call(e, call_of_node(nodes[0]), f, w)
        } else if nodes.len() == 1 && nodes[0] is ChainedFunctionCall {
            eval_chain_node(e, nodes[0], f, w)
        } else {
            let r = eval_nodes(e, nodes, f, w);
            if r.w.reported() != w.reported() {
                failed(r.w)
            } else if r.out.len() == 0 && declares(nodes) {
                Ev { out: OutcomeView::NoValue, w: r.w }
            } else {
                gives(ValueView::Content(r.out), r.w)
            }
        },
        ValueView::Callable(callable) => if callable.capture is Some {
            gives(value, w)
        } else {
            gives(
                ValueView::Callable(
                    CallableView {
                        capture: Some(Box::new(scope::capture_of(w.c))),
                        ..callable
                    },
                ),
                w,
            )
        },
        _ => gives(value, w),
    }
}

/// What a chain that stands as a block evaluates to.
#[verifier::opaque]
pub open spec fn eval_chain_node(e: Evaluator, node: NodeView, f: nat, w: World) -> Ev<OutcomeView>
    decreases f, 3int, e, 0int,
{
    match node {
        NodeView::ChainedFunctionCall { head, chain, body, .. } => eval_chain(
            e,
            head,
            chain,
            match body {
                Some(nodes) => Some(BodyView::Block(nodes)),
                None => None,
            },
            f,
            w,
        ),
        _ => failed(w),
    }
}

/// A value that stays as it is written, with what is inside it evaluated.
#[verifier::opaque]
pub open spec fn preserve_value(e: Evaluator, value: ValueView, f: nat, w: World) -> Ev<
    Option<ValueView>,
>
    decreases f, 4int, value, 0int,
{
    match value {
        ValueView::Content(nodes) => if nodes.len() == 1 && nodes[0] is FunctionCall {
            let r = preserve_call(e, nodes[0], f, w);
            match r.out {
                Some(nodes) => something(ValueView::Content(nodes), r.w),
                None => nothing(r.w),
            }
        } else {
            let r = eval_nodes(e, nodes, f, w);
            if r.w.reported() == w.reported() {
                something(ValueView::Content(r.out), r.w)
            } else {
                nothing(r.w)
            }
        },
        _ => match materialize::preservable(value, w.s) {
            (true, s) => something(value, w.on(s)),
            (false, s) => nothing(w.on(s)),
        },
    }
}

/// The value of an argument: nothing where it has none, and then that is reported.
#[verifier::opaque]
pub open spec fn required(
    e: Evaluator,
    value: ValueView,
    span: SourceSpan,
    f: nat,
    w: World,
) -> Ev<Option<ValueView>>
    decreases f, 4int, value, 2int,
{
    let r = eval_value(e, value, f, w);
    match r.out {
        OutcomeView::Value(v) => something(v, r.w),
        OutcomeView::Unresolved => preserve_value(e, value, f, r.w),
        OutcomeView::NoValue => nothing(no_value(r.w, materialize::value_span(value, span))),
        OutcomeView::Failed => nothing(r.w),
    }
}

/// The value of an argument of a call that is kept.
#[verifier::opaque]
pub open spec fn kept(
    e: Evaluator,
    value: ValueView,
    span: SourceSpan,
    f: nat,
    w: World,
) -> Ev<Option<ValueView>>
    decreases f, 4int, value, 2int,
{
    let r = eval_value(e, value, f, w);
    match r.out {
        OutcomeView::Value(v) => match materialize::preservable(v, r.w.s) {
            (true, s) => something(v, r.w.on(s)),
            (false, s) => nothing(r.w.on(s)),
        },
        OutcomeView::Unresolved => preserve_value(e, value, f, r.w),
        OutcomeView::NoValue => nothing(no_value(r.w, materialize::value_span(value, span))),
        OutcomeView::Failed => nothing(r.w),
    }
}

/// The values of arguments, from the first on.
#[verifier::opaque]
pub open spec fn eval_values(
    e: Evaluator,
    values: Seq<ValueView>,
    span: SourceSpan,
    f: nat,
    w: World,
) -> Ev<Option<Seq<ValueView>>>
    decreases f, 4int, values, 0int,
{
    if values.len() == 0 {
        something(Seq::empty(), w)
    } else {
        let before = eval_values(e, values.drop_last(), span, f, w);
        match before.out {
            None => nothing(before.w),
            Some(done) => {
                let r = required(e, values.last(), span, f, before.w);
                match r.out {
                    Some(v) => something(done.push(v), r.w),
                    None => nothing(r.w),
                }
            },
        }
    }
}

/// A named argument with another value.
pub open spec fn with_value(arg: NamedArgView, value: ValueView) -> NamedArgView {
    NamedArgView { value, ..arg }
}

/// The values of named arguments, from the first on.
#[verifier::opaque]
pub open spec fn eval_named(
    e: Evaluator,
    named: Seq<NamedArgView>,
    span: SourceSpan,
    f: nat,
    w: World,
) -> Ev<Option<Seq<NamedArgView>>>
    decreases f, 4int, named, 0int,
{
    if named.len() == 0 {
        something(Seq::empty(), w)
    } else {
        let before = eval_named(e, named.drop_last(), span, f, w);
        match before.out {
            None => nothing(before.w),
            Some(done) => {
                let r = required(e, named.last().value, span, f, before.w);
                match r.out {
                    Some(v) => something(done.push(with_value(named.last(), v)), r.w),
                    None => nothing(r.w),
                }
            },
        }
    }
}

/// The values of arguments and where they come from, from the first on.
#[verifier::opaque]
pub open spec fn invocation_values(
    e: Evaluator,
    values: Seq<ValueView>,
    span: SourceSpan,
    first_origin: Option<ValueOrigin>,
    f: nat,
    w: World,
) -> Ev<Option<Seq<InvocationValueView>>>
    decreases f, 4int, values, 0int,
{
    if values.len() == 0 {
        something(Seq::empty(), w)
    } else {
        let before = invocation_values(e, values.drop_last(), span, first_origin, f, w);
        match before.out {
            None => nothing(before.w),
            Some(done) => {
                let origin = if values.len() == 1 && first_origin is Some {
                    first_origin->0
                } else {
                    scope::argument_origin(before.w.c, values.last())
                };
                let r = required(e, values.last(), span, f, before.w);
                match r.out {
                    Some(value) => something(
                        done.push(InvocationValueView { value, origin }),
                        r.w,
                    ),
                    None => nothing(r.w),
                }
            },
        }
    }
}

/// The value of one argument and where it comes from.
#[verifier::opaque]
pub open spec fn invocation_value(
    e: Evaluator,
    value: ValueView,
    span: SourceSpan,
    first_origin: Option<ValueOrigin>,
    f: nat,
    w: World,
) -> Ev<Option<InvocationValueView>>
    decreases f, 4int, value, 3int,
{
    let origin = match first_origin {
        Some(origin) => origin,
        None => scope::argument_origin(w.c, value),
    };
    let r = required(e, value, span, f, w);
    match r.out {
        Some(value) => something(InvocationValueView { value, origin }, r.w),
        None => nothing(r.w),
    }
}

/// The values of named arguments and where they come from, from the first on.
#[verifier::opaque]
pub open spec fn invocation_named(
    e: Evaluator,
    named: Seq<NamedArgView>,
    span: SourceSpan,
    f: nat,
    w: World,
) -> Ev<Option<Seq<InvocationNamedView>>>
    decreases f, 4int, named, 0int,
{
    if named.len() == 0 {
        something(Seq::empty(), w)
    } else {
        let before = invocation_named(e, named.drop_last(), span, f, w);
        match before.out {
            None => nothing(before.w),
            Some(done) => {
                let origin = scope::argument_origin(before.w.c, named.last().value);
                let r = required(e, named.last().value, span, f, before.w);
                match r.out {
                    Some(v) => something(
                        done.push(
                            InvocationNamedView { arg: with_value(named.last(), v), origin },
                        ),
                        r.w,
                    ),
                    None => nothing(r.w),
                }
            },
        }
    }
}

/// The values of arguments of a call that is kept, from the first on.
#[verifier::opaque]
pub open spec fn keep_values(
    e: Evaluator,
    values: Seq<ValueView>,
    span: SourceSpan,
    f: nat,
    w: World,
) -> Ev<Option<Seq<ValueView>>>
    decreases f, 4int, values, 0int,
{
    if values.len() == 0 {
        something(Seq::empty(), w)
    } else {
        let before = keep_values(e, values.drop_last(), span, f, w);
        match before.out {
            None => nothing(before.w),
            Some(done) => {
                let r = kept(e, values.last(), span, f, before.w);
                match r.out {
                    Some(v) => something(done.push(v), r.w),
                    None => nothing(r.w),
                }
            },
        }
    }
}

/// The values of named arguments of a call that is kept, from the first on.
#[verifier::opaque]
pub open spec fn keep_named(
    e: Evaluator,
    named: Seq<NamedArgView>,
    span: SourceSpan,
    f: nat,
    w: World,
) -> Ev<Option<Seq<NamedArgView>>>
    decreases f, 4int, named, 0int,
{
    if named.len() == 0 {
        something(Seq::empty(), w)
    } else {
        let before = keep_named(e, named.drop_last(), span, f, w);
        match before.out {
            None => nothing(before.w),
            Some(done) => {
                let r = kept(e, named.last().value, span, f, before.w);
                match r.out {
                    Some(v) => something(done.push(with_value(named.last(), v)), r.w),
                    None => nothing(r.w),
                }
            },
        }
    }
}

/// A call that nothing answers to, with its arguments and its body evaluated.
#[verifier::opaque]
pub open spec fn preserve_call(e: Evaluator, node: NodeView, f: nat, w: World) -> Ev<
    Option<Seq<NodeView>>,
>
    decreases f, 4int, node, 1int,
{
    match node {
        NodeView::FunctionCall {
            name,
            positional_args,
            named_args,
            lambda_parameters,
            body,
            span,
        } => {
            let values = keep_values(e, positional_args, span, f, w);
            match values.out {
                None => nothing(values.w),
                Some(positional) => {
                    let more = keep_named(e, named_args, span, f, values.w);
                    match more.out {
                        None => nothing(more.w),
                        Some(named) => match body {
                            None => something(
                                seq![
                                    NodeView::FunctionCall {
                                        name,
                                        positional_args: positional,
                                        named_args: named,
                                        lambda_parameters,
                                        body: None,
                                        span,
                                    },
                                ],
                                more.w,
                            ),
                            Some(nodes) => {
                                let r = eval_nodes(e, nodes, f, more.w);
                                if r.w.reported() != more.w.reported() {
                                    nothing(r.w)
                                } else {
                                    something(
                                        seq![
                                            NodeView::FunctionCall {
                                                name,
                                                positional_args: positional,
                                                named_args: named,
                                                lambda_parameters,
                                                body: Some(r.out),
                                                span,
                                            },
                                        ],
                                        r.w,
                                    )
                                }
                            },
                        },
                    }
                },
            }
        },
        _ => nothing(w),
    }
}

/// An inline call that nothing answers to, with its arguments and its body evaluated.
#[verifier::opaque]
pub open spec fn preserve_inline_call(e: Evaluator, inline: InlineView, f: nat, w: World) -> Ev<
    Option<Seq<InlineView>>,
>
    decreases f, 4int, inline, 1int,
{
    match inline {
        InlineView::DirectiveCall { name, positional_args, named_args, body, span } => {
            let values = keep_values(e, positional_args, span, f, w);
            match values.out {
                None => nothing(values.w),
                Some(positional) => {
                    let more = keep_named(e, named_args, span, f, values.w);
                    match more.out {
                        None => nothing(more.w),
                        Some(named) => match body {
                            None => something(
                                seq![
                                    InlineView::DirectiveCall {
                                        name,
                                        positional_args: positional,
                                        named_args: named,
                                        body: None,
                                        span,
                                    },
                                ],
                                more.w,
                            ),
                            Some(inlines) => {
                                let r = eval_inlines(e, inlines, f, more.w);
                                if r.w.reported() != more.w.reported() {
                                    nothing(r.w)
                                } else {
                                    something(
                                        seq![
                                            InlineView::DirectiveCall {
                                                name,
                                                positional_args: positional,
                                                named_args: named,
                                                body: Some(r.out),
                                                span,
                                            },
                                        ],
                                        r.w,
                                    )
                                }
                            },
                        },
                    }
                },
            }
        },
        _ => nothing(w),
    }
}

/// The content of a body: nothing where something in it is reported.
#[verifier::opaque]
pub open spec fn body_content(
    e: Evaluator,
    body: BodyView,
    span: SourceSpan,
    f: nat,
    w: World,
) -> Ev<
    Option<Seq<NodeView>>,
>
    decreases f, 5int, e, 0int,
{
    match body {
        BodyView::Block(nodes) => {
            let r = eval_nodes(e, nodes, f, w);
            if r.w.reported() == w.reported() {
                something(r.out, r.w)
            } else {
                nothing(r.w)
            }
        },
        BodyView::Inline(inlines) => {
            let r = eval_inlines(e, inlines, f, w);
            if r.w.reported() == w.reported() {
                something(seq![NodeView::Paragraph { content: r.out, span }], r.w)
            } else {
                nothing(r.w)
            }
        },
    }
}

/// The body of a call as a value.
#[verifier::opaque]
pub open spec fn eval_body(e: Evaluator, body: BodyView, span: SourceSpan, f: nat, w: World) -> Ev<
    OutcomeView,
>
    decreases f, 5int, e, 1int,
{
    let r = body_content(e, body, span, f, w);
    match r.out {
        Some(nodes) => gives(ValueView::Content(nodes), r.w),
        None => failed(r.w),
    }
}

/// What the statements of a callable's body have come to.
#[verifier::ext_equal]
pub enum BodyResult {
    Empty,
    One(ValueView, SourceSpan),
    Many(Seq<NodeView>),
}

/// What the statements have come to once one more gave a value: one value stays itself, more
/// become content.
#[verifier::opaque]
pub open spec fn append_result(
    result: BodyResult,
    value: ValueView,
    span: SourceSpan,
    s: SessionView,
) -> (Option<BodyResult>, SessionView) {
    match result {
        BodyResult::Empty => (Some(BodyResult::One(value, span)), s),
        BodyResult::One(first, place) => match materialize::content_nodes(first, place, s) {
            (None, t) => (None, t),
            (Some(nodes), t) => append_nodes(nodes, value, span, t),
        },
        BodyResult::Many(nodes) => append_nodes(nodes, value, span, s),
    }
}

/// Content once one more statement gave a value.
pub open spec fn append_nodes(
    nodes: Seq<NodeView>,
    value: ValueView,
    span: SourceSpan,
    s: SessionView,
) -> (Option<BodyResult>, SessionView) {
    match materialize::content_nodes(value, span, s) {
        (None, t) => (None, t),
        (Some(more), t) => (Some(BodyResult::Many(nodes + more)), t),
    }
}

/// What the statements of a callable's body come to, from the first on.
#[verifier::opaque]
pub open spec fn body_results(e: Evaluator, nodes: Seq<NodeView>, f: nat, w: World) -> Ev<
    Result<BodyResult, OutcomeView>,
>
    decreases f, 4int, nodes, 1int,
{
    if nodes.len() == 0 {
        Ev { out: Ok(BodyResult::Empty), w }
    } else {
        let before = body_results(e, nodes.drop_last(), f, w);
        match before.out {
            Err(out) => Ev { out: Err(out), w: before.w },
            Ok(result) => {
                let r = eval_statement(e, nodes.last(), f, before.w);
                match r.out {
                    OutcomeView::Value(value) => match append_result(
                        result,
                        value,
                        materialize::node_span(nodes.last()),
                        r.w.s,
                    ) {
                        (Some(result), s) => Ev { out: Ok(result), w: r.w.on(s) },
                        (None, s) => Ev { out: Err(OutcomeView::Failed), w: r.w.on(s) },
                    },
                    OutcomeView::NoValue => Ev { out: Ok(result), w: r.w },
                    OutcomeView::Failed => Ev { out: Err(OutcomeView::Failed), w: r.w },
                    OutcomeView::Unresolved => Ev { out: Err(OutcomeView::Unresolved), w: r.w },
                }
            },
        }
    }
}

/// What the body of a callable comes to.
#[verifier::opaque]
pub open spec fn callable_body(e: Evaluator, nodes: Seq<NodeView>, f: nat, w: World) -> Ev<
    OutcomeView,
>
    decreases f, 4int, nodes, 2int,
{
    let r = body_results(e, nodes, f, w);
    match r.out {
        Err(out) => Ev { out, w: r.w },
        Ok(BodyResult::Empty) => Ev { out: OutcomeView::NoValue, w: r.w },
        Ok(BodyResult::One(value, _)) => gives(value, r.w),
        Ok(BodyResult::Many(nodes)) => gives(ValueView::Content(nodes), r.w),
    }
}

/// What a statement of a callable's body comes to.
#[verifier::opaque]
pub open spec fn eval_statement(e: Evaluator, node: NodeView, f: nat, w: World) -> Ev<OutcomeView>
    decreases f, 4int, node, 3int,
{
    if node is FunctionCall {
        let r = eval_call(e, call_of_node(node), f, w);
        if r.out is Unresolved {
            let kept = preserve_call(e, node, f, r.w);
            match kept.out {
                Some(nodes) => gives(ValueView::Content(nodes), kept.w),
                None => failed(kept.w),
            }
        } else {
            r
        }
    } else if node is ChainedFunctionCall {
        eval_chain_node(e, node, f, w)
    } else {
        let r = eval_node(e, node, f, w);
        if r.w.reported() != w.reported() {
            failed(r.w)
        } else if r.out.len() == 0 {
            Ev { out: OutcomeView::NoValue, w: r.w }
        } else {
            gives(ValueView::Content(r.out), r.w)
        }
    }
}

/// What a segment of a chain passes on.
#[verifier::opaque]
pub open spec fn segment_outcome(
    out: OutcomeView,
    segment: CallSegmentView,
    value_required: bool,
    w: World,
) -> Ev<OutcomeView> {
    match out {
        OutcomeView::NoValue => if value_required {
            fails(
                w,
                Fault::Chain,
                "Chained call segment `."@ + segment.name
                    + "` produced no value required by a later segment"@,
                segment.name_span,
            )
        } else {
            Ev { out, w }
        },
        OutcomeView::Unresolved => fails(
            w,
            Fault::Chain,
            match scope::visible_function(w.c, segment.name) {
                Some(binding) => "Function `"@ + segment.name
                   
                        + "` is visible in this scope but callable function declarations are not implemented yet ("@
                    + scope::parameters_description(binding.parameters) + ")"@,
                None => "Cannot evaluate chained call segment `."@ + segment.name
                    + "`: no semantic implementation is available"@,
            },
            segment.name_span,
        ),
        _ => Ev { out, w },
    }
}

/// What the first segments of a chain come to, with where the value comes from.
#[verifier::opaque]
pub open spec fn chain_prefix(
    e: Evaluator,
    head: CallSegmentView,
    chain: Seq<CallSegmentView>,
    done: nat,
    body: Option<BodyView>,
    f: nat,
    w: World,
) -> Ev<(OutcomeView, ValueOrigin)>
    decreases f, 1int, e, done,
{
    if done == 0 {
        let origin = scope::result_origin(w.c, head.name);
        let r = eval_call(e, call_of_segment(head, None, None), f, w);
        let o = segment_outcome(r.out, head, chain.len() > 0, r.w);
        Ev { out: (o.out, origin), w: o.w }
    } else {
        let before = chain_prefix(e, head, chain, (done - 1) as nat, body, f, w);
        match before.out.0 {
            OutcomeView::Value(value) => {
                let segment = chain[done - 1];
                let r = eval_call(
                    e,
                    call_of_segment(
                        segment,
                        Some((value, before.out.1)),
                        if done == chain.len() {
                            body
                        } else {
                            None
                        },
                    ),
                    f,
                    before.w,
                );
                let o = segment_outcome(r.out, segment, done < chain.len(), r.w);
                Ev { out: (o.out, scope::result_origin(o.w.c, segment.name)), w: o.w }
            },
            _ => before,
        }
    }
}

/// What a chain of calls comes to: each call receives the value of the one before it.
#[verifier::opaque]
pub open spec fn eval_chain(
    e: Evaluator,
    head: CallSegmentView,
    chain: Seq<CallSegmentView>,
    body: Option<BodyView>,
    f: nat,
    w: World,
) -> Ev<OutcomeView>
    decreases f, 2int, e, 0int,
{
    let r = chain_prefix(e, head, chain, chain.len(), body, f, w);
    Ev { out: r.out.0, w: r.w }
}

/// What a call comes to: it enters a frame, where one is left.
#[verifier::opaque]
pub open spec fn eval_call(e: Evaluator, call: CallView, f: nat, w: World) -> Ev<OutcomeView>
    decreases f, 0int, e, 0int,
{
    if f == 0 {
        fails(
            w,
            Fault::DepthLimit,
            depth_message(e.limits.max_evaluation_depth as nat),
            call.span,
        )
    } else {
        dispatch(e, call, (f - 1) as nat, w)
    }
}

/// What a call comes to inside its frame: the first owner that claims its name decides.
#[verifier::opaque]
pub open spec fn dispatch(e: Evaluator, call: CallView, f: nat, w: World) -> Ev<OutcomeView>
    decreases f, 7int, e, 0int,
{
    let name = call.name;
    match scope::positional_value(w.c, name) {
        Some(Ok(value)) => gives(value, w),
        Some(Err(error)) => fails(
            w,
            Fault::ImplicitParameter,
            calls::implicit_message(name, error),
            call.span,
        ),
        None => if natives::owns(NativeDispatchOwner::Conditional, name) {
            eval_conditional(e, call, f, w)
        } else if natives::owns(NativeDispatchOwner::DocumentState, name) {
            eval_document_state(e, call, f, w)
        } else if natives::owns(NativeDispatchOwner::Html, name) {
            eval_html(e, call, f, w)
        } else if natives::owns(NativeDispatchOwner::Markdown, name) {
            eval_markdown(e, call, f, w)
        } else if natives::owns(NativeDispatchOwner::Resource, name) {
            eval_resource(e, call, f, w)
        } else if natives::deferred_names().contains(name) {
            failed(
                w.complaint(
                    "E8001"@,
                    "`.llmstxt` is not part of the tracked Quarkdown v2.5.1 standard builtin surface"@,
                    call.span,
                    "This resource/document feature remains deferred until an evidenced upstream contract is available."@,
                ),
            )
        } else if natives::owns(NativeDispatchOwner::Let, name) {
            eval_let(e, call, f, w)
        } else if natives::owns(NativeDispatchOwner::Foreach, name) {
            eval_foreach(e, call, f, w)
        } else if natives::owns(NativeDispatchOwner::Repeat, name) {
            eval_repeat(e, call, f, w)
        } else if natives::owns(NativeDispatchOwner::OptionalityCallback, name) {
            eval_optionality(e, call, f, w)
        } else if natives::owns(NativeDispatchOwner::CollectionTransform, name) {
            eval_transform(e, call, f, w)
        } else if natives::owns(NativeDispatchOwner::VariableState, name) {
            eval_var(e, call, f, w)
        } else {
            dispatch_bound(e, call, f, w)
        },
    }
}

/// What a call comes to where its name is a variable or a function, or belongs to a part of
/// the evaluator that a function of the document may stand in for.
#[verifier::opaque]
pub open spec fn dispatch_bound(e: Evaluator, call: CallView, f: nat, w: World) -> Ev<OutcomeView>
    decreases f, 6int, e, 2int,
{
    let name = call.name;
    let variable = scope::visible_variable(w.c, name);
    if variable is Some && call.positional.len() == 0 && call.named.len()
        == 0 && call.body is None {
        gives(scope::value_of(variable->0), w)
    } else if variable is Some && call.positional.len() == 1 && call.named.len() == 0
        && call.body is None {
        eval_reassignment(e, call, f, w)
    } else {
        match scope::visible_function(w.c, name) {
            Some(binding) => eval_user_function(e, binding, call, f, w),
            None => dispatch_native(e, call, f, w),
        }
    }
}

/// What a call comes to where its name is bound to nothing in the document.
#[verifier::opaque]
pub open spec fn dispatch_native(e: Evaluator, call: CallView, f: nat, w: World) -> Ev<OutcomeView>
    decreases f, 6int, e, 1int,
{
    let name = call.name;
    if natives::owns(NativeDispatchOwner::Center, name) {
        eval_center(e, call, f, w)
    } else if natives::owns(NativeDispatchOwner::Align, name) {
        eval_align(e, call, f, w)
    } else if natives::owns(NativeDispatchOwner::Container, name) {
        eval_container(e, call, f, w)
    } else if natives::owns(NativeDispatchOwner::Landscape, name) {
        eval_landscape(e, call, f, w)
    } else if natives::owns(NativeDispatchOwner::Br, name) {
        eval_br(call, w)
    } else if natives::owns(NativeDispatchOwner::Whitespace, name) {
        eval_whitespace(e, call, f, w)
    } else if natives::owns(NativeDispatchOwner::StackedLayout, name) {
        eval_stacked(e, call, f, w)
    } else if natives::owns(NativeDispatchOwner::Range, name) {
        eval_range(e, call, f, w)
    } else if natives::owns(NativeDispatchOwner::Pair, name) {
        eval_pair(e, call, f, w)
    } else if natives::owns(NativeDispatchOwner::Dictionary, name) {
        eval_dictionary(e, call, f, w)
    } else if natives::owns(NativeDispatchOwner::CollectionAccess, name) {
        eval_access(e, call, f, w)
    } else {
        eval_builtin(e, call, f, w)
    }
}

/// Whether the branch of a conditional is taken.
pub open spec fn branch_taken(name: Seq<char>, condition: bool) -> bool {
    if name == "if"@ {
        condition
    } else {
        !condition
    }
}

/// The world once a condition turned out to be no truth value.
pub open spec fn bad_condition(w: World, name: Seq<char>, span: SourceSpan) -> World {
    w.fault(
        Fault::Condition,
        "`"@ + name
           
                + "` requires a boolean-compatible condition (literals `true`, `false`, `yes`, `no`, or variable reference `.name`) as its `condition` argument"@,
        span,
    )
}

/// The condition of a conditional, as it is written, and where its value comes from.
pub open spec fn raw_condition(call: CallView) -> Option<(ValueView, Option<ValueOrigin>)> {
    match calls::named_index(call.named, "condition"@) {
        Some(i) => Some((call.named[i].value, None)),
        None => if call.positional.len() > 0 {
            Some((call.positional[0], call.first_origin))
        } else {
            None
        },
    }
}

/// The condition of a conditional as an argument.
#[verifier::opaque]
pub open spec fn condition_argument(e: Evaluator, call: CallView, f: nat, w: World) -> Ev<
    Option<InvocationValueView>,
>
    decreases f, 5int, e, 0int,
{
    match raw_condition(call) {
        None => nothing(bad_condition(w, call.name, call.span)),
        Some((value, origin)) => match value {
            ValueView::Identifier(name) => something(
                match scope::visible_variable(w.c, name) {
                    Some(variable) => InvocationValueView {
                        value: scope::value_of(variable),
                        origin: ValueOrigin::Dynamic,
                    },
                    None => InvocationValueView {
                        value,
                        origin: match call.first_origin {
                            Some(origin) => origin,
                            None => ValueOrigin::Dynamic,
                        },
                    },
                },
                w,
            ),
            _ => invocation_value(e, value, call.span, origin, f, w),
        },
    }
}

/// `.if` and `.ifnot`.
#[verifier::opaque]
pub open spec fn eval_conditional(e: Evaluator, call: CallView, f: nat, w: World) -> Ev<OutcomeView>
    decreases f, 6int, e, 0int,
{
    let r = condition_argument(e, call, f, w);
    match r.out {
        None => failed(r.w),
        Some(argument) => match calls::condition_value(argument, r.w.s) {
            (None, s) => failed(r.w.on(s)),
            (Some(None), s) => failed(bad_condition(r.w.on(s), call.name, call.span)),
            (Some(Some(condition)), s) => if branch_taken(call.name, condition) {
                conditional_content(e, call, f, r.w.on(s))
            } else {
                gives(ValueView::Content(Seq::empty()), r.w.on(s))
            },
        },
    }
}

/// The content of a conditional whose branch is taken: its body, its `body` argument or its
/// second argument.
#[verifier::opaque]
pub open spec fn conditional_content(
    e: Evaluator,
    call: CallView,
    f: nat,
    w: World,
) -> Ev<OutcomeView>
    decreases f, 5int, e, 2int,
{
    match call.body {
        Some(body) => eval_body(e, body, call.span, f, w),
        None => match calls::named_index(call.named, "body"@) {
            Some(i) => content_argument(e, call.named[i].value, call.span, f, w),
            None => if call.positional.len() > 1 {
                content_argument(e, call.positional[1], call.span, f, w)
            } else {
                gives(ValueView::Content(Seq::empty()), w)
            },
        },
    }
}

/// An argument as content.
#[verifier::opaque]
pub open spec fn content_argument(
    e: Evaluator,
    value: ValueView,
    span: SourceSpan,
    f: nat,
    w: World,
) -> Ev<OutcomeView>
    decreases f, 5int, e, 0int,
{
    let r = required(e, value, span, f, w);
    match r.out {
        None => failed(r.w),
        Some(value) => match materialize::content_nodes(value, span, r.w.s) {
            (Some(nodes), s) => gives(ValueView::Content(nodes), r.w.on(s)),
            (None, s) => failed(r.w.on(s)),
        },
    }
}

/// The arguments of a call, evaluated: first the positional ones, then the named ones.
#[verifier::opaque]
pub open spec fn call_arguments(e: Evaluator, call: CallView, f: nat, w: World) -> Ev<
    Option<(Seq<InvocationValueView>, Seq<InvocationNamedView>)>,
>
    decreases f, 5int, e, 0int,
{
    let positional = invocation_values(e, call.positional, call.span, call.first_origin, f, w);
    match positional.out {
        None => nothing(positional.w),
        Some(values) => {
            let named = invocation_named(e, call.named, call.span, f, positional.w);
            match named.out {
                None => nothing(named.w),
                Some(args) => something((values, args), named.w),
            }
        },
    }
}

/// Where a lambda list is written.
pub open spec fn lambda_span(list: Seq<ParameterView>, span: SourceSpan) -> SourceSpan {
    if list.len() > 0 {
        list[0].span
    } else {
        span
    }
}

/// The blocks of a component's body.
#[verifier::opaque]
pub open spec fn children(
    e: Evaluator,
    call: CallView,
    fault: Fault,
    inline: Seq<char>,
    missing: Option<Seq<char>>,
    f: nat,
    w: World,
) -> Ev<Option<Seq<NodeView>>>
    decreases f, 5int, e, 2int,
{
    match call.body {
        Some(BodyView::Block(nodes)) => body_content(e, BodyView::Block(nodes), call.span, f, w),
        Some(BodyView::Inline(_)) => nothing(w.fault(fault, inline, call.span)),
        None => match missing {
            Some(message) => nothing(w.fault(fault, message, call.span)),
            None => something(Seq::empty(), w),
        },
    }
}

/// The error of a call that takes no arguments and no lambda.
#[verifier::opaque]
pub open spec fn bare_call_error(
    call: CallView,
    positional: Seq<char>,
    named: Seq<char>,
    lambda: Seq<char>,
) -> Option<(Seq<char>, SourceSpan)> {
    if call.positional.len() > 0 {
        Some((positional, materialize::value_span(call.positional[0], call.span)))
    } else if call.named.len() > 0 {
        Some((named, call.named[0].span))
    } else {
        match call.lambda {
            Some(list) => Some((lambda, lambda_span(list, call.span))),
            None => None,
        }
    }
}

/// A container without sizes.
pub open spec fn aligned(
    alignment: IrContainerAlignment,
    children: Seq<NodeView>,
    span: SourceSpan,
) -> ValueView {
    ValueView::Component(
        ComponentView::Container(
            ContainerView {
                width: None,
                height: None,
                full_width: true,
                alignment: Some(alignment),
                children,
                span,
            },
        ),
    )
}

/// `.center`.
#[verifier::opaque]
pub open spec fn eval_center(e: Evaluator, call: CallView, f: nat, w: World) -> Ev<OutcomeView>
    decreases f, 6int, e, 0int,
{
    match bare_call_error(
        call,
        "`.center` does not accept positional arguments"@,
        "`.center` does not accept named arguments"@,
        "`.center` body is a Markdown block, not a lambda"@,
    ) {
        Some((message, span)) => fails(w, Fault::CenterArgument, message, span),
        None => {
            let r = children(
                e,
                call,
                Fault::CenterArgument,
                "`.center` is block-only"@,
                Some("`.center` requires a Markdown block body"@),
                f,
                w,
            );
            match r.out {
                None => failed(r.w),
                Some(nodes) => gives(aligned(IrContainerAlignment::Center, nodes, call.span), r.w),
            }
        },
    }
}

/// `.landscape`.
#[verifier::opaque]
pub open spec fn eval_landscape(e: Evaluator, call: CallView, f: nat, w: World) -> Ev<OutcomeView>
    decreases f, 6int, e, 0int,
{
    match bare_call_error(
        call,
        "`.landscape` does not accept positional arguments"@,
        "`.landscape` does not accept named arguments"@,
        "`.landscape` body is a Markdown block, not a lambda"@,
    ) {
        Some((message, span)) => fails(w, Fault::LandscapeArgument, message, span),
        None => {
            let r = children(
                e,
                call,
                Fault::LandscapeArgument,
                "`.landscape` is block-only"@,
                Some("`.landscape` requires a Markdown block body"@),
                f,
                w,
            );
            match r.out {
                None => failed(r.w),
                Some(nodes) => gives(
                    ValueView::Component(
                        ComponentView::Landscape(
                            LandscapeView { children: nodes, span: call.span },
                        ),
                    ),
                    r.w,
                ),
            }
        },
    }
}

/// `.br`.
#[verifier::opaque]
pub open spec fn eval_br(call: CallView, w: World) -> Ev<OutcomeView> {
    match bare_call_error(
        call,
        "`.br` does not accept positional arguments"@,
        "`.br` does not accept named arguments"@,
        "`.br` does not accept a lambda body"@,
    ) {
        Some((message, span)) => fails(w, Fault::BrArgument, message, span),
        None => if call.body is Some {
            fails(w, Fault::BrArgument, "`.br` does not accept a body"@, call.span)
        } else {
            gives(
                ValueView::Content(
                    seq![
                        NodeView::Paragraph {
                            content: seq![InlineView::HardBreak { span: call.span }],
                            span: call.span,
                        },
                    ],
                ),
                w,
            )
        },
    }
}

/// The size that a parameter was given.
#[verifier::opaque]
pub open spec fn size_of(
    slot: Option<ArgumentView>,
    call: Seq<char>,
    parameter: Seq<char>,
    fault: Fault,
    s: SessionView,
) -> (Option<Option<IrSize>>, SessionView) {
    match slot {
        None => (Some(None), s),
        Some(argument) => match calls::optional_size(argument.value, s) {
            (None, t) => (None, t),
            (Some(Ok(size)), t) => (Some(size), t),
            (Some(Err(error)), t) => (
                None,
                t.fault(
                    fault,
                    calls::parameter_message(
                        call,
                        parameter,
                        if fault == Fault::WhitespaceArgument && error
                            == ConversionError::InvalidText {
                            "value is invalid for the existing Size adapter"@
                        } else {
                            calls::conversion_detail(error)
                        },
                    ),
                    argument.span,
                ),
            ),
        },
    }
}

/// No size at all.
pub open spec fn zero_size() -> IrSize {
    IrSize { value: Number { bits: 0 }, unit: IrSizeUnit::Px }
}

/// `.whitespace`.
#[verifier::opaque]
pub open spec fn eval_whitespace(e: Evaluator, call: CallView, f: nat, w: World) -> Ev<OutcomeView>
    decreases f, 6int, e, 0int,
{
    let args = call_arguments(e, call, f, w);
    match args.out {
        None => failed(args.w),
        Some((values, named)) => match binding::bind_arguments(
            Style::Whitespace,
            "whitespace"@,
            binding::whitespace_names(),
            "`.whitespace` accepts at most two positional arguments"@,
            binding::arguments_of(values, call.positional, call.span),
            named,
            call.span,
            args.w.s,
        ) {
            (None, s) => failed(args.w.on(s)),
            (Some(slots), s) => whitespace_sizes(call, slots, args.w.on(s)),
        },
    }
}

/// `.whitespace` with its arguments bound.
#[verifier::opaque]
pub open spec fn whitespace_sizes(call: CallView, slots: Seq<Option<ArgumentView>>, w: World) -> Ev<
    OutcomeView,
> {
    match size_of(slots[0], "whitespace"@, "width"@, Fault::WhitespaceArgument, w.s) {
        (None, s) => failed(w.on(s)),
        (Some(width), s) => match size_of(
            slots[1],
            "whitespace"@,
            "height"@,
            Fault::WhitespaceArgument,
            s,
        ) {
            (None, t) => failed(w.on(t)),
            (Some(height), t) => match call.lambda {
                Some(list) => fails(
                    w.on(t),
                    Fault::WhitespaceArgument,
                    "`.whitespace` does not accept a lambda body"@,
                    lambda_span(list, call.span),
                ),
                None => if call.body is Some {
                    fails(
                        w.on(t),
                        Fault::WhitespaceArgument,
                        "`.whitespace` does not accept a body"@,
                        call.span,
                    )
                } else {
                    let empty = width is None && height is None;
                    gives(
                        ValueView::Content(
                            seq![
                                NodeView::Paragraph {
                                    content: seq![
                                        InlineView::Whitespace {
                                            width: if empty {
                                                None
                                            } else {
                                                Some(
                                                    match width {
                                                        Some(size) => size,
                                                        None => zero_size(),
                                                    },
                                                )
                                            },
                                            height: if empty {
                                                None
                                            } else {
                                                Some(
                                                    match height {
                                                        Some(size) => size,
                                                        None => zero_size(),
                                                    },
                                                )
                                            },
                                            span: call.span,
                                        },
                                    ],
                                    span: call.span,
                                },
                            ],
                        ),
                        w.on(t),
                    )
                },
            },
        },
    }
}

/// `.align`.
#[verifier::opaque]
pub open spec fn eval_align(e: Evaluator, call: CallView, f: nat, w: World) -> Ev<OutcomeView>
    decreases f, 6int, e, 0int,
{
    let args = call_arguments(e, call, f, w);
    match args.out {
        None => failed(args.w),
        Some((values, named)) => match binding::bind_align(
            binding::arguments_of(values, call.positional, call.span),
            named,
            call.span,
            args.w.s,
        ) {
            (None, s) => failed(args.w.on(s)),
            (Some(argument), s) => match calls::container_alignment(argument.value, s) {
                (None, t) => failed(args.w.on(t)),
                (Some(Err(error)), t) => fails(
                    args.w.on(t),
                    Fault::AlignArgument,
                    match error {
                        ConversionError::InvalidText => "`.align` alignment value is invalid"@,
                        ConversionError::UnsupportedValue => "`.align` alignment value has the wrong typed domain or origin"@,
                    },
                    argument.span,
                ),
                (Some(Ok(alignment)), t) => match call.lambda {
                    Some(list) => fails(
                        args.w.on(t),
                        Fault::AlignArgument,
                        "`.align` body is a Markdown block, not a lambda"@,
                        lambda_span(list, call.span),
                    ),
                    None => {
                        let r = children(
                            e,
                            call,
                            Fault::AlignArgument,
                            "`.align` is block-only"@,
                            Some("`.align` requires a Markdown block body"@),
                            f,
                            args.w.on(t),
                        );
                        match r.out {
                            None => failed(r.w),
                            Some(nodes) => gives(aligned(alignment, nodes, call.span), r.w),
                        }
                    },
                },
            },
        },
    }
}

/// `.container`.
#[verifier::opaque]
pub open spec fn eval_container(e: Evaluator, call: CallView, f: nat, w: World) -> Ev<OutcomeView>
    decreases f, 6int, e, 0int,
{
    let args = call_arguments(e, call, f, w);
    match args.out {
        None => failed(args.w),
        Some((values, named)) => match binding::bind_arguments(
            Style::Container,
            "container"@,
            binding::container_names(),
            "`.container` accepts at most three positional arguments"@,
            binding::arguments_of(values, call.positional, call.span),
            named,
            call.span,
            args.w.s,
        ) {
            (None, s) => failed(args.w.on(s)),
            (Some(slots), s) => match container_sizes(slots, s) {
                (None, t) => failed(args.w.on(t)),
                (Some((width, height, full_width)), t) => match call.lambda {
                    Some(list) => fails(
                        args.w.on(t),
                        Fault::ContainerArgument,
                        "`.container` body is a Markdown block, not a lambda"@,
                        lambda_span(list, call.span),
                    ),
                    None => {
                        let r = children(
                            e,
                            call,
                            Fault::ContainerArgument,
                            "`.container` is block-only"@,
                            None,
                            f,
                            args.w.on(t),
                        );
                        match r.out {
                            None => failed(r.w),
                            Some(nodes) => gives(
                                ValueView::Component(
                                    ComponentView::Container(
                                        ContainerView {
                                            width,
                                            height,
                                            full_width,
                                            alignment: None,
                                            children: nodes,
                                            span: call.span,
                                        },
                                    ),
                                ),
                                r.w,
                            ),
                        }
                    },
                },
            },
        },
    }
}

/// The sizes of a container, and whether it takes the full width.
#[verifier::opaque]
pub open spec fn container_sizes(slots: Seq<Option<ArgumentView>>, s: SessionView) -> (
    Option<(Option<IrSize>, Option<IrSize>, bool)>,
    SessionView,
) {
    match size_of(slots[0], "container"@, "width"@, Fault::ContainerArgument, s) {
        (None, t) => (None, t),
        (Some(width), t) => match size_of(
            slots[1],
            "container"@,
            "height"@,
            Fault::ContainerArgument,
            t,
        ) {
            (None, u) => (None, u),
            (Some(height), u) => match slots[2] {
                None => (Some((width, height, false)), u),
                Some(argument) => match calls::boolean_argument(argument.value, u) {
                    (None, v) => (None, v),
                    (Some(Ok(full_width)), v) => (Some((width, height, full_width)), v),
                    (Some(Err(error)), v) => (
                        None,
                        v.fault(
                            Fault::ContainerArgument,
                            calls::parameter_message(
                                "container"@,
                                "fullwidth"@,
                                calls::conversion_detail(error),
                            ),
                            argument.span,
                        ),
                    ),
                },
            },
        },
    }
}

/// An argument that stands in where none was given.
pub open spec fn or_default(
    slot: Option<ArgumentView>,
    value: ValueView,
    span: SourceSpan,
) -> ArgumentView {
    match slot {
        Some(argument) => argument,
        None => ArgumentView {
            value: InvocationValueView { value, origin: ValueOrigin::Static },
            span,
        },
    }
}

/// The session once an argument of a stacked layout turned out to be wrong.
pub open spec fn bad_stacked(
    name: Seq<char>,
    parameter: Seq<char>,
    message: Seq<char>,
    span: SourceSpan,
    s: SessionView,
) -> SessionView {
    s.fault(Fault::StackedArgument, calls::parameter_message(name, parameter, message), span)
}

/// The alignments of a stacked layout.
#[verifier::opaque]
pub open spec fn stacked_axes(
    name: Seq<char>,
    alignment: ArgumentView,
    cross: ArgumentView,
    s: SessionView,
) -> (Option<(IrMainAxisAlignment, IrCrossAxisAlignment)>, SessionView) {
    match calls::main_axis(alignment.value, s) {
        (None, t) => (None, t),
        (Some(Err(error)), t) => (
            None,
            bad_stacked(name, "alignment"@, calls::conversion_detail(error), alignment.span, t),
        ),
        (Some(Ok(main)), t) => match calls::cross_axis(cross.value, t) {
            (None, u) => (None, u),
            (Some(Err(error)), u) => (
                None,
                bad_stacked(name, "cross"@, calls::conversion_detail(error), cross.span, u),
            ),
            (Some(Ok(cross)), u) => (Some((main, cross)), u),
        },
    }
}

/// A gap of a stacked layout.
#[verifier::opaque]
pub open spec fn stacked_gap(
    name: Seq<char>,
    parameter: Seq<char>,
    gap: ArgumentView,
    s: SessionView,
) -> (Option<Option<IrSize>>, SessionView) {
    match calls::optional_size(gap.value, s) {
        (None, t) => (None, t),
        (Some(Ok(size)), t) => (Some(size), t),
        (Some(Err(error)), t) => (
            None,
            bad_stacked(name, parameter, calls::conversion_detail(error), gap.span, t),
        ),
    }
}

/// How a stacked layout places its children.
#[verifier::ext_equal]
pub struct Stacking {
    pub layout: IrStackedLayout,
    pub main: IrMainAxisAlignment,
    pub cross: IrCrossAxisAlignment,
    pub row_gap: Option<IrSize>,
    pub column_gap: Option<IrSize>,
}

/// How `.row` and `.column` place their children.
#[verifier::opaque]
pub open spec fn line_stacking(
    name: Seq<char>,
    slots: Seq<Option<ArgumentView>>,
    span: SourceSpan,
    s: SessionView,
) -> (Option<Stacking>, SessionView) {
    let alignment = or_default(
        slots[0],
        ValueView::Enum(IrEnumValue::StackedMainAxisAlignment(IrMainAxisAlignment::Start)),
        span,
    );
    let cross = or_default(
        slots[1],
        ValueView::Enum(IrEnumValue::StackedCrossAxisAlignment(IrCrossAxisAlignment::Center)),
        span,
    );
    match stacked_axes(name, alignment, cross, s) {
        (None, t) => (None, t),
        (Some((main, cross)), t) => match stacked_gap(
            name,
            "gap"@,
            or_default(slots[2], ValueView::Nothing, span),
            t,
        ) {
            (None, u) => (None, u),
            (Some(gap), u) => (
                Some(
                    if name == "row"@ {
                        Stacking {
                            layout: IrStackedLayout::Row,
                            main,
                            cross,
                            row_gap: None,
                            column_gap: gap,
                        }
                    } else {
                        Stacking {
                            layout: IrStackedLayout::Column,
                            main,
                            cross,
                            row_gap: gap,
                            column_gap: None,
                        }
                    },
                ),
                u,
            ),
        },
    }
}

/// The number of columns of a grid.
#[verifier::opaque]
pub open spec fn grid_columns(
    name: Seq<char>,
    slot: Option<ArgumentView>,
    span: SourceSpan,
    s: SessionView,
) -> (Option<u32>, SessionView) {
    match slot {
        None => (None, bad_stacked(name, "columns"@, "required argument is missing"@, span, s)),
        Some(columns) => match s.ask_integer(QueryView::Integer { argument: columns.value }) {
            (None, t) => (None, t),
            (Some(Err(error)), t) => (
                None,
                bad_stacked(name, "columns"@, calls::conversion_detail(error), columns.span, t),
            ),
            (Some(Ok(count)), t) => if count <= 0 {
                (
                    None,
                    bad_stacked(name, "columns"@, "Column count must be at least 1"@, span, t),
                )
            } else {
                (Some(count as u32), t)
            },
        },
    }
}

/// How `.grid` places its children.
#[verifier::opaque]
pub open spec fn grid_stacking(
    name: Seq<char>,
    slots: Seq<Option<ArgumentView>>,
    span: SourceSpan,
    s: SessionView,
) -> (Option<Stacking>, SessionView) {
    let alignment = or_default(
        slots[1],
        ValueView::Enum(IrEnumValue::StackedMainAxisAlignment(IrMainAxisAlignment::Center)),
        span,
    );
    let cross = or_default(
        slots[2],
        ValueView::Enum(IrEnumValue::StackedCrossAxisAlignment(IrCrossAxisAlignment::Center)),
        span,
    );
    match grid_columns(name, slots[0], span, s) {
        (None, t) => (None, t),
        (Some(columns), t) => match stacked_axes(name, alignment, cross, t) {
            (None, u) => (None, u),
            (Some((main, cross)), u) => match grid_gaps(name, slots, span, u) {
                (None, v) => (None, v),
                (Some((row_gap, column_gap)), v) => (
                    Some(
                        Stacking {
                            layout: IrStackedLayout::Grid { columns },
                            main,
                            cross,
                            row_gap,
                            column_gap,
                        },
                    ),
                    v,
                ),
            },
        },
    }
}

/// The gaps of a grid: `vgap` and `hgap`, and `gap` for either that is left out.
#[verifier::opaque]
pub open spec fn grid_gaps(
    name: Seq<char>,
    slots: Seq<Option<ArgumentView>>,
    span: SourceSpan,
    s: SessionView,
) -> (Option<(Option<IrSize>, Option<IrSize>)>, SessionView) {
    match stacked_gap(name, "gap"@, or_default(slots[3], ValueView::Nothing, span), s) {
        (None, t) => (None, t),
        (Some(gap), t) => match stacked_gap(
            name,
            "vgap"@,
            or_default(slots[4], ValueView::Nothing, span),
            t,
        ) {
            (None, u) => (None, u),
            (Some(vgap), u) => match stacked_gap(
                name,
                "hgap"@,
                or_default(slots[5], ValueView::Nothing, span),
                u,
            ) {
                (None, v) => (None, v),
                (Some(hgap), v) => (
                    Some(
                        (
                            if vgap is Some {
                                vgap
                            } else {
                                gap
                            },
                            if hgap is Some {
                                hgap
                            } else {
                                gap
                            },
                        ),
                    ),
                    v,
                ),
            },
        },
    }
}

/// `.row`, `.column` and `.grid`; any other name stays unresolved.
#[verifier::opaque]
pub open spec fn eval_stacked(e: Evaluator, call: CallView, f: nat, w: World) -> Ev<OutcomeView>
    decreases f, 6int, e, 0int,
{
    let grid = call.name == "grid"@;
    let args = call_arguments(e, call, f, w);
    match args.out {
        None => failed(args.w),
        Some((values, named)) => match binding::stacked_parts(
            call.name,
            binding::arguments_of(values, call.positional, call.span),
            named,
            call.span,
            args.w.s,
        ) {
            (Err(out), s) => Ev { out, w: args.w.on(s) },
            (Ok(slots), s) => match if grid {
                grid_stacking(call.name, slots, call.span, s)
            } else {
                line_stacking(call.name, slots, call.span, s)
            } {
                (None, t) => failed(args.w.on(t)),
                (Some(stacking), t) => stacked_component(e, call, stacking, f, args.w.on(t)),
            },
        },
    }
}

/// A stacked component, once it is known how it places its children.
#[verifier::opaque]
pub open spec fn stacked_component(
    e: Evaluator,
    call: CallView,
    stacking: Stacking,
    f: nat,
    w: World,
) -> Ev<OutcomeView>
    decreases f, 5int, e, 3int,
{
    match call.lambda {
        Some(list) => failed(
            w.on(
                bad_stacked(
                    call.name,
                    "body"@,
                    "Stacked layout bodies are Markdown blocks, not lambda parameters"@,
                    lambda_span(list, call.span),
                    w.s,
                ),
            ),
        ),
        None => {
            let r = children(
                e,
                call,
                Fault::StackedArgument,
                calls::parameter_message(call.name, "body"@, "Stacked layout is block-only"@),
                Some(
                    calls::parameter_message(
                        call.name,
                        "body"@,
                        "A Markdown block body is required"@,
                    ),
                ),
                f,
                w,
            );
            match r.out {
                None => failed(r.w),
                Some(nodes) => gives(
                    ValueView::Component(
                        ComponentView::Stacked(
                            StackedView {
                                layout: stacking.layout,
                                main_axis_alignment: stacking.main,
                                cross_axis_alignment: stacking.cross,
                                row_gap: stacking.row_gap,
                                column_gap: stacking.column_gap,
                                children: nodes,
                                span: call.span,
                            },
                        ),
                    ),
                    r.w,
                ),
            }
        },
    }
}

/// What a document builtin reads.
pub open spec fn state_value(name: Seq<char>, state: DocumentStateView) -> ValueView {
    ValueView::String(
        if name == "docname"@ {
            state.name
        } else if name == "docdescription"@ {
            state.description
        } else {
            metadata::document_type_name(state.document_type)
        },
    )
}

/// `.docname`, `.docdescription` and `.doctype`.
#[verifier::opaque]
pub open spec fn eval_document_state(
    e: Evaluator,
    call: CallView,
    f: nat,
    w: World,
) -> Ev<OutcomeView>
    decreases f, 6int, e, 0int,
{
    if call.body is Some {
        fails(
            w,
            Fault::DocumentCall,
            "`."@ + call.name + "` does not accept a block body"@,
            call.span,
        )
    } else if call.positional.len() == 0 && call.named.len() == 0 {
        gives(state_value(call.name, w.s.document_state), w)
    } else {
        let args = call_arguments(e, call, f, w);
        match args.out {
            None => failed(args.w),
            Some((values, named)) => if call.name == "doctype"@ {
                set_document_type(call, values, named, args.w)
            } else {
                set_document_text(call, values, named, args.w)
            },
        }
    }
}

/// `.doctype` with an argument: its type takes effect once it has been converted.
#[verifier::opaque]
pub open spec fn set_document_type(
    call: CallView,
    values: Seq<InvocationValueView>,
    named: Seq<InvocationNamedView>,
    w: World,
) -> Ev<OutcomeView> {
    let by_place = values.len() == 1 && named.len() == 0;
    let by_name = values.len() == 0 && named.len() == 1 && named[0].arg.name == "type"@;
    if !by_place && !by_name {
        fails(
            w,
            Fault::DocumentCall,
            "`.doctype` accepts exactly one positional or `type` argument"@,
            call.span,
        )
    } else {
        let argument = if by_place {
            values[0]
        } else {
            InvocationValueView { value: named[0].arg.value, origin: named[0].origin }
        };
        let span = if by_place {
            materialize::value_span(call.positional[0], call.span)
        } else {
            call.named[0].span
        };
        match calls::closed_enum(argument, ClosedEnumTarget::DocumentType, w.s) {
            (None, s) => failed(w.on(s)),
            (Some(Ok(IrEnumValue::DocumentType(document_type))), s) => Ev {
                out: OutcomeView::NoValue,
                w: w.on(
                    SessionView {
                        document_state: DocumentStateView { document_type, ..s.document_state },
                        ..s
                    },
                ),
            },
            (Some(_), s) => fails(
                w.on(s),
                Fault::DocumentConversion,
                "`.doctype` requires one of `plain`, `paged`, `slides`, or `docs` from a dynamic argument"@,
                span,
            ),
        }
    }
}

/// `.docname` and `.docdescription` with an argument: the text takes effect once it has been
/// converted and checked.
#[verifier::opaque]
pub open spec fn set_document_text(
    call: CallView,
    values: Seq<InvocationValueView>,
    named: Seq<InvocationNamedView>,
    w: World,
) -> Ev<OutcomeView> {
    if values.len() != 1 || named.len() != 0 {
        fails(
            w,
            Fault::DocumentCall,
            "`."@ + call.name + "` accepts exactly one positional String argument when writing"@,
            call.span,
        )
    } else {
        let span = materialize::value_span(call.positional[0], call.span);
        match w.s.ask_text(QueryView::ScalarString { argument: values[0] }) {
            (None, s) => failed(w.on(s)),
            (Some(None), s) => fails(
                w.on(s),
                Fault::DocumentConversion,
                "`."@ + call.name + "` requires a value that converts to String"@,
                span,
            ),
            (Some(Some(content)), s) => if call.name == "docname"@ {
                if text::trim(content).len() == 0 {
                    fails(w.on(s), Fault::DocumentConversion, "`.docname` cannot be blank"@, span)
                } else {
                    Ev {
                        out: OutcomeView::NoValue,
                        w: w.on(
                            SessionView {
                                document_state: DocumentStateView {
                                    name: content,
                                    ..s.document_state
                                },
                                ..s
                            },
                        ),
                    }
                }
            } else {
                Ev {
                    out: OutcomeView::NoValue,
                    w: w.on(
                        SessionView {
                            document_state: DocumentStateView {
                                description: content,
                                ..s.document_state
                            },
                            ..s
                        },
                    ),
                }
            },
        }
    }
}

/// The `content` argument of `.html` or `.markdown`.
#[verifier::opaque]
pub open spec fn content_index(markdown: bool, named: Seq<NamedArgView>, s: SessionView) -> (
    Option<Option<int>>,
    SessionView,
)
    decreases named.len(),
{
    if named.len() == 0 {
        (Some(None), s)
    } else {
        match content_index(markdown, named.drop_last(), s) {
            (None, t) => (None, t),
            (Some(found), t) => {
                let arg = named.last();
                if markdown {
                    if arg.name != "content"@ || found is Some {
                        (
                            None,
                            t.complaint(
                                "E3003"@,
                                "`.markdown` does not accept named argument `"@ + arg.name
                                    + "` more than once"@,
                                arg.name_span,
                                "Use one positional or `content` argument."@,
                            ),
                        )
                    } else {
                        (Some(Some(named.len() - 1)), t)
                    }
                } else if arg.name != "content"@ {
                    (
                        None,
                        t.fault(
                            Fault::HtmlArgument,
                            "`.html` does not support named argument `"@ + arg.name + "`"@,
                            arg.name_span,
                        ),
                    )
                } else if found is Some {
                    (
                        None,
                        t.fault(
                            Fault::HtmlArgument,
                            "`.html` received named argument `content` more than once"@,
                            arg.name_span,
                        ),
                    )
                } else {
                    (Some(Some(named.len() - 1)), t)
                }
            },
        }
    }
}

/// The world once a call of `.html` or `.markdown` turned out to be wrong.
#[verifier::opaque]
pub open spec fn bad_native(
    markdown: bool,
    html: Seq<char>,
    message: Seq<char>,
    hint: Seq<char>,
    span: SourceSpan,
    w: World,
) -> World {
    if markdown {
        w.complaint("E3003"@, message, span, hint)
    } else {
        w.fault(Fault::HtmlArgument, html, span)
    }
}

/// The content of `.html` or `.markdown` as a value.
#[verifier::opaque]
pub open spec fn native_content(
    e: Evaluator,
    markdown: bool,
    call: CallView,
    f: nat,
    w: World,
) -> Ev<
    Option<ValueView>,
>
    decreases f, 5int, e, 3int,
{
    if call.positional.len() > 1 {
        nothing(
            bad_native(
                markdown,
                "`.html` accepts exactly one `content` argument"@,
                "`.markdown` accepts exactly one `content` argument"@,
                "Pass Markdown content as the body or as `content`."@,
                call.span,
                w,
            ),
        )
    } else {
        match content_index(markdown, call.named, w.s) {
            (None, s) => nothing(w.on(s)),
            (Some(found), s) => if call.positional.len() == 1 && found is Some {
                nothing(
                    bad_native(
                        markdown,
                        "`.html` received `content` more than once"@,
                        "`.markdown` received `content` more than once"@,
                        "Use either the positional argument or the named argument."@,
                        call.span,
                        w.on(s),
                    ),
                )
            } else if call.body is Some && (call.positional.len() == 1 || found is Some) {
                nothing(
                    bad_native(
                        markdown,
                        "`.html` received both a body and an explicit `content` argument"@,
                        "`.markdown` received both a body and an explicit `content` argument"@,
                        "Use either the body or the explicit content argument."@,
                        call.span,
                        w.on(s),
                    ),
                )
            } else {
                match call.body {
                    Some(body) => native_body(e, markdown, body, call.span, f, w.on(s)),
                    None => if call.positional.len() == 1 {
                        required(e, call.positional[0], call.span, f, w.on(s))
                    } else {
                        match found {
                            Some(i) => required(e, call.named[i].value, call.span, f, w.on(s)),
                            None => nothing(
                                bad_native(
                                    markdown,
                                    "`.html` requires one `content` argument or body"@,
                                    "`.markdown` requires Markdown content"@,
                                    "Pass Markdown content as the body or as `content`."@,
                                    call.span,
                                    w.on(s),
                                ),
                            ),
                        }
                    },
                }
            },
        }
    }
}

/// The body of `.html` or `.markdown` as a value: raw HTML is taken as it is written by
/// `.html`.
#[verifier::opaque]
pub open spec fn native_body(
    e: Evaluator,
    markdown: bool,
    body: BodyView,
    span: SourceSpan,
    f: nat,
    w: World,
) -> Ev<Option<ValueView>>
    decreases f, 5int, e, 2int,
{
    match body {
        BodyView::Block(nodes) => if !markdown && native::contains_raw(nodes) {
            match native::body_source(nodes) {
                Some(content) => something(ValueView::String(content), w),
                None => nothing(
                    w.fault(
                        Fault::HtmlArgument,
                        "`.html` body contains structure that cannot adapt to String"@,
                        span,
                    ),
                ),
            }
        } else {
            body_value(e, body, span, f, w)
        },
        _ => body_value(e, body, span, f, w),
    }
}

/// A body as a value.
#[verifier::opaque]
pub open spec fn body_value(e: Evaluator, body: BodyView, span: SourceSpan, f: nat, w: World) -> Ev<
    Option<ValueView>,
>
    decreases f, 5int, e, 1int,
{
    let r = body_content(e, body, span, f, w);
    match r.out {
        Some(nodes) => something(ValueView::Content(nodes), r.w),
        None => nothing(r.w),
    }
}

/// `.html` and `.markdown` once they are allowed.
#[verifier::opaque]
pub open spec fn eval_native(e: Evaluator, markdown: bool, call: CallView, f: nat, w: World) -> Ev<
    OutcomeView,
>
    decreases f, 5int, e, 4int,
{
    let r = native_content(e, markdown, call, f, w);
    match r.out {
        None => failed(r.w),
        Some(value) => match r.w.s.ask_text(QueryView::AdaptString { value }) {
            (None, s) => failed(r.w.on(s)),
            (Some(None), s) => failed(
                bad_native(
                    markdown,
                    "`.html` content must adapt to the supported String boundary"@,
                    "`.markdown` content must adapt to the supported String boundary"@,
                    "Rich semantic values are not silently rendered into native Markdown text."@,
                    call.span,
                    r.w.on(s),
                ),
            ),
            (Some(Some(content)), s) => gives(
                ValueView::Content(
                    seq![
                        NodeView::TargetSpecificContent {
                            content: TargetContentView {
                                target: if markdown {
                                    NativeTarget::Markdown
                                } else {
                                    NativeTarget::Html
                                },
                                content,
                                span: call.span,
                            },
                        },
                    ],
                ),
                r.w.on(s),
            ),
        },
    }
}

/// `.html`.
#[verifier::opaque]
pub open spec fn eval_html(e: Evaluator, call: CallView, f: nat, w: World) -> Ev<OutcomeView>
    decreases f, 6int, e, 0int,
{
    if !e.capabilities.grants(Capability::NativeContent) {
        fails(
            w,
            Fault::HtmlDenied,
            "NativeContent capability is required for `.html`"@,
            call.span,
        )
    } else {
        eval_native(e, false, call, f, w)
    }
}

/// `.markdown`.
#[verifier::opaque]
pub open spec fn eval_markdown(e: Evaluator, call: CallView, f: nat, w: World) -> Ev<OutcomeView>
    decreases f, 6int, e, 0int,
{
    if !e.capabilities.grants(Capability::NativeContent) {
        fails(
            w,
            Fault::MarkdownDenied,
            "NativeContent capability is required for `.markdown`"@,
            call.span,
        )
    } else {
        eval_native(e, true, call, f, w)
    }
}

/// `.read`, `.json` and `.include`; any other name fails.
#[verifier::opaque]
pub open spec fn eval_resource(e: Evaluator, call: CallView, f: nat, w: World) -> Ev<OutcomeView>
    decreases f, 6int, e, 0int,
{
    if call.body is Some {
        failed(
            w.complaint(
                "E3003"@,
                "`."@ + call.name + "` does not accept a block body"@,
                call.span,
                "Pass the logical project resource path as an argument."@,
            ),
        )
    } else {
        let values = eval_values(e, call.positional, call.span, f, w);
        match values.out {
            None => failed(values.w),
            Some(positional) => {
                let args = eval_named(e, call.named, call.span, f, values.w);
                match args.out {
                    None => failed(args.w),
                    Some(named) => if call.name == "read"@ {
                        eval_read(positional, named, call.span, args.w)
                    } else if call.name == "json"@ {
                        eval_json(positional, named, call.span, args.w)
                    } else if call.name == "include"@ {
                        eval_include(e, positional, named, call.span, f, args.w)
                    } else {
                        failed(args.w)
                    },
                }
            },
        }
    }
}

/// `.read`.
#[verifier::opaque]
pub open spec fn eval_read(
    positional: Seq<ValueView>,
    named: Seq<NamedArgView>,
    span: SourceSpan,
    w: World,
) -> Ev<OutcomeView> {
    match resources::resource_path("read"@, positional, named, span, w.s) {
        (None, s) => failed(w.on(s)),
        (Some(reference), s) => match resources::lines_argument(named, s) {
            (None, t) => failed(w.on(t)),
            (Some(lines), t) => match resources::calling_source(w.c, span, t) {
                (None, u) => failed(w.on(u)),
                (Some(source_id), u) => match u.ask_resource(
                    QueryView::ReadText { source_id, reference },
                ) {
                    (None, v) => failed(w.on(v)),
                    (Some(Err(error)), v) => failed(
                        w.on(v.with(resources::access_diagnostic("read"@, error, span))),
                    ),
                    (Some(Ok(resource)), v) => match lines {
                        None => gives(
                            ValueView::String(lines::normalized(resource.text)),
                            w.on(v),
                        ),
                        Some(range) => match lines::selected_lines(resource.text, range) {
                            Ok(content) => gives(ValueView::String(content), w.on(v)),
                            Err(message) => failed(
                                w.on(v).complaint(
                                    "E3001"@,
                                    "`.read` cannot select lines from `"@ + resource.path + "`: "@
                                        + message,
                                    span,
                                    "Use a one-based, inclusive line range within the resource."@,
                                ),
                            ),
                        },
                    },
                },
            },
        },
    }
}

/// `.json`.
#[verifier::opaque]
pub open spec fn eval_json(
    positional: Seq<ValueView>,
    named: Seq<NamedArgView>,
    span: SourceSpan,
    w: World,
) -> Ev<OutcomeView> {
    match resources::resource_path("json"@, positional, named, span, w.s) {
        (None, s) => failed(w.on(s)),
        (Some(reference), s) => if named.len() > 0 {
            failed(
                w.on(s).complaint(
                    "E3003"@,
                    "`.json` does not support named arguments"@,
                    named[0].name_span,
                    "Pass exactly one logical project resource path."@,
                ),
            )
        } else {
            match resources::calling_source(w.c, span, s) {
                (None, u) => failed(w.on(u)),
                (Some(source_id), u) => match u.ask_resource(
                    QueryView::ReadText { source_id, reference },
                ) {
                    (None, v) => failed(w.on(v)),
                    (Some(Err(error)), v) => failed(
                        w.on(v.with(resources::access_diagnostic("json"@, error, span))),
                    ),
                    (Some(Ok(resource)), v) => json_outcome(
                        resource.path,
                        json::json_parse(resource.text),
                        span,
                        w.on(v),
                    ),
                },
            }
        },
    }
}

/// `.json`, once the resource has been read and parsed.
#[verifier::opaque]
pub open spec fn json_outcome(
    path: Seq<char>,
    parsed: Result<json::JsonView, Seq<char>>,
    span: SourceSpan,
    w: World,
) -> Ev<OutcomeView> {
    match parsed {
        Err(error) => failed(
            w.complaint(
                "E3001"@,
                "`.json` could not parse `"@ + path + "`: "@ + error,
                span,
                "Provide valid UTF-8 JSON in the logical project resource."@,
            ),
        ),
        Ok(tree) => match json::json_value(tree, span) {
            Ok(value) => gives(value, w),
            Err(message) => failed(
                w.complaint(
                    "E3001"@,
                    "`.json` value in `"@ + path + "` is unsupported: "@ + message,
                    span,
                    "Use JSON values representable by Scribium's typed evaluator model."@,
                ),
            ),
        },
    }
}

/// The first place of a source among those that are active.
pub open spec fn active_place(active: Seq<SourceId>, source: SourceId) -> Option<int>
    decreases active.len(),
{
    if active.len() == 0 {
        None
    } else {
        match active_place(active.drop_last(), source) {
            Some(i) => Some(i),
            None => if active.last() == source {
                Some(active.len() - 1)
            } else {
                None
            },
        }
    }
}

/// The paths of sources that have one, joined by arrows.
#[verifier::opaque]
pub open spec fn source_paths(sources: Seq<SourceId>, s: SessionView) -> (
    Option<Seq<char>>,
    SessionView,
)
    decreases sources.len(),
{
    if sources.len() == 0 {
        (Some(Seq::empty()), s)
    } else {
        match source_paths(sources.drop_last(), s) {
            (None, t) => (None, t),
            (Some(paths), t) => match t.ask_text(
                QueryView::SourcePath { source_id: sources.last() },
            ) {
                (None, u) => (None, u),
                (Some(None), u) => (Some(paths), u),
                (Some(Some(path)), u) => (Some(paths + path + " -> "@), u),
            },
        }
    }
}

/// A message of the parser as a diagnostic of the evaluator.
pub open spec fn parser_diagnostic(d: ParseDiagnosticView, source_id: SourceId) -> DiagnosticView {
    DiagnosticView {
        code: d.code,
        severity: crate::diagnostic::Severity::Error,
        message: d.message,
        primary: Some(SourceSpan { source_id, start: d.start, end: d.end }),
        secondary: Seq::empty(),
        hints: Seq::empty(),
    }
}

/// Messages of the parser as diagnostics of the evaluator.
pub open spec fn parser_diagnostics(d: Seq<ParseDiagnosticView>, source_id: SourceId) -> Seq<
    DiagnosticView,
> {
    d.map_values(|d: ParseDiagnosticView| parser_diagnostic(d, source_id))
}

/// `.include`: the document of another source, evaluated in place.
#[verifier::opaque]
pub open spec fn eval_include(
    e: Evaluator,
    positional: Seq<ValueView>,
    named: Seq<NamedArgView>,
    span: SourceSpan,
    f: nat,
    w: World,
) -> Ev<OutcomeView>
    decreases f, 5int, e, 1int,
{
    match resources::resource_path("include"@, positional, named, span, w.s) {
        (None, s) => failed(w.on(s)),
        (Some(reference), s) => match resources::sandbox_argument(named, s) {
            (None, t) => failed(w.on(t)),
            (Some(sandbox), t) => match resources::calling_source(w.c, span, t) {
                (None, u) => failed(w.on(u)),
                (Some(source_id), u) => match u.ask_source(
                    QueryView::ReadSource { source_id, reference },
                ) {
                    (None, v) => failed(w.on(v)),
                    (Some(Err(AccessErrorView::NotFound { path })), v) => failed(
                        w.on(v).complaint(
                            "E3001"@,
                            "`.include` resource not found: `"@ + path + "`"@,
                            span,
                            "Add the target source to the VirtualProject supplied by the host."@,
                        ),
                    ),
                    (Some(Err(error)), v) => failed(
                        w.on(v.with(resources::access_diagnostic("include"@, error, span))),
                    ),
                    (Some(Ok(source)), v) => match active_place(
                        w.c.active_sources,
                        source.source_id,
                    ) {
                        Some(i) => match source_paths(w.c.active_sources.skip(i), v) {
                            (None, x) => failed(w.on(x)),
                            (Some(paths), x) => failed(
                                w.on(x).complaint(
                                    "E3001"@,
                                    "`.include` cycle detected: "@ + paths + source.path,
                                    span,
                                    "An active include may not include a source already on its call stack."@,
                                ),
                            ),
                        },
                        None => eval_source(
                            e,
                            source.source_id,
                            source.path,
                            source.text,
                            match sandbox {
                                Some(sandbox) => sandbox,
                                None => IncludeSandbox::Share,
                            },
                            f,
                            w.on(v),
                        ),
                    },
                },
            },
        },
    }
}

/// A source that is inserted: nothing of it counts where anything in it is reported.
#[verifier::opaque]
pub open spec fn eval_source(
    e: Evaluator,
    target: SourceId,
    path: Seq<char>,
    content: Seq<char>,
    sandbox: IncludeSandbox,
    f: nat,
    w: World,
) -> Ev<OutcomeView>
    decreases f, 5int, e, 0int,
{
    match w.s.ask_parsed(
        QueryView::Parse {
            source_id: target,
            text: content,
            mode: lines::mode_of_path(path),
            metadata_defaults: w.c.metadata_defaults,
        },
    ) {
        (None, s) => failed(w.on(s)),
        (Some(parsed), s) => if parsed.diagnostics.len() > 0 {
            failed(
                w.on(
                    SessionView {
                        diagnostics: s.diagnostics + parser_diagnostics(parsed.diagnostics, target),
                        ..s
                    },
                ),
            )
        } else if parsed.lowering_diagnostics.len() > 0 {
            failed(
                w.on(
                    SessionView { diagnostics: s.diagnostics + parsed.lowering_diagnostics, ..s },
                ),
            )
        } else {
            let inner = match sandbox {
                IncludeSandbox::Share => ContextView {
                    current_source: Some(target),
                    active_sources: w.c.active_sources.push(target),
                    ..w.c
                },
                _ => ContextView {
                    current_source: Some(target),
                    active_sources: w.c.active_sources.push(target),
                    ..scope::child_context(
                        ContextView { active_sources: w.c.active_sources.push(target), ..w.c },
                    )
                },
            };
            let r = eval_nodes(e, parsed.nodes, f, World { s, c: inner });
            let after = World {
                s: r.w.s,
                c: match sandbox {
                    IncludeSandbox::Share => ContextView {
                        current_source: w.c.current_source,
                        active_sources: w.c.active_sources,
                        ..r.w.c
                    },
                    _ => w.c,
                },
            };
            if after.reported() != s.diagnostics.len() {
                failed(after)
            } else {
                gives(ValueView::Content(r.out), after)
            }
        },
    }
}

/// A callable made in a scope.
pub open spec fn callable_here(
    lambda: Option<Seq<ParameterView>>,
    body: Seq<NodeView>,
    span: SourceSpan,
    c: ContextView,
) -> CallableView {
    CallableView {
        parameters: lambda,
        body,
        span,
        capture: Some(Box::new(scope::capture_of(c))),
    }
}

/// What a callable gives for arguments: it enters a frame, where one is left. The scope that
/// it is called in stays as it is.
#[verifier::opaque]
pub open spec fn invoke(
    e: Evaluator,
    callable: CallableView,
    arguments: Seq<ValueView>,
    destructuring: bool,
    span: SourceSpan,
    f: nat,
    w: World,
) -> Ev<OutcomeView>
    decreases f, 0int, e, 0int,
{
    if f == 0 {
        fails(w, Fault::DepthLimit, depth_message(e.limits.max_evaluation_depth as nat), span)
    } else {
        match calls::bind_invocation(callable.parameters, arguments, destructuring, span, w.s) {
            (None, s) => failed(w.on(s)),
            (Some(bound), s) => invoke_bound(e, callable, bound, (f - 1) as nat, w.on(s)),
        }
    }
}

/// A scope once parameters have been given their values.
pub open spec fn assign_all(
    c: ContextView,
    parameters: Seq<ParameterView>,
    values: Seq<ValueView>,
    done: nat,
) -> ContextView
    decreases done,
{
    if done == 0 {
        c
    } else {
        assign_all(c, parameters, values, (done - 1) as nat).assign(
            parameters[done - 1].name,
            values[done - 1],
        )
    }
}

/// The scope that a callable's body is evaluated in.
#[verifier::opaque]
pub open spec fn invocation_scope(
    callable: CallableView,
    bound: BoundView,
    caller: ContextView,
) -> ContextView {
    let definition = match callable.capture {
        Some(capture) => scope::context_of(*capture),
        None => scope::root_context(),
    };
    let child = scope::child_context(scope::overlaid_context(definition, caller));
    match bound {
        BoundView::Implicit(values) => ContextView {
            lambda_scope: Some(LambdaScopeView::Implicit(values)),
            ..child
        },
        BoundView::Explicit(values) => {
            let inner = ContextView { lambda_scope: Some(LambdaScopeView::Explicit), ..child };
            match callable.parameters {
                Some(list) => assign_all(
                    inner,
                    list,
                    values,
                    if list.len() <= values.len() {
                        list.len()
                    } else {
                        values.len()
                    },
                ),
                None => inner,
            }
        },
    }
}

/// What a callable gives once its arguments are bound.
#[verifier::opaque]
pub open spec fn invoke_bound(
    e: Evaluator,
    callable: CallableView,
    bound: BoundView,
    f: nat,
    w: World,
) -> Ev<OutcomeView>
    decreases f, 5int, e, 0int,
{
    let r = callable_body(
        e,
        callable.body,
        f,
        World { s: w.s, c: invocation_scope(callable, bound, w.c) },
    );
    Ev { out: r.out, w: w.on(r.w.s) }
}

/// The results of a callable for elements, from the first on.
#[verifier::opaque]
pub open spec fn map_values(
    e: Evaluator,
    elements: Seq<ValueView>,
    callable: CallableView,
    destructuring: bool,
    span: SourceSpan,
    f: nat,
    w: World,
) -> Ev<Result<Seq<ValueView>, OutcomeView>>
    decreases f, 5int, elements, 0int,
{
    if elements.len() == 0 {
        Ev { out: Ok(Seq::empty()), w }
    } else {
        let before = map_values(e, elements.drop_last(), callable, destructuring, span, f, w);
        match before.out {
            Err(out) => before,
            Ok(done) => {
                let r = invoke(
                    e,
                    callable,
                    seq![elements.last()],
                    destructuring,
                    span,
                    f,
                    before.w,
                );
                match r.out {
                    OutcomeView::Value(v) => Ev { out: Ok(done.push(v)), w: r.w },
                    OutcomeView::NoValue => Ev {
                        out: Err(OutcomeView::Failed),
                        w: no_value(r.w, span),
                    },
                    _ => Ev { out: Err(r.out), w: r.w },
                }
            },
        }
    }
}

/// The results of a callable for elements, as a collection.
#[verifier::opaque]
pub open spec fn map_outcome(
    e: Evaluator,
    elements: Seq<ValueView>,
    callable: CallableView,
    destructuring: bool,
    span: SourceSpan,
    f: nat,
    w: World,
) -> Ev<OutcomeView>
    decreases f, 5int, elements, 1int,
{
    match collection::check_elements(
        e.limits.max_materialized_elements as nat,
        elements.len(),
        span,
        w.s,
    ) {
        (false, s) => failed(w.on(s)),
        (true, s) => {
            let r = map_values(e, elements, callable, destructuring, span, f, w.on(s));
            match r.out {
                Ok(values) => gives(ValueView::Collection(values), r.w),
                Err(out) => Ev { out, w: r.w },
            }
        },
    }
}

/// The elements that a predicate keeps, from the first on.
#[verifier::opaque]
pub open spec fn filter_values(
    e: Evaluator,
    elements: Seq<ValueView>,
    callable: CallableView,
    span: SourceSpan,
    f: nat,
    w: World,
) -> Ev<Result<Seq<ValueView>, OutcomeView>>
    decreases f, 5int, elements, 0int,
{
    if elements.len() == 0 {
        Ev { out: Ok(Seq::empty()), w }
    } else {
        let before = filter_values(e, elements.drop_last(), callable, span, f, w);
        match before.out {
            Err(out) => before,
            Ok(done) => {
                let r = invoke(e, callable, seq![elements.last()], true, span, f, before.w);
                match r.out {
                    OutcomeView::Value(v) => match calls::boolean_meaning(v) {
                        Some(keep) => Ev {
                            out: Ok(
                                if keep {
                                    done.push(elements.last())
                                } else {
                                    done
                                },
                            ),
                            w: r.w,
                        },
                        None => Ev {
                            out: Err(OutcomeView::Failed),
                            w: r.w.fault(
                                Fault::Iteration,
                                "`.filter` predicate must return Boolean"@,
                                materialize::value_span(v, callable.span),
                            ),
                        },
                    },
                    OutcomeView::NoValue => Ev {
                        out: Err(OutcomeView::Failed),
                        w: no_value(r.w, callable.span),
                    },
                    _ => Ev { out: Err(r.out), w: r.w },
                }
            },
        }
    }
}

/// The value that an element is sorted by.
#[verifier::opaque]
pub open spec fn sort_value(
    e: Evaluator,
    element: ValueView,
    callable: Option<CallableView>,
    span: SourceSpan,
    f: nat,
    w: World,
) -> Ev<OutcomeView>
    decreases f, 1int, e, 0int,
{
    match callable {
        None => gives(element, w),
        Some(callable) => {
            let r = invoke(e, callable, seq![element], true, span, f, w);
            match r.out {
                OutcomeView::NoValue => failed(no_value(r.w, callable.span)),
                _ => r,
            }
        },
    }
}

/// Elements with the keys that they are sorted by, from the first on.
#[verifier::opaque]
pub open spec fn key_values(
    e: Evaluator,
    elements: Seq<ValueView>,
    callable: Option<CallableView>,
    span: SourceSpan,
    f: nat,
    w: World,
) -> Ev<Result<Seq<KeyedView>, OutcomeView>>
    decreases f, 5int, elements, 0int,
{
    if elements.len() == 0 {
        Ev { out: Ok(Seq::empty()), w }
    } else {
        let before = key_values(e, elements.drop_last(), callable, span, f, w);
        match before.out {
            Err(out) => before,
            Ok(done) => {
                let r = sort_value(e, elements.last(), callable, span, f, before.w);
                match r.out {
                    OutcomeView::Value(v) => match collection::key_of(v) {
                        Ok(key) => Ev {
                            out: Ok(done.push(KeyedView { value: elements.last(), key })),
                            w: r.w,
                        },
                        Err(message) => Ev {
                            out: Err(OutcomeView::Failed),
                            w: r.w.fault(
                                Fault::Iteration,
                                message,
                                materialize::value_span(v, span),
                            ),
                        },
                    },
                    _ => Ev { out: Err(r.out), w: r.w },
                }
            },
        }
    }
}

/// Whether all keys can be compared with the first.
pub open spec fn comparable(keyed: Seq<KeyedView>) -> bool {
    forall|i: int|
        1 <= i < keyed.len() ==> collection::same_kind(keyed[0].key, (#[trigger] keyed[i]).key)
}

/// `.map`, `.filter` and `.sorted`.
#[verifier::opaque]
pub open spec fn eval_transform(e: Evaluator, call: CallView, f: nat, w: World) -> Ev<OutcomeView>
    decreases f, 6int, e, 0int,
{
    match binding::transform_parts(
        call.name,
        call.positional,
        call.named,
        call.body is Some,
        call.span,
        w.s,
    ) {
        (None, s) => failed(w.on(s)),
        (Some((raw, raw_callback)), s) => {
            let r = invocation_value(e, raw, call.span, call.first_origin, f, w.on(s));
            match r.out {
                None => failed(r.w),
                Some(argument) => match collection::iterable_elements(
                    e.limits.max_materialized_elements as nat,
                    argument,
                    call.span,
                    r.w.s,
                ) {
                    (None, t) => failed(r.w.on(t)),
                    (Some(elements), t) => {
                        let c = transform_callback(e, call, raw_callback, f, r.w.on(t));
                        match c.out {
                            None => failed(c.w),
                            Some(callable) => transform_elements(
                                e,
                                call,
                                elements,
                                callable,
                                f,
                                c.w,
                            ),
                        }
                    },
                },
            }
        },
    }
}

/// The callback of a collection transform: its body or its argument; only `.sorted` may have
/// none.
#[verifier::opaque]
pub open spec fn transform_callback(
    e: Evaluator,
    call: CallView,
    raw: Option<ValueView>,
    f: nat,
    w: World,
) -> Ev<Option<Option<CallableView>>>
    decreases f, 5int, e, 0int,
{
    match call.body {
        Some(BodyView::Block(nodes)) => something(
            Some(callable_here(call.lambda, nodes, call.span, w.c)),
            w,
        ),
        Some(BodyView::Inline(_)) => nothing(
            w.fault(
                Fault::Iteration,
                "`."@ + call.name + "` requires a block or first-class lambda callback"@,
                call.span,
            ),
        ),
        None => match raw {
            Some(value) => {
                let r = required(e, value, call.span, f, w);
                match r.out {
                    None => nothing(r.w),
                    Some(ValueView::Callable(callable)) => something(Some(callable), r.w),
                    Some(v) => nothing(
                        r.w.fault(
                            Fault::Iteration,
                            "`."@ + call.name + "` callback must be a first-class callable"@,
                            materialize::value_span(v, call.span),
                        ),
                    ),
                }
            },
            None => if call.name == "sorted"@ {
                something(None, w)
            } else {
                nothing(
                    w.fault(
                        Fault::Iteration,
                        "`."@ + call.name + "` requires a callback lambda"@,
                        call.span,
                    ),
                )
            },
        },
    }
}

/// The elements of a collection transform, transformed.
#[verifier::opaque]
pub open spec fn transform_elements(
    e: Evaluator,
    call: CallView,
    elements: Seq<ValueView>,
    callable: Option<CallableView>,
    f: nat,
    w: World,
) -> Ev<OutcomeView>
    decreases f, 5int, elements, 2int,
{
    if call.name == "map"@ {
        match callable {
            Some(callable) => map_outcome(e, elements, callable, true, call.span, f, w),
            None => fails(
                w,
                Fault::Iteration,
                "`.map` requires a callback lambda"@,
                call.span,
            ),
        }
    } else if call.name == "filter"@ {
        match callable {
            Some(callable) => filter_outcome(e, elements, callable, call.span, f, w),
            None => fails(
                w,
                Fault::Iteration,
                "`.filter` requires a predicate lambda"@,
                call.span,
            ),
        }
    } else if call.name == "sorted"@ {
        sort_outcome(e, elements, callable, call.span, f, w)
    } else {
        fails(
            w,
            Fault::Iteration,
            "Unsupported collection transform `."@ + call.name + "`"@,
            call.span,
        )
    }
}

/// The elements that a predicate keeps, once there are not too many.
#[verifier::opaque]
pub open spec fn filter_outcome(
    e: Evaluator,
    elements: Seq<ValueView>,
    callable: CallableView,
    span: SourceSpan,
    f: nat,
    w: World,
) -> Ev<OutcomeView>
    decreases f, 5int, elements, 1int,
{
    match collection::check_elements(
        e.limits.max_materialized_elements as nat,
        elements.len(),
        span,
        w.s,
    ) {
        (false, s) => failed(w.on(s)),
        (true, s) => {
            let r = filter_values(e, elements, callable, span, f, w.on(s));
            match r.out {
                Ok(values) => gives(ValueView::Collection(values), r.w),
                Err(out) => Ev { out, w: r.w },
            }
        },
    }
}

/// The elements in the order of their keys, once there are not too many.
#[verifier::opaque]
pub open spec fn sort_outcome(
    e: Evaluator,
    elements: Seq<ValueView>,
    callable: Option<CallableView>,
    span: SourceSpan,
    f: nat,
    w: World,
) -> Ev<OutcomeView>
    decreases f, 5int, elements, 1int,
{
    match collection::check_elements(
        e.limits.max_materialized_elements as nat,
        elements.len(),
        span,
        w.s,
    ) {
        (false, s) => failed(w.on(s)),
        (true, s) => {
            let r = key_values(e, elements, callable, span, f, w.on(s));
            match r.out {
                Err(out) => Ev { out, w: r.w },
                Ok(keyed) => if comparable(keyed) {
                    gives(
                        ValueView::Collection(collection::unkeyed(collection::sort_keyed(keyed))),
                        r.w,
                    )
                } else {
                    fails(
                        r.w,
                        Fault::Iteration,
                        "`.sorted` does not compare heterogeneous key types"@,
                        span,
                    )
                },
            }
        },
    }
}

/// `.ifpresent` and `.takeif`.
#[verifier::opaque]
pub open spec fn eval_optionality(e: Evaluator, call: CallView, f: nat, w: World) -> Ev<OutcomeView>
    decreases f, 6int, e, 0int,
{
    match binding::optionality_parts(
        call.name,
        call.positional,
        call.named,
        call.body is Some,
        call.span,
        w.s,
    ) {
        (None, s) => failed(w.on(s)),
        (Some((raw, raw_callback)), s) => {
            let r = required(e, raw, call.span, f, w.on(s));
            match r.out {
                None => failed(r.w),
                Some(value) => if call.name == "ifpresent"@ && value is Nothing {
                    gives(ValueView::Nothing, r.w)
                } else {
                    let c = optionality_callback(e, call, raw_callback, f, r.w);
                    match c.out {
                        None => failed(c.w),
                        Some(callable) => optionality_outcome(e, call, value, callable, f, c.w),
                    }
                },
            }
        },
    }
}

/// The callback of `.ifpresent` and `.takeif`.
#[verifier::opaque]
pub open spec fn optionality_callback(
    e: Evaluator,
    call: CallView,
    raw: Option<ValueView>,
    f: nat,
    w: World,
) -> Ev<Option<CallableView>>
    decreases f, 5int, e, 0int,
{
    match call.body {
        Some(BodyView::Block(nodes)) => something(
            callable_here(call.lambda, nodes, call.span, w.c),
            w,
        ),
        Some(BodyView::Inline(_)) => nothing(
            w.fault(
                Fault::Function,
                "`."@ + call.name + "` requires a block or first-class lambda callback"@,
                call.span,
            ),
        ),
        None => match raw {
            None => nothing(
                w.fault(
                    Fault::Function,
                    "`."@ + call.name + "` requires a callback lambda"@,
                    call.span,
                ),
            ),
            Some(value) => {
                let r = eval_value(e, value, f, w);
                match r.out {
                    OutcomeView::Value(ValueView::Callable(callable)) => something(callable, r.w),
                    OutcomeView::Value(v) => nothing(
                        r.w.fault(
                            Fault::Iteration,
                            "`."@ + call.name + "` callback must be a first-class callable"@,
                            materialize::value_span(v, call.span),
                        ),
                    ),
                    OutcomeView::Unresolved => nothing(
                        r.w.fault(
                            Fault::Iteration,
                            "`."@ + call.name + "` callback must be a first-class callable"@,
                            materialize::value_span(value, call.span),
                        ),
                    ),
                    OutcomeView::NoValue => nothing(
                        no_value(r.w, materialize::value_span(value, call.span)),
                    ),
                    OutcomeView::Failed => nothing(r.w),
                }
            },
        },
    }
}

/// `.ifpresent` and `.takeif` with a value and a callback.
#[verifier::opaque]
pub open spec fn optionality_outcome(
    e: Evaluator,
    call: CallView,
    value: ValueView,
    callable: CallableView,
    f: nat,
    w: World,
) -> Ev<OutcomeView>
    decreases f, 5int, e, 0int,
{
    let r = invoke(e, callable, seq![value], false, call.span, f, w);
    match r.out {
        OutcomeView::Value(result) => if call.name == "ifpresent"@ {
            gives(result, r.w)
        } else {
            match calls::boolean_meaning(result) {
                Some(true) => gives(value, r.w),
                Some(false) => gives(ValueView::Nothing, r.w),
                None => fails(
                    r.w,
                    Fault::Iteration,
                    "`.takeif` condition must return Boolean"@,
                    materialize::value_span(result, callable.span),
                ),
            }
        },
        OutcomeView::NoValue => failed(no_value(r.w, callable.span)),
        _ => r,
    }
}

/// The error of a call of `.let`, `.foreach` or `.repeat` that is not shaped as it must be.
#[verifier::opaque]
pub open spec fn lambda_call_error(
    call: CallView,
    count: Seq<char>,
    inline: Seq<char>,
) -> Option<(Seq<char>, SourceSpan)> {
    if call.positional.len() != 1 {
        Some((count + text::decimal_text(call.positional.len()) + ")"@, call.span))
    } else if call.named.len() > 0 {
        Some(
            (
                "Unknown named argument `"@ + call.named[0].name + "` for `."@ + call.name + "`"@,
                call.named[0].name_span,
            ),
        )
    } else {
        match call.body {
            Some(BodyView::Block(_)) => None,
            Some(BodyView::Inline(_)) => Some((inline, call.span)),
            None => Some(("`."@ + call.name + "` requires a block lambda body"@, call.span)),
        }
    }
}

/// The blocks of a block body.
pub open spec fn block_of(call: CallView) -> Seq<NodeView> {
    match call.body {
        Some(BodyView::Block(nodes)) => nodes,
        _ => Seq::empty(),
    }
}

/// `.let`.
#[verifier::opaque]
pub open spec fn eval_let(e: Evaluator, call: CallView, f: nat, w: World) -> Ev<OutcomeView>
    decreases f, 6int, e, 0int,
{
    match lambda_call_error(
        call,
        "`.let` requires exactly one positional value argument (received "@,
        "`.let` supports only the block lambda form"@,
    ) {
        Some((message, span)) => fails(w, Fault::Let, message, span),
        None => if call.lambda is Some && call.lambda->0.len() != 1 {
            fails(
                w,
                Fault::Let,
                "`.let` requires exactly one explicit lambda parameter (received "@
                    + text::decimal_text(call.lambda->0.len()) + ")"@,
                lambda_span(call.lambda->0, call.span),
            )
        } else {
            let r = required(e, call.positional[0], call.span, f, w);
            match r.out {
                None => failed(r.w),
                Some(value) => invoke(
                    e,
                    callable_here(call.lambda, block_of(call), call.span, r.w.c),
                    seq![value],
                    false,
                    call.span,
                    f,
                    r.w,
                ),
            }
        },
    }
}

/// `.foreach`.
#[verifier::opaque]
pub open spec fn eval_foreach(e: Evaluator, call: CallView, f: nat, w: World) -> Ev<OutcomeView>
    decreases f, 6int, e, 0int,
{
    match lambda_call_error(
        call,
        "`.foreach` requires exactly one positional iterable argument (received "@,
        "`.foreach` supports only the block lambda form in this slice"@,
    ) {
        Some((message, span)) => fails(w, Fault::Iteration, message, span),
        None => match calls::iteration_lambda(call.lambda, ".foreach"@, true, call.span, w.s) {
            (false, s) => failed(w.on(s)),
            (true, s) => {
                let r = invocation_value(
                    e,
                    call.positional[0],
                    call.span,
                    call.first_origin,
                    f,
                    w.on(s),
                );
                match r.out {
                    None => failed(r.w),
                    Some(argument) => match collection::iterable_elements(
                        e.limits.max_materialized_elements as nat,
                        argument,
                        call.span,
                        r.w.s,
                    ) {
                        (None, t) => failed(r.w.on(t)),
                        (Some(elements), t) => map_outcome(
                            e,
                            elements,
                            callable_here(call.lambda, block_of(call), call.span, r.w.c),
                            true,
                            call.span,
                            f,
                            r.w.on(t),
                        ),
                    },
                }
            },
        },
    }
}

/// `.repeat`.
#[verifier::opaque]
pub open spec fn eval_repeat(e: Evaluator, call: CallView, f: nat, w: World) -> Ev<OutcomeView>
    decreases f, 6int, e, 0int,
{
    match lambda_call_error(
        call,
        "`.repeat` requires exactly one positional count argument (received "@,
        "`.repeat` supports only the block lambda form in this slice"@,
    ) {
        Some((message, span)) => fails(w, Fault::Iteration, message, span),
        None => match calls::iteration_lambda(call.lambda, ".repeat"@, false, call.span, w.s) {
            (false, s) => failed(w.on(s)),
            (true, s) => {
                let r = required(e, call.positional[0], call.span, f, w.on(s));
                match r.out {
                    None => failed(r.w),
                    Some(value) => match calls::count_of(value) {
                        Err(message) => fails(
                            r.w,
                            Fault::Iteration,
                            message,
                            materialize::value_span(value, call.span),
                        ),
                        Ok(count) => match collection::range_elements(
                            e.limits.max_materialized_elements as nat,
                            IrRange {
                                start: Some(1i32),
                                end: Some(count as i32),
                                span: call.span,
                            },
                            r.w.s,
                        ) {
                            (None, t) => failed(r.w.on(t)),
                            (Some(elements), t) => map_outcome(
                                e,
                                elements,
                                callable_here(call.lambda, block_of(call), call.span, r.w.c),
                                false,
                                call.span,
                                f,
                                r.w.on(t),
                            ),
                        },
                    },
                }
            },
        },
    }
}

/// A bound of `.range`, where it has one.
#[verifier::opaque]
pub open spec fn range_bound(
    e: Evaluator,
    value: Option<ValueView>,
    span: SourceSpan,
    origin: Option<ValueOrigin>,
    f: nat,
    w: World,
) -> Ev<Option<Option<i32>>>
    decreases f, 5int, e, 0int,
{
    match value {
        None => something(None, w),
        Some(value) => {
            let r = invocation_value(e, value, span, origin, f, w);
            match r.out {
                None => nothing(r.w),
                Some(argument) => match calls::range_endpoint(argument, r.w.s) {
                    (None, s) => nothing(r.w.on(s)),
                    (Some(None), s) => nothing(
                        r.w.on(s).fault(
                            Fault::Iteration,
                            "`.range` bounds must be numeric"@,
                            materialize::value_span(value, span),
                        ),
                    ),
                    (Some(Some(k)), s) => something(Some(k as i32), r.w.on(s)),
                },
            }
        },
    }
}

/// `.range`.
#[verifier::opaque]
pub open spec fn eval_range(e: Evaluator, call: CallView, f: nat, w: World) -> Ev<OutcomeView>
    decreases f, 6int, e, 0int,
{
    if call.body is Some {
        fails(w, Fault::Iteration, "`.range` does not accept a block body"@, call.span)
    } else {
        match binding::range_parts(call.positional, call.named, call.span, w.s) {
            (None, s) => failed(w.on(s)),
            (Some((from, to)), s) => {
                let first = range_bound(e, from, call.span, call.first_origin, f, w.on(s));
                match first.out {
                    None => failed(first.w),
                    Some(start) => {
                        let last = range_bound(e, to, call.span, None, f, first.w);
                        match last.out {
                            None => failed(last.w),
                            Some(end) => gives(
                                ValueView::Range(IrRange { start, end, span: call.span }),
                                last.w,
                            ),
                        }
                    },
                }
            },
        }
    }
}

/// `.pair`.
#[verifier::opaque]
pub open spec fn eval_pair(e: Evaluator, call: CallView, f: nat, w: World) -> Ev<OutcomeView>
    decreases f, 6int, e, 0int,
{
    if call.positional.len() != 2 {
        fails(
            w,
            Fault::Iteration,
            "`.pair` requires exactly two positional values (received "@ + text::decimal_text(
                call.positional.len(),
            ) + ")"@,
            call.span,
        )
    } else if call.named.len() > 0 {
        fails(
            w,
            Fault::Iteration,
            "Unknown named argument `"@ + call.named[0].name + "` for `.pair`"@,
            call.named[0].name_span,
        )
    } else if call.body is Some {
        fails(w, Fault::Iteration, "`.pair` does not accept a block body"@, call.span)
    } else {
        let r = eval_values(e, call.positional, call.span, f, w);
        match r.out {
            None => failed(r.w),
            Some(values) => gives(
                ValueView::Pair(
                    PairView {
                        first: Box::new(values[0]),
                        second: Box::new(values[1]),
                        span: call.span,
                    },
                ),
                r.w,
            ),
        }
    }
}

/// `.dictionary`.
#[verifier::opaque]
pub open spec fn eval_dictionary(e: Evaluator, call: CallView, f: nat, w: World) -> Ev<OutcomeView>
    decreases f, 6int, e, 0int,
{
    if call.positional.len() > 0 {
        fails(
            w,
            Fault::Iteration,
            "`.dictionary` accepts its entries as a block body"@,
            call.span,
        )
    } else if call.named.len() > 0 {
        fails(
            w,
            Fault::Iteration,
            "Unknown named argument `"@ + call.named[0].name + "` for `.dictionary`"@,
            call.named[0].name_span,
        )
    } else if call.body matches Some(BodyView::Inline(_)) {
        fails(
            w,
            Fault::Iteration,
            "`.dictionary` requires a Markdown list block body"@,
            call.span,
        )
    } else {
        let r = dictionary_entries(e, block_of(call), call.span, f, w);
        match r.out {
            None => failed(r.w),
            Some(entries) => gives(
                ValueView::Dictionary(DictionaryView { entries, span: call.span }),
                r.w,
            ),
        }
    }
}

/// The entries that the blocks of a dictionary are.
#[verifier::opaque]
pub open spec fn dictionary_entries(
    e: Evaluator,
    nodes: Seq<NodeView>,
    span: SourceSpan,
    f: nat,
    w: World,
) -> Ev<Option<Seq<PairView>>>
    decreases f, 5int, nodes, 0int,
{
    if nodes.len() == 0 {
        something(Seq::empty(), w)
    } else {
        match collection::only_list(nodes) {
            None => nothing(
                w.fault(
                    Fault::Iteration,
                    "`.dictionary` requires exactly one Markdown list body"@,
                    span,
                ),
            ),
            Some(items) => match collection::check_elements(
                e.limits.max_materialized_elements as nat,
                items.len(),
                span,
                w.s,
            ) {
                (false, s) => nothing(w.on(s)),
                (true, s) => entry_list(e, items, span, f, w.on(s)),
            },
        }
    }
}

/// The first entry with a key.
pub open spec fn key_place(entries: Seq<PairView>, key: Seq<char>) -> Option<int>
    decreases entries.len(),
{
    if entries.len() == 0 {
        None
    } else {
        match key_place(entries.drop_last(), key) {
            Some(i) => Some(i),
            None => if *entries.last().first == ValueView::String(key) {
                Some(entries.len() - 1)
            } else {
                None
            },
        }
    }
}

/// Entries once one more has been written: an entry with the same key is overwritten in place.
#[verifier::opaque]
pub open spec fn put_entry(
    entries: Seq<PairView>,
    key: Seq<char>,
    value: ValueView,
    span: SourceSpan,
) -> Seq<
    PairView,
> {
    let entry = PairView {
        first: Box::new(ValueView::String(key)),
        second: Box::new(value),
        span,
    };
    match key_place(entries, key) {
        Some(i) => entries.update(i, entry),
        None => entries.push(entry),
    }
}

/// The entries that list items are, from the first on.
#[verifier::opaque]
pub open spec fn entry_list(
    e: Evaluator,
    items: Seq<ListItemView>,
    span: SourceSpan,
    f: nat,
    w: World,
) -> Ev<Option<Seq<PairView>>>
    decreases f, 5int, items, 0int,
{
    if items.len() == 0 {
        something(Seq::empty(), w)
    } else {
        let before = entry_list(e, items.drop_last(), span, f, w);
        match before.out {
            None => nothing(before.w),
            Some(entries) => {
                let r = dictionary_entry(e, items.last(), span, f, before.w);
                match r.out {
                    None => nothing(r.w),
                    Some((key, value)) => something(
                        put_entry(entries, key, value, items.last().span),
                        r.w,
                    ),
                }
            },
        }
    }
}

/// The parts of the paragraph that a dictionary item starts with, or what is wrong with it.
#[verifier::opaque]
pub open spec fn entry_parts(item: ListItemView) -> Result<dictionary::EntryView, Seq<char>> {
    if item.nodes.len() == 0 {
        Err("Dictionary entries must start with a Markdown paragraph"@)
    } else {
        match item.nodes[0] {
            NodeView::Paragraph { content, span } => match dictionary::split_paragraph(
                content,
                span,
            ) {
                Some(parts) => Ok(parts),
                None => if item.nodes.len() > 1 {
                    match dictionary::plain_key(content) {
                        Some(key) => Ok(
                            dictionary::EntryView {
                                key,
                                inlines: Seq::empty(),
                                text: Seq::empty(),
                                span,
                            },
                        ),
                        None => Err("Dictionary entries require a string key"@),
                    }
                } else {
                    Err("Dictionary entries require a string key followed by `:`"@)
                },
            },
            _ => Err("Dictionary entries must start with a Markdown paragraph"@),
        }
    }
}

/// The key and the value of a dictionary item.
#[verifier::opaque]
pub open spec fn dictionary_entry(
    e: Evaluator,
    item: ListItemView,
    span: SourceSpan,
    f: nat,
    w: World,
) -> Ev<Option<(Seq<char>, ValueView)>>
    decreases f, 5int, item, 0int,
{
    match entry_parts(item) {
        Err(message) => nothing(w.fault(Fault::Iteration, message, item.span)),
        Ok(parts) => if parts.key.len() == 0 {
            nothing(w.fault(Fault::Iteration, "Dictionary keys must not be empty"@, item.span))
        } else if parts.inlines.len() > 0 {
            let r = required(
                e,
                dictionary::inline_entry(parts.inlines, parts.span),
                span,
                f,
                w,
            );
            match r.out {
                Some(value) => something((parts.key, value), r.w),
                None => nothing(r.w),
            }
        } else if parts.text.len() > 0 {
            match dictionary::scalar_entry(parts.text, w.s) {
                (Some(value), s) => something((parts.key, value), w.on(s)),
                (None, s) => nothing(w.on(s)),
            }
        } else if item.nodes.len() <= 1 {
            something((parts.key, ValueView::String(Seq::empty())), w)
        } else {
            let r = dictionary_entries(e, item.nodes.skip(1), item.span, f, w);
            match r.out {
                Some(entries) => something(
                    (
                        parts.key,
                        ValueView::Dictionary(DictionaryView { entries, span: item.span }),
                    ),
                    r.w,
                ),
                None => nothing(r.w),
            }
        },
    }
}

/// Operations that read a collection.
#[verifier::opaque]
pub open spec fn eval_access(e: Evaluator, call: CallView, f: nat, w: World) -> Ev<OutcomeView>
    decreases f, 6int, e, 0int,
{
    if call.body is Some {
        fails(
            w,
            Fault::Iteration,
            "`."@ + call.name + "` does not accept a block body"@,
            call.span,
        )
    } else {
        let args = call_arguments(e, call, f, w);
        match args.out {
            None => failed(args.w),
            Some((values, named)) => {
                let (out, s) = access_outcome(
                    e.limits.max_materialized_elements as nat,
                    call.name,
                    values,
                    named,
                    call.span,
                    args.w.s,
                );
                Ev { out, w: args.w.on(s) }
            },
        }
    }
}

/// An element, or the value that stands for nothing where there is none.
pub open spec fn element_or_none(values: Seq<ValueView>, i: int) -> ValueView {
    if 0 <= i < values.len() {
        values[i]
    } else {
        ValueView::Nothing
    }
}

/// A number as an outcome.
pub open spec fn number_outcome(r: (Option<Number>, SessionView)) -> (OutcomeView, SessionView) {
    match r {
        (Some(n), s) => (OutcomeView::Value(ValueView::Number(n)), s),
        (None, s) => (OutcomeView::Failed, s),
    }
}

/// What an operation that reads a collection comes to.
#[verifier::opaque]
pub open spec fn access_outcome(
    limit: nat,
    name: Seq<char>,
    positional: Seq<InvocationValueView>,
    named: Seq<InvocationNamedView>,
    span: SourceSpan,
    s: SessionView,
) -> (OutcomeView, SessionView) {
    if name == "getat"@ {
        match binding::getat_parts(positional, named, span, s) {
            (None, t) => (OutcomeView::Failed, t),
            (Some((argument, index, fallback)), t) => match collection::iterable_elements(
                limit,
                argument,
                span,
                t,
            ) {
                (None, u) => (OutcomeView::Failed, u),
                (Some(elements), u) => match collection::length_number(elements.len(), span, u) {
                    (None, v) => (OutcomeView::Failed, v),
                    (Some(_), v) => match collection::element_at(index, elements.len(), span, v) {
                        (None, x) => (OutcomeView::Failed, x),
                        (Some(Some(i)), x) => (OutcomeView::Value(elements[i]), x),
                        (Some(None), x) => (OutcomeView::Value(fallback), x),
                    },
                },
            },
        }
    } else {
        let parameter = if name == "size"@ {
            "of"@
        } else {
            "from"@
        };
        match calls::access_operand(name, parameter, positional, named, span, s) {
            (None, t) => (OutcomeView::Failed, t),
            (Some(argument), t) => match collection::iterable_elements(limit, argument, span, t) {
                (None, u) => (OutcomeView::Failed, u),
                (Some(elements), u) => elements_outcome(name, elements, span, u),
            },
        }
    }
}

/// What an operation that reads the elements of a collection comes to.
#[verifier::opaque]
pub open spec fn elements_outcome(
    name: Seq<char>,
    elements: Seq<ValueView>,
    span: SourceSpan,
    s: SessionView,
) -> (OutcomeView, SessionView) {
    if name == "size"@ {
        number_outcome(collection::length_number(elements.len(), span, s))
    } else if name == "first"@ {
        (OutcomeView::Value(element_or_none(elements, 0)), s)
    } else if name == "second"@ {
        (OutcomeView::Value(element_or_none(elements, 1)), s)
    } else if name == "third"@ {
        (OutcomeView::Value(element_or_none(elements, 2)), s)
    } else if name == "last"@ {
        (OutcomeView::Value(element_or_none(elements, elements.len() - 1)), s)
    } else if name == "sumall"@ {
        number_outcome(collection::sum_of(elements, s))
    } else if name == "average"@ {
        number_outcome(collection::average_of(elements, span, s))
    } else if name == "distinct"@ {
        (OutcomeView::Value(ValueView::Collection(collection::distinct_values(elements))), s)
    } else if name == "reversed"@ {
        (OutcomeView::Value(ValueView::Collection(elements.reverse())), s)
    } else {
        (
            OutcomeView::Value(
                ValueView::Collection(
                    collection::group_collections(collection::grouped_values(elements)),
                ),
            ),
            s,
        )
    }
}

/// A regular builtin of the host.
#[verifier::opaque]
pub open spec fn eval_builtin(e: Evaluator, call: CallView, f: nat, w: World) -> Ev<OutcomeView>
    decreases f, 6int, e, 0int,
{
    match w.s.ask_policy(QueryView::BuiltinPolicy { name: call.name }) {
        (None, s) => failed(w.on(s)),
        (Some(None), s) => Ev { out: OutcomeView::Unresolved, w: w.on(s) },
        (Some(Some(policy)), s) => {
            let positional = builtin_values(e, call, policy, f, w.on(s));
            match positional.out {
                None => failed(positional.w),
                Some(values) => {
                    let args = invocation_named(e, call.named, call.span, f, positional.w);
                    match args.out {
                        None => failed(args.w),
                        Some(named) => match args.w.s.ask_value(
                            QueryView::BuiltinCall {
                                name: call.name,
                                positional: values,
                                named,
                                has_body: policy == BuiltinBodyPolicy::Reject && call.body is Some,
                            },
                        ) {
                            (None, t) => failed(args.w.on(t)),
                            (Some(Ok(value)), t) => gives(value, args.w.on(t)),
                            (Some(Err(message)), t) => fails(
                                args.w.on(t),
                                Fault::Chain,
                                message,
                                call.span,
                            ),
                        },
                    }
                },
            }
        },
    }
}

/// The positional values of a builtin, with its body behind them where it takes one.
#[verifier::opaque]
pub open spec fn builtin_values(
    e: Evaluator,
    call: CallView,
    policy: BuiltinBodyPolicy,
    f: nat,
    w: World,
) -> Ev<Option<Seq<InvocationValueView>>>
    decreases f, 5int, e, 2int,
{
    let r = invocation_values(e, call.positional, call.span, call.first_origin, f, w);
    match r.out {
        None => nothing(r.w),
        Some(values) => if policy == BuiltinBodyPolicy::BindEvaluatedContent && call.body is Some {
            let b = body_value(e, call.body->0, call.span, f, r.w);
            match b.out {
                None => nothing(b.w),
                Some(value) => something(
                    values.push(InvocationValueView { value, origin: ValueOrigin::Static }),
                    b.w,
                ),
            }
        } else {
            something(values, r.w)
        },
    }
}

/// A function of the document.
#[verifier::opaque]
pub open spec fn eval_user_function(
    e: Evaluator,
    binding: FunctionBindingView,
    call: CallView,
    f: nat,
    w: World,
) -> Ev<OutcomeView>
    decreases f, 6int, e, 0int,
{
    let values = eval_values(e, call.positional, call.span, f, w);
    match values.out {
        None => failed(values.w),
        Some(positional) => {
            let args = eval_named(e, call.named, call.span, f, values.w);
            match args.out {
                None => failed(args.w),
                Some(named) => {
                    let b = bind_parameters(
                        e,
                        binding.parameters,
                        positional,
                        named,
                        call,
                        f,
                        args.w,
                    );
                    match b.out {
                        None => failed(b.w),
                        Some(bound) => invoke_bound(e, scope::callable_of(binding), bound, f, b.w),
                    }
                },
            }
        },
    }
}

/// The names of parameters.
pub open spec fn parameter_names(parameters: Seq<ParameterView>) -> Seq<Seq<char>> {
    parameters.map_values(|p: ParameterView| p.name)
}

/// The arguments of a function, bound to its parameters: positional ones, named ones, the body
/// for the last parameter, and nothing for optional parameters that are left.
#[verifier::opaque]
pub open spec fn bind_parameters(
    e: Evaluator,
    parameters: LambdaParametersView,
    positional: Seq<ValueView>,
    named: Seq<NamedArgView>,
    call: CallView,
    f: nat,
    w: World,
) -> Ev<Option<BoundView>>
    decreases f, 5int, e, 3int,
{
    match parameters {
        LambdaParametersView::Implicit => if named.len() > 0 {
            nothing(
                w.fault(
                    Fault::Function,
                    "Implicit lambda parameters are positional only"@,
                    named[0].name_span,
                ),
            )
        } else {
            match call.body {
                None => something(BoundView::Implicit(positional), w),
                Some(body) => {
                    let r = body_value(e, body, call.span, f, w);
                    match r.out {
                        None => nothing(r.w),
                        Some(value) => something(BoundView::Implicit(positional.push(value)), r.w),
                    }
                },
            }
        },
        LambdaParametersView::Explicit(list) => match binding::bind_arguments(
            Style::Parameters,
            call.name,
            parameter_names(list),
            "Function call has too many positional arguments (received at least "@
                + text::decimal_text(list.len() + 1) + ")"@,
            binding::static_arguments(positional, call.span),
            binding::static_named(named),
            call.span,
            w.s,
        ) {
            (None, s) => nothing(w.on(s)),
            (Some(slots), s) => {
                let b = bind_body(e, slots, call, f, w.on(s));
                match b.out {
                    None => nothing(b.w),
                    Some(slots) => match filled(list, slots, list.len(), b.w.s) {
                        (None, t) => nothing(b.w.on(t)),
                        (Some(values), t) => something(BoundView::Explicit(values), b.w.on(t)),
                    },
                }
            },
        },
    }
}

/// The parameters of a function once its body has been given to the last of them.
#[verifier::opaque]
pub open spec fn bind_body(
    e: Evaluator,
    slots: Seq<Option<ArgumentView>>,
    call: CallView,
    f: nat,
    w: World,
) -> Ev<Option<Seq<Option<ArgumentView>>>>
    decreases f, 5int, e, 2int,
{
    match call.body {
        None => something(slots, w),
        Some(body) => if slots.len() == 0 {
            nothing(
                w.fault(
                    Fault::Function,
                    "A block argument requires a final function parameter"@,
                    call.span,
                ),
            )
        } else if slots.last() is Some {
            nothing(
                w.fault(
                    Fault::Function,
                    "A block argument collides with the function's final parameter binding"@,
                    call.span,
                ),
            )
        } else {
            let r = body_value(e, body, call.span, f, w);
            match r.out {
                None => nothing(r.w),
                Some(value) => something(
                    slots.update(
                        slots.len() - 1,
                        Some(
                            ArgumentView {
                                value: InvocationValueView { value, origin: ValueOrigin::Static },
                                span: call.span,
                            },
                        ),
                    ),
                    r.w,
                ),
            }
        },
    }
}

/// The values of the first parameters: what they were given, or nothing where they are
/// optional.
#[verifier::opaque]
pub open spec fn filled(
    parameters: Seq<ParameterView>,
    slots: Seq<Option<ArgumentView>>,
    done: nat,
    s: SessionView,
) -> (Option<Seq<ValueView>>, SessionView)
    decreases done,
{
    if done == 0 {
        (Some(Seq::empty()), s)
    } else {
        match filled(parameters, slots, (done - 1) as nat, s) {
            (None, t) => (None, t),
            (Some(values), t) => match binding::given(slots[done - 1]) {
                Some(value) => (Some(values.push(value)), t),
                None => if parameters[done - 1].optional {
                    (Some(values.push(ValueView::Nothing)), t)
                } else {
                    (
                        None,
                        t.fault(
                            Fault::Function,
                            "Missing required argument `"@ + parameters[done - 1].name + "`"@,
                            parameters[done - 1].name_span,
                        ),
                    )
                },
            },
        }
    }
}

/// The world once a variable has been assigned what an argument evaluates to.
#[verifier::opaque]
pub open spec fn assign_argument(
    e: Evaluator,
    name: Seq<char>,
    value: ValueView,
    span: SourceSpan,
    f: nat,
    w: World,
) -> Ev<OutcomeView>
    decreases f, 5int, e, 0int,
{
    let r = required(e, value, span, f, w);
    match r.out {
        Some(v) => Ev { out: OutcomeView::NoValue, w: r.w.assign(name, v) },
        None => failed(r.w),
    }
}

/// A variable called with one argument.
#[verifier::opaque]
pub open spec fn eval_reassignment(
    e: Evaluator,
    call: CallView,
    f: nat,
    w: World,
) -> Ev<OutcomeView>
    decreases f, 6int, e, 0int,
{
    assign_argument(e, call.name, call.positional[0], call.span, f, w)
}

/// The name that a declaration gives.
pub open spec fn declared_name(value: ValueView) -> Option<Seq<char>> {
    match value {
        ValueView::Identifier(name) => Some(name),
        ValueView::String(name) => Some(name),
        _ => None,
    }
}

/// The world once a declaration of a variable turned out to be wrong.
pub open spec fn bad_declaration(w: World, span: SourceSpan) -> World {
    w.fault(
        Fault::VarDeclaration,
        "`.var` declaration requires a name and a value (body, second positional argument, or named `value`/`body` argument)"@,
        span,
    )
}

/// `.var`.
#[verifier::opaque]
pub open spec fn eval_var(e: Evaluator, call: CallView, f: nat, w: World) -> Ev<OutcomeView>
    decreases f, 6int, e, 0int,
{
    let declared = if call.positional.len() > 0 {
        declared_name(call.positional[0])
    } else {
        None
    };
    match declared {
        None => failed(bad_declaration(w, call.span)),
        Some(name) => if !text::is_call_name(name) {
            fails(
                w,
                Fault::VarName,
                "Invalid variable name `"@ + name + "`: must match `[A-Za-z_][A-Za-z0-9_-]*`"@,
                call.span,
            )
        } else {
            match call.body {
                Some(body) => {
                    let r = match body {
                        BodyView::Block(nodes) => callable_body(e, nodes, f, w),
                        BodyView::Inline(_) => eval_body(e, body, call.span, f, w),
                    };
                    match r.out {
                        OutcomeView::Value(value) => Ev {
                            out: OutcomeView::NoValue,
                            w: r.w.assign(name, value),
                        },
                        _ => failed(r.w),
                    }
                },
                None => match calls::named_index(call.named, "body"@) {
                    Some(i) => assign_argument(e, name, call.named[i].value, call.span, f, w),
                    None => match calls::named_index(call.named, "value"@) {
                        Some(i) => assign_argument(e, name, call.named[i].value, call.span, f, w),
                        None => if call.positional.len() > 1 {
                            assign_argument(e, name, call.positional[1], call.span, f, w)
                        } else {
                            failed(bad_declaration(w, call.span))
                        },
                    },
                },
            }
        },
    }
}

/// The first parameter that has the name of an earlier one.
pub open spec fn is_duplicate(parameters: Seq<ParameterView>, i: int) -> bool {
    &&& 0 <= i < parameters.len()
    &&& exists|j: int| 0 <= j < i && (#[trigger] parameters[j]).name == parameters[i].name
}

/// The first parameter that has the name of an earlier one.
pub open spec fn first_duplicate(parameters: Seq<ParameterView>, done: nat) -> Option<int>
    decreases done,
{
    if done == 0 {
        None
    } else {
        match first_duplicate(parameters, (done - 1) as nat) {
            Some(i) => Some(i),
            None => if is_duplicate(parameters, done - 1) {
                Some(done - 1)
            } else {
                None
            },
        }
    }
}

/// The world once a function has been declared.
#[verifier::opaque]
pub open spec fn declare_function(
    name: ValueView,
    parameters: Seq<ParameterView>,
    body: Seq<NodeView>,
    span: SourceSpan,
    w: World,
) -> World {
    match declared_name(name) {
        None => w.fault(Fault::Function, "Function name must be a normal identifier"@, span),
        Some(name) => if !text::is_call_name(name) {
            w.fault(Fault::Function, "Invalid function name `"@ + name + "`"@, span)
        } else if body.len() == 0 {
            w.fault(Fault::Function, "Function declaration requires a non-empty body"@, span)
        } else {
            match first_duplicate(parameters, parameters.len()) {
                Some(i) => w.fault(
                    Fault::Function,
                    "Duplicate function parameter `"@ + parameters[i].name + "`"@,
                    parameters[i].span,
                ),
                None => World {
                    s: w.s,
                    c: w.c.declare(
                        name,
                        FunctionBindingView {
                            parameters: if parameters.len() == 0 {
                                LambdaParametersView::Implicit
                            } else {
                                LambdaParametersView::Explicit(parameters)
                            },
                            body,
                            declaration_span: span,
                            capture: Some(Box::new(scope::capture_of(w.c))),
                        },
                    ),
                },
            }
        },
    }
}

/// The document that a document evaluates to in a scope, and the session that is left.
#[verifier::opaque]
pub open spec fn eval_document(
    e: Evaluator,
    document: DocumentView,
    s: SessionView,
    c: ContextView,
) -> (
    DocumentView,
    SessionView,
) {
    let r = eval_nodes(
        e,
        document.nodes,
        e.limits.max_evaluation_depth as nat,
        World {
            s: SessionView { document_state: document.metadata.document_state, ..s },
            c,
        },
    );
    (
        DocumentView {
            nodes: r.out,
            metadata: MetadataView {
                document_state: r.w.s.document_state,
                ..document.metadata
            },
        },
        r.w.s,
    )
}

} // verus!
