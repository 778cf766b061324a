//! The evaluator: documents, their blocks and lines, and the values in them.

use vstd::prelude::*;

use crate::diagnostic::Fault;
use crate::host;
use crate::host::{InvocationNamedArg, InvocationValue, Session, ValueOrigin};
use crate::ir;
use crate::ir::{
    CallSegmentView, IrCallSegment, IrCallable, IrInline, IrNamedArg, IrNode, IrParameter, IrValue,
    NodeView, SourceSpan,
};
use crate::ir_copy::{
    copy_callable, copy_inline, copy_node, copy_parameters, copy_value, copy_values,
};
use crate::materialize::{
    ir_node_source_span, materialize_inline_value, one_inline, one_node, validate_preserved_value,
    value_into_content_nodes, value_source_span,
};
use crate::natives::{is_align, is_center, is_container, is_landscape, is_stacked_layout};
use crate::outcome::{CallOutcome, OutcomeView};
use crate::scope;
use crate::scope::EvaluationContext;
use crate::semantics;
use crate::semantics::{BodyResult, BodyView, CallView, Ev, Evaluator, World};
use crate::sequences;
use crate::text::{join3, join5};
use crate::views;

verus! {

broadcast use {
    crate::ir::group_ir_views,
    crate::host::group_host_views,
    host::group_follows,
    scope::group_stays,
};

/// The body of a call.
#[derive(Clone, Copy)]
pub enum CallBody<'a> {
    Block(&'a Vec<IrNode>),
    Inline(&'a Vec<IrInline>),
}

impl<'a> View for CallBody<'a> {
    type V = BodyView;

    open spec fn view(&self) -> BodyView {
        match *self {
            CallBody::Block(nodes) => BodyView::Block(ir::nodes_view(nodes@)),
            CallBody::Inline(inlines) => BodyView::Inline(ir::inlines_view(inlines@)),
        }
    }
}

/// A call with its arguments as they are written.
#[derive(Clone, Copy)]
pub struct Call<'a> {
    pub name: &'a str,
    pub positional: &'a Vec<IrValue>,
    pub named: &'a Vec<IrNamedArg>,
    pub lambda: Option<&'a Vec<IrParameter>>,
    pub body: Option<CallBody<'a>>,
    pub span: SourceSpan,
    /// Where the first positional value comes from, where a chain passes it on.
    pub first_origin: Option<ValueOrigin>,
}

impl<'a> View for Call<'a> {
    type V = CallView;

    open spec fn view(&self) -> CallView {
        CallView {
            name: self.name@,
            positional: ir::values_view(self.positional@),
            named: ir::named_args_view(self.named@),
            lambda: views::parameters(self.lambda),
            body: match self.body {
                Some(body) => Some(body@),
                None => None,
            },
            span: self.span,
            first_origin: self.first_origin,
        }
    }
}

/// Appends blocks to blocks.
pub fn append_blocks(out: &mut Vec<IrNode>, more: Vec<IrNode>)
    ensures
        ir::nodes_view(final(out)@) == ir::nodes_view(old(out)@) + ir::nodes_view(more@),
{
    let mut more = more;
    out.append(&mut more);
}

/// Appends inlines to inlines.
pub fn append_inlines(out: &mut Vec<IrInline>, more: Vec<IrInline>)
    ensures
        ir::inlines_view(final(out)@) == ir::inlines_view(old(out)@) + ir::inlines_view(more@),
{
    let mut more = more;
    out.append(&mut more);
}

/// What a call that gave this leaves in a document.
pub fn block_content(out: CallOutcome, span: SourceSpan, session: &mut Session) -> (r: Vec<IrNode>)
    ensures
        forall|c: scope::ContextView|
            (Ev { out: ir::nodes_view(r@), w: World { s: final(session)@, c } })
                == #[trigger] semantics::block_outcome(out@, span, World { s: old(session)@, c }),
        host::follows(old(session)@, final(session)@),
{
    proof {
        reveal(semantics::block_outcome);
    }
    match out {
        CallOutcome::Value(value) => match value_into_content_nodes(&value, span, session) {
            Some(nodes) => nodes,
            None => Vec::new(),
        },
        _ => Vec::new(),
    }
}

/// What a call that gave this leaves in a line.
pub fn inline_content(
    out: CallOutcome,
    span: SourceSpan,
    session: &mut Session,
) -> (r: Vec<IrInline>)
    ensures
        forall|c: scope::ContextView|
            (Ev { out: ir::inlines_view(r@), w: World { s: final(session)@, c } })
                == #[trigger] semantics::inline_outcome(out@, span, World { s: old(session)@, c }),
        host::follows(old(session)@, final(session)@),
{
    proof {
        reveal(semantics::inline_outcome);
    }
    match out {
        CallOutcome::Value(value) => materialize_inline_value(&value, span, session),
        _ => Vec::new(),
    }
}

/// The block-only call that a name stands for in a line, if it is one.
pub fn block_only_call(
    name: &str,
    context: &EvaluationContext,
) -> (r: Option<(Fault, &'static str)>)
    ensures
        (match r {
            Some((fault, message)) => Some((fault, message@)),
            None => None,
        }) == semantics::block_only(name@, context@),
{
    proof {
        reveal(semantics::block_only);
    }
    if is_stacked_layout(name) {
        return Some((Fault::StackedInline, "Stacked layout is block-only"));
    }
    if context.get_function(name).is_some() {
        return None;
    }
    if is_center(name) {
        Some((Fault::CenterInline, "`.center` is block-only"))
    } else if is_align(name) {
        Some((Fault::AlignInline, "`.align` is block-only"))
    } else if is_container(name) {
        Some((Fault::ContainerInline, "`.container` is block-only"))
    } else if is_landscape(name) {
        Some((Fault::LandscapeInline, "`.landscape` is block-only"))
    } else {
        None
    }
}

/// Whether the blocks declare a function.
pub fn declares_function(nodes: &Vec<IrNode>) -> (r: bool)
    ensures
        r == semantics::declares(ir::nodes_view(nodes@)),
{
    let ghost all = ir::nodes_view(nodes@);
    let mut i: usize = 0;
    while i < nodes.len()
        invariant
            0 <= i <= nodes@.len(),
            all == ir::nodes_view(nodes@),
            forall|j: int| 0 <= j < i ==> !((#[trigger] all[j]) is FunctionDeclaration),
        decreases nodes@.len() - i,
    {
        assert(all[i as int] == nodes@[i as int]@);
        if let IrNode::FunctionDeclaration { .. } = &nodes[i] {
            return true;
        }
        i += 1;
    }
    false
}

/// Reports that a call that should give a value gave none.
pub fn report_no_value(span: SourceSpan, session: &mut Session)
    ensures
        forall|c: scope::ContextView|
            (World { s: final(session)@, c }) == #[trigger] semantics::no_value(
                World { s: old(session)@, c },
                span,
            ),
        host::follows(old(session)@, final(session)@),
{
    session.fault(
        Fault::Chain,
        "Call produced no value where a value is required for semantic composition".to_owned(),
        span,
    );
}

/// Reports raw HTML where it may not be.
pub fn report_raw_html(span: SourceSpan, session: &mut Session)
    ensures
        forall|c: scope::ContextView|
            (World { s: final(session)@, c }) == #[trigger] semantics::raw_html(
                World { s: old(session)@, c },
                span,
            ),
        host::follows(old(session)@, final(session)@),
{
    session.fault(
        Fault::RawHtml,
        "Raw HTML is unsupported outside an owning target-specific function argument".to_owned(),
        span,
    );
}

impl Evaluator {
    /// Evaluates a block.
    pub fn evaluate_node(
        &self,
        node: &IrNode,
        frames: usize,
        session: &mut Session,
        context: &mut EvaluationContext,
    ) -> (r: Vec<IrNode>)
        ensures
            (Ev { out: ir::nodes_view(r@), w: World { s: final(session)@, c: final(context)@ } })
                == semantics::eval_node(
                *self,
                node@,
                frames as nat,
                World { s: old(session)@, c: old(context)@ },
            ),
            host::follows(old(session)@, final(session)@),
            scope::stays(old(context)@, final(context)@),
        decreases frames, 4int, node, 3int,
    {
        proof {
            reveal(semantics::eval_node);
            reveal(semantics::eval_chain);
            reveal(semantics::preserve_call);
        }
        match node {
            IrNode::FunctionDeclaration { name, parameters, body, span } => {
                self.handle_function_declaration(name, parameters, body, *span, session, context);
                Vec::new()
            },
            IrNode::FunctionCall { .. } => self.evaluate_block_call(node, frames, session, context),
            IrNode::ChainedFunctionCall { head, chain, body, span } => {
                let body = match body {
                    Some(nodes) => Some(CallBody::Block(nodes)),
                    None => None,
                };
                let out = self.evaluate_chain_value(head, chain, body, frames, session, context);
                block_content(out, *span, session)
            },
            IrNode::Heading { level, content, span } => {
                let content = self.evaluate_inlines(content, frames, session, context);
                one_node(IrNode::Heading { level: *level, content, span: *span })
            },
            IrNode::Paragraph { content, span } => {
                let content = self.evaluate_inlines(content, frames, session, context);
                one_node(IrNode::Paragraph { content, span: *span })
            },
            IrNode::Blockquote { content, span } => {
                let content = self.evaluate_nodes(content, frames, session, context);
                one_node(IrNode::Blockquote { content, span: *span })
            },
            IrNode::UnorderedList { items, span } => {
                let items = self.evaluate_items(items, frames, session, context);
                one_node(IrNode::UnorderedList { items, span: *span })
            },
            IrNode::OrderedList { items, start, span } => {
                let items = self.evaluate_items(items, frames, session, context);
                one_node(IrNode::OrderedList { items, start: *start, span: *span })
            },
            IrNode::Table { header, rows, span } => {
                let header = self.evaluate_row(header, frames, session, context);
                let rows = self.evaluate_rows(rows, frames, session, context);
                one_node(IrNode::Table { header, rows, span: *span })
            },
            IrNode::RawHtml { span, .. } => {
                report_raw_html(*span, session);
                Vec::new()
            },
            _ => one_node(copy_node(node)),
        }
    }

    /// Evaluates a call that stands as a block.
    pub fn evaluate_block_call(
        &self,
        node: &IrNode,
        frames: usize,
        session: &mut Session,
        context: &mut EvaluationContext,
    ) -> (r: Vec<IrNode>)
        requires
            node is FunctionCall,
        ensures
            (Ev { out: ir::nodes_view(r@), w: World { s: final(session)@, c: final(context)@ } })
                == semantics::eval_node(
                *self,
                node@,
                frames as nat,
                World { s: old(session)@, c: old(context)@ },
            ),
            host::follows(old(session)@, final(session)@),
            scope::stays(old(context)@, final(context)@),
        decreases frames, 4int, node, 2int,
    {
        proof {
            reveal(semantics::eval_node);
            reveal(semantics::eval_chain);
            reveal(semantics::preserve_call);
        }
        match node {
            IrNode::FunctionCall {
                name,
                positional_args,
                named_args,
                lambda_parameters,
                body,
                span,
            } => {
                let call = Call {
                    name: name.as_str(),
                    positional: positional_args,
                    named: named_args,
                    lambda: match lambda_parameters {
                        Some(list) => Some(list),
                        None => None,
                    },
                    body: match body {
                        Some(nodes) => Some(CallBody::Block(nodes)),
                        None => None,
                    },
                    span: *span,
                    first_origin: None,
                };
                assert(call@ == semantics::call_of_node(node@));
                match self.evaluate_call_value(&call, frames, session, context) {
                    CallOutcome::Unresolved => match self.preserve_block_call(
                        node,
                        frames,
                        session,
                        context,
                    ) {
                        Some(nodes) => nodes,
                        None => Vec::new(),
                    },
                    out => block_content(out, *span, session),
                }
            },
            _ => Vec::new(),
        }
    }

    /// Evaluates an inline.
    pub fn evaluate_inline(
        &self,
        inline: &IrInline,
        frames: usize,
        session: &mut Session,
        context: &mut EvaluationContext,
    ) -> (r: Vec<IrInline>)
        ensures
            (Ev { out: ir::inlines_view(r@), w: World { s: final(session)@, c: final(context)@ } })
                == semantics::eval_inline(
                *self,
                inline@,
                frames as nat,
                World { s: old(session)@, c: old(context)@ },
            ),
            host::follows(old(session)@, final(session)@),
            scope::stays(old(context)@, final(context)@),
        decreases frames, 4int, inline, 3int,
    {
        proof {
            reveal(semantics::eval_inline);
            reveal(semantics::eval_chain);
            reveal(semantics::preserve_inline_call);
        }
        match inline {
            IrInline::Emphasis { content, span } => {
                let content = self.evaluate_inlines(content, frames, session, context);
                one_inline(IrInline::Emphasis { content, span: *span })
            },
            IrInline::Strong { content, span } => {
                let content = self.evaluate_inlines(content, frames, session, context);
                one_inline(IrInline::Strong { content, span: *span })
            },
            IrInline::Strikethrough { content, span } => {
                let content = self.evaluate_inlines(content, frames, session, context);
                one_inline(IrInline::Strikethrough { content, span: *span })
            },
            IrInline::Link { content, destination, title, span } => {
                let content = self.evaluate_inlines(content, frames, session, context);
                let title = match title {
                    Some(text) => Some(text.clone()),
                    None => None,
                };
                one_inline(
                    IrInline::Link {
                        content,
                        destination: destination.clone(),
                        title,
                        span: *span,
                    },
                )
            },
            IrInline::DirectiveCall { .. } => self.evaluate_inline_call(
                inline,
                frames,
                session,
                context,
            ),
            IrInline::ChainedDirectiveCall { head, chain, body, span } => {
                let body = match body {
                    Some(inlines) => Some(CallBody::Inline(inlines)),
                    None => None,
                };
                let out = self.evaluate_chain_value(head, chain, body, frames, session, context);
                inline_content(out, *span, session)
            },
            IrInline::RawHtml { span, .. } => {
                report_raw_html(*span, session);
                Vec::new()
            },
            _ => one_inline(copy_inline(inline)),
        }
    }

    /// Evaluates a call that stands in a line.
    pub fn evaluate_inline_call(
        &self,
        inline: &IrInline,
        frames: usize,
        session: &mut Session,
        context: &mut EvaluationContext,
    ) -> (r: Vec<IrInline>)
        requires
            inline is DirectiveCall,
        ensures
            (Ev { out: ir::inlines_view(r@), w: World { s: final(session)@, c: final(context)@ } })
                == semantics::eval_inline(
                *self,
                inline@,
                frames as nat,
                World { s: old(session)@, c: old(context)@ },
            ),
            host::follows(old(session)@, final(session)@),
            scope::stays(old(context)@, final(context)@),
        decreases frames, 4int, inline, 2int,
    {
        proof {
            reveal(semantics::eval_inline);
            reveal(semantics::eval_chain);
            reveal(semantics::preserve_inline_call);
        }
        match inline {
            IrInline::DirectiveCall { name, positional_args, named_args, body, span } => {
                if let Some((fault, message)) = block_only_call(name.as_str(), context) {
                    session.fault(fault, message.to_owned(), *span);
                    return Vec::new();
                }
                let call = Call {
                    name: name.as_str(),
                    positional: positional_args,
                    named: named_args,
                    lambda: None,
                    body: match body {
                        Some(inlines) => Some(CallBody::Inline(inlines)),
                        None => None,
                    },
                    span: *span,
                    first_origin: None,
                };
                assert(call@ == semantics::call_of_inline(inline@));
                match self.evaluate_call_value(&call, frames, session, context) {
                    CallOutcome::Unresolved => match self.preserve_inline_call(
                        inline,
                        frames,
                        session,
                        context,
                    ) {
                        Some(inlines) => inlines,
                        None => Vec::new(),
                    },
                    out => inline_content(out, *span, session),
                }
            },
            _ => Vec::new(),
        }
    }

    /// Evaluates a value.
    pub fn evaluate_value(
        &self,
        value: &IrValue,
        frames: usize,
        session: &mut Session,
        context: &mut EvaluationContext,
    ) -> (r: CallOutcome)
        ensures
            (Ev { out: r@, w: World { s: final(session)@, c: final(context)@ } })
                == semantics::eval_value(
                *self,
                value@,
                frames as nat,
                World { s: old(session)@, c: old(context)@ },
            ),
            host::follows(old(session)@, final(session)@),
            scope::stays(old(context)@, final(context)@),
        decreases frames, 4int, value, 1int,
    {
        proof {
            reveal(semantics::eval_value);
            reveal(semantics::eval_chain_node);
        }
        match value {
            IrValue::Content(nodes) => {
                if nodes.len() == 1 {
                    assert(ir::nodes_view(nodes@)[0] == nodes@[0]@);
                    match &nodes[0] {
                        IrNode::FunctionCall {
                            name,
                            positional_args,
                            named_args,
                            lambda_parameters,
                            body,
                            span,
                        } => {
                            let call = Call {
                                name: name.as_str(),
                                positional: positional_args,
                                named: named_args,
                                lambda: match lambda_parameters {
                                    Some(list) => Some(list),
                                    None => None,
                                },
                                body: match body {
                                    Some(nodes) => Some(CallBody::Block(nodes)),
                                    None => None,
                                },
                                span: *span,
                                first_origin: None,
                            };
                            assert(call@ == semantics::call_of_node(nodes@[0]@));
                            return self.evaluate_call_value(&call, frames, session, context);
                        },
                        IrNode::ChainedFunctionCall { head, chain, body, .. } => {
                            return self.evaluate_chain_node(&nodes[0], frames, session, context);
                        },
                        _ => {},
                    }
                }
                let before = session.diagnostics.len();
                let out = self.evaluate_nodes(nodes, frames, session, context);
                if session.diagnostics.len() != before {
                    CallOutcome::Failed
                } else if out.len() == 0 && declares_function(nodes) {
                    CallOutcome::NoValue
                } else {
                    CallOutcome::Value(IrValue::Content(out))
                }
            },
            IrValue::Callable(callable) => {
                if callable.capture.is_some() {
                    return CallOutcome::Value(copy_value(value));
                }
                CallOutcome::Value(
                    IrValue::Callable(
                        IrCallable {
                            capture: Some(Box::new(context.capture_snapshot())),
                            ..copy_callable(callable)
                        },
                    ),
                )
            },
            _ => CallOutcome::Value(copy_value(value)),
        }
    }

    /// Evaluates a chain that stands as a block.
    fn evaluate_chain_node(
        &self,
        node: &IrNode,
        frames: usize,
        session: &mut Session,
        context: &mut EvaluationContext,
    ) -> (r: CallOutcome)
        ensures
            (Ev { out: r@, w: World { s: final(session)@, c: final(context)@ } })
                == semantics::eval_chain_node(
                *self,
                node@,
                frames as nat,
                World { s: old(session)@, c: old(context)@ },
            ),
            host::follows(old(session)@, final(session)@),
            scope::stays(old(context)@, final(context)@),
        decreases frames, 3int, self, 0int,
    {
        proof {
            reveal(semantics::eval_chain_node);
            reveal(semantics::eval_chain);
        }
        match node {
            IrNode::ChainedFunctionCall { head, chain, body, .. } => {
                let body = match body {
                    Some(nodes) => Some(CallBody::Block(nodes)),
                    None => None,
                };
                self.evaluate_chain_value(head, chain, body, frames, session, context)
            },
            _ => CallOutcome::Failed,
        }
    }

    /// Keeps a value as it is written, with what is inside it evaluated.
    pub fn preserve_value_expression(
        &self,
        value: &IrValue,
        frames: usize,
        session: &mut Session,
        context: &mut EvaluationContext,
    ) -> (r: Option<IrValue>)
        ensures
            (Ev { out: views::value(r), w: World { s: final(session)@, c: final(context)@ } })
                == semantics::preserve_value(
                *self,
                value@,
                frames as nat,
                World { s: old(session)@, c: old(context)@ },
            ),
            host::follows(old(session)@, final(session)@),
            scope::stays(old(context)@, final(context)@),
        decreases frames, 4int, value, 0int,
    {
        proof {
            reveal(semantics::preserve_value);
            reveal(semantics::preserve_call);
        }
        match value {
            IrValue::Content(nodes) => {
                if nodes.len() == 1 {
                    assert(ir::nodes_view(nodes@)[0] == nodes@[0]@);
                    if let IrNode::FunctionCall { .. } = &nodes[0] {
                        return match self.preserve_block_call(&nodes[0], frames, session, context) {
                            Some(nodes) => Some(IrValue::Content(nodes)),
                            None => None,
                        };
                    }
                }
                let before = session.diagnostics.len();
                let out = self.evaluate_nodes(nodes, frames, session, context);
                if session.diagnostics.len() == before {
                    Some(IrValue::Content(out))
                } else {
                    None
                }
            },
            _ => {
                if validate_preserved_value(value, session) {
                    Some(copy_value(value))
                } else {
                    None
                }
            },
        }
    }

    /// Evaluates an argument, which must have a value.
    pub fn evaluate_required(
        &self,
        value: &IrValue,
        span: SourceSpan,
        frames: usize,
        session: &mut Session,
        context: &mut EvaluationContext,
    ) -> (r: Option<IrValue>)
        ensures
            (Ev { out: views::value(r), w: World { s: final(session)@, c: final(context)@ } })
                == semantics::required(
                *self,
                value@,
                span,
                frames as nat,
                World { s: old(session)@, c: old(context)@ },
            ),
            host::follows(old(session)@, final(session)@),
            scope::stays(old(context)@, final(context)@),
        decreases frames, 4int, value, 2int,
    {
        proof {
            reveal(semantics::required);
            reveal(semantics::eval_value);
            reveal(semantics::preserve_value);
        }
        match self.evaluate_value(value, frames, session, context) {
            CallOutcome::Value(v) => Some(v),
            CallOutcome::Unresolved => self.preserve_value_expression(
                value,
                frames,
                session,
                context,
            ),
            CallOutcome::NoValue => {
                report_no_value(value_source_span(value, span), session);
                None
            },
            CallOutcome::Failed => None,
        }
    }

    /// Evaluates an argument of a call that is kept.
    pub fn evaluate_kept(
        &self,
        value: &IrValue,
        span: SourceSpan,
        frames: usize,
        session: &mut Session,
        context: &mut EvaluationContext,
    ) -> (r: Option<IrValue>)
        ensures
            (Ev { out: views::value(r), w: World { s: final(session)@, c: final(context)@ } })
                == semantics::kept(
                *self,
                value@,
                span,
                frames as nat,
                World { s: old(session)@, c: old(context)@ },
            ),
            host::follows(old(session)@, final(session)@),
            scope::stays(old(context)@, final(context)@),
        decreases frames, 4int, value, 2int,
    {
        proof {
            reveal(semantics::kept);
            reveal(semantics::eval_value);
            reveal(semantics::preserve_value);
        }
        match self.evaluate_value(value, frames, session, context) {
            CallOutcome::Value(v) => {
                if validate_preserved_value(&v, session) {
                    Some(v)
                } else {
                    None
                }
            },
            CallOutcome::Unresolved => self.preserve_value_expression(
                value,
                frames,
                session,
                context,
            ),
            CallOutcome::NoValue => {
                report_no_value(value_source_span(value, span), session);
                None
            },
            CallOutcome::Failed => None,
        }
    }

    /// Keeps a call that nothing answers to, with its arguments and its body evaluated.
    pub fn preserve_block_call(
        &self,
        node: &IrNode,
        frames: usize,
        session: &mut Session,
        context: &mut EvaluationContext,
    ) -> (r: Option<Vec<IrNode>>)
        ensures
            (Ev { out: views::nodes(r), w: World { s: final(session)@, c: final(context)@ } })
                == semantics::preserve_call(
                *self,
                node@,
                frames as nat,
                World { s: old(session)@, c: old(context)@ },
            ),
            host::follows(old(session)@, final(session)@),
            scope::stays(old(context)@, final(context)@),
        decreases frames, 4int, node, 1int,
    {
        proof {
            reveal(semantics::preserve_call);
        }
        match node {
            IrNode::FunctionCall {
                name,
                positional_args,
                named_args,
                lambda_parameters,
                body,
                span,
            } => {
                let positional = match self.evaluate_values_for_preservation(
                    positional_args,
                    *span,
                    frames, session, context,
                ) {
                    Some(values) => values,
                    None => return None,
                };
                let named = match self.evaluate_named_for_preservation(
                    named_args,
                    *span,
                    frames,
                    session,
                    context,
                ) {
                    Some(values) => values,
                    None => return None,
                };
                let lambda = match lambda_parameters {
                    Some(list) => Some(copy_parameters(list)),
                    None => None,
                };
                let body = match body {
                    None => None,
                    Some(nodes) => {
                        let before = session.diagnostics.len();
                        let out = self.evaluate_nodes(nodes, frames, session, context);
                        if session.diagnostics.len() != before {
                            return None;
                        }
                        Some(out)
                    },
                };
                Some(
                    one_node(
                        IrNode::FunctionCall {
                            name: name.clone(),
                            positional_args: positional,
                            named_args: named,
                            lambda_parameters: lambda,
                            body,
                            span: *span,
                        },
                    ),
                )
            },
            _ => None,
        }
    }

    /// Keeps an inline call that nothing answers to, with its arguments and its body evaluated.
    pub fn preserve_inline_call(
        &self,
        inline: &IrInline,
        frames: usize,
        session: &mut Session,
        context: &mut EvaluationContext,
    ) -> (r: Option<Vec<IrInline>>)
        ensures
            (Ev { out: views::inlines(r), w: World { s: final(session)@, c: final(context)@ } })
                == semantics::preserve_inline_call(
                *self,
                inline@,
                frames as nat,
                World { s: old(session)@, c: old(context)@ },
            ),
            host::follows(old(session)@, final(session)@),
            scope::stays(old(context)@, final(context)@),
        decreases frames, 4int, inline, 1int,
    {
        proof {
            reveal(semantics::preserve_inline_call);
        }
        match inline {
            IrInline::DirectiveCall { name, positional_args, named_args, body, span } => {
                let positional = match self.evaluate_values_for_preservation(
                    positional_args,
                    *span,
                    frames, session, context,
                ) {
                    Some(values) => values,
                    None => return None,
                };
                let named = match self.evaluate_named_for_preservation(
                    named_args,
                    *span,
                    frames,
                    session,
                    context,
                ) {
                    Some(values) => values,
                    None => return None,
                };
                let body = match body {
                    None => None,
                    Some(inlines) => {
                        let before = session.diagnostics.len();
                        let out = self.evaluate_inlines(inlines, frames, session, context);
                        if session.diagnostics.len() != before {
                            return None;
                        }
                        Some(out)
                    },
                };
                Some(
                    one_inline(
                        IrInline::DirectiveCall {
                            name: name.clone(),
                            positional_args: positional,
                            named_args: named,
                            body,
                            span: *span,
                        },
                    ),
                )
            },
            _ => None,
        }
    }

    /// Evaluates one argument and finds where it comes from.
    pub fn evaluate_invocation_value(
        &self,
        value: &IrValue,
        span: SourceSpan,
        first_origin: Option<ValueOrigin>,
        frames: usize,
        session: &mut Session,
        context: &mut EvaluationContext,
    ) -> (r: Option<InvocationValue>)
        ensures
            (Ev { out: views::invocation(r), w: World { s: final(session)@, c: final(context)@ } })
                == semantics::invocation_value(
                *self,
                value@,
                span,
                first_origin,
                frames as nat,
                World { s: old(session)@, c: old(context)@ },
            ),
            host::follows(old(session)@, final(session)@),
            scope::stays(old(context)@, final(context)@),
        decreases frames, 4int, value, 3int,
    {
        proof {
            reveal(semantics::invocation_value);
            reveal(semantics::required);
        }
        let origin = match first_origin {
            Some(origin) => origin,
            None => context.invocation_origin(value),
        };
        match self.evaluate_required(value, span, frames, session, context) {
            Some(value) => Some(InvocationValue { value, origin }),
            None => None,
        }
    }

    /// Evaluates the arguments of a call: first the positional ones, then the named ones.
    pub fn evaluate_arguments(
        &self,
        call: &Call,
        frames: usize,
        session: &mut Session,
        context: &mut EvaluationContext,
    ) -> (r: Option<(Vec<InvocationValue>, Vec<InvocationNamedArg>)>)
        ensures
            (Ev { out: views::arguments(r), w: World { s: final(session)@, c: final(context)@ } })
                == semantics::call_arguments(
                *self,
                call@,
                frames as nat,
                World { s: old(session)@, c: old(context)@ },
            ),
            r matches Some((values, named)) ==> values@.len() == call.positional@.len()
                && named@.len() == call.named@.len(),
            host::follows(old(session)@, final(session)@),
            scope::stays(old(context)@, final(context)@),
        decreases frames, 5int, self, 0int,
    {
        proof {
            reveal(semantics::call_arguments);
        }
        let values = match self.evaluate_invocation_values(
            call.positional,
            call.span,
            call.first_origin,
            frames, session, context,
        ) {
            Some(values) => values,
            None => return None,
        };
        match self.evaluate_invocation_named(call.named, call.span, frames, session, context) {
            Some(named) => Some((values, named)),
            None => None,
        }
    }

    /// Evaluates the content of a body.
    pub fn evaluate_body_content(
        &self,
        body: CallBody,
        span: SourceSpan,
        frames: usize,
        session: &mut Session,
        context: &mut EvaluationContext,
    ) -> (r: Option<Vec<IrNode>>)
        ensures
            (Ev { out: views::nodes(r), w: World { s: final(session)@, c: final(context)@ } })
                == semantics::body_content(
                *self,
                body@,
                span,
                frames as nat,
                World { s: old(session)@, c: old(context)@ },
            ),
            host::follows(old(session)@, final(session)@),
            scope::stays(old(context)@, final(context)@),
        decreases frames, 5int, self, 0int,
    {
        proof {
            reveal(semantics::body_content);
        }
        let before = session.diagnostics.len();
        match body {
            CallBody::Block(nodes) => {
                let out = self.evaluate_nodes(nodes, frames, session, context);
                if session.diagnostics.len() == before {
                    Some(out)
                } else {
                    None
                }
            },
            CallBody::Inline(inlines) => {
                let content = self.evaluate_inlines(inlines, frames, session, context);
                if session.diagnostics.len() == before {
                    Some(one_node(IrNode::Paragraph { content, span }))
                } else {
                    None
                }
            },
        }
    }

    /// Evaluates the body of a call.
    pub fn evaluate_call_body(
        &self,
        body: CallBody,
        span: SourceSpan,
        frames: usize,
        session: &mut Session,
        context: &mut EvaluationContext,
    ) -> (r: CallOutcome)
        ensures
            (Ev { out: r@, w: World { s: final(session)@, c: final(context)@ } })
                == semantics::eval_body(
                *self,
                body@,
                span,
                frames as nat,
                World { s: old(session)@, c: old(context)@ },
            ),
            host::follows(old(session)@, final(session)@),
            scope::stays(old(context)@, final(context)@),
        decreases frames, 5int, self, 1int,
    {
        proof {
            reveal(semantics::eval_body);
            reveal(semantics::body_content);
        }
        match self.evaluate_body_content(body, span, frames, session, context) {
            Some(nodes) => CallOutcome::Value(IrValue::Content(nodes)),
            None => CallOutcome::Failed,
        }
    }

    /// Evaluates a body as a value.
    pub fn evaluate_body_value(
        &self,
        body: CallBody,
        span: SourceSpan,
        frames: usize,
        session: &mut Session,
        context: &mut EvaluationContext,
    ) -> (r: Option<IrValue>)
        ensures
            (Ev { out: views::value(r), w: World { s: final(session)@, c: final(context)@ } })
                == semantics::body_value(
                *self,
                body@,
                span,
                frames as nat,
                World { s: old(session)@, c: old(context)@ },
            ),
            host::follows(old(session)@, final(session)@),
            scope::stays(old(context)@, final(context)@),
        decreases frames, 5int, self, 1int,
    {
        proof {
            reveal(semantics::body_value);
            reveal(semantics::body_content);
        }
        match self.evaluate_body_content(body, span, frames, session, context) {
            Some(nodes) => Some(IrValue::Content(nodes)),
            None => None,
        }
    }

    /// Evaluates the body of a callable.
    pub fn evaluate_callable_body_value(
        &self,
        nodes: &Vec<IrNode>,
        frames: usize,
        session: &mut Session,
        context: &mut EvaluationContext,
    ) -> (r: CallOutcome)
        ensures
            (Ev { out: r@, w: World { s: final(session)@, c: final(context)@ } })
                == semantics::callable_body(
                *self,
                ir::nodes_view(nodes@),
                frames as nat,
                World { s: old(session)@, c: old(context)@ },
            ),
            host::follows(old(session)@, final(session)@),
            scope::stays(old(context)@, final(context)@),
        decreases frames, 4int, nodes, 2int,
    {
        proof {
            reveal(semantics::callable_body);
            reveal(semantics::body_results);
        }
        let ghost all = ir::nodes_view(nodes@);
        let ghost w0 = World { s: session@, c: context@ };
        proof {
            reveal(semantics::body_results);
            reveal(semantics::eval_statement);
        }
        let mut result = CallableBodyResult::Empty;
        let mut i: usize = 0;
        assert(all.take(0) =~= Seq::empty());
        while i < nodes.len()
            invariant
                host::follows(old(session)@, session@),
                scope::stays(old(context)@, context@),
                0 <= i <= nodes@.len(),
                all == ir::nodes_view(nodes@),
                w0 == (World { s: old(session)@, c: old(context)@ }),
                semantics::body_results(*self, all.take(i as int), frames as nat, w0) == (Ev {
                    out: Ok::<BodyResult, OutcomeView>(result@),
                    w: World { s: session@, c: context@ },
                }),
            decreases nodes@.len() - i,
        {
            proof {
                reveal(semantics::body_results);
                reveal(semantics::eval_statement);
                sequences::lemma_take_step(all, i as int);
            }
            match self.evaluate_callable_statement_value(&nodes[i], frames, session, context) {
                CallOutcome::Value(value) => {
                    match result.append_value(value, ir_node_source_span(&nodes[i]), session) {
                        Some(next) => {
                            result = next;
                        },
                        None => {
                            proof {
                                reveal(semantics::callable_body);
                                reveal(semantics::body_results);
                                lemma_body_results_stops(
                                    *self,
                                    all,
                                    i + 1,
                                    frames as nat,
                                    w0,
                                );
                            }
                            return CallOutcome::Failed;
                        },
                    }
                },
                CallOutcome::NoValue => {},
                CallOutcome::Failed => {
                    proof {
                        reveal(semantics::callable_body);
                        reveal(semantics::body_results);
                        lemma_body_results_stops(*self, all, i + 1, frames as nat, w0);
                    }
                    return CallOutcome::Failed;
                },
                CallOutcome::Unresolved => {
                    proof {
                        reveal(semantics::callable_body);
                        reveal(semantics::body_results);
                        lemma_body_results_stops(*self, all, i + 1, frames as nat, w0);
                    }
                    return CallOutcome::Unresolved;
                },
            }
            i += 1;
        }
        proof {
            sequences::lemma_take_all(all);
        }
        match result {
            CallableBodyResult::Empty => CallOutcome::NoValue,
            CallableBodyResult::One(value, _) => CallOutcome::Value(value),
            CallableBodyResult::Many(nodes) => CallOutcome::Value(IrValue::Content(nodes)),
        }
    }

    /// Evaluates a statement of a callable's body.
    fn evaluate_callable_statement_value(
        &self,
        node: &IrNode,
        frames: usize,
        session: &mut Session,
        context: &mut EvaluationContext,
    ) -> (r: CallOutcome)
        ensures
            (Ev { out: r@, w: World { s: final(session)@, c: final(context)@ } })
                == semantics::eval_statement(
                *self,
                node@,
                frames as nat,
                World { s: old(session)@, c: old(context)@ },
            ),
            host::follows(old(session)@, final(session)@),
            scope::stays(old(context)@, final(context)@),
        decreases frames, 4int, node, 4int,
    {
        proof {
            reveal(semantics::eval_statement);
            reveal(semantics::eval_chain_node);
            reveal(semantics::eval_node);
            reveal(semantics::preserve_call);
        }
        match node {
            IrNode::FunctionCall {
                name,
                positional_args,
                named_args,
                lambda_parameters,
                body,
                span,
            } => {
                let call = Call {
                    name: name.as_str(),
                    positional: positional_args,
                    named: named_args,
                    lambda: match lambda_parameters {
                        Some(list) => Some(list),
                        None => None,
                    },
                    body: match body {
                        Some(nodes) => Some(CallBody::Block(nodes)),
                        None => None,
                    },
                    span: *span,
                    first_origin: None,
                };
                assert(call@ == semantics::call_of_node(node@));
                match self.evaluate_call_value(&call, frames, session, context) {
                    CallOutcome::Unresolved => match self.preserve_block_call(
                        node,
                        frames,
                        session,
                        context,
                    ) {
                        Some(nodes) => CallOutcome::Value(IrValue::Content(nodes)),
                        None => CallOutcome::Failed,
                    },
                    out => out,
                }
            },
            IrNode::ChainedFunctionCall { .. } => self.evaluate_chain_node(
                node,
                frames,
                session,
                context,
            ),
            _ => {
                let before = session.diagnostics.len();
                let nodes = self.evaluate_node(node, frames, session, context);
                if session.diagnostics.len() != before {
                    CallOutcome::Failed
                } else if nodes.len() == 0 {
                    CallOutcome::NoValue
                } else {
                    CallOutcome::Value(IrValue::Content(nodes))
                }
            },
        }
    }

    /// Evaluates a chain of calls, each of which receives the value of the one before it.
    pub fn evaluate_chain_value(
        &self,
        head: &IrCallSegment,
        chain: &Vec<IrCallSegment>,
        body: Option<CallBody>,
        frames: usize,
        session: &mut Session,
        context: &mut EvaluationContext,
    ) -> (r: CallOutcome)
        ensures
            (Ev { out: r@, w: World { s: final(session)@, c: final(context)@ } })
                == semantics::eval_chain(
                *self,
                head@,
                ir::segments_view(chain@),
                optional_body(body),
                frames as nat,
                World { s: old(session)@, c: old(context)@ },
            ),
            host::follows(old(session)@, final(session)@),
            scope::stays(old(context)@, final(context)@),
        decreases frames, 2int, self, 0int,
    {
        proof {
            reveal(semantics::eval_chain);
            reveal(semantics::chain_prefix);
        }
        let ghost all = ir::segments_view(chain@);
        let ghost given = optional_body(body);
        let ghost w0 = World { s: session@, c: context@ };
        proof {
            reveal(semantics::chain_prefix);
        }
        let mut origin = context.call_result_origin(head.name.as_str());
        let call = Call {
            name: head.name.as_str(),
            positional: &head.positional_args,
            named: &head.named_args,
            lambda: None,
            body: None,
            span: head.span,
            first_origin: None,
        };
        assert(call@ == semantics::call_of_segment(head@, None, None));
        let first = self.evaluate_call_value(&call, frames, session, context);
        let mut outcome = self.chain_outcome(first, head, chain.len() > 0, session, context);
        let mut i: usize = 0;
        while i < chain.len()
            invariant
                host::follows(old(session)@, session@),
                scope::stays(old(context)@, context@),
                0 <= i <= chain@.len(),
                all == ir::segments_view(chain@),
                given == optional_body(body),
                w0 == (World { s: old(session)@, c: old(context)@ }),
                semantics::chain_prefix(
                    *self,
                    head@,
                    all,
                    i as nat,
                    given,
                    frames as nat,
                    w0,
                ) == (Ev { out: (outcome@, origin), w: World { s: session@, c: context@ } }),
            decreases chain@.len() - i,
        {
            proof {
                reveal(semantics::chain_prefix);
            }
            match outcome {
                CallOutcome::Value(value) => {
                    let segment = &chain[i];
                    assert(all[i as int] == segment@);
                    let positional = received_arguments(value, &segment.positional_args);
                    let call = Call {
                        name: segment.name.as_str(),
                        positional: &positional,
                        named: &segment.named_args,
                        lambda: None,
                        body: if i + 1 == chain.len() {
                            body
                        } else {
                            None
                        },
                        span: segment.span,
                        first_origin: Some(origin),
                    };
                    assert(call@ == semantics::call_of_segment(
                        segment@,
                        Some((value@, origin)),
                        if i + 1 == chain@.len() {
                            given
                        } else {
                            None
                        },
                    ));
                    let next = self.evaluate_call_value(&call, frames, session, context);
                    outcome = self.chain_outcome(
                        next,
                        segment,
                        i + 1 < chain.len(),
                        session,
                        context,
                    );
                    origin = context.call_result_origin(segment.name.as_str());
                },
                out => {
                    proof {
                        reveal(semantics::eval_chain);
                        reveal(semantics::chain_prefix);
                        lemma_chain_stops(
                            *self,
                            head@,
                            all,
                            i as nat,
                            all.len(),
                            given,
                            frames as nat,
                            w0,
                        );
                    }
                    return out;
                },
            }
            i += 1;
        }
        outcome
    }

    /// What a segment of a chain passes on.
    fn chain_outcome(
        &self,
        outcome: CallOutcome,
        segment: &IrCallSegment,
        value_required: bool,
        session: &mut Session,
        context: &EvaluationContext,
    ) -> (r: CallOutcome)
        ensures
            (Ev { out: r@, w: World { s: final(session)@, c: context@ } })
                == semantics::segment_outcome(
                outcome@,
                segment@,
                value_required,
                World { s: old(session)@, c: context@ },
            ),
            host::follows(old(session)@, final(session)@),
    {
        proof {
            reveal(semantics::segment_outcome);
        }
        match outcome {
            CallOutcome::NoValue => {
                if value_required {
                    session.fail(
                        Fault::Chain,
                        join3(
                            "Chained call segment `.",
                            segment.name.as_str(),
                            "` produced no value required by a later segment",
                        ),
                        segment.name_span,
                    )
                } else {
                    CallOutcome::NoValue
                }
            },
            CallOutcome::Unresolved => {
                let message = match context.get_function(segment.name.as_str()) {
                    Some(binding) => {
                        let description = binding.parameters.description();
                        join5(
                            "Function `",
                            segment.name.as_str(),
                            "` is visible in this scope but callable function declarations are not implemented yet (",
                            description.as_str(),
                            ")",
                        )
                    },
                    None => join3(
                        "Cannot evaluate chained call segment `.",
                        segment.name.as_str(),
                        "`: no semantic implementation is available",
                    ),
                };
                session.fail(Fault::Chain, message, segment.name_span)
            },
            out => out,
        }
    }
}

/// What the statements of a callable's body have come to.
pub enum CallableBodyResult {
    Empty,
    One(IrValue, SourceSpan),
    Many(Vec<IrNode>),
}

impl View for CallableBodyResult {
    type V = BodyResult;

    open spec fn view(&self) -> BodyResult {
        match *self {
            CallableBodyResult::Empty => BodyResult::Empty,
            CallableBodyResult::One(value, span) => BodyResult::One(value@, span),
            CallableBodyResult::Many(nodes) => BodyResult::Many(ir::nodes_view(nodes@)),
        }
    }
}

impl CallableBodyResult {
    /// The result once one more statement gave a value.
    pub fn append_value(self, value: IrValue, span: SourceSpan, session: &mut Session) -> (r: Option<
        CallableBodyResult,
    >)
        ensures
            (match r {
                Some(result) => Some(result@),
                None => None,
            }, final(session)@) == semantics::append_result(
                self@,
                value@,
                span,
                old(session)@,
            ),
            host::follows(old(session)@, final(session)@),
    {
        proof {
            reveal(semantics::append_result);
        }
        let mut nodes = match self {
            CallableBodyResult::Empty => {
                return Some(CallableBodyResult::One(value, span));
            },
            CallableBodyResult::One(first, place) => match value_into_content_nodes(
                &first,
                place,
                session,
            ) {
                Some(nodes) => nodes,
                None => return None,
            },
            CallableBodyResult::Many(nodes) => nodes,
        };
        match value_into_content_nodes(&value, span, session) {
            Some(more) => {
                append_blocks(&mut nodes, more);
                Some(CallableBodyResult::Many(nodes))
            },
            None => None,
        }
    }
}

/// A body that may be absent.
pub open spec fn optional_body(body: Option<CallBody>) -> Option<BodyView> {
    match body {
        Some(body) => Some(body@),
        None => None,
    }
}

/// The arguments of a segment behind the value that it receives.
fn received_arguments(value: IrValue, rest: &Vec<IrValue>) -> (r: Vec<IrValue>)
    ensures
        ir::values_view(r@) == seq![value@] + ir::values_view(rest@),
{
    let mut r: Vec<IrValue> = Vec::new();
    r.push(value);
    let mut more = copy_values(rest);
    r.append(&mut more);
    r
}

/// Where a statement fails, nothing behind it is evaluated.
proof fn lemma_body_results_stops(e: Evaluator, all: Seq<NodeView>, i: int, f: nat, w: World)
    requires
        0 <= i <= all.len(),
        semantics::body_results(e, all.take(i), f, w).out is Err,
    ensures
        semantics::body_results(e, all, f, w) == semantics::body_results(e, all.take(i), f, w),
    decreases all.len() - i,
{
    reveal(semantics::body_results);
    reveal(semantics::eval_statement);
    if i == all.len() {
        sequences::lemma_take_all(all);
    } else {
        sequences::lemma_take_step(all, i);
        lemma_body_results_stops(e, all, i + 1, f, w);
    }
}

/// Where a segment gives no value, nothing behind it is called.
proof fn lemma_chain_stops(
    e: Evaluator,
    head: CallSegmentView,
    chain: Seq<CallSegmentView>,
    i: nat,
    n: nat,
    body: Option<BodyView>,
    f: nat,
    w: World,
)
    requires
        i <= n,
        !(semantics::chain_prefix(e, head, chain, i, body, f, w).out.0 is Value),
    ensures
        semantics::chain_prefix(e, head, chain, n, body, f, w) == semantics::chain_prefix(
            e,
            head,
            chain,
            i,
            body,
            f,
            w,
        ),
    decreases n - i,
{
    reveal(semantics::chain_prefix);
    if i < n {
        lemma_chain_stops(e, head, chain, i, (n - 1) as nat, body, f, w);
    }
}

} // verus!
