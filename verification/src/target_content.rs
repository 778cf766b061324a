//! Document state, and content that is written for one output.

use vstd::prelude::*;

use crate::calls::convert_closed_enum;
use crate::diagnostic::Fault;
use crate::evaluator::{Call, CallBody};
use crate::host;
use crate::host::{
    ClosedEnumTarget, InvocationNamedArg, InvocationValue, Query, Session, SessionView,
};
use crate::ir;
use crate::ir::{
    IrEnumValue, IrNamedArg, IrNode, IrValue, NamedArgView, NativeTarget, SourceSpan,
    TargetSpecificContent,
};
use crate::ir_copy::copy_value;
use crate::limits::Capability;
use crate::materialize::{one_node, value_source_span};
use crate::metadata::quarkdown_name;
use crate::native::{body_contains_raw_html, opaque_html_body_string};
use crate::natives;
use crate::natives::NativeDispatchOwner;
use crate::outcome::CallOutcome;
use crate::scope;
use crate::scope::EvaluationContext;
use crate::semantics;
use crate::semantics::{Ev, Evaluator, World};
use crate::sequences;
use crate::text::{join3, same_text, trimmed};
use crate::views;

verus! {

broadcast use {
    crate::ir::group_ir_views,
    crate::host::group_host_views,
    host::group_follows,
    scope::group_stays,
};

/// Reports a wrong call of `.html` or `.markdown`.
fn report_native(
    markdown: bool,
    html_message: &str,
    message: &str,
    hint: &str,
    span: SourceSpan,
    session: &mut Session,
)
    ensures
        forall|c: scope::ContextView|
            (World { s: final(session)@, c }) == #[trigger] semantics::bad_native(
                markdown,
                html_message@,
                message@,
                hint@,
                span,
                World { s: old(session)@, c },
            ),
        host::follows(old(session)@, final(session)@),
{
    proof {
        reveal(semantics::bad_native);
    }
    if markdown {
        session.complain("E3003", message.to_owned(), span, hint);
    } else {
        session.fault(Fault::HtmlArgument, html_message.to_owned(), span);
    }
}

/// The `content` argument of `.html` or `.markdown`.
fn named_content(markdown: bool, named: &Vec<IrNamedArg>, session: &mut Session) -> (r: Option<
    Option<usize>,
>)
    ensures
        (match r {
            Some(Some(i)) => Some(Some(i as int)),
            Some(None) => Some(None),
            None => None,
        }, final(session)@) == semantics::content_index(
            markdown,
            ir::named_args_view(named@),
            old(session)@,
        ),
        r matches Some(Some(i)) ==> i < named@.len(),
        host::follows(old(session)@, final(session)@),
{
    proof {
        reveal(semantics::content_index);
    }
    let ghost all = ir::named_args_view(named@);
    let ghost s0 = session@;
    let mut found: Option<usize> = None;
    let mut i: usize = 0;
    assert(all.take(0) =~= Seq::empty());
    while i < named.len()
        invariant
            host::follows(old(session)@, session@),
            0 <= i <= named@.len(),
            all == ir::named_args_view(named@),
            s0 == old(session)@,
            session@ == s0,
            semantics::content_index(markdown, all.take(i as int), s0) == (
                Some(
                    match found {
                        Some(k) => Some(k as int),
                        None => None::<int>,
                    },
                ),
                s0,
            ),
            found matches Some(k) ==> k < i,
        decreases named@.len() - i,
    {
        proof {
            reveal(semantics::content_index);
            sequences::lemma_take_step(all, i as int);
        }
        assert(all[i as int] == named@[i as int]@);
        let arg = &named[i];
        let known = same_text(arg.name.as_str(), "content");
        if !known || found.is_some() {
            if markdown {
                session.complain(
                    "E3003",
                    join3(
                        "`.markdown` does not accept named argument `",
                        arg.name.as_str(),
                        "` more than once",
                    ),
                    arg.name_span,
                    "Use one positional or `content` argument.",
                );
            } else if !known {
                session.fault(
                    Fault::HtmlArgument,
                    join3("`.html` does not support named argument `", arg.name.as_str(), "`"),
                    arg.name_span,
                );
            } else {
                session.fault(
                    Fault::HtmlArgument,
                    "`.html` received named argument `content` more than once".to_owned(),
                    arg.name_span,
                );
            }
            proof {
                lemma_content_index_stops(markdown, all, i + 1, s0);
            }
            return None;
        }
        found = Some(i);
        i += 1;
    }
    proof {
        sequences::lemma_take_all(all);
    }
    Some(found)
}

/// Where a named argument is wrong, nothing behind it is looked at.
proof fn lemma_content_index_stops(
    markdown: bool,
    all: Seq<NamedArgView>,
    i: int,
    s: SessionView,
)
    requires
        0 <= i <= all.len(),
        semantics::content_index(markdown, all.take(i), s).0 is None,
    ensures
        semantics::content_index(markdown, all, s) == semantics::content_index(
            markdown,
            all.take(i),
            s,
        ),
    decreases all.len() - i,
{
    reveal(semantics::content_index);
    if i == all.len() {
        sequences::lemma_take_all(all);
    } else {
        sequences::lemma_take_step(all, i);
        lemma_content_index_stops(markdown, all, i + 1, s);
    }
}

/// Sets the type of the document.
fn set_document_type(
    call: &Call,
    values: &Vec<InvocationValue>,
    named: &Vec<InvocationNamedArg>,
    session: &mut Session,
) -> (r: CallOutcome)
    requires
        values@.len() == call.positional@.len(),
        named@.len() == call.named@.len(),
    ensures
        forall|c: scope::ContextView|
            (Ev { out: r@, w: World { s: final(session)@, c } })
                == #[trigger] semantics::set_document_type(
                call@,
                host::invocation_values_view(values@),
                host::invocation_named_args_view(named@),
                World { s: old(session)@, c },
            ),
        host::follows(old(session)@, final(session)@),
{
    proof {
        reveal(semantics::set_document_type);
        reveal(host::follows);
    }
    let (argument, span): (InvocationValue, SourceSpan) = if values.len() == 1 && named.len() == 0 {
        assert(call@.positional[0] == call.positional@[0]@);
        assert(host::invocation_values_view(values@)[0] == values@[0]@);
        (values[0].clone(), value_source_span(&call.positional[0], call.span))
    } else if values.len() == 0 && named.len() == 1 && same_text(
        named[0].arg.name.as_str(),
        "type",
    ) {
        assert(host::invocation_named_args_view(named@)[0] == named@[0]@);
        assert(call@.named[0] == call.named@[0]@);
        (
            InvocationValue { value: copy_value(&named[0].arg.value), origin: named[0].origin },
            call.named[0].span,
        )
    } else {
        assert(named@.len() >= 1 ==> host::invocation_named_args_view(named@)[0] == named@[0]@);
        return session.fail(
            Fault::DocumentCall,
            "`.doctype` accepts exactly one positional or `type` argument".to_owned(),
            call.span,
        );
    };
    match convert_closed_enum(&argument, ClosedEnumTarget::DocumentType, session) {
        None => CallOutcome::Failed,
        Some(Ok(IrEnumValue::DocumentType(document_type))) => {
            session.document_state.document_type = document_type;
            CallOutcome::NoValue
        },
        Some(_) => session.fail(
            Fault::DocumentConversion,
            "`.doctype` requires one of `plain`, `paged`, `slides`, or `docs` from a dynamic argument".to_owned(),
            span,
        ),
    }
}

/// Sets the name or the description of the document.
fn set_document_text(
    call: &Call,
    values: &Vec<InvocationValue>,
    named: &Vec<InvocationNamedArg>,
    session: &mut Session,
) -> (r: CallOutcome)
    requires
        values@.len() == call.positional@.len(),
    ensures
        forall|c: scope::ContextView|
            (Ev { out: r@, w: World { s: final(session)@, c } })
                == #[trigger] semantics::set_document_text(
                call@,
                host::invocation_values_view(values@),
                host::invocation_named_args_view(named@),
                World { s: old(session)@, c },
            ),
        host::follows(old(session)@, final(session)@),
{
    proof {
        reveal(semantics::set_document_text);
        reveal(host::follows);
    }
    if values.len() != 1 || named.len() != 0 {
        return session.fail(
            Fault::DocumentCall,
            join3(
                "`.",
                call.name,
                "` accepts exactly one positional String argument when writing",
            ),
            call.span,
        );
    }
    assert(call@.positional[0] == call.positional@[0]@);
    assert(host::invocation_values_view(values@)[0] == values@[0]@);
    let span = value_source_span(&call.positional[0], call.span);
    match session.ask_text(Query::ScalarString { argument: values[0].clone() }) {
        None => CallOutcome::Failed,
        Some(None) => session.fail(
            Fault::DocumentConversion,
            join3("`.", call.name, "` requires a value that converts to String"),
            span,
        ),
        Some(Some(content)) => {
            if same_text(call.name, "docname") {
                if trimmed(content.as_str()).as_str().is_empty() {
                    return session.fail(
                        Fault::DocumentConversion,
                        "`.docname` cannot be blank".to_owned(),
                        span,
                    );
                }
                session.document_state.name = content;
            } else {
                session.document_state.description = content;
            }
            CallOutcome::NoValue
        },
    }
}

impl Evaluator {
    /// Evaluates `.docname`, `.docdescription` and `.doctype`.
    pub fn evaluate_document_state_builtin(
        &self,
        call: &Call,
        frames: usize,
        session: &mut Session,
        context: &mut EvaluationContext,
    ) -> (r: CallOutcome)
        requires
            natives::owns(NativeDispatchOwner::DocumentState, call.name@),
        ensures
            (Ev { out: r@, w: World { s: final(session)@, c: final(context)@ } })
                == semantics::eval_document_state(
                *self,
                call@,
                frames as nat,
                World { s: old(session)@, c: old(context)@ },
            ),
            host::follows(old(session)@, final(session)@),
            scope::stays(old(context)@, final(context)@),
        decreases frames, 6int, self, 0int,
    {
        proof {
            reveal(semantics::eval_document_state);
        }
        if call.body.is_some() {
            return session.fail(
                Fault::DocumentCall,
                join3("`.", call.name, "` does not accept a block body"),
                call.span,
            );
        }
        if call.positional.len() == 0 && call.named.len() == 0 {
            let content = if same_text(call.name, "docname") {
                session.document_state.name.clone()
            } else if same_text(call.name, "docdescription") {
                session.document_state.description.clone()
            } else {
                quarkdown_name(session.document_state.document_type).to_owned()
            };
            return CallOutcome::Value(IrValue::String(content));
        }
        let (values, named) = match self.evaluate_arguments(call, frames, session, context) {
            Some(arguments) => arguments,
            None => return CallOutcome::Failed,
        };
        if same_text(call.name, "doctype") {
            set_document_type(call, &values, &named, session)
        } else {
            set_document_text(call, &values, &named, session)
        }
    }

    /// Evaluates the body of `.html` or `.markdown`.
    fn evaluate_native_body(
        &self,
        markdown: bool,
        body: CallBody,
        span: SourceSpan,
        frames: usize,
        session: &mut Session,
        context: &mut EvaluationContext,
    ) -> (r: Option<IrValue>)
        ensures
            (Ev { out: views::value(r), w: World { s: final(session)@, c: final(context)@ } })
                == semantics::native_body(
                *self,
                markdown,
                body@,
                span,
                frames as nat,
                World { s: old(session)@, c: old(context)@ },
            ),
            host::follows(old(session)@, final(session)@),
            scope::stays(old(context)@, final(context)@),
        decreases frames, 5int, self, 2int,
    {
        proof {
            reveal(semantics::native_body);
        }
        if let CallBody::Block(nodes) = body {
            if !markdown && body_contains_raw_html(nodes) {
                return match opaque_html_body_string(nodes) {
                    Some(content) => Some(IrValue::String(content)),
                    None => {
                        session.fault(
                            Fault::HtmlArgument,
                            "`.html` body contains structure that cannot adapt to String".to_owned(),
                            span,
                        );
                        None
                    },
                };
            }
        }
        self.evaluate_body_value(body, span, frames, session, context)
    }

    /// Evaluates the content of `.html` or `.markdown`.
    fn evaluate_native_content(
        &self,
        markdown: bool,
        call: &Call,
        frames: usize,
        session: &mut Session,
        context: &mut EvaluationContext,
    ) -> (r: Option<IrValue>)
        ensures
            (Ev { out: views::value(r), w: World { s: final(session)@, c: final(context)@ } })
                == semantics::native_content(
                *self,
                markdown,
                call@,
                frames as nat,
                World { s: old(session)@, c: old(context)@ },
            ),
            host::follows(old(session)@, final(session)@),
            scope::stays(old(context)@, final(context)@),
        decreases frames, 5int, self, 3int,
    {
        proof {
            reveal(semantics::native_content);
            reveal(semantics::native_body);
        }
        if call.positional.len() > 1 {
            report_native(
                markdown,
                "`.html` accepts exactly one `content` argument",
                "`.markdown` accepts exactly one `content` argument",
                "Pass Markdown content as the body or as `content`.",
                call.span,
                session,
            );
            return None;
        }
        let found = match named_content(markdown, call.named, session) {
            Some(found) => found,
            None => return None,
        };
        if call.positional.len() == 1 && found.is_some() {
            report_native(
                markdown,
                "`.html` received `content` more than once",
                "`.markdown` received `content` more than once",
                "Use either the positional argument or the named argument.",
                call.span,
                session,
            );
            return None;
        }
        if call.body.is_some() && (call.positional.len() == 1 || found.is_some()) {
            report_native(
                markdown,
                "`.html` received both a body and an explicit `content` argument",
                "`.markdown` received both a body and an explicit `content` argument",
                "Use either the body or the explicit content argument.",
                call.span,
                session,
            );
            return None;
        }
        if let Some(body) = call.body {
            return self.evaluate_native_body(markdown, body, call.span, frames, session, context);
        }
        if call.positional.len() == 1 {
            assert(call@.positional[0] == call.positional@[0]@);
            return self.evaluate_required(&call.positional[0], call.span, frames, session, context);
        }
        match found {
            Some(i) => {
                assert(call@.named[i as int] == call.named@[i as int]@);
                self.evaluate_required(&call.named[i].value, call.span, frames, session, context)
            },
            None => {
                report_native(
                    markdown,
                    "`.html` requires one `content` argument or body",
                    "`.markdown` requires Markdown content",
                    "Pass Markdown content as the body or as `content`.",
                    call.span,
                    session,
                );
                None
            },
        }
    }

    /// Evaluates `.html` or `.markdown`, once it is allowed.
    fn evaluate_native(
        &self,
        markdown: bool,
        call: &Call,
        frames: usize,
        session: &mut Session,
        context: &mut EvaluationContext,
    ) -> (r: CallOutcome)
        ensures
            (Ev { out: r@, w: World { s: final(session)@, c: final(context)@ } })
                == semantics::eval_native(
                *self,
                markdown,
                call@,
                frames as nat,
                World { s: old(session)@, c: old(context)@ },
            ),
            host::follows(old(session)@, final(session)@),
            scope::stays(old(context)@, final(context)@),
        decreases frames, 5int, self, 4int,
    {
        proof {
            reveal(semantics::eval_native);
            reveal(semantics::native_content);
        }
        let value = match self.evaluate_native_content(markdown, call, frames, session, context) {
            Some(value) => value,
            None => return CallOutcome::Failed,
        };
        match session.ask_text(Query::AdaptString { value }) {
            None => CallOutcome::Failed,
            Some(None) => {
                report_native(
                    markdown,
                    "`.html` content must adapt to the supported String boundary",
                    "`.markdown` content must adapt to the supported String boundary",
                    "Rich semantic values are not silently rendered into native Markdown text.",
                    call.span,
                    session,
                );
                CallOutcome::Failed
            },
            Some(Some(content)) => CallOutcome::Value(
                IrValue::Content(
                    one_node(
                        IrNode::TargetSpecificContent {
                            content: TargetSpecificContent {
                                target: if markdown {
                                    NativeTarget::Markdown
                                } else {
                                    NativeTarget::Html
                                },
                                content,
                                span: call.span,
                            },
                        },
                    ),
                ),
            ),
        }
    }

    /// Evaluates `.html`.
    pub fn evaluate_html(
        &self,
        call: &Call,
        frames: usize,
        session: &mut Session,
        context: &mut EvaluationContext,
    ) -> (r: CallOutcome)
        ensures
            (Ev { out: r@, w: World { s: final(session)@, c: final(context)@ } })
                == semantics::eval_html(
                *self,
                call@,
                frames as nat,
                World { s: old(session)@, c: old(context)@ },
            ),
            host::follows(old(session)@, final(session)@),
            scope::stays(old(context)@, final(context)@),
        decreases frames, 6int, self, 0int,
    {
        proof {
            reveal(semantics::eval_html);
            reveal(semantics::eval_native);
        }
        if !self.capabilities.allows(Capability::NativeContent) {
            return session.fail(
                Fault::HtmlDenied,
                "NativeContent capability is required for `.html`".to_owned(),
                call.span,
            );
        }
        self.evaluate_native(false, call, frames, session, context)
    }

    /// Evaluates `.markdown`.
    pub fn evaluate_markdown(
        &self,
        call: &Call,
        frames: usize,
        session: &mut Session,
        context: &mut EvaluationContext,
    ) -> (r: CallOutcome)
        ensures
            (Ev { out: r@, w: World { s: final(session)@, c: final(context)@ } })
                == semantics::eval_markdown(
                *self,
                call@,
                frames as nat,
                World { s: old(session)@, c: old(context)@ },
            ),
            host::follows(old(session)@, final(session)@),
            scope::stays(old(context)@, final(context)@),
        decreases frames, 6int, self, 0int,
    {
        proof {
            reveal(semantics::eval_markdown);
            reveal(semantics::eval_native);
        }
        if !self.capabilities.allows(Capability::NativeContent) {
            return session.fail(
                Fault::MarkdownDenied,
                "NativeContent capability is required for `.markdown`".to_owned(),
                call.span,
            );
        }
        self.evaluate_native(true, call, frames, session, context)
    }
}

} // verus!
