//! More answers and higher limits keep what is settled: native content and document state.

use vstd::prelude::*;

use crate::growth;
use crate::growth::Growth;
use crate::growth_helpers;
use crate::growth_values;
use crate::host::{
    ClosedEnumTarget, InvocationNamedView, InvocationValueView, QueryView, SessionView,
};
use crate::ir::{NamedArgView, SourceSpan};
use crate::limits::Capability;
use crate::native;
use crate::semantics;
use crate::semantics::{BodyView, CallView, Evaluator, World};

verus! {

broadcast use growth::group_within;

/// What `eval_document_state` comes to is kept.
pub(crate) proof fn lemma_eval_document_state(
    e: Evaluator,
    call: CallView,
    f: nat,
    w: World,
    grow: Growth,
)
    requires
        growth::fits(e, grow),
    ensures
        growth::kept(
            w,
            semantics::eval_document_state(e, call, f, w),
            semantics::eval_document_state(
                growth::evaluator(e, grow),
                call,
                f + grow.depth,
                growth::world(w, grow),
            ),
            grow,
        ),
    decreases f, 6int, e, 0int,
{
    reveal(semantics::eval_document_state);
    reveal(semantics::set_document_text);
    reveal(semantics::set_document_type);
    if call.body is Some {
    } else {
        if call.positional.len() == 0 && call.named.len() == 0 {
        } else {
            growth_values::lemma_call_arguments(e, call, f, w, grow);
            let args = semantics::call_arguments(e, call, f, w);
            match args.out {
                None => {},
                Some((values, named)) => {
                    if call.name == "doctype"@ {
                        lemma_set_document_type(call, values, named, args.w, grow);
                    } else {
                        lemma_set_document_text(call, values, named, args.w, grow);
                    }
                },
            }
        }
    }
}

/// What `set_document_type` comes to is kept.
pub(crate) proof fn lemma_set_document_type(
    call: CallView,
    values: Seq<InvocationValueView>,
    named: Seq<InvocationNamedView>,
    w: World,
    grow: Growth,
)
    ensures
        growth::kept(
            w,
            semantics::set_document_type(call, values, named, w),
            semantics::set_document_type(call, values, named, growth::world(w, grow)),
            grow,
        ),
{
    reveal(semantics::set_document_type);
    let by_place = values.len() == 1 && named.len() == 0;
    let by_name = values.len() == 0 && named.len() == 1 && named[0].arg.name == "type"@;
    if !by_place && !by_name {
    } else {
        let argument = if by_place {
            values[0]
        } else {
            InvocationValueView { value: named[0].arg.value, origin: named[0].origin }
        };
        growth_helpers::lemma_closed_enum(argument, ClosedEnumTarget::DocumentType, w.s, grow);
    }
}

/// What `set_document_text` comes to is kept.
pub(crate) proof fn lemma_set_document_text(
    call: CallView,
    values: Seq<InvocationValueView>,
    named: Seq<InvocationNamedView>,
    w: World,
    grow: Growth,
)
    ensures
        growth::kept(
            w,
            semantics::set_document_text(call, values, named, w),
            semantics::set_document_text(call, values, named, growth::world(w, grow)),
            grow,
        ),
{
    reveal(semantics::set_document_text);

}

/// What `content_index` comes to is kept.
pub(crate) proof fn lemma_content_index(
    markdown: bool,
    named: Seq<NamedArgView>,
    s: SessionView,
    grow: Growth,
)
    ensures
        growth::kept_answer(
            s,
            semantics::content_index(markdown, named, s),
            semantics::content_index(markdown, named, growth::session(s, grow)),
            grow,
        ),
    decreases named.len(),
{
    reveal(semantics::content_index);
    if named.len() == 0 {
    } else {
        lemma_content_index(markdown, named.drop_last(), s, grow);
    }
}

/// What `bad_native` comes to is kept.
pub(crate) proof fn lemma_bad_native(
    markdown: bool,
    html: Seq<char>,
    message: Seq<char>,
    hint: Seq<char>,
    span: SourceSpan,
    w: World,
    grow: Growth,
)
    ensures
        growth::kept_world(
            w,
            semantics::bad_native(markdown, html, message, hint, span, w),
            semantics::bad_native(markdown, html, message, hint, span, growth::world(w, grow)),
            grow,
        ),
{
    reveal(semantics::bad_native);

}

/// What `native_content` comes to is kept.
pub(crate) proof fn lemma_native_content(
    e: Evaluator,
    markdown: bool,
    call: CallView,
    f: nat,
    w: World,
    grow: Growth,
)
    requires
        growth::fits(e, grow),
    ensures
        growth::kept(
            w,
            semantics::native_content(e, markdown, call, f, w),
            semantics::native_content(
                growth::evaluator(e, grow),
                markdown,
                call,
                f + grow.depth,
                growth::world(w, grow),
            ),
            grow,
        ),
    decreases f, 5int, e, 3int,
{
    reveal(semantics::native_content);
    reveal(semantics::bad_native);
    reveal(semantics::content_index);
    reveal(semantics::native_body);
    if call.positional.len() > 1 {
        lemma_bad_native(
            markdown,
            "`.html` accepts exactly one `content` argument"@,
            "`.markdown` accepts exactly one `content` argument"@,
            "Pass Markdown content as the body or as `content`."@,
            call.span,
            w,
            grow,
        );
    } else {
        lemma_content_index(markdown, call.named, w.s, grow);
        match semantics::content_index(markdown, call.named, w.s) {
            (None, s) => {},
            (Some(found), s) => {
                if call.positional.len() == 1 && found is Some {
                    lemma_bad_native(
                        markdown,
                        "`.html` received `content` more than once"@,
                        "`.markdown` received `content` more than once"@,
                        "Use either the positional argument or the named argument."@,
                        call.span,
                        w.on(s),
                        grow,
                    );
                } else {
                    if call.body is Some && (call.positional.len() == 1 || found is Some) {
                        lemma_bad_native(
                            markdown,
                            "`.html` received both a body and an explicit `content` argument"@,
                            "`.markdown` received both a body and an explicit `content` argument"@,
                            "Use either the body or the explicit content argument."@,
                            call.span,
                            w.on(s),
                            grow,
                        );
                    } else {
                        match call.body {
                            Some(body) => {
                                lemma_native_body(e, markdown, body, call.span, f, w.on(s), grow);
                            },
                            None => {
                                if call.positional.len() == 1 {
                                    growth_values::lemma_required(
                                        e,
                                        call.positional[0],
                                        call.span,
                                        f,
                                        w.on(s),
                                        grow,
                                    );
                                } else {
                                    match found {
                                        Some(i) => {
                                            growth_values::lemma_required(
                                                e,
                                                call.named[i].value,
                                                call.span,
                                                f,
                                                w.on(s),
                                                grow,
                                            );
                                        },
                                        None => {
                                            lemma_bad_native(
                                                markdown,
                                                "`.html` requires one `content` argument or body"@,
                                                "`.markdown` requires Markdown content"@,
                                                "Pass Markdown content as the body or as `content`."@,
                                                call.span,
                                                w.on(s),
                                                grow,
                                            );
                                        },
                                    }
                                }
                            },
                        }
                    }
                }
            },
        }
    }
}

/// What `native_body` comes to is kept.
pub(crate) proof fn lemma_native_body(
    e: Evaluator,
    markdown: bool,
    body: BodyView,
    span: SourceSpan,
    f: nat,
    w: World,
    grow: Growth,
)
    requires
        growth::fits(e, grow),
    ensures
        growth::kept(
            w,
            semantics::native_body(e, markdown, body, span, f, w),
            semantics::native_body(
                growth::evaluator(e, grow),
                markdown,
                body,
                span,
                f + grow.depth,
                growth::world(w, grow),
            ),
            grow,
        ),
    decreases f, 5int, e, 2int,
{
    reveal(semantics::native_body);
    match body {
        BodyView::Block(nodes) => {
            if !markdown && native::contains_raw(nodes) {
            } else {
                growth_values::lemma_body_value(e, body, span, f, w, grow);
            }
        },
        _ => {
            growth_values::lemma_body_value(e, body, span, f, w, grow);
        },
    }
}

/// What `eval_native` comes to is kept.
pub(crate) proof fn lemma_eval_native(
    e: Evaluator,
    markdown: bool,
    call: CallView,
    f: nat,
    w: World,
    grow: Growth,
)
    requires
        growth::fits(e, grow),
    ensures
        growth::kept(
            w,
            semantics::eval_native(e, markdown, call, f, w),
            semantics::eval_native(
                growth::evaluator(e, grow),
                markdown,
                call,
                f + grow.depth,
                growth::world(w, grow),
            ),
            grow,
        ),
    decreases f, 5int, e, 4int,
{
    reveal(semantics::eval_native);
    reveal(semantics::bad_native);
    reveal(semantics::native_content);
    lemma_native_content(e, markdown, call, f, w, grow);
    let r = semantics::native_content(e, markdown, call, f, w);
    match r.out {
        None => {},
        Some(value) => {
            match r.w.s.ask_text(QueryView::AdaptString { value }) {
                (None, s) => {},
                (Some(None), s) => {
                    lemma_bad_native(
                        markdown,
                        "`.html` content must adapt to the supported String boundary"@,
                        "`.markdown` content must adapt to the supported String boundary"@,
                        "Rich semantic values are not silently rendered into native Markdown text."@,
                        call.span,
                        r.w.on(s),
                        grow,
                    );
                },
                (Some(Some(content)), s) => {},
            }
        },
    }
}

/// What `eval_html` comes to is kept.
pub(crate) proof fn lemma_eval_html(e: Evaluator, call: CallView, f: nat, w: World, grow: Growth)
    requires
        growth::fits(e, grow),
    ensures
        growth::kept(
            w,
            semantics::eval_html(e, call, f, w),
            semantics::eval_html(
                growth::evaluator(e, grow),
                call,
                f + grow.depth,
                growth::world(w, grow),
            ),
            grow,
        ),
    decreases f, 6int, e, 0int,
{
    reveal(semantics::eval_html);
    reveal(semantics::eval_native);
    if !e.capabilities.grants(Capability::NativeContent) {
    } else {
        lemma_eval_native(e, false, call, f, w, grow);
    }
}

/// What `eval_markdown` comes to is kept.
pub(crate) proof fn lemma_eval_markdown(
    e: Evaluator,
    call: CallView,
    f: nat,
    w: World,
    grow: Growth,
)
    requires
        growth::fits(e, grow),
    ensures
        growth::kept(
            w,
            semantics::eval_markdown(e, call, f, w),
            semantics::eval_markdown(
                growth::evaluator(e, grow),
                call,
                f + grow.depth,
                growth::world(w, grow),
            ),
            grow,
        ),
    decreases f, 6int, e, 0int,
{
    reveal(semantics::eval_markdown);
    reveal(semantics::eval_native);
    if !e.capabilities.grants(Capability::NativeContent) {
    } else {
        lemma_eval_native(e, true, call, f, w, grow);
    }
}

} // verus!
