//! Dictionary entries written as list items.

use vstd::prelude::*;

use crate::host;
use crate::host::{Query, QueryView, Session, SessionView};
use crate::ir;
use crate::ir::{InlineView, IrInline, IrNode, IrValue, NodeView, SourceSpan, ValueView};
use crate::ir_copy::{
    copy_inline, copy_inlines, copy_named_args, copy_segment, copy_segments, copy_values,
};
use crate::lines;
use crate::lines::find_char;
use crate::materialize;
use crate::materialize::{inline_source_span, one_node};
use crate::text;
use crate::text::{bytes_of, chars_of, drop_white, lowered, same_text, skip_white, text_of, trimmed};

verus! {

broadcast use {
    ir::group_ir_views,
    host::group_follows,
    host::group_halts,
};

/// The parts of an entry's paragraph.
pub struct EntryParts {
    pub key: String,
    /// The inlines that the value is made of.
    pub inlines: Vec<IrInline>,
    /// The text that the value is.
    pub text: String,
    pub span: SourceSpan,
}

/// The mathematical value of [`EntryParts`].
#[verifier::ext_equal]
pub struct EntryView {
    pub key: Seq<char>,
    pub inlines: Seq<InlineView>,
    pub text: Seq<char>,
    pub span: SourceSpan,
}

impl View for EntryParts {
    type V = EntryView;

    open spec fn view(&self) -> EntryView {
        EntryView {
            key: self.key@,
            inlines: ir::inlines_view(self.inlines@),
            text: self.text@,
            span: self.span,
        }
    }
}

/// A place moved on by a number of bytes, or another place where it cannot be.
pub open spec fn moved(start: usize, bytes: nat, otherwise: usize) -> usize {
    if start + bytes <= usize::MAX {
        (start + bytes) as usize
    } else {
        otherwise
    }
}

/// A place moved on by a number of bytes, or another place where it cannot be.
fn move_on(start: usize, bytes: u128, otherwise: usize) -> (r: usize)
    requires
        bytes <= 0xf_ffff_ffff_ffff_ffff,
    ensures
        r == moved(start, bytes as nat, otherwise),
{
    if start as u128 + bytes <= usize::MAX as u128 {
        (start as u128 + bytes) as usize
    } else {
        otherwise
    }
}

/// The first inline of a value, without white space around its text.
pub open spec fn trimmed_inline(inline: InlineView) -> InlineView {
    match inline {
        InlineView::Text { content, span } => {
            let lead = text::leading_white(content);
            let rest = text::trim(content);
            if lead > 0 || rest.len() != content.len() {
                let start = moved(
                    span.start,
                    text::byte_length(content.take(lead as int)),
                    span.end,
                );
                InlineView::Text {
                    content: rest,
                    span: SourceSpan {
                        source_id: span.source_id,
                        start,
                        end: moved(start, text::byte_length(rest), usize::MAX),
                    },
                }
            } else {
                inline
            }
        },
        _ => inline,
    }
}

/// The parts of an entry's paragraph: a key, a colon, and either a text or inlines.
pub open spec fn split_paragraph(content: Seq<InlineView>, paragraph: SourceSpan) -> Option<
    EntryView,
> {
    if content.len() == 0 {
        None
    } else {
        match content[0] {
            InlineView::Text { content: first, span } => match lines::index_of_char(first, ':') {
                None => None,
                Some(colon) => {
                    let key = text::trim(first.take(colon as int));
                    let after = first.skip(colon as int + 1);
                    let lead = text::leading_white(after);
                    let value = text::trim(after);
                    if value.len() > 0 {
                        let start = moved(
                            span.start,
                            text::byte_length(first.take(colon as int)) + 1 + text::byte_length(
                                after.take(lead as int),
                            ),
                            span.end,
                        );
                        Some(
                            EntryView {
                                key,
                                inlines: Seq::empty(),
                                text: value,
                                span: SourceSpan {
                                    source_id: span.source_id,
                                    start,
                                    end: moved(start, text::byte_length(value), start),
                                },
                            },
                        )
                    } else if content.len() == 1 {
                        Some(
                            EntryView {
                                key,
                                inlines: Seq::empty(),
                                text: Seq::empty(),
                                span: paragraph,
                            },
                        )
                    } else {
                        let head = trimmed_inline(content[1]);
                        Some(
                            EntryView {
                                key,
                                inlines: seq![head] + content.skip(2),
                                text: Seq::empty(),
                                span: materialize::inline_span(head),
                            },
                        )
                    }
                },
            },
            _ => None,
        }
    }
}

/// The first inline of a value, without white space around its text.
fn trim_inline(inline: &IrInline) -> (r: IrInline)
    ensures
        r@ == trimmed_inline(inline@),
{
    match inline {
        IrInline::Text { content, span } => {
            let chars = chars_of(content.as_str());
            assert(chars@.skip(0) =~= chars@);
            let from: usize = skip_white(&chars, 0);
            assert(chars@.subrange(from as int, chars@.len() as int) =~= text::trim_start(chars@));
            let to: usize = drop_white(&chars, from, chars.len());
            if from > 0 || to - from != chars.len() {
                let lead: u128 = bytes_of(&chars, 0, from);
                assert(chars@.subrange(0, from as int) =~= chars@.take(from as int));
                let start: usize = move_on(span.start, lead, span.end);
                let size: u128 = bytes_of(&chars, from, to);
                IrInline::Text {
                    content: text_of(&chars, from, to),
                    span: SourceSpan {
                        source_id: span.source_id,
                        start,
                        end: move_on(start, size, usize::MAX),
                    },
                }
            } else {
                copy_inline(inline)
            }
        },
        _ => copy_inline(inline),
    }
}

/// The parts of an entry's paragraph, where it has a key and a colon.
pub fn split_dictionary_paragraph(content: &Vec<IrInline>, paragraph: SourceSpan) -> (r: Option<
    EntryParts,
>)
    ensures
        (match r {
            Some(parts) => Some(parts@),
            None => None,
        }) == split_paragraph(ir::inlines_view(content@), paragraph),
{
    if content.len() == 0 {
        return None;
    }
    let (first, span) = match &content[0] {
        IrInline::Text { content, span } => (content, *span),
        _ => {
            return None;
        },
    };
    let chars = chars_of(first.as_str());
    assert(chars@.skip(0) =~= chars@);
    let colon: usize = match find_char(&chars, 0, ':') {
        Some(colon) => colon,
        None => {
            return None;
        },
    };
    let before = text_of(&chars, 0, colon);
    assert(chars@.subrange(0, colon as int) =~= chars@.take(colon as int));
    let key = trimmed(before.as_str());
    let from: usize = skip_white(&chars, colon + 1);
    let ghost after = chars@.skip(colon + 1);
    assert(chars@.subrange(from as int, chars@.len() as int) =~= text::trim_start(after));
    let to: usize = drop_white(&chars, from, chars.len());
    if to > from {
        let lead: u128 = bytes_of(&chars, 0, colon) + 1 + bytes_of(&chars, colon + 1, from);
        assert(chars@.subrange(colon + 1, from as int) =~= after.take(from - (colon + 1)));
        let start: usize = move_on(span.start, lead, span.end);
        let size: u128 = bytes_of(&chars, from, to);
        return Some(
            EntryParts {
                key,
                inlines: Vec::new(),
                text: text_of(&chars, from, to),
                span: SourceSpan {
                    source_id: span.source_id,
                    start,
                    end: move_on(start, size, start),
                },
            },
        );
    }
    if content.len() == 1 {
        return Some(
            EntryParts { key, inlines: Vec::new(), text: String::new(), span: paragraph },
        );
    }
    let head = trim_inline(&content[1]);
    let tail_span = inline_source_span(&head);
    let ghost shown = head@;
    let ghost all = ir::inlines_view(content@);
    let mut inlines: Vec<IrInline> = Vec::new();
    inlines.push(head);
    let mut i: usize = 2;
    assert(ir::inlines_view(inlines@) =~= seq![shown] + all.subrange(2, 2));
    while i < content.len()
        invariant
            2 <= i <= content@.len(),
            all == ir::inlines_view(content@),
            ir::inlines_view(inlines@) == seq![shown] + all.subrange(2, i as int),
        decreases content@.len() - i,
    {
        inlines.push(copy_inline(&content[i]));
        i += 1;
        assert(seq![shown] + all.subrange(2, i as int) =~= (seq![shown] + all.subrange(
            2,
            i - 1,
        )).push(all[i - 1]));
    }
    assert(all.subrange(2, i as int) =~= all.skip(2));
    Some(EntryParts { key, inlines, text: String::new(), span: tail_span })
}

/// The key of an entry whose value is a nested list: a text without a colon.
pub open spec fn plain_key(content: Seq<InlineView>) -> Option<Seq<char>> {
    if content.len() == 1 {
        match content[0] {
            InlineView::Text { content, .. } => {
                let key = text::trim(content);
                if key.len() > 0 && !key.contains(':') {
                    Some(key)
                } else {
                    None
                }
            },
            _ => None,
        }
    } else {
        None
    }
}

/// The key of an entry whose value is a nested list.
pub fn plain_dictionary_key(content: &Vec<IrInline>) -> (r: Option<String>)
    ensures
        (match r {
            Some(key) => Some(key@),
            None => None,
        }) == plain_key(ir::inlines_view(content@)),
{
    if content.len() == 1 {
        if let IrInline::Text { content: text, .. } = &content[0] {
            let key = trimmed(text.as_str());
            let chars = chars_of(key.as_str());
            assert(chars@.skip(0) =~= chars@);
            proof {
                lines::lemma_index_of_char(chars@, ':');
            }
            if chars.len() > 0 && find_char(&chars, 0, ':').is_none() {
                return Some(key);
            }
        }
    }
    None
}

/// Whether a text stands between two of a quotation mark.
pub open spec fn quoted(s: Seq<char>, mark: char) -> bool {
    s.len() >= 2 && s[0] == mark && s.last() == mark
}

/// The value of an entry that is a text: quoted, a truth value, a number, else itself.
pub open spec fn scalar_entry(content: Seq<char>, s: SessionView) -> (
    Option<ValueView>,
    SessionView,
) {
    let t = text::trim(content);
    if quoted(t, '"') || quoted(t, '\'') {
        (Some(ValueView::String(t.subrange(1, t.len() - 1))), s)
    } else if text::lower(t) == "true"@ || text::lower(t) == "yes"@ {
        (Some(ValueView::Boolean(true)), s)
    } else if text::lower(t) == "false"@ || text::lower(t) == "no"@ {
        (Some(ValueView::Boolean(false)), s)
    } else {
        match s.ask_number(QueryView::ParseNumber { text: t }) {
            (Some(Some(n)), u) => (Some(ValueView::Number(n)), u),
            (Some(None), u) => (Some(ValueView::String(t)), u),
            (None, u) => (None, u),
        }
    }
}

/// The value of an entry that is a text; nothing where the host has not answered yet.
pub fn dictionary_scalar_value(content: &str, session: &mut Session) -> (r: Option<IrValue>)
    ensures
        (match r {
            Some(value) => Some(value@),
            None => None,
        }, final(session)@) == scalar_entry(content@, old(session)@),
        host::follows(old(session)@, final(session)@),
        r is None ==> host::halts(old(session)@, final(session)@),
{
    let t = trimmed(content);
    let chars = chars_of(t.as_str());
    let n: usize = chars.len();
    if n >= 2 && ((chars[0] == '"' && chars[n - 1] == '"') || (chars[0] == '\'' && chars[n - 1]
        == '\'')) {
        return Some(IrValue::String(text_of(&chars, 1, n - 1)));
    }
    let low = lowered(t.as_str());
    if same_text(low.as_str(), "true") || same_text(low.as_str(), "yes") {
        return Some(IrValue::Boolean(true));
    }
    if same_text(low.as_str(), "false") || same_text(low.as_str(), "no") {
        return Some(IrValue::Boolean(false));
    }
    match session.ask_number(Query::ParseNumber { text: t.clone() }) {
        Some(Some(number)) => Some(IrValue::Number(number)),
        Some(None) => Some(IrValue::String(t)),
        None => None,
    }
}

/// The value of an entry that is inlines: a call where it is one, else a paragraph.
pub open spec fn inline_entry(inlines: Seq<InlineView>, span: SourceSpan) -> ValueView {
    let plain = ValueView::Content(seq![NodeView::Paragraph { content: inlines, span }]);
    if inlines.len() == 1 {
        match inlines[0] {
            InlineView::DirectiveCall {
                name,
                positional_args,
                named_args,
                body,
                span,
            } => ValueView::Content(
                seq![
                    NodeView::FunctionCall {
                        name,
                        positional_args,
                        named_args,
                        lambda_parameters: None,
                        body: match body {
                            Some(content) => Some(seq![NodeView::Paragraph { content, span }]),
                            None => None,
                        },
                        span,
                    },
                ],
            ),
            InlineView::ChainedDirectiveCall { head, chain, body, span } => ValueView::Content(
                seq![
                    NodeView::ChainedFunctionCall {
                        head,
                        chain,
                        body: match body {
                            Some(content) => Some(seq![NodeView::Paragraph { content, span }]),
                            None => None,
                        },
                        span,
                    },
                ],
            ),
            _ => plain,
        }
    } else {
        plain
    }
}

/// The value of an entry that is inlines.
pub fn dictionary_inline_value(inlines: &Vec<IrInline>, span: SourceSpan) -> (r: IrValue)
    ensures
        r@ == inline_entry(ir::inlines_view(inlines@), span),
{
    if inlines.len() == 1 {
        match &inlines[0] {
            IrInline::DirectiveCall { name, positional_args, named_args, body, span } => {
                return IrValue::Content(
                    one_node(
                        IrNode::FunctionCall {
                            name: name.clone(),
                            positional_args: copy_values(positional_args),
                            named_args: copy_named_args(named_args),
                            lambda_parameters: None,
                            body: match body {
                                Some(content) => Some(
                                    one_node(
                                        IrNode::Paragraph {
                                            content: copy_inlines(content),
                                            span: *span,
                                        },
                                    ),
                                ),
                                None => None,
                            },
                            span: *span,
                        },
                    ),
                );
            },
            IrInline::ChainedDirectiveCall { head, chain, body, span } => {
                return IrValue::Content(
                    one_node(
                        IrNode::ChainedFunctionCall {
                            head: copy_segment(head),
                            chain: copy_segments(chain),
                            body: match body {
                                Some(content) => Some(
                                    one_node(
                                        IrNode::Paragraph {
                                            content: copy_inlines(content),
                                            span: *span,
                                        },
                                    ),
                                ),
                                None => None,
                            },
                            span: *span,
                        },
                    ),
                );
            },
            _ => {},
        }
    }
    IrValue::Content(one_node(IrNode::Paragraph { content: copy_inlines(inlines), span }))
}

} // verus!
