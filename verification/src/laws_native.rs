//! Laws of `.html` and `.markdown`: which content they take, and what they leave.

use vstd::prelude::*;

use crate::host::{QueryView, ReplyView, SessionView};
use crate::ir::{
    InlineView, ListItemView, NamedArgView, NativeTarget, NodeView, SourceSpan, TargetContentView,
    ValueView,
};
use crate::laws_arguments;
use crate::native;
use crate::outcome::OutcomeView;
use crate::semantics;
use crate::semantics::{BodyView, CallView, Evaluator, World};

verus! {

/// A call with one argument and nothing else.
pub open spec fn one_argument_call(
    name: Seq<char>,
    value: ValueView,
    span: SourceSpan,
) -> CallView {
    CallView {
        name,
        positional: seq![value],
        named: Seq::empty(),
        lambda: None,
        body: None,
        span,
        first_origin: None,
    }
}

/// `.html` leaves content for HTML and `.markdown` content for Markdown: the text that the host
/// makes of the argument, where the call stands.
pub proof fn lemma_native_content(
    e: Evaluator,
    markdown: bool,
    name: Seq<char>,
    value: ValueView,
    content: Seq<char>,
    span: SourceSpan,
    f: nat,
    w: World,
)
    requires
        !(value is Content),
        !(value is Callable),
        w.s.pending is None,
    ensures
        ({
            let r = semantics::eval_native(
                e,
                markdown,
                one_argument_call(name, value, span),
                f,
                w,
            );
            &&& w.s.used >= w.s.replies.len() ==> r.w.s.pending == Some(
                QueryView::AdaptString { value },
            )
            &&& w.s.used < w.s.replies.len() && w.s.replies[w.s.used as int] == ReplyView::Text(
                Some(content),
            ) ==> {
                &&& r.w.c == w.c
                &&& r.w.s == SessionView { used: w.s.used + 1, ..w.s }
                &&& r.out == OutcomeView::Value(
                    ValueView::Content(
                        seq![
                            NodeView::TargetSpecificContent {
                                content: TargetContentView {
                                    target: if markdown {
                                        NativeTarget::Markdown
                                    } else {
                                        NativeTarget::Html
                                    },
                                    content,
                                    span,
                                },
                            },
                        ],
                    ),
                )
            }
        }),
{
    reveal(semantics::bad_native);
    reveal(semantics::body_value);
    reveal(semantics::native_body);
    reveal(semantics::eval_native);
    reveal(semantics::native_content);
    reveal(semantics::content_index);
    laws_arguments::lemma_literal_evaluated(e, value, span, f, w);
    assert(w.on(w.s) == w);
}

/// The content of `.html` and `.markdown` may be the argument `content`, which means the same as
/// the positional one; both together are refused, and so is any other name and no content at all.
pub proof fn lemma_native_argument(
    e: Evaluator,
    markdown: bool,
    name: Seq<char>,
    value: ValueView,
    other: Seq<char>,
    at: SourceSpan,
    span: SourceSpan,
    f: nat,
    w: World,
)
    requires
        !(value is Content),
        !(value is Callable),
        other != "content"@,
    ensures
        ({
            let arg = NamedArgView { name: "content"@, name_span: at, value, span: at };
            let by_name = CallView {
                positional: Seq::empty(),
                named: seq![arg],
                ..one_argument_call(name, value, span)
            };
            let both = CallView { named: seq![arg], ..one_argument_call(name, value, span) };
            let unknown = CallView {
                positional: Seq::empty(),
                named: seq![NamedArgView { name: other, ..arg }],
                ..one_argument_call(name, value, span)
            };
            let none = CallView {
                positional: Seq::empty(),
                ..one_argument_call(name, value, span)
            };
            &&& semantics::eval_native(e, markdown, by_name, f, w) == semantics::eval_native(
                e,
                markdown,
                one_argument_call(name, value, span),
                f,
                w,
            )
            &&& refused(w, semantics::eval_native(e, markdown, both, f, w), span)
            &&& refused(w, semantics::eval_native(e, markdown, unknown, f, w), at)
            &&& refused(w, semantics::eval_native(e, markdown, none, f, w), span)
        }),
{
    reveal(semantics::body_value);
    reveal(semantics::native_body);
    reveal(semantics::eval_native);
    reveal(semantics::native_content);
    reveal(semantics::content_index);
    reveal(semantics::bad_native);
    laws_arguments::lemma_literal_evaluated(e, value, span, f, w);
    assert(w.on(w.s) == w);
    let arg = NamedArgView { name: "content"@, name_span: at, value, span: at };
    let empty = Seq::<NamedArgView>::empty();
    let one = seq![arg];
    let wrong = seq![NamedArgView { name: other, ..arg }];
    assert(one.drop_last() =~= empty);
    assert(wrong.drop_last() =~= empty);
    assert(semantics::content_index(markdown, empty, w.s) == (Some(None::<int>), w.s));
    assert(semantics::content_index(markdown, one, w.s) == (Some(Some(0int)), w.s));
}

/// A body goes with no other content: neither with a positional argument nor with a named one.
pub proof fn lemma_native_body_alone(
    e: Evaluator,
    markdown: bool,
    name: Seq<char>,
    value: ValueView,
    nodes: Seq<NodeView>,
    at: SourceSpan,
    span: SourceSpan,
    f: nat,
    w: World,
)
    ensures
        ({
            let arg = NamedArgView { name: "content"@, name_span: at, value, span: at };
            let by_place = CallView {
                body: Some(BodyView::Block(nodes)),
                ..one_argument_call(name, value, span)
            };
            let by_name = CallView {
                positional: Seq::empty(),
                named: seq![arg],
                body: Some(BodyView::Block(nodes)),
                ..one_argument_call(name, value, span)
            };
            let many = CallView {
                positional: seq![value, value],
                ..one_argument_call(name, value, span)
            };
            &&& refused(w, semantics::eval_native(e, markdown, by_place, f, w), span)
            &&& refused(w, semantics::eval_native(e, markdown, by_name, f, w), span)
            &&& refused(w, semantics::eval_native(e, markdown, many, f, w), span)
        }),
{
    reveal(semantics::body_value);
    reveal(semantics::native_body);
    reveal(semantics::eval_native);
    reveal(semantics::native_content);
    reveal(semantics::content_index);
    reveal(semantics::bad_native);
    assert(w.on(w.s) == w);
    let arg = NamedArgView { name: "content"@, name_span: at, value, span: at };
    let empty = Seq::<NamedArgView>::empty();
    let one = seq![arg];
    assert(one.drop_last() =~= empty);
    assert(semantics::content_index(markdown, empty, w.s) == (Some(None::<int>), w.s));
    assert(semantics::content_index(markdown, one, w.s) == (Some(Some(0int)), w.s));
}

/// Whether a call failed with one more report, of `E3003`.
pub open spec fn refused(
    w: World,
    r: crate::semantics::Ev<OutcomeView>,
    span: SourceSpan,
) -> bool {
    &&& r.out is Failed
    &&& r.w.c == w.c
    &&& r.w.s.diagnostics.len() == w.s.diagnostics.len() + 1
    &&& r.w.s.diagnostics.last().code == "E3003"@
    &&& r.w.s.diagnostics.last().primary == Some(span)
}

/// Where native content is granted, `.html` is content for HTML and `.markdown` for Markdown.
pub proof fn lemma_native_granted(e: Evaluator, call: CallView, f: nat, w: World)
    requires
        e.capabilities.native_content,
    ensures
        semantics::eval_html(e, call, f, w) == semantics::eval_native(e, false, call, f, w),
        semantics::eval_markdown(e, call, f, w) == semantics::eval_native(e, true, call, f, w),
{
    reveal(semantics::bad_native);
    reveal(semantics::body_value);
    reveal(semantics::content_index);
    reveal(semantics::eval_native);
    reveal(semantics::native_body);
    reveal(semantics::native_content);
    reveal(semantics::eval_html);
    reveal(semantics::eval_markdown);
}

/// `.html` takes a body with raw HTML in it as it is written, and any other body as the content
/// that it evaluates to; `.markdown` takes every body as content.
pub proof fn lemma_native_body(
    e: Evaluator,
    nodes: Seq<NodeView>,
    span: SourceSpan,
    f: nat,
    w: World,
)
    ensures
        ({
            let content = semantics::body_content(e, BodyView::Block(nodes), span, f, w);
            let html = semantics::native_body(e, false, BodyView::Block(nodes), span, f, w);
            let markdown = semantics::native_body(e, true, BodyView::Block(nodes), span, f, w);
            let source = native::body_source(nodes);
            &&& markdown.w == content.w
            &&& content.out is Some ==> markdown.out == Some(ValueView::Content(content.out->0))
            &&& content.out is None ==> markdown.out is None
            &&& !native::contains_raw(nodes) ==> html.out == markdown.out && html.w == markdown.w
            &&& native::contains_raw(nodes) && source is Some ==> html.out == Some(
                ValueView::String(source->0),
            ) && html.w == w
            &&& native::contains_raw(nodes) && source is None ==> html.out is None
                && html.w.s.diagnostics.len() == w.s.diagnostics.len() + 1
        }),
{
    reveal(semantics::native_body);
    reveal(semantics::body_value);
    let b = semantics::body_value(e, BodyView::Block(nodes), span, f, w);
    let content = semantics::body_content(e, BodyView::Block(nodes), span, f, w);
    assert(b.w == content.w);
}

/// A part of a line is written as its text, or as a line feed where it is a break; the source of a
/// line is that of its parts in order, and it has none where one of them has none.
pub proof fn lemma_line_source(
    line: Seq<InlineView>,
    content: Seq<char>,
    last: InlineView,
    span: SourceSpan,
)
    ensures
        native::inlines_source(Seq::empty()) == Some(Seq::<char>::empty()),
        match last {
            InlineView::Text { content, .. } => native::inlines_source(line) is Some
                ==> native::inlines_source(line.push(last)) == Some(
                native::inlines_source(line)->0 + content,
            ),
            InlineView::RawHtml { content, .. } => native::inlines_source(line) is Some
                ==> native::inlines_source(line.push(last)) == Some(
                native::inlines_source(line)->0 + content,
            ),
            InlineView::SoftBreak { .. } | InlineView::HardBreak { .. } => native::inlines_source(
                line,
            ) is Some ==> native::inlines_source(line.push(last)) == Some(
                native::inlines_source(line)->0.push('\n'),
            ),
            _ => native::inlines_source(line.push(last)) is None,
        },
        native::inlines_source(line) is None ==> native::inlines_source(line.push(last)) is None,
{
    assert(line.push(last).drop_last() =~= line);
    reveal_strlit("\n");
    assert("\n"@ =~= seq!['\n']);
    if native::inlines_source(line) is Some {
        let before = native::inlines_source(line)->0;
        assert(before + seq!['\n'] =~= before.push('\n'));
    }
}

/// A block is written as its raw HTML, or as the line of a paragraph or a heading; the source of
/// blocks is that of each of them in order.
pub proof fn lemma_block_source(nodes: Seq<NodeView>, last: NodeView)
    ensures
        native::body_source(Seq::empty()) == Some(Seq::<char>::empty()),
        ({
            let before = native::body_source(nodes);
            let after = native::body_source(nodes.push(last));
            match last {
                NodeView::RawHtml { source, .. } => before is Some ==> after == Some(
                    before->0 + source,
                ),
                NodeView::Paragraph { content, .. } => before is Some && native::inlines_source(
                    content,
                ) is Some ==> after == Some(before->0 + native::inlines_source(content)->0),
                NodeView::Heading { content, .. } => before is Some && native::inlines_source(
                    content,
                ) is Some ==> after == Some(before->0 + native::inlines_source(content)->0),
                _ => after is None,
            }
        }),
        native::body_source(nodes) is None ==> native::body_source(nodes.push(last)) is None,
{
    assert(nodes.push(last).drop_last() =~= nodes);
}

/// Blocks contain raw HTML where one of them does: raw HTML itself, a paragraph or a heading with
/// raw HTML in its line or in emphasis in its line, a quotation and a list with it inside.
pub proof fn lemma_raw_found(
    nodes: Seq<NodeView>,
    last: NodeView,
    source: Seq<char>,
    line: Seq<InlineView>,
    i: int,
    items: Seq<ListItemView>,
    item: ListItemView,
    span: SourceSpan,
)
    ensures
        !native::contains_raw(Seq::empty()),
        native::contains_raw(nodes.push(last)) == (native::contains_raw(nodes)
            || native::contains_raw(seq![last])),
        native::contains_raw(seq![NodeView::RawHtml { source, span }]),
        0 <= i < line.len() && line[i] is RawHtml ==> native::contains_raw(
            seq![NodeView::Paragraph { content: line, span }],
        ) && native::contains_raw(
            seq![
                NodeView::Paragraph {
                    content: seq![InlineView::Emphasis { content: line, span }],
                    span,
                },
            ],
        ) && native::contains_raw(
            seq![
                NodeView::Paragraph {
                    content: seq![InlineView::Strong { content: line, span }],
                    span,
                },
            ],
        ),
        (forall|j: int| 0 <= j < line.len() ==> (#[trigger] line[j]) is Text)
            ==> !native::contains_raw(seq![NodeView::Paragraph { content: line, span }]),
        native::contains_raw(seq![NodeView::Blockquote { content: nodes, span }])
            == native::contains_raw(nodes),
        native::contains_raw(seq![NodeView::UnorderedList { items: items.push(item), span }]) == (
        native::contains_raw(seq![NodeView::UnorderedList { items, span }])
            || native::contains_raw(item.nodes)),
{
    reveal_with_fuel(native::contains_raw, 2);
    reveal_with_fuel(native::node_raw, 2);
    reveal_with_fuel(native::items_raw, 2);
    assert(nodes.push(last).drop_last() =~= nodes);
    assert(items.push(item).drop_last() =~= items);
    lemma_single_raw(last);
    lemma_single_raw(NodeView::RawHtml { source, span });
    let paragraph = NodeView::Paragraph { content: line, span };
    lemma_single_raw(paragraph);
    let emphasis = seq![InlineView::Emphasis { content: line, span }];
    let strong = seq![InlineView::Strong { content: line, span }];
    lemma_single_raw(NodeView::Paragraph { content: emphasis, span });
    lemma_single_raw(NodeView::Paragraph { content: strong, span });
    lemma_single_raw(NodeView::Blockquote { content: nodes, span });
    lemma_single_raw(NodeView::UnorderedList { items: items.push(item), span });
    lemma_single_raw(NodeView::UnorderedList { items, span });
    if 0 <= i < line.len() && line[i] is RawHtml {
        assert(native::inline_raw(line[i]));
        assert(native::any_raw(line));
        assert(native::inline_raw(emphasis[0]));
        assert(native::inline_raw(strong[0]));
    }
}

proof fn lemma_single_raw(node: NodeView)
    ensures
        native::contains_raw(seq![node]) == native::node_raw(node),
{
    reveal_with_fuel(native::contains_raw, 2);
    assert(seq![node].drop_last() =~= Seq::empty());
    assert(!native::contains_raw(Seq::empty()));
}

} // verus!
