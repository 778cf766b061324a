//! Laws of `.dictionary`: which entries the items of a list are.

use vstd::prelude::*;

use crate::dictionary;
use crate::ir::{
    DictionaryView, InlineView, IrTaskStatus, ListItemView, NodeView, PairView, SourceSpan,
    ValueView,
};
use crate::laws_data;
use crate::semantics;
use crate::semantics::{Evaluator, World};
use crate::text;

verus! {

/// A list item that is a paragraph of one text.
pub open spec fn text_item(
    content: Seq<char>,
    task: Option<IrTaskStatus>,
    at: SourceSpan,
) -> ListItemView {
    ListItemView {
        nodes: seq![
            NodeView::Paragraph {
                content: seq![InlineView::Text { content, span: at }],
                span: at,
            },
        ],
        task,
        span: at,
    }
}

/// An item whose text has a colon is an entry: the text in front of the colon is its key, and what
/// the text behind it stands for is its value; a value that is left out is an empty text.
pub proof fn lemma_item_is_entry(
    e: Evaluator,
    key: Seq<char>,
    rest: Seq<char>,
    task: Option<IrTaskStatus>,
    at: SourceSpan,
    span: SourceSpan,
    f: nat,
    w: World,
)
    requires
        !key.contains(':'),
        text::trim(key).len() > 0,
    ensures
        ({
            let item = text_item(key + seq![':'] + rest, task, at);
            let r = semantics::dictionary_entry(e, item, span, f, w);
            if text::trim(rest).len() == 0 {
                r.out == Some((text::trim(key), ValueView::String(Seq::empty()))) && r.w == w
            } else {
                let value = dictionary::scalar_entry(text::trim(rest), w.s);
                &&& r.w.s == value.1 && r.w.c == w.c
                &&& value.0 is Some ==> r.out == Some((text::trim(key), value.0->0))
                &&& value.0 is None ==> r.out is None
            }
        }),
{
    reveal(semantics::entry_list);
    reveal(semantics::put_entry);
    reveal(semantics::dictionary_entry);
    reveal(semantics::entry_parts);
    laws_data::lemma_entry_split(key, rest, at, at);
    let item = text_item(key + seq![':'] + rest, task, at);
    let parts = dictionary::split_paragraph(
        seq![InlineView::Text { content: key + seq![':'] + rest, span: at }],
        at,
    );
    assert(parts->0.key == text::trim(key));
}

/// An item without a colon is no entry, and neither is one without a key: both are reported where
/// they stand.
pub proof fn lemma_item_is_no_entry(
    e: Evaluator,
    key: Seq<char>,
    rest: Seq<char>,
    task: Option<IrTaskStatus>,
    at: SourceSpan,
    span: SourceSpan,
    f: nat,
    w: World,
)
    requires
        !key.contains(':'),
    ensures
        ({
            let r = semantics::dictionary_entry(e, text_item(key, task, at), span, f, w);
            &&& r.out is None && r.w.c == w.c
            &&& r.w.s.diagnostics.len() == w.s.diagnostics.len() + 1
            &&& r.w.s.diagnostics.last().code == "E3001"@
            &&& r.w.s.diagnostics.last().primary == Some(at)
        }),
        text::trim(key).len() == 0 ==> {
            let r = semantics::dictionary_entry(
                e,
                text_item(key + seq![':'] + rest, task, at),
                span,
                f,
                w,
            );
            &&& r.out is None && r.w.c == w.c
            &&& r.w.s.diagnostics.len() == w.s.diagnostics.len() + 1
            &&& r.w.s.diagnostics.last().code == "E3001"@
            &&& r.w.s.diagnostics.last().primary == Some(at)
        },
{
    reveal(semantics::entry_list);
    reveal(semantics::put_entry);
    reveal(semantics::dictionary_entry);
    reveal(semantics::entry_parts);
    laws_data::lemma_entry_split(key, rest, at, at);
}

/// An item that is a text without a colon and blocks behind it is an entry whose value is the
/// dictionary that those blocks are.
pub proof fn lemma_nested_entry(
    e: Evaluator,
    key: Seq<char>,
    inner: Seq<NodeView>,
    task: Option<IrTaskStatus>,
    at: SourceSpan,
    span: SourceSpan,
    f: nat,
    w: World,
)
    requires
        !key.contains(':'),
        text::trim(key).len() > 0,
        !text::trim(key).contains(':'),
        inner.len() > 0,
    ensures
        ({
            let item = ListItemView {
                nodes: text_item(key, task, at).nodes + inner,
                task,
                span: at,
            };
            let entries = semantics::dictionary_entries(e, inner, at, f, w);
            let r = semantics::dictionary_entry(e, item, span, f, w);
            &&& r.w == entries.w
            &&& entries.out is Some ==> r.out == Some(
                (
                    text::trim(key),
                    ValueView::Dictionary(DictionaryView { entries: entries.out->0, span: at }),
                ),
            )
            &&& entries.out is None ==> r.out is None
        }),
{
    reveal(semantics::dictionary_entry);
    reveal(semantics::entry_parts);
    laws_data::lemma_entry_split(key, Seq::empty(), at, at);
    let item = ListItemView { nodes: text_item(key, task, at).nodes + inner, task, span: at };
    laws_data::lemma_plain_key(key, InlineView::HardBreak { span: at }, at);
    assert(item.nodes[0] == text_item(key, task, at).nodes[0]);
    assert(item.nodes.skip(1) =~= inner);
    let entries = semantics::dictionary_entries(e, inner, at, f, w);
}

/// The items of a list are entries in order: the first writes its entry, and every other one
/// writes its entry over those before it.
pub proof fn lemma_entries_in_order(
    e: Evaluator,
    items: Seq<ListItemView>,
    item: ListItemView,
    span: SourceSpan,
    f: nat,
    w: World,
)
    ensures
        ({
            let none = semantics::entry_list(e, Seq::empty(), span, f, w);
            none.out == Some(Seq::<PairView>::empty()) && none.w == w
        }),
        ({
            let before = semantics::entry_list(e, items, span, f, w);
            let entry = semantics::dictionary_entry(e, item, span, f, before.w);
            let all = semantics::entry_list(e, items.push(item), span, f, w);
            if before.out is None {
                all.out is None && all.w == before.w
            } else if entry.out is None {
                all.out is None && all.w == entry.w
            } else {
                let (key, value) = entry.out->0;
                &&& all.w == entry.w
                &&& all.out == Some(
                    semantics::put_entry(before.out->0, key, value, item.span),
                )
            }
        }),
{
    reveal(semantics::dictionary_entry);
    reveal(semantics::entry_parts);
    reveal(semantics::put_entry);
    reveal(semantics::entry_list);
    assert(items.push(item).drop_last() =~= items);
}

/// Whether no entry has a key.
pub open spec fn without_key(entries: Seq<PairView>, key: Seq<char>) -> bool {
    forall|i: int|
        0 <= i < entries.len() ==> *(#[trigger] entries[i]).first != ValueView::String(key)
}

/// A new key is written behind the others; the value of a key that is there is replaced where it
/// stands. Every other entry stays.
pub proof fn lemma_entry_written(
    entries: Seq<PairView>,
    key: Seq<char>,
    value: ValueView,
    span: SourceSpan,
    i: int,
)
    ensures
        ({
            let entry = PairView {
                first: Box::new(ValueView::String(key)),
                second: Box::new(value),
                span,
            };
            let after = semantics::put_entry(entries, key, value, span);
            &&& without_key(entries, key) ==> after == entries.push(entry)
            &&& 0 <= i < entries.len() && *entries[i].first == ValueView::String(key)
                && without_key(entries.take(i), key) ==> after == entries.update(i, entry)
        }),
{
    reveal(semantics::put_entry);
    lemma_key_place(entries, key, i);
}

proof fn lemma_key_place(entries: Seq<PairView>, key: Seq<char>, i: int)
    ensures
        without_key(entries, key) ==> semantics::key_place(entries, key) is None,
        0 <= i < entries.len() && *entries[i].first == ValueView::String(key) && without_key(
            entries.take(i),
            key,
        ) ==> semantics::key_place(entries, key) == Some(i),
    decreases entries.len(),
{
    if entries.len() > 0 {
        let front = entries.drop_last();
        lemma_key_place(front, key, i);
        if without_key(entries, key) {
            assert forall|j: int| 0 <= j < front.len() implies *(#[trigger] front[j]).first
                != ValueView::String(key) by {
                assert(front[j] == entries[j]);
            }
            assert(*entries[entries.len() - 1].first != ValueView::String(key));
        }
        if 0 <= i < entries.len() {
            if i < front.len() {
                assert(front.take(i) =~= entries.take(i));
                assert(front[i] == entries[i]);
            } else {
                assert(front =~= entries.take(i));
            }
        }
    }
}

} // verus!
