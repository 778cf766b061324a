//! Laws of display: what values are shown as in a document, in a line and in a table.

use vstd::prelude::*;

use crate::host::{QueryView, ReplyView, SessionView};
use crate::ir::{
    ComponentView, DictionaryView, InlineView, IrTableAlignment, NodeView, PairView, SourceSpan,
    TableRowView, TargetContentView, ValueView,
};
use crate::materialize;
use crate::number::Number;

verus! {

/// A paragraph that holds a text alone.
pub open spec fn paragraph(content: Seq<char>, span: SourceSpan) -> NodeView {
    NodeView::Paragraph { content: seq![InlineView::Text { content, span }], span }
}

/// The text of a value that has one of its own.
pub open spec fn own_text(value: ValueView) -> Option<Seq<char>> {
    match value {
        ValueView::String(content) => Some(content),
        ValueView::Identifier(name) => Some(name),
        ValueView::Boolean(true) => Some("true"@),
        ValueView::Boolean(false) => Some("false"@),
        ValueView::Nothing => Some("None"@),
        _ => None,
    }
}

/// A value with a text of its own is shown as that text: as a paragraph in a document, as text in
/// a line, and as text in a cell of a table. Nothing is asked and nothing is reported.
pub proof fn lemma_own_text_shown(value: ValueView, span: SourceSpan, s: SessionView)
    requires
        own_text(value) is Some,
    ensures
        materialize::content_nodes(value, span, s) == (
            Some(seq![paragraph(own_text(value)->0, span)]),
            s,
        ),
        materialize::inline_content(value, span, s) == (
            seq![InlineView::Text { content: own_text(value)->0, span }],
            s,
        ),
        materialize::table_cell(value, span, s) == (
            Some(seq![InlineView::Text { content: own_text(value)->0, span }]),
            s,
        ),
        materialize::scalar_text(value, span, s) == (Some(own_text(value)->0), s),
{
}

/// A number is shown as the text that the host gives for it.
pub proof fn lemma_number_shown(
    number: Number,
    content: Seq<char>,
    span: SourceSpan,
    s: SessionView,
)
    requires
        s.pending is None,
        s.used < s.replies.len(),
        s.replies[s.used as int] == ReplyView::Text(Some(content)),
    ensures
        materialize::content_nodes(ValueView::Number(number), span, s) == (
            Some(seq![paragraph(content, span)]),
            SessionView { used: s.used + 1, ..s },
        ),
        materialize::inline_content(ValueView::Number(number), span, s) == (
            seq![InlineView::Text { content, span }],
            SessionView { used: s.used + 1, ..s },
        ),
{
}

/// Where the host has not answered, the text of a number is what is waited for.
pub proof fn lemma_number_asked(number: Number, span: SourceSpan, s: SessionView)
    requires
        s.pending is None,
        s.used >= s.replies.len(),
    ensures
        ({
            let shown = materialize::content_nodes(ValueView::Number(number), span, s);
            &&& shown.0 is None
            &&& shown.1.pending == Some(QueryView::NumberText { number })
        }),
{
}

/// Content is shown as it is, and a component as itself.
pub proof fn lemma_content_shown(
    nodes: Seq<NodeView>,
    component: ComponentView,
    span: SourceSpan,
    s: SessionView,
)
    ensures
        materialize::content_nodes(ValueView::Content(nodes), span, s) == (Some(nodes), s),
        materialize::content_nodes(ValueView::Component(component), span, s) == (
            Some(seq![NodeView::Component { component }]),
            s,
        ),
{
}

/// In a line a single paragraph is shown as its line, native content as itself, no content as
/// nothing, and a collection of one value as that value; anything else made of blocks is refused.
pub proof fn lemma_content_in_line(
    line: Seq<InlineView>,
    native: TargetContentView,
    value: ValueView,
    nodes: Seq<NodeView>,
    at: SourceSpan,
    span: SourceSpan,
    s: SessionView,
)
    ensures
        materialize::inline_content(
            ValueView::Content(seq![NodeView::Paragraph { content: line, span: at }]),
            span,
            s,
        ) == (line, s),
        materialize::inline_content(
            ValueView::Content(seq![NodeView::TargetSpecificContent { content: native }]),
            span,
            s,
        ) == (seq![InlineView::TargetSpecificContent { content: native }], s),
        materialize::inline_content(ValueView::Content(Seq::empty()), span, s) == (
            Seq::<InlineView>::empty(),
            s,
        ),
        materialize::inline_content(ValueView::Collection(seq![value]), span, s)
            == materialize::inline_content(value, span, s),
        nodes.len() > 1 ==> {
            let refused = materialize::inline_content(ValueView::Content(nodes), span, s);
            &&& refused.0.len() == 0
            &&& refused.1.diagnostics.len() == s.diagnostics.len() + 1
            &&& refused.1.diagnostics.last().code == "E3003"@
            &&& refused.1.diagnostics.last().primary == Some(span)
        },
{
    reveal_with_fuel(materialize::inline_content, 2);
}

/// The values of a collection are shown one behind the other: what two collections together are
/// shown as is what the first is shown as and then what the second is shown as.
pub proof fn lemma_collections_shown_in_order(
    first: Seq<ValueView>,
    second: Seq<ValueView>,
    span: SourceSpan,
    s: SessionView,
)
    ensures
        ({
            let both = materialize::content_nodes(ValueView::Collection(first + second), span, s);
            let one = materialize::content_nodes(ValueView::Collection(first), span, s);
            let two = materialize::content_nodes(ValueView::Collection(second), span, one.1);
            if one.0 is None {
                both == one
            } else if two.0 is None {
                both == two
            } else {
                both == (Some(one.0->0 + two.0->0), two.1)
            }
        }),
    decreases second.len(),
{
    if second.len() == 0 {
        assert(first + second =~= first);
        let one = materialize::content_nodes(ValueView::Collection(first), span, s);
        if one.0 is Some {
            assert(one.0->0 + Seq::<NodeView>::empty() =~= one.0->0);
        }
    } else {
        let all = first + second;
        assert(all.drop_last() =~= first + second.drop_last());
        assert(all.last() == second.last());
        lemma_collections_shown_in_order(first, second.drop_last(), span, s);
        let one = materialize::content_nodes(ValueView::Collection(first), span, s);
        let two = materialize::content_nodes(
            ValueView::Collection(second.drop_last()),
            span,
            one.1,
        );
        if one.0 is Some && two.0 is Some {
            let last = materialize::content_nodes(second.last(), span, two.1);
            if last.0 is Some {
                assert((one.0->0 + two.0->0) + last.0->0 =~= one.0->0 + (two.0->0 + last.0->0));
            }
        }
    }
}

/// A collection of one value is shown as that value.
pub proof fn lemma_single_element_shown(value: ValueView, span: SourceSpan, s: SessionView)
    ensures
        materialize::content_nodes(ValueView::Collection(seq![value]), span, s)
            == materialize::content_nodes(value, span, s),
        materialize::content_nodes(ValueView::Collection(Seq::empty()), span, s) == (
            Some(Seq::<NodeView>::empty()),
            s,
        ),
{
    assert(seq![value].drop_last() =~= Seq::<ValueView>::empty());
    assert(materialize::collection_nodes(Seq::empty(), span, s) == (
        Some(Seq::<NodeView>::empty()),
        s,
    ));
    assert(seq![value].last() == value);
    let shown = materialize::content_nodes(value, span, s);
    if shown.0 is Some {
        assert(Seq::<NodeView>::empty() + shown.0->0 =~= shown.0->0);
    }
}

/// A pair is shown as a list numbered from one: its first value is the first item and its second
/// value the second.
pub proof fn lemma_pair_shown(
    first: ValueView,
    second: ValueView,
    at: SourceSpan,
    span: SourceSpan,
    s: SessionView,
)
    ensures
        ({
            let pair = PairView { first: Box::new(first), second: Box::new(second), span: at };
            let shown = materialize::content_nodes(ValueView::Pair(pair), span, s);
            let one = materialize::content_nodes(first, at, s);
            let two = materialize::content_nodes(second, at, one.1);
            if one.0 is None {
                shown == one
            } else if two.0 is None {
                shown == two
            } else {
                &&& shown.1 == two.1
                &&& shown.0 is Some && shown.0->0.len() == 1
                &&& shown.0->0[0] is OrderedList
                &&& shown.0->0[0]->OrderedList_start == 1
                &&& shown.0->0[0]->OrderedList_span == at
                &&& shown.0->0[0]->OrderedList_items.len() == 2
                &&& shown.0->0[0]->OrderedList_items[0].nodes == one.0->0
                &&& shown.0->0[0]->OrderedList_items[1].nodes == two.0->0
                &&& shown.0->0[0]->OrderedList_items[0].task is None
                &&& shown.0->0[0]->OrderedList_items[1].task is None
                &&& shown.0->0[0]->OrderedList_items[0].span == at
                &&& shown.0->0[0]->OrderedList_items[1].span == at
            }
        }),
{
}

/// Whether every entry has a text as its key and a value with a text of its own.
pub open spec fn textual(entries: Seq<PairView>) -> bool {
    forall|i: int|
        0 <= i < entries.len() ==> *(#[trigger] entries[i]).first is String && own_text(
            *entries[i].second,
        ) is Some
}

/// Whether a row shows two texts, in order, at a place.
pub open spec fn row_shows(
    row: TableRowView,
    left: Seq<char>,
    right: Seq<char>,
    span: SourceSpan,
) -> bool {
    &&& row.span == span
    &&& row.cells.len() == 2
    &&& row.cells[0].content == seq![InlineView::Text { content: left, span }]
    &&& row.cells[1].content == seq![InlineView::Text { content: right, span }]
    &&& row.cells[0].alignment == IrTableAlignment::Unaligned
    &&& row.cells[1].alignment == IrTableAlignment::Unaligned
    &&& row.cells[0].span == span
    &&& row.cells[1].span == span
}

/// A dictionary whose values are texts, truth values or nothing is shown as one table: its header
/// cells are `Key` and `Value`, it has one row for each entry in the order of the entries, and in
/// a row the key comes first and the value second.
pub proof fn lemma_dictionary_shown(
    entries: Seq<PairView>,
    at: SourceSpan,
    span: SourceSpan,
    s: SessionView,
)
    requires
        textual(entries),
    ensures
        ({
            let shown = materialize::content_nodes(
                ValueView::Dictionary(DictionaryView { entries, span: at }),
                span,
                s,
            );
            &&& shown.1 == s
            &&& shown.0 is Some && shown.0->0.len() == 1
            &&& shown.0->0[0] is Table
            &&& shown.0->0[0]->Table_span == at
            &&& row_shows(shown.0->0[0]->Table_header, "Key"@, "Value"@, at)
            &&& shown.0->0[0]->Table_rows.len() == entries.len()
            &&& forall|i: int|
                0 <= i < entries.len() ==> row_shows(
                    #[trigger] shown.0->0[0]->Table_rows[i],
                    entries[i].first->String_0,
                    own_text(*entries[i].second)->0,
                    entries[i].span,
                )
        }),
{
    lemma_rows_shown(entries, s);
}

proof fn lemma_rows_shown(entries: Seq<PairView>, s: SessionView)
    requires
        textual(entries),
    ensures
        ({
            let shown = materialize::table_rows(entries, s);
            &&& shown.1 == s
            &&& shown.0 is Some && shown.0->0.len() == entries.len()
            &&& forall|i: int|
                0 <= i < entries.len() ==> row_shows(
                    #[trigger] shown.0->0[i],
                    entries[i].first->String_0,
                    own_text(*entries[i].second)->0,
                    entries[i].span,
                )
        }),
    decreases entries.len(),
{
    if entries.len() > 0 {
        let front = entries.drop_last();
        assert forall|i: int| 0 <= i < front.len() implies *(#[trigger] front[i]).first is String
            && own_text(*front[i].second) is Some by {
            assert(front[i] == entries[i]);
        }
        lemma_rows_shown(front, s);
        let last = entries[entries.len() - 1];
        assert(*last.first is String && own_text(*last.second) is Some);
        lemma_own_text_shown(*last.second, last.span, s);
        let shown = materialize::table_rows(entries, s).0->0;
        let before = materialize::table_rows(front, s).0->0;
        assert forall|i: int| 0 <= i < entries.len() implies row_shows(
            #[trigger] shown[i],
            entries[i].first->String_0,
            own_text(*entries[i].second)->0,
            entries[i].span,
        ) by {
            if i < front.len() {
                assert(shown[i] == before[i]);
                assert(front[i] == entries[i]);
            }
        }
    }
}

/// A row of a dictionary shows a paragraph as its line; a pair, a dictionary or a range in a row
/// is refused, and so is content that is not a single paragraph.
pub proof fn lemma_cells_shown(
    line: Seq<InlineView>,
    value: ValueView,
    at: SourceSpan,
    span: SourceSpan,
    s: SessionView,
)
    ensures
        materialize::table_cell(
            ValueView::Content(seq![NodeView::Paragraph { content: line, span: at }]),
            span,
            s,
        ) == (Some(line), s),
        value is Pair || value is Dictionary || value is Range || (value is Content
            && value->Content_0.len() != 1) ==> {
            let refused = materialize::table_cell(value, span, s);
            &&& refused.0 is None
            &&& refused.1.diagnostics.len() == s.diagnostics.len() + 1
            &&& refused.1.diagnostics.last().code == "E3001"@
            &&& refused.1.diagnostics.last().primary == Some(span)
        },
{
}

/// In a line a component is refused where it stands, and so is a collection that does not have
/// exactly one value; in a cell a collection that is shown as one paragraph is its line.
pub proof fn lemma_compounds_in_line(
    component: ComponentView,
    values: Seq<ValueView>,
    content: Seq<char>,
    span: SourceSpan,
    s: SessionView,
)
    ensures
        ({
            let refused = materialize::inline_content(ValueView::Component(component), span, s);
            let place = match component {
                ComponentView::Stacked(c) => c.span,
                ComponentView::Container(c) => c.span,
                ComponentView::Landscape(c) => c.span,
            };
            &&& refused.0.len() == 0
            &&& refused.1.diagnostics.len() == s.diagnostics.len() + 1
            &&& refused.1.diagnostics.last().code == "E3001"@
            &&& refused.1.diagnostics.last().primary == Some(place)
        }),
        values.len() != 1 ==> {
            let refused = materialize::inline_content(ValueView::Collection(values), span, s);
            &&& refused.0.len() == 0
            &&& refused.1.diagnostics.len() == s.diagnostics.len() + 1
            &&& refused.1.diagnostics.last().code == "E3003"@
            &&& refused.1.diagnostics.last().primary == Some(span)
        },
        materialize::table_cell(
            ValueView::Collection(seq![ValueView::String(content)]),
            span,
            s,
        ) == (Some(seq![InlineView::Text { content, span }]), s),
{
    lemma_single_element_shown(ValueView::String(content), span, s);
    lemma_own_text_shown(ValueView::String(content), span, s);
}

/// A range is shown nowhere: it is reported where it stands.
pub proof fn lemma_range_not_shown(range: crate::ir::IrRange, span: SourceSpan, s: SessionView)
    ensures
        ({
            let block = materialize::content_nodes(ValueView::Range(range), span, s);
            let line = materialize::inline_content(ValueView::Range(range), span, s);
            &&& block.0 is None && line.0.len() == 0
            &&& block.1 == line.1
            &&& block.1.diagnostics.len() == s.diagnostics.len() + 1
            &&& block.1.diagnostics.last().code == "E3001"@
            &&& block.1.diagnostics.last().primary == Some(range.span)
        }),
{
}

} // verus!
