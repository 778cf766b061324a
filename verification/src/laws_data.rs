//! Laws of values: ranges, pairs, dictionaries and what iterables are made of.

use vstd::prelude::*;

use crate::binding;
use crate::collection;
use crate::dictionary;
use crate::host::{InvocationValueView, QueryView, ReplyView, SessionView, ValueOrigin};
use crate::ir::{
    DictionaryView, InlineView, IrRange, IrTaskStatus, ListItemView, NamedArgView, NodeView,
    PairView, SourceSpan, ValueView,
};
use crate::laws_binding;
use crate::lines;
use crate::number;
use crate::number::Number;
use crate::text;

verus! {

/// A pair is iterated as its first and its second value, a dictionary as its entries in order,
/// each a pair of its key and its value, and a collection as its elements.
pub proof fn lemma_iterated(
    limit: nat,
    values: Seq<ValueView>,
    first: ValueView,
    second: ValueView,
    entries: Seq<PairView>,
    at: SourceSpan,
    origin: ValueOrigin,
    span: SourceSpan,
    s: SessionView,
)
    ensures
        values.len() <= limit ==> collection::iterable_elements(
            limit,
            InvocationValueView { value: ValueView::Collection(values), origin },
            span,
            s,
        ) == (Some(values), s),
        limit >= 2 ==> collection::iterable_elements(
            limit,
            InvocationValueView {
                value: ValueView::Pair(
                    PairView { first: Box::new(first), second: Box::new(second), span: at },
                ),
                origin,
            },
            span,
            s,
        ) == (Some(seq![first, second]), s),
        entries.len() <= limit ==> {
            let r = collection::iterable_elements(
                limit,
                InvocationValueView {
                    value: ValueView::Dictionary(DictionaryView { entries, span: at }),
                    origin,
                },
                span,
                s,
            );
            &&& r.1 == s
            &&& r.0 is Some && r.0->0.len() == entries.len()
            &&& forall|i: int|
                0 <= i < entries.len() ==> #[trigger] r.0->0[i] == ValueView::Pair(entries[i])
        },
{
}

/// A range is iterated from its start, or from one, through its end; one without an end is
/// refused where it stands.
pub proof fn lemma_range_iterated(
    limit: nat,
    start: Option<i32>,
    end: i32,
    at: SourceSpan,
    origin: ValueOrigin,
    span: SourceSpan,
    s: SessionView,
)
    ensures
        ({
            let from: int = match start {
                Some(k) => k as int,
                None => 1,
            };
            let r = collection::iterable_elements(
                limit,
                InvocationValueView {
                    value: ValueView::Range(IrRange { start, end: Some(end), span: at }),
                    origin,
                },
                span,
                s,
            );
            &&& from > end ==> r == (Some(Seq::<ValueView>::empty()), s)
            &&& from <= end && end - from < limit ==> {
                &&& r.1 == s
                &&& r.0 is Some && r.0->0.len() == end - from + 1
                &&& forall|i: int|
                    0 <= i <= end - from ==> #[trigger] r.0->0[i] == ValueView::Number(
                        number::number_of(from + i),
                    )
            }
            &&& from <= end && end - from >= limit ==> r.0 is None
        }),
        ({
            let r = collection::iterable_elements(
                limit,
                InvocationValueView {
                    value: ValueView::Range(IrRange { start, end: None, span: at }),
                    origin,
                },
                span,
                s,
            );
            &&& r.0 is None
            &&& r.1.diagnostics.len() == s.diagnostics.len() + 1
            &&& r.1.diagnostics.last().code == "E3001"@
            &&& r.1.diagnostics.last().primary == Some(at)
        }),
{
}

/// A list is iterated item by item: an item that is one paragraph of one text is that text, an
/// item that is a list is the collection of its items, and any other item is its content.
pub proof fn lemma_list_iterated(
    limit: nat,
    items: Seq<ListItemView>,
    item: ListItemView,
    span: SourceSpan,
    s: SessionView,
)
    ensures
        collection::item_values(limit, Seq::empty(), span, s) == (
            Some(Seq::<ValueView>::empty()),
            s,
        ),
        ({
            let before = collection::item_values(limit, items, span, s);
            let one = collection::item_value(limit, item, span, before.1);
            let all = collection::item_values(limit, items.push(item), span, s);
            if before.0 is None {
                all.0 is None && all.1 == before.1
            } else if one.0 is None {
                all.0 is None && all.1 == one.1
            } else {
                all == (Some(before.0->0.push(one.0->0)), one.1)
            }
        }),
{
    assert(items.push(item).drop_last() =~= items);
}

/// A numbered list is iterated as the same list without numbers is, and content that is no list is
/// refused with one report.
pub proof fn lemma_list_kinds(
    limit: nat,
    items: Seq<ListItemView>,
    start: u64,
    other: NodeView,
    at: SourceSpan,
    span: SourceSpan,
    s: SessionView,
)
    requires
        !(other is UnorderedList),
        !(other is OrderedList),
    ensures
        ({
            let numbered = seq![NodeView::OrderedList { items, start, span: at }];
            let bulleted = seq![NodeView::UnorderedList { items, span: at }];
            let refused = collection::list_elements(limit, seq![other], span, s);
            &&& collection::list_elements(limit, numbered, span, s) == collection::list_elements(
                limit,
                bulleted,
                span,
                s,
            )
            &&& items.len() <= limit ==> collection::list_elements(limit, numbered, span, s)
                == collection::item_values(limit, items, span, s)
            &&& items.len() > limit ==> collection::list_elements(limit, numbered, span, s).0
                is None
            &&& refused.0 is None
            &&& refused.1.diagnostics.len() == s.diagnostics.len() + 1
        }),
{
    reveal_with_fuel(collection::list_elements, 2);
}

/// What a list item stands for.
pub proof fn lemma_item_stands_for(
    limit: nat,
    content: Seq<char>,
    inner: Seq<ListItemView>,
    other: NodeView,
    task: Option<IrTaskStatus>,
    at: SourceSpan,
    span: SourceSpan,
    s: SessionView,
)
    requires
        !(other is Paragraph),
        !(other is UnorderedList),
        !(other is OrderedList),
    ensures
        collection::item_value(
            limit,
            ListItemView {
                nodes: seq![
                    NodeView::Paragraph {
                        content: seq![InlineView::Text { content, span: at }],
                        span: at,
                    },
                ],
                task,
                span: at,
            },
            span,
            s,
        ) == (Some(ValueView::String(content)), s),
        collection::item_value(
            limit,
            ListItemView { nodes: seq![other], task, span: at },
            span,
            s,
        ) == (Some(ValueView::Content(seq![other])), s),
        inner.len() <= limit ==> {
            let nested = collection::item_value(
                limit,
                ListItemView {
                    nodes: seq![NodeView::UnorderedList { items: inner, span: at }],
                    task,
                    span: at,
                },
                span,
                s,
            );
            let elements = collection::item_values(limit, inner, span, s);
            &&& nested.1 == elements.1
            &&& elements.0 is Some ==> nested.0 == Some(ValueView::Collection(elements.0->0))
            &&& elements.0 is None ==> nested.0 is None
        },
{
    reveal_with_fuel(collection::list_elements, 2);
    reveal_with_fuel(collection::item_value, 2);
    reveal_with_fuel(collection::item_values, 2);
}

/// A text or a word is iterated as the range that the host reads from it.
pub proof fn lemma_text_iterated(
    limit: nat,
    content: Seq<char>,
    range: IrRange,
    origin: ValueOrigin,
    span: SourceSpan,
    s: SessionView,
)
    requires
        s.pending is None,
    ensures
        ({
            let argument = InvocationValueView { value: ValueView::String(content), origin };
            let r = collection::iterable_elements(limit, argument, span, s);
            &&& s.used >= s.replies.len() ==> r.0 is None && r.1.pending == Some(
                QueryView::Range { argument, span },
            )
            &&& s.used < s.replies.len() && s.replies[s.used as int] == ReplyView::Range(
                Some(range),
            ) ==> r == collection::iterable_elements(
                limit,
                InvocationValueView { value: ValueView::Range(range), origin },
                span,
                SessionView { used: s.used + 1, ..s },
            )
            &&& s.used < s.replies.len() && s.replies[s.used as int] == ReplyView::Range(None)
                ==> r.0 is None && r.1.diagnostics.len() == s.diagnostics.len() + 1
        }),
{
}

/// A paragraph is an entry of a dictionary where its text has a colon: the key is what stands in
/// front of the first colon and the value is what stands behind it, both without the white space
/// around them.
pub proof fn lemma_entry_split(
    key: Seq<char>,
    rest: Seq<char>,
    at: SourceSpan,
    paragraph: SourceSpan,
)
    requires
        !key.contains(':'),
    ensures
        ({
            let content = seq![InlineView::Text { content: key + seq![':'] + rest, span: at }];
            let entry = dictionary::split_paragraph(content, paragraph);
            &&& entry is Some
            &&& entry->0.key == text::trim(key)
            &&& entry->0.text == text::trim(rest)
            &&& entry->0.inlines.len() == 0
        }),
        dictionary::split_paragraph(
            seq![InlineView::Text { content: key, span: at }],
            paragraph,
        ) is None,
{
    let first = key + seq![':'] + rest;
    let n = key.len() as int;
    assert(first[n] == ':');
    assert forall|i: int| 0 <= i < n implies first[i] != ':' by {
        assert(key.contains(key[i]));
    }
    lemma_colon(first, n);
    assert(first.take(n) =~= key);
    assert(first.skip(n + 1) =~= rest);
    lines::lemma_index_of_char(key, ':');
    if text::trim(rest).len() == 0 {
        assert(text::trim(rest) =~= Seq::empty());
    }
}

proof fn lemma_colon(s: Seq<char>, n: int)
    requires
        0 <= n < s.len(),
        s[n] == ':',
        forall|i: int| 0 <= i < n ==> s[i] != ':',
    ensures
        lines::index_of_char(s, ':') == Some(n as nat),
    decreases s.len(),
{
    if n > 0 {
        assert(s[0] != ':');
        lemma_colon(s.skip(1), n - 1);
    }
}

/// The value of an entry stands where it is written: behind the key, the colon and the white space
/// that follows it, for as many bytes as it has.
pub proof fn lemma_entry_place(
    key: Seq<char>,
    lead: Seq<char>,
    value: Seq<char>,
    at: SourceSpan,
    paragraph: SourceSpan,
)
    requires
        !key.contains(':'),
        crate::laws_lines::all_white(lead),
        value.len() > 0,
        !text::is_white(value[0]),
        !text::is_white(value.last()),
        at.start + text::byte_length(key) + 1 + text::byte_length(lead) + text::byte_length(value)
            <= usize::MAX,
    ensures
        ({
            let content = seq![
                InlineView::Text { content: key + seq![':'] + (lead + value), span: at },
            ];
            let entry = dictionary::split_paragraph(content, paragraph);
            let start = at.start + text::byte_length(key) + 1 + text::byte_length(lead);
            &&& entry is Some
            &&& entry->0.text == value
            &&& entry->0.span.source_id == at.source_id
            &&& entry->0.span.start == start
            &&& entry->0.span.end == start + text::byte_length(value)
        }),
{
    let rest = lead + value;
    let first = key + seq![':'] + rest;
    let n = key.len() as int;
    assert(first[n] == ':');
    assert forall|i: int| 0 <= i < n implies first[i] != ':' by {
        assert(key.contains(key[i]));
    }
    lemma_colon(first, n);
    assert(first.take(n) =~= key);
    assert(first.skip(n + 1) =~= rest);
    lemma_lead(lead, value);
    assert(rest.take(lead.len() as int) =~= lead);
    assert(rest.skip(lead.len() as int) =~= value);
}

proof fn lemma_lead(lead: Seq<char>, value: Seq<char>)
    requires
        crate::laws_lines::all_white(lead),
        value.len() > 0,
        !text::is_white(value[0]),
    ensures
        text::leading_white(lead + value) == lead.len(),
    decreases lead.len(),
{
    let all = lead + value;
    if lead.len() > 0 {
        let rest = lead.skip(1);
        assert forall|i: int| 0 <= i < rest.len() implies text::is_white(#[trigger] rest[i]) by {
            assert(rest[i] == lead[i + 1]);
        }
        lemma_lead(rest, value);
        assert(text::is_white(lead[0]));
        assert(all[0] == lead[0]);
        assert(all.skip(1) =~= rest + value);
    } else {
        assert(all =~= value);
    }
}

/// Where nothing stands behind the colon, the parts of the line behind that text are the value.
pub proof fn lemma_entry_of_parts(
    key: Seq<char>,
    value: InlineView,
    more: Seq<InlineView>,
    at: SourceSpan,
    paragraph: SourceSpan,
)
    requires
        !key.contains(':'),
        !(value is Text),
    ensures
        ({
            let content = seq![InlineView::Text { content: key.push(':'), span: at }, value] + more;
            let entry = dictionary::split_paragraph(content, paragraph);
            &&& entry is Some
            &&& entry->0.key == text::trim(key)
            &&& entry->0.text.len() == 0
            &&& entry->0.inlines == seq![value] + more
        }),
{
    let content = seq![InlineView::Text { content: key.push(':'), span: at }, value] + more;
    let first = key.push(':');
    let n = key.len() as int;
    assert forall|i: int| 0 <= i < n implies first[i] != ':' by {
        assert(key.contains(key[i]));
    }
    lemma_colon(first, n);
    assert(first.take(n) =~= key);
    assert(first.skip(n + 1) =~= Seq::empty());
    let after = first.skip(n + 1);
    assert(text::trim_start(after) =~= Seq::empty());
    assert(text::trim(after).len() == 0);
    assert(content[0] == InlineView::Text { content: first, span: at });
    assert(content[1] == value);
    assert(content.skip(2) =~= more);
}

/// A value in quotation marks is the text between them; `true` and `yes` are true, `false` and
/// `no` are false, in letters of either case; any other is the number that the host reads from it,
/// or the text itself.
pub proof fn lemma_entry_scalar(inner: Seq<char>, content: Seq<char>, n: Number, s: SessionView)
    ensures
        dictionary::scalar_entry(seq!['"'] + inner + seq!['"'], s) == (
            Some(ValueView::String(inner)),
            s,
        ),
        dictionary::scalar_entry(seq!['\''] + inner + seq!['\''], s) == (
            Some(ValueView::String(inner)),
            s,
        ),
        ({
            let t = text::trim(content);
            let word = text::lower(t);
            let marked = t.len() >= 2 && t[0] == t.last() && (t[0] == '"' || t[0] == '\'');
            let r = dictionary::scalar_entry(content, s);
            &&& !marked && (word == "true"@ || word == "yes"@) ==> r == (
                Some(ValueView::Boolean(true)),
                s,
            )
            &&& !marked && (word == "false"@ || word == "no"@) ==> r == (
                Some(ValueView::Boolean(false)),
                s,
            )
            &&& !marked && word != "true"@ && word != "yes"@ && word != "false"@ && word != "no"@
                && s.pending is None ==> {
                &&& s.used >= s.replies.len() ==> r.0 is None && r.1.pending == Some(
                    QueryView::ParseNumber { text: t },
                )
                &&& s.used < s.replies.len() && s.replies[s.used as int] == ReplyView::Number(
                    Some(n),
                ) ==> r == (Some(ValueView::Number(n)), SessionView { used: s.used + 1, ..s })
                &&& s.used < s.replies.len() && s.replies[s.used as int] == ReplyView::Number(None)
                    ==> r == (Some(ValueView::String(t)), SessionView { used: s.used + 1, ..s })
            }
        }),
{
    lemma_marked_stays(inner, '"');
    lemma_marked_stays(inner, '\'');
    reveal_strlit("true");
    reveal_strlit("yes");
    reveal_strlit("false");
    reveal_strlit("no");
    assert("true"@.len() == 4 && "yes"@.len() == 3 && "false"@.len() == 5 && "no"@.len() == 2);
}

proof fn lemma_marked_stays(inner: Seq<char>, mark: char)
    requires
        !text::is_white(mark),
    ensures
        ({
            let whole = seq![mark] + inner + seq![mark];
            &&& text::trim(whole) == whole
            &&& whole.subrange(1, whole.len() - 1) == inner
        }),
{
    let whole = seq![mark] + inner + seq![mark];
    assert(whole[0] == mark && whole.last() == mark);
    assert(text::leading_white(whole) == 0);
    assert(whole.skip(0) =~= whole);
    assert(whole.subrange(1, whole.len() - 1) =~= inner);
}

/// A value that is one call in a line is that call, with its line as the body of a block; any other
/// parts of a line are a paragraph.
pub proof fn lemma_entry_inlines(
    name: Seq<char>,
    positional: Seq<ValueView>,
    named: Seq<NamedArgView>,
    line: Seq<InlineView>,
    at: SourceSpan,
    span: SourceSpan,
)
    ensures
        dictionary::inline_entry(
            seq![
                InlineView::DirectiveCall {
                    name,
                    positional_args: positional,
                    named_args: named,
                    body: None,
                    span: at,
                },
            ],
            span,
        ) == ValueView::Content(
            seq![
                NodeView::FunctionCall {
                    name,
                    positional_args: positional,
                    named_args: named,
                    lambda_parameters: None,
                    body: None,
                    span: at,
                },
            ],
        ),
        dictionary::inline_entry(
            seq![
                InlineView::DirectiveCall {
                    name,
                    positional_args: positional,
                    named_args: named,
                    body: Some(line),
                    span: at,
                },
            ],
            span,
        ) == ValueView::Content(
            seq![
                NodeView::FunctionCall {
                    name,
                    positional_args: positional,
                    named_args: named,
                    lambda_parameters: None,
                    body: Some(seq![NodeView::Paragraph { content: line, span: at }]),
                    span: at,
                },
            ],
        ),
        line.len() != 1 || line[0] is Text || line[0] is Emphasis || line[0] is Strong
            ==> dictionary::inline_entry(line, span) == ValueView::Content(
            seq![NodeView::Paragraph { content: line, span }],
        ),
{
}

/// A text at the start of a value loses the white space around it, and stands where what is left of
/// it is written; any other part stays.
pub proof fn lemma_entry_head(inline: InlineView)
    ensures
        match inline {
            InlineView::Text { content, span } => {
                let trimmed = dictionary::trimmed_inline(inline);
                let lead = text::leading_white(content);
                let start = span.start + text::byte_length(content.take(lead as int));
                &&& trimmed is Text
                &&& trimmed->Text_content == text::trim(content)
                &&& lead > 0 && start + text::byte_length(text::trim(content)) <= usize::MAX ==> {
                    &&& trimmed->Text_span.source_id == span.source_id
                    &&& trimmed->Text_span.start == start
                    &&& trimmed->Text_span.end == start + text::byte_length(text::trim(content))
                }
            },
            _ => dictionary::trimmed_inline(inline) == inline,
        },
{
    if let InlineView::Text { content, .. } = inline {
        let rest = text::trim(content);
        let lead = text::leading_white(content);
        if lead == 0 && rest.len() == content.len() {
            assert(content.skip(0) =~= content);
            lemma_end_stays(content);
        }
    }
}

proof fn lemma_end_stays(s: Seq<char>)
    requires
        text::trim_end(s).len() == s.len(),
    ensures
        text::trim_end(s) == s,
{
    if s.len() > 0 && text::is_white(s.last()) {
        lemma_end_shorter(s.drop_last());
    }
}

proof fn lemma_end_shorter(s: Seq<char>)
    ensures
        text::trim_end(s).len() <= s.len(),
    decreases s.len(),
{
    if s.len() > 0 && text::is_white(s.last()) {
        lemma_end_shorter(s.drop_last());
    }
}

/// A paragraph of one text without a colon is a key for the list behind it, without the white
/// space around it; a text that is white space alone is none.
pub proof fn lemma_plain_key(content: Seq<char>, more: InlineView, at: SourceSpan)
    requires
        !text::trim(content).contains(':'),
    ensures
        ({
            let key = dictionary::plain_key(seq![InlineView::Text { content, span: at }]);
            if text::trim(content).len() > 0 {
                key == Some(text::trim(content))
            } else {
                key is None
            }
        }),
        dictionary::plain_key(seq![InlineView::Text { content, span: at }, more]) is None,
{
}

/// The first argument of `.range` is where it starts and the second where it ends, and so are the
/// arguments `from` and `to`.
pub proof fn lemma_range_arguments(
    from: ValueView,
    to: ValueView,
    at: SourceSpan,
    span: SourceSpan,
    s: SessionView,
)
    ensures
        binding::range_parts(seq![from, to], Seq::empty(), span, s) == (
            Some((Some(from), Some(to))),
            s,
        ),
        binding::range_parts(seq![from], Seq::empty(), span, s) == (
            Some((Some(from), None::<ValueView>)),
            s,
        ),
        binding::range_parts(
            Seq::empty(),
            seq![NamedArgView { name: "from"@, name_span: at, value: from, span: at }],
            span,
            s,
        ) == (Some((Some(from), None::<ValueView>)), s),
        binding::range_parts(
            Seq::empty(),
            seq![NamedArgView { name: "to"@, name_span: at, value: to, span: at }],
            span,
            s,
        ) == (Some((None::<ValueView>, Some(to))), s),
{
    reveal_strlit("from");
    reveal_strlit("to");
    assert("from"@.len() != "to"@.len());
    lemma_range_arguments_bound(seq![from, to], span, s);
    lemma_range_arguments_bound(seq![from], span, s);
    lemma_range_arguments_bound(Seq::empty(), span, s);
    let a = NamedArgView { name: "from"@, name_span: at, value: from, span: at };
    let b = NamedArgView { name: "to"@, name_span: at, value: to, span: at };
    lemma_range_argument_named(a, 0, span, s);
    lemma_range_argument_named(b, 1, span, s);
}

proof fn lemma_range_arguments_bound(values: Seq<ValueView>, span: SourceSpan, s: SessionView)
    requires
        values.len() <= 2,
    ensures
        binding::range_parts(values, Seq::empty(), span, s) == (
            Some(
                (
                    if values.len() > 0 {
                        Some(values[0])
                    } else {
                        None
                    },
                    if values.len() > 1 {
                        Some(values[1])
                    } else {
                        None
                    },
                ),
            ),
            s,
        ),
{
    laws_binding::lemma_positional_bound(
        crate::binding::Style::Range,
        "range"@,
        seq!["from"@, "to"@],
        "`.range` accepts at most two positional bounds (received "@ + text::decimal_text(
            values.len(),
        ) + ")"@,
        binding::static_arguments(values, span),
        span,
        s,
    );
    assert(binding::static_named(Seq::empty()) =~= Seq::empty());
}

proof fn lemma_range_argument_named(arg: NamedArgView, i: int, span: SourceSpan, s: SessionView)
    requires
        0 <= i < 2,
        arg.name == seq!["from"@, "to"@][i],
        "from"@ != "to"@,
    ensures
        binding::range_parts(Seq::empty(), seq![arg], span, s) == (
            Some(
                (
                    if i == 0 {
                        Some(arg.value)
                    } else {
                        None
                    },
                    if i == 1 {
                        Some(arg.value)
                    } else {
                        None
                    },
                ),
            ),
            s,
        ),
{
    let names = seq!["from"@, "to"@];
    let too_many = "`.range` accepts at most two positional bounds (received "@
        + text::decimal_text(0) + ")"@;
    let none = binding::static_arguments(Seq::empty(), span);
    laws_binding::lemma_positional_bound(
        crate::binding::Style::Range,
        "range"@,
        names,
        too_many,
        none,
        span,
        s,
    );
    let named = binding::static_named(seq![arg]);
    assert(named =~= Seq::empty().push(named[0]));
    laws_binding::lemma_named_bound(
        crate::binding::Style::Range,
        "range"@,
        names,
        too_many,
        none,
        Seq::empty(),
        named[0],
        i,
        span,
        s,
    );
}

} // verus!
