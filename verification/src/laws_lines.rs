//! Laws of text: white space, letters, digits, line separators, lines and file names.

use vstd::prelude::*;

use crate::host::Mode;
use crate::ir::{IrRange, SourceSpan};
use crate::lines;
use crate::scope;
use crate::scope::ImplicitParameterIndex;
use crate::text;

verus! {

/// Every line separator, however it is written, becomes one line feed, and every other character
/// stays.
pub proof fn lemma_separators(c: char, rest: Seq<char>)
    ensures
        lines::normalized(seq!['\r', '\n'] + rest) == seq!['\n'] + lines::normalized(rest),
        rest.len() == 0 || rest[0] != '\n' ==> lines::normalized(seq!['\r'] + rest) == seq!['\n']
            + lines::normalized(rest),
        c != '\r' ==> lines::normalized(seq![c] + rest) == seq![c] + lines::normalized(rest),
        lines::normalized(Seq::empty()) == Seq::<char>::empty(),
{
    assert((seq!['\r', '\n'] + rest).skip(2) =~= rest);
    assert((seq!['\r'] + rest).skip(1) =~= rest);
    assert((seq![c] + rest).skip(1) =~= rest);
}

/// A line feed ends a line: the lines of a text are the part in front of its first line feed, and
/// then the lines of the part behind it. A text without line feeds is one line, and no text has no
/// lines.
pub proof fn lemma_lines_split(line: Seq<char>, rest: Seq<char>)
    requires
        !line.contains('\n'),
    ensures
        lines::lines_of(line + seq!['\n'] + rest) == seq![line] + lines::lines_of(rest),
        line.len() > 0 ==> lines::lines_of(line) == seq![line],
        lines::lines_of(Seq::empty()).len() == 0,
{
    let all = line + seq!['\n'] + rest;
    let n = line.len() as int;
    lines::lemma_index_of_char(all, '\n');
    lines::lemma_index_of_char(line, '\n');
    assert(all[n] == '\n');
    assert(all.contains('\n'));
    match lines::index_of_char(all, '\n') {
        Some(i) => {
            if i < n {
                assert(all[i as int] == line[i as int]);
                assert(line.contains(line[i as int]));
            }
            lemma_first_place(all, '\n', n);
            assert(all.take(n) =~= line);
            assert(all.skip(n + 1) =~= rest);
        },
        None => {},
    }
}

proof fn lemma_first_place(s: Seq<char>, c: char, n: int)
    requires
        0 <= n < s.len(),
        s[n] == c,
        forall|i: int| 0 <= i < n ==> s[i] != c,
    ensures
        lines::index_of_char(s, c) == Some(n as nat),
    decreases s.len(),
{
    if n > 0 {
        assert(s[0] != c);
        lemma_first_place(s.skip(1), c, n - 1);
    }
}

/// Lines are joined by line feeds: one line is itself, and one more stands behind a line feed.
pub proof fn lemma_lines_joined(before: Seq<Seq<char>>, line: Seq<char>)
    ensures
        lines::joined(seq![line]) == line,
        before.len() > 0 ==> lines::joined(before.push(line)) == lines::joined(before) + seq!['\n']
            + line,
        lines::joined(Seq::empty()).len() == 0,
{
    assert(before.push(line).drop_last() =~= before);
    reveal_strlit("\n");
    assert("\n"@ =~= seq!['\n']);
}

/// A selection has the lines from its first to its last, both counted from one and both among
/// them; an end that is left out is the first line or the last one. A selection that is not
/// inside the text is refused.
pub proof fn lemma_lines_selected(content: Seq<char>, first: i32, last: i32, span: SourceSpan)
    ensures
        ({
            let all = lines::lines_of(lines::normalized(content));
            let both = IrRange { start: Some(first), end: Some(last), span };
            let picked = lines::selected_lines(content, both);
            &&& 1 <= first <= last <= all.len() ==> picked == Ok::<Seq<char>, Seq<char>>(
                lines::joined(Seq::new((last - first + 1) as nat, |i: int| all[first - 1 + i])),
            )
            &&& !(1 <= first <= last <= all.len()) ==> picked is Err
            &&& 1 <= last <= all.len() ==> lines::selected_lines(
                content,
                IrRange { start: None, end: Some(last), span },
            ) == lines::selected_lines(
                content,
                IrRange { start: Some(1), end: Some(last), span },
            )
            &&& all.len() == last && 1 <= first <= last ==> lines::selected_lines(
                content,
                IrRange { start: Some(first), end: None, span },
            ) == picked
        }),
{
    let all = lines::lines_of(lines::normalized(content));
    if 1 <= first <= last <= all.len() {
        assert(all.subrange(first - 1, last as int) =~= Seq::new(
            (last - first + 1) as nat,
            |i: int| all[first - 1 + i],
        ));
    }
}

proof fn lemma_after_last(before: Seq<char>, c: char, rest: Seq<char>)
    requires
        !rest.contains(c),
    ensures
        lines::after_last(before + seq![c] + rest, c) == Some(rest),
        lines::after_last(rest, c) is None,
    decreases rest.len(),
{
    let all = before + seq![c] + rest;
    if rest.len() == 0 {
        assert(all.last() == c);
    } else {
        let front = rest.drop_last();
        assert forall|i: int| 0 <= i < front.len() implies front[i] != c by {
            assert(rest.contains(rest[i]));
        }
        lemma_after_last(before, c, front);
        assert(rest.contains(rest.last()));
        assert(all.drop_last() =~= before + seq![c] + front);
        assert(all.last() == rest.last());
        assert(front.push(rest.last()) =~= rest);
    }
}

/// A path is Markdown where the part behind its last dot is `md` in letters of either case, and
/// Quarkdown with any other ending and without one.
pub proof fn lemma_mode_of_ending(folder: Seq<char>, stem: Seq<char>, ending: Seq<char>)
    requires
        !ending.contains('.'),
        !ending.contains('/'),
        !stem.contains('/'),
    ensures
        lines::mode_of_path(folder + seq!['/'] + (stem + seq!['.'] + ending)) == (
        if text::lower(ending) == seq!['m', 'd'] {
            Mode::Markdown
        } else {
            Mode::Quarkdown
        }),
        lines::mode_of_path(stem + seq!['.'] + ending) == (if text::lower(ending) == seq![
            'm',
            'd',
        ] {
            Mode::Markdown
        } else {
            Mode::Quarkdown
        }),
        lines::mode_of_path(folder + seq!['/'] + ending) == Mode::Quarkdown,
        lines::mode_of_path(ending) == Mode::Quarkdown,
{
    let name = stem + seq!['.'] + ending;
    assert forall|i: int| 0 <= i < name.len() implies name[i] != '/' by {
        if i < stem.len() {
            assert(stem.contains(stem[i]));
        } else if i > stem.len() {
            assert(ending.contains(ending[i - stem.len() - 1]));
        }
    }
    assert(!name.contains('/'));
    lemma_after_last(folder, '/', name);
    lemma_after_last(folder, '/', ending);
    lemma_after_last(stem, '.', ending);
    reveal_strlit("md");
    assert("md"@ =~= seq!['m', 'd']);
}

/// To trim a text is to take white space away from both of its ends, as much as there is, and
/// nothing else.
pub proof fn lemma_trimmed(s: Seq<char>)
    ensures
        ({
            let t = text::trim(s);
            &&& t.len() > 0 ==> !text::is_white(t[0]) && !text::is_white(t.last())
            &&& exists|a: Seq<char>, b: Seq<char>| #[trigger]
                (a + t + b) == s && all_white(a) && all_white(b)
        }),
{
    lemma_trimmed_start(s);
    let lead = text::leading_white(s) as int;
    let rest = s.skip(lead);
    lemma_trimmed_end(rest);
    let t = text::trim(s);
    let b = rest.skip(t.len() as int);
    assert(s.take(lead) + t + b =~= s);
    if t.len() > 0 {
        assert(t[0] == rest[0]);
    }
}

/// Whether a text is white space alone.
pub open spec fn all_white(s: Seq<char>) -> bool {
    forall|i: int| 0 <= i < s.len() ==> text::is_white(#[trigger] s[i])
}

proof fn lemma_trimmed_start(s: Seq<char>)
    ensures
        text::leading_white(s) <= s.len(),
        all_white(s.take(text::leading_white(s) as int)),
        text::leading_white(s) < s.len() ==> !text::is_white(s[text::leading_white(s) as int]),
    decreases s.len(),
{
    if s.len() > 0 && text::is_white(s[0]) {
        lemma_trimmed_start(s.skip(1));
        let n = text::leading_white(s.skip(1)) as int;
        assert forall|i: int| 0 <= i < s.take(n + 1).len() implies text::is_white(
            #[trigger] s.take(n + 1)[i],
        ) by {
            if i > 0 {
                assert(s.skip(1).take(n)[i - 1] == s[i]);
            }
        }
    }
}

proof fn lemma_trimmed_end(s: Seq<char>)
    ensures
        ({
            let t = text::trim_end(s);
            &&& t.len() <= s.len()
            &&& s.take(t.len() as int) == t
            &&& all_white(s.skip(t.len() as int))
            &&& t.len() > 0 ==> !text::is_white(t.last())
        }),
    decreases s.len(),
{
    if s.len() > 0 && text::is_white(s.last()) {
        let front = s.drop_last();
        lemma_trimmed_end(front);
        let n = text::trim_end(s).len() as int;
        assert(s.take(n) =~= front.take(n));
        assert forall|i: int| 0 <= i < s.skip(n).len() implies text::is_white(
            #[trigger] s.skip(n)[i],
        ) by {
            if i < front.skip(n).len() {
                assert(front.skip(n)[i] == s.skip(n)[i]);
            }
        }
    } else {
        assert(s.take(s.len() as int) =~= s);
    }
}

/// White space is what separates words: blanks, tabs, line feeds and returns are, and letters,
/// digits and marks are not.
pub proof fn lemma_white_space(c: char)
    ensures
        text::is_white(' ') && text::is_white('\t') && text::is_white('\n') && text::is_white(
            '\r',
        ),
        text::is_white('\u{a0}') && text::is_white('\u{2003}') && text::is_white('\u{2028}')
            && text::is_white('\u{3000}') && text::is_white('\u{85}') && text::is_white('\u{c}'),
        '!' <= c <= '~' ==> !text::is_white(c),
        c == '\u{200b}' || c == '\u{0}' ==> !text::is_white(c),
{
}

/// Lower case keeps the length of a text, turns capital letters into small ones and keeps every
/// other character; to lower twice is to lower once.
pub proof fn lemma_lowered(s: Seq<char>)
    ensures
        text::lower(s).len() == s.len(),
        forall|i: int|
            0 <= i < s.len() ==> #[trigger] text::lower(s)[i] as u32 == (if 'A' <= s[i] <= 'Z' {
                (s[i] as u32 - 'A' as u32) + 'a' as u32
            } else {
                s[i] as int
            }),
        text::lower(text::lower(s)) == text::lower(s),
{
    assert(text::lower(text::lower(s)) =~= text::lower(s));
}

/// The digits of a number read as a number again are the number, and it has no leading zeros.
pub proof fn lemma_decimal_digits(n: nat)
    ensures
        scope::digits_value(text::decimal_text(n)) == n,
        text::decimal_text(n).len() > 0,
        forall|i: int|
            0 <= i < text::decimal_text(n).len() ==> '0' <= #[trigger] text::decimal_text(n)[i]
                <= '9',
        n > 0 ==> text::decimal_text(n)[0] != '0',
    decreases n,
{
    if n >= 10 {
        lemma_decimal_digits(n / 10);
        let text = text::decimal_text(n);
        assert(text.drop_last() =~= text::decimal_text(n / 10));
        assert(text.last() == text::digit(n % 10));
        assert(text[0] == text::decimal_text(n / 10)[0]);
    } else {
        let text = text::decimal_text(n);
        assert(text.drop_last() =~= Seq::empty());
        assert(scope::digits_value(Seq::empty()) == 0);
        assert(text.last() as nat == 48 + n);
    }
}

/// A name of digits without leading zeros is the positional parameter of that number, and a name
/// with anything else in it is none.
pub proof fn lemma_positional_names(n: nat, name: Seq<char>, i: int)
    ensures
        0 < n <= usize::MAX ==> scope::parameter_index(text::decimal_text(n)) == Some(
            ImplicitParameterIndex::Valid(n as usize),
        ),
        n > usize::MAX ==> scope::parameter_index(text::decimal_text(n)) == Some(
            ImplicitParameterIndex::Overflow,
        ),
        0 <= i < name.len() && !('0' <= name[i] <= '9') ==> scope::parameter_index(name) is None,
        name.len() == 0 || name[0] == '0' ==> scope::parameter_index(name) is None,
{
    lemma_decimal_digits(n);
}

/// A name of a variable or a function begins with a letter or an underscore, and goes on with
/// letters, digits, underscores and hyphens.
pub proof fn lemma_call_names(name: Seq<char>, c: char)
    ensures
        ({
            let letter = 'a' <= c <= 'z' || 'A' <= c <= 'Z' || c == '_';
            let more = letter || '0' <= c <= '9' || c == '-';
            &&& text::is_call_name(seq![c]) == letter
            &&& name.len() > 0 ==> text::is_call_name(name.push(c)) == (text::is_call_name(name)
                && more)
        }),
        !text::is_call_name(Seq::empty()),
{
    if name.len() > 0 {
        let longer = name.push(c);
        if text::is_call_name(longer) {
            assert(longer[name.len() as int] == c);
            assert forall|i: int| 0 < i < name.len() implies text::is_letter(#[trigger] name[i])
                || '0' <= name[i] <= '9' || name[i] == '_' || name[i] == '-' by {
                assert(longer[i] == name[i]);
            }
            assert(longer[0] == name[0]);
        }
    }
}

/// A negative integer is written as a minus sign and its digits.
pub proof fn lemma_integer_digits(n: nat)
    ensures
        text::integer_text(n as int) == text::decimal_text(n),
        n > 0 ==> text::integer_text(-(n as int)) == seq!['-'] + text::decimal_text(n),
{
    reveal_strlit("-");
    assert("-"@ =~= seq!['-']);
}

/// Texts are ordered by the first character in which they differ, and a text comes before those
/// that it begins.
pub proof fn lemma_text_order(common: Seq<char>, a: Seq<char>, b: Seq<char>)
    ensures
        a.len() > 0 && b.len() > 0 && a[0] < b[0] ==> text::text_less(common + a, common + b)
            && !text::text_less(common + b, common + a),
        b.len() > 0 ==> text::text_less(common, common + b),
        !text::text_less(common + a, common),
    decreases common.len(),
{
    if common.len() == 0 {
        assert(common + a =~= a);
        assert(common + b =~= b);
    } else {
        lemma_text_order(common.skip(1), a, b);
        assert((common + a).skip(1) =~= common.skip(1) + a);
        assert((common + b).skip(1) =~= common.skip(1) + b);
    }
}

/// A text takes as many bytes as its parts together, and every character of the basic alphabet
/// takes one.
pub proof fn lemma_bytes_add_up(a: Seq<char>, b: Seq<char>)
    ensures
        text::byte_length(a + b) == text::byte_length(a) + text::byte_length(b),
        (forall|i: int| 0 <= i < b.len() ==> (#[trigger] b[i]) as u32 <= 0x7f)
            ==> text::byte_length(b) == b.len(),
    decreases b.len(),
{
    if b.len() == 0 {
        assert(a + b =~= a);
    } else {
        lemma_bytes_add_up(a, b.drop_last());
        assert((a + b).drop_last() =~= a + b.drop_last());
        assert((a + b).last() == b.last());
        if forall|i: int| 0 <= i < b.len() ==> (#[trigger] b[i]) as u32 <= 0x7f {
            assert(b[b.len() - 1] as u32 <= 0x7f);
            assert forall|i: int| 0 <= i < b.drop_last().len() implies (
            #[trigger] b.drop_last()[i]) as u32 <= 0x7f by {
                assert(b[i] as u32 <= 0x7f);
            }
        }
    }
}

} // verus!
