//! Lines of text resources, and the syntax that a resource is written in.

use vstd::prelude::*;

use crate::host::Mode;
use crate::ir::IrRange;
use crate::sequences;
use crate::text;
use crate::text::{chars_of, decimal, integer, join6, lowered, same_text, text_of};

verus! {

/// The text with each line separator written as one line feed.
pub open spec fn normalized(s: Seq<char>) -> Seq<char>
    decreases s.len(),
{
    if s.len() == 0 {
        Seq::empty()
    } else if s[0] == '\r' {
        if s.len() > 1 && s[1] == '\n' {
            seq!['\n'] + normalized(s.skip(2))
        } else {
            seq!['\n'] + normalized(s.skip(1))
        }
    } else {
        seq![s[0]] + normalized(s.skip(1))
    }
}

/// The text with each line separator written as one line feed.
pub fn normalize_line_separators(content: &str) -> (r: String)
    ensures
        r@ == normalized(content@),
{
    let chars = chars_of(content);
    let mut r: String = String::new();
    let mut i: usize = 0;
    assert(chars@.skip(0) =~= chars@);
    assert(r@ + normalized(chars@.skip(0)) =~= normalized(chars@));
    while i < chars.len()
        invariant
            0 <= i <= chars@.len(),
            r@ + normalized(chars@.skip(i as int)) == normalized(chars@),
        decreases chars@.len() - i,
    {
        let ghost rest = chars@.skip(i as int);
        let ghost before = r@;
        if chars[i] == '\r' {
            if i + 1 < chars.len() && chars[i + 1] == '\n' {
                assert(rest.skip(2) =~= chars@.skip(i + 2));
                i += 2;
            } else {
                assert(rest.skip(1) =~= chars@.skip(i + 1));
                i += 1;
            }
            r.push('\n');
            assert(before.push('\n') + normalized(chars@.skip(i as int)) =~= before + (seq!['\n']
                + normalized(chars@.skip(i as int))));
        } else {
            r.push(chars[i]);
            assert(rest.skip(1) =~= chars@.skip(i + 1));
            assert(before.push(rest[0]) + normalized(rest.skip(1)) =~= before + (seq![rest[0]]
                + normalized(rest.skip(1))));
            i += 1;
        }
    }
    assert(chars@.skip(i as int) =~= Seq::empty());
    assert(r@ + Seq::<char>::empty() =~= r@);
    r
}

/// The place of the first of a character.
pub open spec fn index_of_char(s: Seq<char>, c: char) -> Option<nat>
    decreases s.len(),
{
    if s.len() == 0 {
        None
    } else if s[0] == c {
        Some(0)
    } else {
        match index_of_char(s.skip(1), c) {
            Some(i) => Some(i + 1),
            None => None,
        }
    }
}

/// A character has a first place in a text exactly where the text contains it.
pub proof fn lemma_index_of_char(s: Seq<char>, c: char)
    ensures
        match index_of_char(s, c) {
            Some(i) => i < s.len() && s[i as int] == c,
            None => forall|i: int| 0 <= i < s.len() ==> s[i] != c,
        },
    decreases s.len(),
{
    if s.len() > 0 && s[0] != c {
        lemma_index_of_char(s.skip(1), c);
        assert forall|i: int| index_of_char(s, c) is None && 0 <= i < s.len() implies s[i] != c by {
            if i > 0 {
                assert(s[i] == s.skip(1)[i - 1]);
            }
        }
    }
}

/// The place of the first of a character from a place on.
pub fn find_char(chars: &Vec<char>, from: usize, c: char) -> (r: Option<usize>)
    requires
        from <= chars@.len(),
    ensures
        (match r {
            Some(i) => Some((i - from) as nat),
            None => None,
        }) == index_of_char(chars@.skip(from as int), c),
        r matches Some(i) ==> from <= i < chars@.len(),
{
    let mut i: usize = from;
    while i < chars.len()
        invariant
            from <= i <= chars@.len(),
            index_of_char(chars@.skip(from as int), c) == (match index_of_char(
                chars@.skip(i as int),
                c,
            ) {
                Some(k) => Some((k + (i - from)) as nat),
                None => None,
            }),
        decreases chars@.len() - i,
    {
        if chars[i] == c {
            return Some(i);
        }
        assert(chars@.skip(i as int).skip(1) =~= chars@.skip(i + 1));
        i += 1;
    }
    None
}

/// The lines of a text that line feeds separate; a line feed at the end starts no line.
pub open spec fn lines_of(s: Seq<char>) -> Seq<Seq<char>>
    decreases s.len(),
{
    if s.len() == 0 {
        Seq::empty()
    } else {
        match index_of_char(s, '\n') {
            Some(i) => if i < s.len() {
                seq![s.take(i as int)] + lines_of(s.skip(i as int + 1))
            } else {
                seq![s]
            },
            None => seq![s],
        }
    }
}

/// Lines with line feeds between them.
pub open spec fn joined(lines: Seq<Seq<char>>) -> Seq<char>
    decreases lines.len(),
{
    if lines.len() == 0 {
        Seq::empty()
    } else if lines.len() == 1 {
        lines[0]
    } else {
        joined(lines.drop_last()) + "\n"@ + lines.last()
    }
}

/// The lines of a text.
fn split_lines(content: &str) -> (r: Vec<String>)
    ensures
        text::strings_view(r@) == lines_of(content@),
{
    let chars = chars_of(content);
    let mut r: Vec<String> = Vec::new();
    let mut i: usize = 0;
    assert(chars@.skip(0) =~= chars@);
    assert(text::strings_view(r@) + lines_of(chars@.skip(0)) =~= lines_of(chars@));
    while i < chars.len()
        invariant
            0 <= i <= chars@.len(),
            text::strings_view(r@) + lines_of(chars@.skip(i as int)) == lines_of(chars@),
        decreases chars@.len() - i,
    {
        let ghost rest = chars@.skip(i as int);
        let ghost before = text::strings_view(r@);
        proof {
            lemma_index_of_char(rest, '\n');
        }
        let end: usize = match find_char(&chars, i, '\n') {
            Some(end) => end,
            None => chars.len(),
        };
        let line = text_of(&chars, i, end);
        let ghost shown = line@;
        r.push(line);
        assert(text::strings_view(r@) =~= before.push(shown));
        if end < chars.len() {
            assert(shown =~= rest.take(end - i));
            assert(rest.skip(end - i + 1) =~= chars@.skip(end + 1));
            i = end + 1;
        } else {
            assert(shown =~= rest);
            i = end;
            assert(chars@.skip(i as int) =~= Seq::empty());
        }
        assert(before.push(shown) + lines_of(chars@.skip(i as int)) =~= before + (seq![shown]
            + lines_of(chars@.skip(i as int))));
    }
    assert(chars@.skip(i as int) =~= Seq::empty());
    assert(text::strings_view(r@) + Seq::<Seq<char>>::empty() =~= text::strings_view(r@));
    r
}

/// The lines of a text that a one-based, inclusive range selects, or why it selects none.
pub open spec fn selected_lines(
    content: Seq<char>,
    range: IrRange,
) -> Result<Seq<char>, Seq<char>> {
    let lines = lines_of(normalized(content));
    let start: int = match range.start {
        Some(start) => start as int,
        None => 1,
    };
    let end: int = match range.end {
        Some(end) => end as int,
        None => lines.len() as int,
    };
    if start < 1 || end < start || end > lines.len() {
        Err(
            "range "@ + text::integer_text(start) + ".."@ + text::integer_text(end)
                + " is outside 1.."@ + text::decimal_text(lines.len()),
        )
    } else {
        Ok(joined(lines.subrange(start - 1, end)))
    }
}

/// The lines of a text that a one-based, inclusive range selects, or why it selects none.
pub fn select_lines(content: &str, range: IrRange) -> (r: Result<String, String>)
    ensures
        (match r {
            Ok(selected) => Ok(selected@),
            Err(message) => Err(message@),
        }) == selected_lines(content@, range),
{
    let lines = split_lines(normalize_line_separators(content).as_str());
    let start: i128 = match range.start {
        Some(start) => start as i128,
        None => 1,
    };
    let end: i128 = match range.end {
        Some(end) => end as i128,
        None => lines.len() as i128,
    };
    if start < 1 || end < start || end > lines.len() as i128 {
        return Err(
            join6(
                "range ",
                integer(start).as_str(),
                "..",
                integer(end).as_str(),
                " is outside 1..",
                decimal(lines.len() as u64).as_str(),
            ),
        );
    }
    Ok(join_lines(&lines, (start - 1) as usize, end as usize))
}

/// The lines `from..to` with line feeds between them.
fn join_lines(lines: &Vec<String>, from: usize, to: usize) -> (r: String)
    requires
        from < to <= lines@.len(),
    ensures
        r@ == joined(text::strings_view(lines@).subrange(from as int, to as int)),
{
    let ghost all = text::strings_view(lines@);
    let mut r: String = lines[from].clone();
    let mut i: usize = from + 1;
    assert(all.subrange(from as int, i as int) =~= seq![all[from as int]]);
    while i < to
        invariant
            from < i <= to <= lines@.len(),
            all == text::strings_view(lines@),
            r@ == joined(all.subrange(from as int, i as int)),
        decreases to - i,
    {
        r.append("\n");
        r.append(lines[i].as_str());
        assert(all.subrange(from as int, i + 1).drop_last()
            =~= all.subrange(from as int, i as int));
        i += 1;
    }
    r
}

/// What follows the last of a character.
pub open spec fn after_last(s: Seq<char>, c: char) -> Option<Seq<char>>
    decreases s.len(),
{
    if s.len() == 0 {
        None
    } else if s.last() == c {
        Some(Seq::empty())
    } else {
        match after_last(s.drop_last(), c) {
            Some(rest) => Some(rest.push(s.last())),
            None => None,
        }
    }
}

/// Where what follows the last of a character starts.
fn find_after_last(chars: &Vec<char>, from: usize, c: char) -> (r: Option<usize>)
    requires
        from <= chars@.len(),
    ensures
        (match r {
            Some(i) => Some(chars@.skip(i as int)),
            None => None,
        }) == after_last(chars@.skip(from as int), c),
        r matches Some(i) ==> from <= i <= chars@.len(),
{
    let ghost all = chars@.skip(from as int);
    let mut found: Option<usize> = None;
    let mut i: usize = from;
    assert(all.take(0) =~= Seq::empty());
    while i < chars.len()
        invariant
            from <= i <= chars@.len(),
            all == chars@.skip(from as int),
            found matches Some(k) ==> from <= k <= i,
            (match found {
                Some(k) => Some(chars@.subrange(k as int, i as int)),
                None => None,
            }) == after_last(all.take(i - from), c),
        decreases chars@.len() - i,
    {
        proof {
            sequences::lemma_take_step(all, i - from);
        }
        let ghost was = found;
        if chars[i] == c {
            found = Some(i + 1);
            assert(chars@.subrange(i + 1, i + 1) =~= Seq::empty());
        }
        i += 1;
        proof {
            if let Some(k) = was {
                assert(chars@.subrange(k as int, i as int) =~= chars@.subrange(
                    k as int,
                    i - 1,
                ).push(chars@[i - 1]));
            }
        }
    }
    proof {
        sequences::lemma_take_all(all);
        if let Some(k) = found {
            assert(chars@.subrange(k as int, i as int) =~= chars@.skip(k as int));
        }
    }
    found
}

/// The syntax that a resource is written in, by its name.
pub open spec fn mode_of_path(path: Seq<char>) -> Mode {
    let file_name = match after_last(path, '/') {
        Some(name) => name,
        None => path,
    };
    match after_last(file_name, '.') {
        Some(extension) => if text::lower(extension) == "md"@ {
            Mode::Markdown
        } else {
            Mode::Quarkdown
        },
        None => Mode::Quarkdown,
    }
}

/// The syntax that a resource is written in: Markdown where its file name ends in `.md`,
/// in upper or lower case.
pub fn source_mode_for_resource_path(path: &str) -> (r: Mode)
    ensures
        r == mode_of_path(path@),
{
    let chars = chars_of(path);
    assert(chars@.skip(0) =~= chars@);
    let from: usize = match find_after_last(&chars, 0, '/') {
        Some(i) => i,
        None => 0,
    };
    match find_after_last(&chars, from, '.') {
        Some(i) => {
            let extension = text_of(&chars, i, chars.len());
            assert(chars@.subrange(i as int, chars@.len() as int) =~= chars@.skip(i as int));
            if same_text(lowered(extension.as_str()).as_str(), "md") {
                Mode::Markdown
            } else {
                Mode::Quarkdown
            }
        },
        None => Mode::Quarkdown,
    }
}

} // verus!
