//! Laws of text resources: line separators and lines.

use vstd::prelude::*;

use crate::lines;

verus! {

/// No carriage return is left in text whose line separators are normalized.
pub proof fn lemma_normalized_has_no_return(s: Seq<char>)
    ensures
        !lines::normalized(s).contains('\r'),
    decreases s.len(),
{
    if s.len() > 0 {
        let skipped: int = if s[0] == '\r' && s.len() > 1 && s[1] == '\n' {
            2
        } else {
            1
        };
        lemma_normalized_has_no_return(s.skip(skipped));
        let rest = lines::normalized(s.skip(skipped));
        let whole = lines::normalized(s);
        assert(whole.skip(1) =~= rest);
        if whole.contains('\r') {
            let i = choose|i: int| 0 <= i < whole.len() && whole[i] == '\r';
            assert(rest[i - 1] == '\r');
        }
    }
}

/// Text without carriage returns is normalized already.
pub proof fn lemma_normalized_stays(s: Seq<char>)
    requires
        !s.contains('\r'),
    ensures
        lines::normalized(s) == s,
    decreases s.len(),
{
    if s.len() > 0 {
        assert(s.contains(s[0]));
        assert forall|i: int| 0 <= i < s.skip(1).len() implies s.skip(1)[i] != '\r' by {
            assert(s.contains(s[i + 1]));
        }
        lemma_normalized_stays(s.skip(1));
        assert(seq![s[0]] + s.skip(1) =~= s);
    } else {
        assert(lines::normalized(s) =~= s);
    }
}

/// To normalize twice is to normalize once.
pub proof fn lemma_normalized_idempotent(s: Seq<char>)
    ensures
        lines::normalized(lines::normalized(s)) == lines::normalized(s),
{
    lemma_normalized_has_no_return(s);
    lemma_normalized_stays(lines::normalized(s));
}

proof fn lemma_joined_front(first: Seq<char>, rest: Seq<Seq<char>>)
    requires
        rest.len() > 0,
    ensures
        lines::joined(seq![first] + rest) == first + "\n"@ + lines::joined(rest),
    decreases rest.len(),
{
    let all = seq![first] + rest;
    if rest.len() == 1 {
        assert(all.drop_last() =~= seq![first]);
        assert(lines::joined(seq![first]) == first);
        assert(all.last() == rest[0]);
    } else {
        lemma_joined_front(first, rest.drop_last());
        assert(all.drop_last() =~= seq![first] + rest.drop_last());
        assert(all.last() == rest.last());
        assert(lines::joined(all) =~= first + "\n"@ + lines::joined(rest));
    }
}

/// The lines of a text that does not end in a line break, joined again, are the text.
pub proof fn lemma_lines_join(s: Seq<char>)
    requires
        s.len() > 0,
        s.last() != '\n',
    ensures
        lines::joined(lines::lines_of(s)) == s,
    decreases s.len(),
{
    lines::lemma_index_of_char(s, '\n');
    match lines::index_of_char(s, '\n') {
        Some(i) => {
            let rest = s.skip(i as int + 1);
            assert(s[i as int] == '\n');
            assert(rest.len() > 0);
            assert(rest.last() == s.last());
            lemma_lines_join(rest);
            assert(lines::lines_of(rest).len() > 0);
            lemma_joined_front(s.take(i as int), lines::lines_of(rest));
            reveal_strlit("\n");
            assert(s =~= s.take(i as int) + "\n"@ + rest);
        },
        None => {
            assert(lines::lines_of(s) =~= seq![s]);
            assert(lines::joined(seq![s]) == s);
        },
    }
}

} // verus!
