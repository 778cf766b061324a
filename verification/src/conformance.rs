//! Cases of a conformance corpus.

use vstd::prelude::*;

use crate::diagnostic;
use crate::diagnostic::{copy_diagnostic, Diagnostic, DiagnosticView};
use crate::sequences;
use crate::text;
use crate::text::{join5, starts_with, text_before};

verus! {

broadcast use crate::diagnostic::group_diagnostic_views;

/// What a case says of itself.
#[derive(Debug, Clone)]
pub struct ConformanceCaseMeta {
    pub id: String,
    pub feature: String,
    pub compatibility_level: String,
    pub specification_source: String,
    pub description: String,
    pub known_divergence: Option<String>,
}

/// A case of the corpus.
#[derive(Debug, Clone)]
pub struct ConformanceCase {
    pub meta: ConformanceCaseMeta,
    pub input: String,
    pub case_dir: String,
}

/// The errors of the parser among diagnostics.
pub open spec fn parser_errors_of(diagnostics: Seq<DiagnosticView>) -> Seq<DiagnosticView> {
    diagnostics.filter(|d: DiagnosticView| text::has_prefix(d.code, "E2"@))
}

/// The errors of the parser among diagnostics: a case that parses has none.
pub fn parser_errors(diagnostics: &Vec<Diagnostic>) -> (r: Vec<Diagnostic>)
    ensures
        diagnostic::diagnostics_view(r@) == parser_errors_of(
            diagnostic::diagnostics_view(diagnostics@),
        ),
{
    let ghost all = diagnostic::diagnostics_view(diagnostics@);
    let ghost keep = |d: DiagnosticView| text::has_prefix(d.code, "E2"@);
    let mut r: Vec<Diagnostic> = Vec::new();
    let mut i: usize = 0;
    proof {
        reveal(Seq::filter);
        assert(all.take(0) =~= Seq::empty());
    }
    while i < diagnostics.len()
        invariant
            0 <= i <= diagnostics@.len(),
            all == diagnostic::diagnostics_view(diagnostics@),
            keep == (|d: DiagnosticView| text::has_prefix(d.code, "E2"@)),
            diagnostic::diagnostics_view(r@) == all.take(i as int).filter(keep),
        decreases diagnostics@.len() - i,
    {
        proof {
            reveal(Seq::filter);
            sequences::lemma_take_step(all, i as int);
        }
        assert(all[i as int] == diagnostics@[i as int]@);
        if starts_with(diagnostics[i].code.as_str(), "E2") {
            r.push(copy_diagnostic(&diagnostics[i]));
        }
        i += 1;
    }
    proof {
        sequences::lemma_take_all(all);
    }
    r
}

/// Ordered names once one more has been put in its place.
pub open spec fn insert_name(sorted: Seq<Seq<char>>, name: Seq<char>) -> Seq<Seq<char>>
    decreases sorted.len(),
{
    if sorted.len() > 0 && text::text_less(name, sorted.last()) {
        insert_name(sorted.drop_last(), name).push(sorted.last())
    } else {
        sorted.push(name)
    }
}

/// Names in order.
pub open spec fn ordered_names(names: Seq<Seq<char>>) -> Seq<Seq<char>>
    decreases names.len(),
{
    if names.len() == 0 {
        Seq::empty()
    } else {
        insert_name(ordered_names(names.drop_last()), names.last())
    }
}

/// Puts a name in its place.
fn insert_in_place(sorted: &mut Vec<String>, name: String)
    ensures
        text::strings_view(final(sorted)@) == insert_name(
            text::strings_view(old(sorted)@),
            name@,
        ),
{
    let ghost all = text::strings_view(sorted@);
    let mut i: usize = sorted.len();
    proof {
        sequences::lemma_take_all(all);
        assert(insert_name(all, name@) =~= insert_name(all.take(i as int), name@) + all.skip(
            i as int,
        ));
    }
    while i > 0 && text_before(name.as_str(), sorted[i - 1].as_str())
        invariant
            0 <= i <= sorted@.len(),
            all == text::strings_view(sorted@),
            sorted@ == old(sorted)@,
            insert_name(all, name@) == insert_name(all.take(i as int), name@) + all.skip(
                i as int,
            ),
        decreases i,
    {
        proof {
            sequences::lemma_take_step(all, i - 1);
            assert(all.skip(i - 1) =~= seq![all[i - 1]] + all.skip(i as int));
            assert(insert_name(all, name@) =~= insert_name(all.take(i - 1), name@) + all.skip(
                i - 1,
            ));
        }
        i -= 1;
    }
    proof {
        if i > 0 {
            sequences::lemma_take_step(all, i - 1);
        }
    }
    sorted.insert(i, name);
    assert(text::strings_view(sorted@) =~= all.take(i as int).push(name@) + all.skip(i as int));
}

/// Puts the identities of cases in order.
pub fn sort_ids(ids: &Vec<String>) -> (r: Vec<String>)
    ensures
        text::strings_view(r@) == ordered_names(text::strings_view(ids@)),
{
    let ghost all = text::strings_view(ids@);
    let mut r: Vec<String> = Vec::new();
    let mut i: usize = 0;
    assert(all.take(0) =~= Seq::empty());
    assert(text::strings_view(r@) =~= Seq::empty());
    while i < ids.len()
        invariant
            0 <= i <= ids@.len(),
            all == text::strings_view(ids@),
            text::strings_view(r@) == ordered_names(all.take(i as int)),
        decreases ids@.len() - i,
    {
        proof {
            sequences::lemma_take_step(all, i as int);
        }
        insert_in_place(&mut r, ids[i].clone());
        i += 1;
    }
    proof {
        sequences::lemma_take_all(all);
    }
    r
}

impl ConformanceCase {
    /// Checks that a case parses, given the diagnostics of compiling it: the errors of the
    /// parser, if there are any. Errors of the evaluation do not count.
    pub fn verify_parses(&self, diagnostics: &Vec<Diagnostic>) -> (r: Result<
        (),
        Vec<Diagnostic>,
    >)
        ensures
            match r {
                Ok(()) => parser_errors_of(diagnostic::diagnostics_view(diagnostics@)).len() == 0,
                Err(errors) => {
                    &&& diagnostic::diagnostics_view(errors@) == parser_errors_of(
                        diagnostic::diagnostics_view(diagnostics@),
                    )
                    &&& errors@.len() > 0
                },
            },
    {
        let errors = parser_errors(diagnostics);
        if errors.len() == 0 {
            Ok(())
        } else {
            Err(errors)
        }
    }
}

impl ConformanceCaseMeta {
    /// The line that reports a case that parses.
    pub fn success_line(&self) -> (r: String)
        ensures
            r@ == "\u{2713} "@ + self.id@ + " ("@ + self.feature@ + ")"@,
    {
        join5("\u{2713} ", self.id.as_str(), " (", self.feature.as_str(), ")")
    }
}

/// Whether no name stands behind one that it sorts before.
pub open spec fn in_order(names: Seq<Seq<char>>) -> bool {
    forall|i: int, j: int|
        0 <= i < j < names.len() ==> !text::text_less(#[trigger] names[j], #[trigger] names[i])
}

proof fn lemma_insert_name(sorted: Seq<Seq<char>>, name: Seq<char>)
    requires
        in_order(sorted),
    ensures
        in_order(insert_name(sorted, name)),
        insert_name(sorted, name).to_multiset() == sorted.to_multiset().insert(name),
        insert_name(sorted, name).len() == sorted.len() + 1,
        forall|i: int|
            0 <= i < sorted.len() + 1 ==> (#[trigger] insert_name(sorted, name)[i] == name
                || sorted.contains(insert_name(sorted, name)[i])),
    decreases sorted.len(),
{
    broadcast use vstd::seq_lib::group_to_multiset_ensures;

    if sorted.len() > 0 && text::text_less(name, sorted.last()) {
        let rest = sorted.drop_last();
        let last = sorted.last();
        lemma_insert_name(rest, name);
        let inner = insert_name(rest, name);
        assert(sorted =~= rest.push(last));
        assert forall|i: int, j: int|
            0 <= i < j < inner.push(last).len() implies !text::text_less(
            #[trigger] inner.push(last)[j],
            #[trigger] inner.push(last)[i],
        ) by {
            if j == inner.len() {
                let x = inner[i];
                if x == name {
                    if text::text_less(last, name) {
                        text::lemma_text_less_transitive(name, last, name);
                        text::lemma_text_less_irreflexive(name);
                    }
                } else {
                    assert(rest.contains(x));
                    let k = choose|k: int| 0 <= k < rest.len() && rest[k] == x;
                    assert(sorted[k] == x);
                }
            }
        }
        assert(sorted.to_multiset() =~= rest.to_multiset().insert(last));
        assert(inner.push(last).to_multiset() =~= sorted.to_multiset().insert(name));
        assert forall|i: int| 0 <= i < sorted.len() + 1 implies (#[trigger] insert_name(
            sorted,
            name,
        )[i] == name || sorted.contains(insert_name(sorted, name)[i])) by {
            if i < inner.len() {
                if inner[i] != name {
                    let k = choose|k: int| 0 <= k < rest.len() && rest[k] == inner[i];
                    assert(sorted[k] == inner[i]);
                }
            } else {
                assert(sorted[sorted.len() - 1] == last);
            }
        }
    } else {
        let out = sorted.push(name);
        assert forall|i: int, j: int| 0 <= i < j < out.len() implies !text::text_less(
            #[trigger] out[j],
            #[trigger] out[i],
        ) by {
            if j == sorted.len() {
                let last = sorted.last();
                if i < sorted.len() - 1 && text::text_less(name, sorted[i]) {
                    text::lemma_text_less_total(sorted[i], last);
                    if text::text_less(sorted[i], last) {
                        text::lemma_text_less_transitive(name, sorted[i], last);
                    }
                }
            }
        }
        assert forall|i: int| 0 <= i < sorted.len() + 1 implies (#[trigger] out[i] == name
            || sorted.contains(out[i])) by {
            if i < sorted.len() {
                assert(sorted[i] == out[i]);
            }
        }
    }
}

/// Ordering names loses none and adds none, and leaves them in order.
pub proof fn lemma_ordered_names(names: Seq<Seq<char>>)
    ensures
        in_order(ordered_names(names)),
        ordered_names(names).to_multiset() == names.to_multiset(),
    decreases names.len(),
{
    broadcast use vstd::seq_lib::group_to_multiset_ensures;

    if names.len() == 0 {
        assert(ordered_names(names) =~= names);
    } else {
        lemma_ordered_names(names.drop_last());
        lemma_insert_name(ordered_names(names.drop_last()), names.last());
        assert(names =~= names.drop_last().push(names.last()));
    }
}

/// A diagnostic is among the errors of the parser exactly where it is reported and its code
/// starts with `E2`.
pub proof fn lemma_parser_errors(diagnostics: Seq<DiagnosticView>, d: DiagnosticView)
    ensures
        parser_errors_of(diagnostics).contains(d) <==> diagnostics.contains(d)
            && text::has_prefix(d.code, "E2"@),
    decreases diagnostics.len(),
{
    broadcast use vstd::seq_lib::group_filter_ensures;

    let keep = |d: DiagnosticView| text::has_prefix(d.code, "E2"@);
    if parser_errors_of(diagnostics).contains(d) {
        let i = choose|i: int|
            0 <= i < diagnostics.filter(keep).len() && diagnostics.filter(keep)[i] == d;
        assert(keep(diagnostics.filter(keep)[i]));
        diagnostics.lemma_filter_contains_rev(keep, d);
    }
    if diagnostics.contains(d) && text::has_prefix(d.code, "E2"@) {
        let i = choose|i: int| 0 <= i < diagnostics.len() && diagnostics[i] == d;
        assert(diagnostics.filter(keep).contains(diagnostics[i]));
    }
}

} // verus!
