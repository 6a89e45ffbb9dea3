//! What holds of every file that the parser hands out.

use crate::parser::document::unprocessed_of;
use crate::parser::grammar::{
    gap_run, has2, lemma_closing_braces_bound, lemma_gap_run_bound, lemma_line_col_bound,
    lemma_line_monotonic, lemma_placeholder_bound, lemma_script_bound, placeholder_len,
    placeholders, script_at, scripts_from, Span,
};
use crate::parser::parsed;
use crate::select::in_order;
use crate::text::{is_first_occurrence, lemma_first_occurrence, replace_first};
use vstd::prelude::*;

verus! {

/// The request scripts that the grammar finds lie inside the source, each
/// behind the one before it.
pub proof fn lemma_scripts_in_order(s: Seq<char>, p: int)
    requires
        0 <= p <= s.len(),
        scripts_from(s, p) is Ok,
    ensures
        forall|i: int|
            0 <= i < scripts_from(s, p)->Ok_0.len() ==> p <= (#[trigger] scripts_from(
                s,
                p,
            )->Ok_0[i]).start < scripts_from(s, p)->Ok_0[i].end <= s.len(),
        forall|i: int, j: int|
            0 <= i < j < scripts_from(s, p)->Ok_0.len() ==> (#[trigger] scripts_from(
                s,
                p,
            )->Ok_0[i]).end <= (#[trigger] scripts_from(s, p)->Ok_0[j]).start,
    decreases s.len() - p,
{
    lemma_gap_run_bound(s, p);
    let start = p + gap_run(s, p);
    if start < s.len() {
        lemma_script_bound(s, start);
        let script = script_at(s, start)->Ok_0;
        lemma_scripts_in_order(s, script.end);
        let rest = scripts_from(s, script.end)->Ok_0;
        let all = scripts_from(s, p)->Ok_0;
        assert(all =~= seq![script] + rest);
        assert forall|i: int| 0 <= i < all.len() implies p <= (#[trigger] all[i]).start
            < all[i].end <= s.len() by {
            if i > 0 {
                assert(all[i] == rest[i - 1]);
            }
        }
        assert forall|i: int, j: int| 0 <= i < j < all.len() implies (#[trigger] all[i]).end <= (
        #[trigger] all[j]).start by {
            assert(all[j] == rest[j - 1]);
            if i > 0 {
                assert(all[i] == rest[i - 1]);
            }
        }
    }
}

/// The request scripts of a file that the parser hands out stand one after
/// the other.
pub proof fn lemma_parsed_in_order(filename: Seq<char>, source: Seq<char>)
    requires
        parsed(filename, source) is Ok,
    ensures
        in_order(parsed(filename, source)->Ok_0),
{
    let scripts = scripts_from(source, 0)->Ok_0;
    let file = parsed(filename, source)->Ok_0;
    lemma_scripts_in_order(source, 0);
    assert forall|i: int, j: int| 0 <= i < j < file.request_scripts.len() implies (
    #[trigger] file.request_scripts[i]).selection.end.line <= (
    #[trigger] file.request_scripts[j]).selection.start.line by {
        assert(scripts[i].end <= scripts[j].start);
        assert(scripts[j].start < scripts[j].end <= source.len());
        lemma_line_monotonic(source, scripts[i].end, scripts[j].start);
        lemma_line_col_bound(source, scripts[i].end);
        lemma_line_col_bound(source, scripts[j].start);
    }
}

/// No line belongs to two request scripts of a file that the parser hands
/// out: of the scripts of such a file, the span of at most one holds a given
/// line.
pub proof fn law_one_request_script_holds_a_line(
    filename: Seq<char>,
    source: Seq<char>,
    line: usize,
    i: int,
    j: int,
)
    requires
        parsed(filename, source) is Ok,
        0 <= i < parsed(filename, source)->Ok_0.request_scripts.len(),
        0 <= j < parsed(filename, source)->Ok_0.request_scripts.len(),
        parsed(filename, source)->Ok_0.request_scripts[i].selection.holds_line(line),
        parsed(filename, source)->Ok_0.request_scripts[j].selection.holds_line(line),
    ensures
        i == j,
{
    lemma_parsed_in_order(filename, source);
    let file = parsed(filename, source)->Ok_0;
    if i < j {
        assert(file.request_scripts[i].selection.end.line
            <= file.request_scripts[j].selection.start.line);
    } else if j < i {
        assert(file.request_scripts[j].selection.end.line
            <= file.request_scripts[i].selection.start.line);
    }
}

/// A text that the parser hands out lists placeholders only where it has
/// some: one with none is `WithoutInline`, and one with some lists as many
/// as the grammar finds.
pub proof fn law_values_list_their_placeholders(s: Seq<char>, filename: Seq<char>, span: Span)
    ensures
        unprocessed_of(s, filename, span).well_formed(),
        unprocessed_of(s, filename, span).inline_scripts().len() == placeholders(
            s,
            span.start,
            span.end,
        ).len(),
        unprocessed_of(s, filename, span) is WithoutInline <==> placeholders(
            s,
            span.start,
            span.end,
        ).len() == 0,
{
}

/// The placeholders that the grammar finds in a text lie inside it, from
/// left to right without touching, and each is written between `{{` and
/// `}}`.
pub proof fn law_placeholders_lie_in_their_text(s: Seq<char>, p: int, end: int)
    requires
        0 <= p <= end <= s.len(),
    ensures
        forall|i: int|
            0 <= i < placeholders(s, p, end).len() ==> {
                let found = #[trigger] placeholders(s, p, end)[i];
                &&& p <= found.start
                &&& found.start + 5 <= found.end <= end
                &&& has2(s, found.start, '{', '{')
                &&& has2(s, found.end - 2, '}', '}')
            },
        forall|i: int, j: int|
            0 <= i < j < placeholders(s, p, end).len() ==> (#[trigger] placeholders(
                s,
                p,
                end,
            )[i]).end <= (#[trigger] placeholders(s, p, end)[j]).start,
    decreases end - p,
{
    if p < end {
        lemma_placeholder_bound(s, p);
        let n = placeholder_len(s, p);
        let all = placeholders(s, p, end);
        if n > 0 && p + n <= end {
            lemma_closing_braces_bound(s, p + 2);
            law_placeholders_lie_in_their_text(s, p + n, end);
            let rest = placeholders(s, p + n, end);
            assert(all =~= seq![Span { start: p, end: p + n }] + rest);
            assert forall|i: int| 0 <= i < all.len() implies {
                let found = #[trigger] all[i];
                &&& p <= found.start
                &&& found.start + 5 <= found.end <= end
                &&& has2(s, found.start, '{', '{')
                &&& has2(s, found.end - 2, '}', '}')
            } by {
                if i > 0 {
                    assert(all[i] == rest[i - 1]);
                }
            }
            assert forall|i: int, j: int| 0 <= i < j < all.len() implies (#[trigger] all[i]).end
                <= (#[trigger] all[j]).start by {
                assert(all[j] == rest[j - 1]);
                if i > 0 {
                    assert(all[i] == rest[i - 1]);
                }
            }
        } else {
            law_placeholders_lie_in_their_text(s, p + 1, end);
            let rest = placeholders(s, p + 1, end);
            assert(all == rest);
            assert forall|i: int| 0 <= i < all.len() implies {
                let found = #[trigger] all[i];
                &&& p <= found.start
                &&& found.start + 5 <= found.end <= end
                &&& has2(s, found.start, '{', '{')
                &&& has2(s, found.end - 2, '}', '}')
            } by {
                assert(all[i] == rest[i]);
            }
            assert forall|i: int, j: int| 0 <= i < j < all.len() implies (#[trigger] all[i]).end
                <= (#[trigger] all[j]).start by {
                assert(all[i] == rest[i]);
                assert(all[j] == rest[j]);
            }
        }
    } else {
        assert(placeholders(s, p, end).len() == 0);
    }
}

/// Replacing a placeholder leaves what stands before and behind its first
/// occurrence as it is.
pub proof fn law_replacement_keeps_the_rest(
    before: Seq<char>,
    placeholder: Seq<char>,
    behind: Seq<char>,
    value: Seq<char>,
)
    requires
        is_first_occurrence(before + placeholder + behind, placeholder, before.len() as int),
    ensures
        replace_first(before + placeholder + behind, placeholder, value) == before + value + behind,
{
    let text = before + placeholder + behind;
    lemma_first_occurrence(text, placeholder, before.len() as int);
    assert(text.take(before.len() as int) =~= before);
    assert(text.skip((before.len() + placeholder.len()) as int) =~= behind);
}

} // verus!
