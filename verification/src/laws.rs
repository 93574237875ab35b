//! Properties that hold of every analysis and of the text helpers.
use vstd::prelude::*;
use crate::ai::{completions_url, digits_value, is_digit, parsed_u32, unsigned_digits, without_trailing_slashes};
use crate::analysis::{is_analysis, AnalysisResult};
use crate::counts::{completion_counts, rank_bands};
use crate::groups::{is_sorted_tally, labels_of, month_labels};
use crate::markdown::{
    block_fold, block_fold_from, block_step, inline_from, inline_html, lemma_block_fold_from_append,
    lemma_block_fold_from_shift, lemma_block_fold_from_start, lemma_line_state_append, line_state, list_close,
    markdown_html, star_pair_at, strip_cr, text_lines, after,
};
use crate::model::UserSubjectCollection;
use crate::order::is_first_in_order;
use crate::ratings::{is_top_rated, rate_count, rated_entries, rated_positions, ratings_in_range, top_rated_order};
use crate::report::{occurs_at, replace_all, replaced_from};
use crate::scores::{gems_from, overrated_before};
use crate::tally::{has_label, is_tally, occurrences, pairs_view};
use crate::groups::{type_labels, timeline_view};
use crate::text::{decimal, digit_char, has_prefix, lemma_trim_push_white, trim};

verus! {

// ---------------------------------------------------------------------
// Counts add up
// ---------------------------------------------------------------------

/// The sum of the counts of a tally.
pub open spec fn counts_total(t: Seq<(Seq<char>, nat)>) -> nat
    decreases t.len(),
{
    if t.len() == 0 {
        0
    } else {
        counts_total(t.drop_last()) + t.last().1
    }
}

/// The occurrences in `labels` of each of `keys`, summed.
pub open spec fn occurrence_total(labels: Seq<Seq<char>>, keys: Seq<Seq<char>>) -> nat
    decreases keys.len(),
{
    if keys.len() == 0 {
        0
    } else {
        occurrence_total(labels, keys.drop_last()) + occurrences(labels, keys.last())
    }
}

proof fn lemma_occurrence_total_push(labels: Seq<Seq<char>>, x: Seq<char>, keys: Seq<Seq<char>>)
    ensures
        occurrence_total(labels.push(x), keys) == occurrence_total(labels, keys) + occurrences(keys, x),
    decreases keys.len(),
{
    assert(labels.push(x).drop_last() =~= labels);
    if keys.len() > 0 {
        lemma_occurrence_total_push(labels, x, keys.drop_last());
    }
}

proof fn lemma_occurrence_total_empty(keys: Seq<Seq<char>>)
    ensures
        occurrence_total(Seq::<Seq<char>>::empty(), keys) == 0,
    decreases keys.len(),
{
    if keys.len() > 0 {
        lemma_occurrence_total_empty(keys.drop_last());
    }
}

proof fn lemma_distinct_occurs_once(keys: Seq<Seq<char>>, x: Seq<char>)
    requires
        forall|i: int, j: int| 0 <= i < j < keys.len() ==> keys[i] != keys[j],
        keys.contains(x),
    ensures
        occurrences(keys, x) == 1,
    decreases keys.len(),
{
    let rest = keys.drop_last();
    if keys.last() == x {
        if rest.contains(x) {
            let k = choose|k: int| 0 <= k < rest.len() && rest[k] == x;
            assert(keys[k] == keys[keys.len() - 1]);
        }
        crate::tally::lemma_occurrences(rest, x);
    } else {
        let k = choose|k: int| 0 <= k < keys.len() && keys[k] == x;
        assert(rest[k] == x);
        lemma_distinct_occurs_once(rest, x);
    }
}

proof fn lemma_occurrence_total_covering(labels: Seq<Seq<char>>, keys: Seq<Seq<char>>)
    requires
        forall|i: int, j: int| 0 <= i < j < keys.len() ==> keys[i] != keys[j],
        forall|k: int| 0 <= k < labels.len() ==> keys.contains(#[trigger] labels[k]),
    ensures
        occurrence_total(labels, keys) == labels.len(),
    decreases labels.len(),
{
    if labels.len() == 0 {
        lemma_occurrence_total_empty(keys);
        assert(labels =~= Seq::<Seq<char>>::empty());
    } else {
        let rest = labels.drop_last();
        assert forall|k: int| 0 <= k < rest.len() implies keys.contains(#[trigger] rest[k]) by {
            assert(rest[k] == labels[k]);
        }
        lemma_occurrence_total_covering(rest, keys);
        assert(rest.push(labels.last()) =~= labels);
        lemma_occurrence_total_push(rest, labels.last(), keys);
        assert(occurrence_total(labels, keys) == occurrence_total(rest.push(labels.last()), keys));
        assert(keys.contains(labels[labels.len() - 1]));
        lemma_distinct_occurs_once(keys, labels.last());
        assert(occurrence_total(labels, keys) == rest.len() + 1);
    }
}

proof fn lemma_counts_total_is_occurrences(t: Seq<(Seq<char>, nat)>, labels: Seq<Seq<char>>)
    requires
        forall|i: int| 0 <= i < t.len() ==> #[trigger] t[i].1 == occurrences(labels, t[i].0),
    ensures
        counts_total(t) == occurrence_total(labels, labels_of(t)),
    decreases t.len(),
{
    if t.len() > 0 {
        let rest = t.drop_last();
        assert forall|i: int| 0 <= i < rest.len() implies #[trigger] rest[i].1 == occurrences(
            labels,
            rest[i].0,
        ) by {
            assert(rest[i] == t[i]);
        }
        lemma_counts_total_is_occurrences(rest, labels);
        assert(labels_of(t).drop_last() =~= labels_of(rest));
        assert(t[t.len() - 1].1 == occurrences(labels, t[t.len() - 1].0));
    }
}

/// The counts of a tally add up to the number of labels counted.
pub proof fn lemma_tally_total(t: Seq<(Seq<char>, nat)>, labels: Seq<Seq<char>>)
    requires
        is_tally(t, labels),
    ensures
        counts_total(t) == labels.len(),
{
    let keys = labels_of(t);
    assert forall|i: int, j: int| 0 <= i < j < keys.len() implies keys[i] != keys[j] by {
        assert(t[i].0 != t[j].0);
    }
    assert forall|k: int| 0 <= k < labels.len() implies keys.contains(#[trigger] labels[k]) by {
        assert(has_label(t, labels[k]));
        let i = choose|i: int| 0 <= i < t.len() && #[trigger] t[i].0 == labels[k];
        assert(keys[i] == labels[k]);
    }
    lemma_counts_total_is_occurrences(t, labels);
    lemma_occurrence_total_covering(labels, keys);
}

/// Every entry is counted under exactly one subject type: the counts of
/// the type distribution add up to the number of entries.
pub proof fn law_type_counts_add_up(r: AnalysisResult, cs: Seq<UserSubjectCollection>)
    requires
        is_analysis(r, cs),
    ensures
        counts_total(pairs_view(r.type_distribution@)) == r.total_count,
{
    lemma_tally_total(pairs_view(r.type_distribution@), type_labels(cs));
}

/// Every entry with a month of update is counted in exactly one month, and
/// the months come in ascending order.
pub proof fn law_timeline_adds_up(r: AnalysisResult, cs: Seq<UserSubjectCollection>)
    requires
        is_analysis(r, cs),
    ensures
        counts_total(timeline_view(r.timeline@)) == month_labels(cs).len(),
        forall|i: int, j: int|
            0 <= i < j < r.timeline@.len() ==> crate::text::text_less(
                #[trigger] r.timeline@[i].month@,
                #[trigger] r.timeline@[j].month@,
            ),
{
    let tv = timeline_view(r.timeline@);
    lemma_tally_total(tv, month_labels(cs));
    assert forall|i: int, j: int| 0 <= i < j < r.timeline@.len() implies crate::text::text_less(
        #[trigger] r.timeline@[i].month@,
        #[trigger] r.timeline@[j].month@,
    ) by {
        assert(tv[i].0 == r.timeline@[i].month@);
        assert(tv[j].0 == r.timeline@[j].month@);
    }
}

// ---------------------------------------------------------------------
// Ratings
// ---------------------------------------------------------------------

/// The entries with ratings from 0 to `n - 1`.
pub open spec fn histogram_total(cs: Seq<UserSubjectCollection>, n: int) -> nat
    decreases n,
{
    if n <= 0 {
        0
    } else {
        histogram_total(cs, n - 1) + rate_count(cs, n - 1)
    }
}

proof fn lemma_histogram_step(cs: Seq<UserSubjectCollection>, n: int)
    requires
        0 <= n <= 11,
        cs.len() > 0,
        cs.last().rate <= 10,
    ensures
        histogram_total(cs, n) == histogram_total(cs.drop_last(), n) + (if 0 < cs.last().rate < n {
            1nat
        } else {
            0nat
        }),
    decreases n,
{
    if n > 0 {
        lemma_histogram_step(cs, n - 1);
    }
}

proof fn lemma_histogram_total(cs: Seq<UserSubjectCollection>)
    requires
        ratings_in_range(cs),
    ensures
        histogram_total(cs, 11) == rated_entries(cs),
    decreases cs.len(),
{
    if cs.len() > 0 {
        let rest = cs.drop_last();
        assert forall|i: int| 0 <= i < rest.len() implies #[trigger] rest[i].rate <= 10 by {
            assert(rest[i] == cs[i]);
        }
        lemma_histogram_total(rest);
        assert(cs[cs.len() - 1].rate <= 10);
        lemma_histogram_step(cs, 11);
    } else {
        lemma_histogram_zero(cs, 11);
    }
}

proof fn lemma_histogram_zero(cs: Seq<UserSubjectCollection>, n: int)
    requires
        cs.len() == 0,
    ensures
        histogram_total(cs, n) == 0,
    decreases n,
{
    if n > 0 {
        lemma_histogram_zero(cs, n - 1);
    }
}

/// The rating distribution accounts for every rated entry once: its counts
/// add up to the number of ratings that the average is taken over, and
/// nothing is counted under 0.
pub proof fn law_rating_distribution_adds_up(r: AnalysisResult, cs: Seq<UserSubjectCollection>)
    requires
        is_analysis(r, cs),
        ratings_in_range(cs),
    ensures
        histogram_total(cs, 11) == r.average_rating.count,
        r.rating_distribution@[0] == 0,
{
    lemma_histogram_total(cs);
    lemma_rate_count_zero(cs);
}

proof fn lemma_rate_count_zero(cs: Seq<UserSubjectCollection>)
    ensures
        rate_count(cs, 0) == 0,
    decreases cs.len(),
{
    if cs.len() > 0 {
        lemma_rate_count_zero(cs.drop_last());
    }
}

/// The best rated list holds at most ten subjects, each rated, with
/// ratings that never rise down the list.
pub proof fn law_top_rated_ordered(r: AnalysisResult, cs: Seq<UserSubjectCollection>)
    requires
        is_analysis(r, cs),
    ensures
        r.top_rated@.len() <= 10,
        forall|k: int| 0 <= k < r.top_rated@.len() ==> #[trigger] r.top_rated@[k].rating > 0,
        forall|a: int, b: int|
            0 <= a < b < r.top_rated@.len() ==> #[trigger] r.top_rated@[a].rating
                >= #[trigger] r.top_rated@[b].rating,
{
    let top = r.top_rated@;
    let pos = rated_positions(cs);
    let sel = choose|sel: Seq<usize>|
        {
            &&& is_first_in_order(sel, pos.len() as int, 10, top_rated_order(cs))
            &&& top.len() == sel.len()
            &&& forall|k: int|
                0 <= k < top.len() ==> crate::ratings::item_matches(
                    #[trigger] top[k],
                    cs[pos[sel[k] as int]],
                )
        };
    lemma_rated_positions_rated(cs);
    assert forall|k: int| 0 <= k < top.len() implies #[trigger] top[k].rating > 0 by {
        assert(crate::ratings::item_matches(top[k], cs[pos[sel[k] as int]]));
        assert(sel[k] < pos.len());
    }
    assert forall|a: int, b: int| 0 <= a < b < top.len() implies #[trigger] top[a].rating
        >= #[trigger] top[b].rating by {
        assert(crate::ratings::item_matches(top[a], cs[pos[sel[a] as int]]));
        assert(crate::ratings::item_matches(top[b], cs[pos[sel[b] as int]]));
        assert(top_rated_order(cs)(sel[a] as int, sel[b] as int));
    }
}

proof fn lemma_rated_positions_rated(cs: Seq<UserSubjectCollection>)
    ensures
        forall|k: int|
            0 <= k < rated_positions(cs).len() ==> 0 <= #[trigger] rated_positions(cs)[k] < cs.len()
                && cs[rated_positions(cs)[k]].rate > 0,
    decreases cs.len(),
{
    if cs.len() > 0 {
        lemma_rated_positions_rated(cs.drop_last());
        let p = rated_positions(cs.drop_last());
        assert forall|k: int| 0 <= k < p.len() implies cs[p[k]] == cs.drop_last()[p[k]] by {}
    }
}

// ---------------------------------------------------------------------
// Bands and progress
// ---------------------------------------------------------------------

proof fn lemma_rank_bands(cs: Seq<UserSubjectCollection>)
    ensures
        rank_bands(cs).0 <= rank_bands(cs).1,
        rank_bands(cs).1 <= rank_bands(cs).2,
        rank_bands(cs).2 <= rank_bands(cs).3,
        rank_bands(cs).3 + rank_bands(cs).4 <= cs.len(),
    decreases cs.len(),
{
    if cs.len() > 0 {
        lemma_rank_bands(cs.drop_last());
    }
}

/// The ranking bands nest: top 100 within top 500 within top 1000 within
/// the ranked entries, and no entry is both ranked and unranked.
pub proof fn law_rank_bands_nest(r: AnalysisResult, cs: Seq<UserSubjectCollection>)
    requires
        is_analysis(r, cs),
    ensures
        r.rank_distribution.top_100 <= r.rank_distribution.top_500,
        r.rank_distribution.top_500 <= r.rank_distribution.top_1000,
        r.rank_distribution.top_1000 <= r.rank_distribution.ranked,
        r.rank_distribution.ranked + r.rank_distribution.unranked <= r.total_count,
{
    lemma_rank_bands(cs);
}

proof fn lemma_completion(cs: Seq<UserSubjectCollection>, t: u8, v: bool)
    ensures
        completion_counts(cs, t, v).1 + completion_counts(cs, t, v).2 <= completion_counts(cs, t, v).0,
        completion_counts(cs, t, v).0 <= cs.len(),
    decreases cs.len(),
{
    if cs.len() > 0 {
        lemma_completion(cs.drop_last(), t, v);
    }
}

/// Finished and started subjects are among those whose length is known,
/// and never both.
pub proof fn law_completion_within_known(r: AnalysisResult, cs: Seq<UserSubjectCollection>)
    requires
        is_analysis(r, cs),
    ensures
        r.completion_stats.completed + r.completion_stats.in_progress
            <= r.completion_stats.total_with_progress,
        r.completion_stats.total_with_progress <= r.total_count,
        r.book_completion.completed + r.book_completion.in_progress
            <= r.book_completion.total_with_progress,
        r.book_completion.total_with_progress <= r.total_count,
{
    lemma_completion(cs, 2, false);
    lemma_completion(cs, 1, true);
}

// ---------------------------------------------------------------------
// Hidden gems and overrated subjects
// ---------------------------------------------------------------------

proof fn lemma_gems_from(s: Seq<crate::analysis::ScoreComparison>, i: int, limit: int)
    ensures
        gems_from(s, i, limit).len() <= if limit < 0 {
            0
        } else {
            limit
        },
        forall|k: int| 0 <= k < gems_from(s, i, limit).len() ==> #[trigger] gems_from(s, i, limit)[k].diff > 0,
    decreases s.len() - i,
{
    if !(i < 0 || i >= s.len() || limit <= 0) {
        if s[i].diff > 0 {
            lemma_gems_from(s, i + 1, limit - 1);
            let rest = gems_from(s, i + 1, limit - 1);
            assert forall|k: int| 0 <= k < gems_from(s, i, limit).len() implies #[trigger] gems_from(
                s,
                i,
                limit,
            )[k].diff > 0 by {
                if k > 0 {
                    assert(gems_from(s, i, limit)[k] == rest[k - 1]);
                }
            }
        } else {
            lemma_gems_from(s, i + 1, limit);
        }
    }
}

proof fn lemma_overrated_before(s: Seq<crate::analysis::ScoreComparison>, j: int, limit: int)
    ensures
        overrated_before(s, j, limit).len() <= if limit < 0 {
            0
        } else {
            limit
        },
        forall|k: int|
            0 <= k < overrated_before(s, j, limit).len() ==> #[trigger] overrated_before(s, j, limit)[k].diff
                < 0,
    decreases j,
{
    if !(j <= 0 || j > s.len() || limit <= 0) {
        if s[j - 1].diff < 0 {
            lemma_overrated_before(s, j - 1, limit - 1);
            let rest = overrated_before(s, j - 1, limit - 1);
            assert forall|k: int| 0 <= k < overrated_before(s, j, limit).len() implies #[trigger] overrated_before(
                s,
                j,
                limit,
            )[k].diff < 0 by {
                if k > 0 {
                    assert(overrated_before(s, j, limit)[k] == rest[k - 1]);
                }
            }
        } else {
            lemma_overrated_before(s, j - 1, limit);
        }
    }
}

/// Hidden gems are rated above the community and overrated subjects below
/// it; each list holds at most five subjects.
pub proof fn law_gems_and_overrated(r: AnalysisResult, cs: Seq<UserSubjectCollection>)
    requires
        is_analysis(r, cs),
    ensures
        r.hidden_gems@.len() <= 5,
        r.overrated@.len() <= 5,
        forall|k: int| 0 <= k < r.hidden_gems@.len() ==> #[trigger] r.hidden_gems@[k].diff > 0,
        forall|k: int| 0 <= k < r.overrated@.len() ==> #[trigger] r.overrated@[k].diff < 0,
{
    lemma_gems_from(r.score_comparisons@, 0, 5);
    lemma_overrated_before(r.score_comparisons@, r.score_comparisons@.len() as int, 5);
}

// ---------------------------------------------------------------------
// Text
// ---------------------------------------------------------------------

/// Whether `t` holds no "**".
pub open spec fn no_bold_marker(t: Seq<char>) -> bool {
    forall|k: int| 0 <= k < t.len() ==> !star_pair_at(t, k)
}

proof fn lemma_inline_plain(t: Seq<char>, i: int)
    requires
        no_bold_marker(t),
        0 <= i <= t.len(),
    ensures
        inline_from(t, i) == t.skip(i),
    decreases t.len() - i,
{
    if i < t.len() {
        assert(!star_pair_at(t, i));
        lemma_inline_plain(t, i + 1);
        assert(t.skip(i) =~= seq![t[i]] + t.skip(i + 1));
    } else {
        assert(t.skip(i) =~= Seq::<char>::empty());
    }
}

/// A line without "**" is its own inline HTML.
pub proof fn law_inline_keeps_plain_text(t: Seq<char>)
    requires
        no_bold_marker(t),
    ensures
        inline_html(t) == t,
{
    lemma_inline_plain(t, 0);
    assert(t.skip(0) =~= t);
}

/// After the lines of `a`, one line ending and a blank line: what `a`
/// renders to, with no list open.
proof fn lemma_markdown_then_blank(a: Seq<char>)
    ensures
        block_fold(line_state(a + seq!['\n', '\n']).0) == (markdown_html(a), false),
        line_state(a + seq!['\n', '\n']).1 == Seq::<char>::empty(),
{
    let da = line_state(a).0;
    let ca = line_state(a).1;
    let a1 = a + seq!['\n'];
    let a2 = a + seq!['\n', '\n'];
    assert(a1.drop_last() =~= a);
    assert(a2.drop_last() =~= a1);
    assert(strip_cr(Seq::<char>::empty()) =~= Seq::<char>::empty());
    let x = strip_cr(ca);
    let blank = Seq::<char>::empty();
    assert(a1.last() == '\n');
    assert(a2.last() == '\n');
    assert(line_state(a1) == (da.push(x), blank));
    assert(line_state(a2) == (da.push(x).push(blank), blank));
    assert(da.push(x).push(blank).drop_last() == da.push(x));
    assert(da.push(x).drop_last() == da);
    let fa = block_fold(da);
    assert(block_fold(da.push(x)) == block_step(fa, x));
    assert(block_fold(da.push(x).push(blank)) == block_step(block_step(fa, x), blank));
    assert(trim(blank) =~= blank);
    reveal_strlit("### ");
    reveal_strlit("## ");
    reveal_strlit("- ");
    reveal_strlit("* ");
    if ca.len() > 0 {
        if ca.last() == '\r' {
            assert(ca.drop_last().push('\r') =~= ca);
            lemma_trim_push_white(ca.drop_last(), '\r');
        }
        assert(trim(x) == trim(ca));
        assert(block_step(fa, x) == block_step(fa, ca));
        assert(text_lines(a) == da.push(ca));
        assert(da.push(ca).drop_last() == da);
        let m = block_fold(da.push(ca));
        assert(m == block_step(fa, ca));
        assert(block_step(m, blank) == (m.0 + list_close(m.1), false));
    } else {
        assert(x =~= blank);
        assert(text_lines(a) == da);
        let m1 = block_step(fa, blank);
        assert(m1 == (fa.0 + list_close(fa.1), false));
        assert(block_step(m1, blank).0 =~= m1.0);
    }
}

/// Markdown texts separated by a blank line render to the HTML of the
/// first followed by that of the second.
pub proof fn law_markdown_blocks_concatenate(a: Seq<char>, b: Seq<char>)
    ensures
        markdown_html(a + seq!['\n', '\n'] + b) == markdown_html(a) + markdown_html(b),
{
    let p = a + seq!['\n', '\n'];
    let e = (Seq::<char>::empty(), false);
    lemma_markdown_then_blank(a);
    lemma_line_state_append(p, b);
    let dp = line_state(p).0;
    let tb = text_lines(b);
    assert(text_lines(p + b) =~= dp + tb);
    lemma_block_fold_from_start(dp + tb);
    lemma_block_fold_from_append(e, dp, tb);
    lemma_block_fold_from_start(dp);
    lemma_block_fold_from_start(tb);
    let ma = markdown_html(a);
    assert(ma + Seq::<char>::empty() =~= ma);
    lemma_block_fold_from_shift(ma, Seq::<char>::empty(), false, tb);
    let fb = block_fold(tb);
    assert(block_fold(dp + tb) == (ma + fb.0, fb.1));
    assert(markdown_html(p + b) =~= ma + markdown_html(b));
}

/// Whether `t` is a heading line: after trimming it starts with "### " or
/// "## ", and it holds no line break.
pub open spec fn is_heading_line(t: Seq<char>) -> bool {
    &&& has_prefix(trim(t), "### "@) || has_prefix(trim(t), "## "@)
    &&& forall|i: int| 0 <= i < t.len() ==> t[i] != '\n'
}

/// The title of a heading line: the trimmed line after its marker.
pub open spec fn heading_title(t: Seq<char>) -> Seq<char> {
    if has_prefix(trim(t), "### "@) {
        after(trim(t), "### "@)
    } else {
        after(trim(t), "## "@)
    }
}

/// After the lines of `a` and a line ending: the HTML of `a` still to be
/// closed, as reading `a` alone leaves it.
proof fn lemma_markdown_then_break(a: Seq<char>)
    ensures
        line_state(a + seq!['\n']).1 == Seq::<char>::empty(),
        ({
            let s = block_fold(line_state(a + seq!['\n']).0);
            s.0 + list_close(s.1) == markdown_html(a)
        }),
{
    let da = line_state(a).0;
    let ca = line_state(a).1;
    let a1 = a + seq!['\n'];
    assert(a1.drop_last() =~= a);
    assert(a1.last() == '\n');
    let x = strip_cr(ca);
    assert(line_state(a1) == (da.push(x), Seq::<char>::empty()));
    assert(da.push(x).drop_last() == da);
    let fa = block_fold(da);
    assert(block_fold(da.push(x)) == block_step(fa, x));
    let blank = Seq::<char>::empty();
    assert(trim(blank) =~= blank);
    reveal_strlit("### ");
    reveal_strlit("## ");
    reveal_strlit("- ");
    reveal_strlit("* ");
    if ca.len() > 0 {
        if ca.last() == '\r' {
            assert(ca.drop_last().push('\r') =~= ca);
            lemma_trim_push_white(ca.drop_last(), '\r');
        }
        assert(trim(x) == trim(ca));
        assert(block_step(fa, x) == block_step(fa, ca));
        assert(text_lines(a) == da.push(ca));
        assert(da.push(ca).drop_last() == da);
    } else {
        assert(x =~= blank);
        assert(text_lines(a) == da);
        let m1 = block_step(fa, blank);
        assert(m1 == (fa.0 + list_close(fa.1), false));
        assert(m1.0 + list_close(m1.1) =~= m1.0);
    }
}

/// A heading line closes any open list: a text followed by a heading line
/// renders to the HTML of the text, lists closed, and then the heading.
pub proof fn law_heading_closes_list(a: Seq<char>, t: Seq<char>)
    requires
        is_heading_line(t),
    ensures
        markdown_html(a + seq!['\n'] + t) == markdown_html(a) + "<h3>"@ + heading_title(t) + "</h3>\n"@,
{
    let p = a + seq!['\n'];
    lemma_markdown_then_break(a);
    lemma_line_state_append(p, t);
    lemma_line_state_no_break(t);
    reveal_strlit("### ");
    reveal_strlit("## ");
    assert(trim(t).len() > 0);
    assert(t.len() > 0) by {
        if t.len() == 0 {
            assert(trim(t) =~= t);
        }
    }
    let dp = line_state(p).0;
    assert(text_lines(p + t) =~= dp.push(t));
    assert(dp.push(t).drop_last() == dp);
    let s = block_fold(dp);
    assert(block_fold(dp.push(t)) == block_step(s, t));
    let r = block_step(s, t);
    assert(r.1 == false);
    assert(r.0 =~= s.0 + list_close(s.1) + "<h3>"@ + heading_title(t) + "</h3>\n"@);
    assert(markdown_html(p + t) =~= r.0);
}

/// Whether `t` is a paragraph line: not blank after trimming, neither a
/// heading nor a list item, and without a line break.
pub open spec fn is_paragraph_line(t: Seq<char>) -> bool {
    &&& trim(t).len() > 0
    &&& !has_prefix(trim(t), "### "@)
    &&& !has_prefix(trim(t), "## "@)
    &&& !has_prefix(trim(t), "- "@)
    &&& !has_prefix(trim(t), "* "@)
    &&& forall|i: int| 0 <= i < t.len() ==> t[i] != '\n'
}

/// A paragraph line closes any open list: a text followed by a paragraph
/// line renders to the HTML of the text, lists closed, and then the
/// paragraph with its inline markup.
pub proof fn law_paragraph_closes_list(a: Seq<char>, t: Seq<char>)
    requires
        is_paragraph_line(t),
    ensures
        markdown_html(a + seq!['\n'] + t) == markdown_html(a) + "<p>"@ + inline_html(trim(t)) + "</p>\n"@,
{
    let p = a + seq!['\n'];
    lemma_markdown_then_break(a);
    lemma_line_state_append(p, t);
    lemma_line_state_no_break(t);
    assert(t.len() > 0) by {
        if t.len() == 0 {
            assert(trim(t) =~= t);
        }
    }
    let dp = line_state(p).0;
    assert(text_lines(p + t) =~= dp.push(t));
    assert(dp.push(t).drop_last() == dp);
    let s = block_fold(dp);
    assert(block_fold(dp.push(t)) == block_step(s, t));
    let r = block_step(s, t);
    assert(r.1 == false);
    assert(r.0 =~= s.0 + list_close(s.1) + "<p>"@ + inline_html(trim(t)) + "</p>\n"@);
    assert(markdown_html(p + t) =~= r.0);
}

proof fn lemma_line_state_no_break(t: Seq<char>)
    requires
        forall|i: int| 0 <= i < t.len() ==> t[i] != '\n',
    ensures
        line_state(t) == (Seq::<Seq<char>>::empty(), t),
    decreases t.len(),
{
    if t.len() > 0 {
        assert forall|i: int| 0 <= i < t.drop_last().len() implies t.drop_last()[i] != '\n' by {
            assert(t.drop_last()[i] == t[i]);
        }
        lemma_line_state_no_break(t.drop_last());
        assert(t.drop_last().push(t.last()) =~= t);
    }
}

proof fn lemma_replace_absent(s: Seq<char>, pat: Seq<char>, rep: Seq<char>, i: int)
    requires
        0 <= i <= s.len(),
        forall|k: int| 0 <= k < s.len() ==> !occurs_at(s, pat, k),
    ensures
        replaced_from(s, pat, rep, i) == s.skip(i),
    decreases s.len() - i,
{
    if i < s.len() {
        lemma_replace_absent(s, pat, rep, i + 1);
        assert(s.skip(i) =~= seq![s[i]] + s.skip(i + 1));
    } else {
        assert(s.skip(i) =~= Seq::<char>::empty());
    }
}

/// Replacing a pattern that does not occur leaves the text as it is.
pub proof fn law_replace_absent_pattern(s: Seq<char>, pat: Seq<char>, rep: Seq<char>)
    requires
        forall|k: int| 0 <= k < s.len() ==> !occurs_at(s, pat, k),
    ensures
        replace_all(s, pat, rep) == s,
{
    lemma_replace_absent(s, pat, rep, 0);
    assert(s.skip(0) =~= s);
}

/// The chat endpoint does not depend on trailing slashes of the base.
pub proof fn law_completions_url_ignores_trailing_slash(base: Seq<char>)
    ensures
        completions_url(base.push('/')) == completions_url(base),
{
    assert(base.push('/').drop_last() =~= base);
}

proof fn lemma_digit_char(k: nat)
    requires
        k < 10,
    ensures
        is_digit(digit_char(k)),
        (digit_char(k) as u32) - ('0' as u32) == k,
        digit_char(k) != '+',
{
    if k == 0 {
        assert(digit_char(k) == '0');
    } else if k == 1 {
        assert(digit_char(k) == '1');
    } else if k == 2 {
        assert(digit_char(k) == '2');
    } else if k == 3 {
        assert(digit_char(k) == '3');
    } else if k == 4 {
        assert(digit_char(k) == '4');
    } else if k == 5 {
        assert(digit_char(k) == '5');
    } else if k == 6 {
        assert(digit_char(k) == '6');
    } else if k == 7 {
        assert(digit_char(k) == '7');
    } else if k == 8 {
        assert(digit_char(k) == '8');
    } else {
        assert(digit_char(k) == '9');
    }
}

proof fn lemma_decimal_digits(n: nat)
    ensures
        decimal(n).len() > 0,
        forall|i: int| 0 <= i < decimal(n).len() ==> is_digit(#[trigger] decimal(n)[i]),
        digits_value(decimal(n)) == n,
        decimal(n)[0] != '+',
    decreases n,
{
    lemma_digit_char(n % 10);
    if n < 10 {
        let d = decimal(n);
        assert(d.drop_last() =~= Seq::<char>::empty());
        assert(d.last() == digit_char(n));
        assert(digits_value(d.drop_last()) == 0);
        assert(digits_value(d) == digits_value(d.drop_last()) * 10 + n);
    } else {
        lemma_decimal_digits(n / 10);
        let d = decimal(n);
        assert(d.last() == digit_char(n % 10));
        assert(d.drop_last() =~= decimal(n / 10));
        assert(digits_value(d) == digits_value(decimal(n / 10)) * 10 + n % 10);
        assert((n / 10) * 10 + n % 10 == n);
        assert(d.drop_last() =~= decimal(n / 10));
        assert forall|i: int| 0 <= i < d.len() implies is_digit(#[trigger] d[i]) by {
            if i < d.len() - 1 {
                assert(d[i] == decimal(n / 10)[i]);
            }
        }
        assert(d[0] == decimal(n / 10)[0]);
    }
}

/// Reading back the decimal notation of a `u32` gives the number.
pub proof fn law_parse_reads_decimal(n: u32)
    ensures
        parsed_u32(decimal(n as nat)) == Some(n),
{
    lemma_decimal_digits(n as nat);
    assert(unsigned_digits(decimal(n as nat)) == decimal(n as nat));
}

} // verus!
