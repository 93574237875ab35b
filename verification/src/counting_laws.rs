//! What the analysis' counts count, stated as the number of entries that
//! have a property: ranking bands, completion, the median rating and the
//! state counts of the chart data.
use vstd::prelude::*;
use crate::analysis::{is_analysis, AnalysisResult, CompletionStats, ScoreComparison};
use crate::scores::{comparison_matches, compared_positions, gap_order, gems_from, is_gap_sorted, overrated_before, score_gap};
use crate::counts::{commented_entries, completion_counts, completion_matches, private_entries, rank_bands};
use crate::popularity::{is_least_collected, is_most_collected, is_popularity, popularity_items, popularity_total};
use crate::text::trim;
use crate::order::is_first_in_order;
use crate::ratings::{is_top_rated, item_matches, rated_positions, top_rated_order, subject_collection_total, kth_rating, kth_rating_from, median_parts, rate_count, rated_entries, rated_upto, rating_total, ratings_in_range};
use crate::groups::{is_status_distribution, status_labels, type_labels};
use crate::model::UserSubjectCollection;
use crate::names::{collection_type_label, subject_type_label, unknown_label};
use crate::report::{count_named, status_values};
use crate::tally::{has_label, is_tally, lemma_occurrences, occurrences, pairs_view};

verus! {

// ---------------------------------------------------------------------
// Ranking bands
// ---------------------------------------------------------------------

/// The entry's subject has a rank above 0.
pub open spec fn has_positive_rank(c: UserSubjectCollection) -> bool {
    match c.subject {
        Some(s) => match s.rank {
            Some(r) => r > 0,
            None => false,
        },
        None => false,
    }
}

/// The entry's subject has a rank from 1 to `limit`.
pub open spec fn ranked_within(c: UserSubjectCollection, limit: int) -> bool {
    match c.subject {
        Some(s) => match s.rank {
            Some(r) => 0 < r <= limit,
            None => false,
        },
        None => false,
    }
}

/// The entry has a subject without a rank, or with rank 0.
pub open spec fn subject_without_rank(c: UserSubjectCollection) -> bool {
    match c.subject {
        Some(s) => match s.rank {
            Some(r) => r == 0,
            None => true,
        },
        None => false,
    }
}

/// The number of entries whose subject has a positive rank.
pub open spec fn count_ranked(cs: Seq<UserSubjectCollection>) -> nat {
    cs.filter(|c: UserSubjectCollection| has_positive_rank(c)).len()
}

/// The number of entries whose subject has a rank from 1 to `limit`.
pub open spec fn count_ranked_within(cs: Seq<UserSubjectCollection>, limit: int) -> nat {
    cs.filter(|c: UserSubjectCollection| ranked_within(c, limit)).len()
}

/// The number of entries whose subject has no positive rank.
pub open spec fn count_without_rank(cs: Seq<UserSubjectCollection>) -> nat {
    cs.filter(|c: UserSubjectCollection| subject_without_rank(c)).len()
}

/// The number of entries that come with a subject.
pub open spec fn count_with_subject(cs: Seq<UserSubjectCollection>) -> nat {
    cs.filter(|c: UserSubjectCollection| c.subject is Some).len()
}

proof fn lemma_rank_bands_count(cs: Seq<UserSubjectCollection>)
    ensures
        rank_bands(cs) == (
            count_ranked_within(cs, 100),
            count_ranked_within(cs, 500),
            count_ranked_within(cs, 1000),
            count_ranked(cs),
            count_without_rank(cs),
        ),
        count_ranked(cs) + count_without_rank(cs) == count_with_subject(cs),
    decreases cs.len(),
{
    reveal(Seq::filter);
    if cs.len() > 0 {
        lemma_rank_bands_count(cs.drop_last());
    }
}

/// Every entry whose subject has a positive rank counts as ranked, and in
/// the top 100, 500 or 1000 exactly when its rank is at most that; every
/// entry with a subject of no rank or rank 0 counts as unranked; entries
/// without a subject count in neither.
pub proof fn law_rank_bands_count(r: AnalysisResult, cs: Seq<UserSubjectCollection>)
    requires
        is_analysis(r, cs),
    ensures
        r.rank_distribution.ranked == count_ranked(cs),
        r.rank_distribution.unranked == count_without_rank(cs),
        r.rank_distribution.top_100 == count_ranked_within(cs, 100),
        r.rank_distribution.top_500 == count_ranked_within(cs, 500),
        r.rank_distribution.top_1000 == count_ranked_within(cs, 1000),
        r.rank_distribution.ranked + r.rank_distribution.unranked == count_with_subject(cs),
{
    lemma_rank_bands_count(cs);
}

// ---------------------------------------------------------------------
// Completion
// ---------------------------------------------------------------------

/// The length of the entry's subject (volumes when `by_volumes`, else
/// episodes) where the entry is of `subject_type` and the length is known
/// and positive.
pub open spec fn known_length(c: UserSubjectCollection, subject_type: u8, by_volumes: bool) -> Option<int> {
    if c.subject_type != subject_type {
        None
    } else {
        match c.subject {
            Some(s) => {
                let n = if by_volumes {
                    s.volumes
                } else {
                    s.eps
                };
                match n {
                    Some(n) => if n > 0 {
                        Some(n as int)
                    } else {
                        None
                    },
                    None => None,
                }
            },
            None => None,
        }
    }
}

/// How far the user got: volumes read for books (type 1), else episodes
/// watched; 0 where nothing is recorded.
pub open spec fn user_progress(c: UserSubjectCollection, subject_type: u8) -> int {
    let p = if subject_type == 1 {
        c.vol_status
    } else {
        c.ep_status
    };
    match p {
        Some(v) => v as int,
        None => 0,
    }
}

/// The number of entries of the type whose length is known.
pub open spec fn count_known(cs: Seq<UserSubjectCollection>, t: u8, v: bool) -> nat {
    cs.filter(|c: UserSubjectCollection| known_length(c, t, v) is Some).len()
}

/// The number of those whose progress reaches the length.
pub open spec fn count_finished(cs: Seq<UserSubjectCollection>, t: u8, v: bool) -> nat {
    cs.filter(
        |c: UserSubjectCollection|
            known_length(c, t, v) is Some && user_progress(c, t) >= known_length(c, t, v)->0,
    ).len()
}

/// The number of those started but not finished.
pub open spec fn count_started(cs: Seq<UserSubjectCollection>, t: u8, v: bool) -> nat {
    cs.filter(
        |c: UserSubjectCollection|
            known_length(c, t, v) is Some && 0 < user_progress(c, t) < known_length(c, t, v)->0,
    ).len()
}

/// The number of those not started.
pub open spec fn count_not_started(cs: Seq<UserSubjectCollection>, t: u8, v: bool) -> nat {
    cs.filter(|c: UserSubjectCollection| known_length(c, t, v) is Some && user_progress(c, t) == 0).len()
}

proof fn lemma_completion_count(cs: Seq<UserSubjectCollection>, t: u8, v: bool)
    ensures
        completion_counts(cs, t, v) == (count_known(cs, t, v), count_finished(cs, t, v), count_started(cs, t, v)),
        count_known(cs, t, v) == count_finished(cs, t, v) + count_started(cs, t, v) + count_not_started(cs, t, v),
    decreases cs.len(),
{
    reveal(Seq::filter);
    if cs.len() > 0 {
        lemma_completion_count(cs.drop_last(), t, v);
    }
}

/// Completion over the entries of one type (lengths in volumes when
/// `by_volumes`, else episodes): every entry whose length is known and
/// positive counts, whatever its progress; finished ones are those whose
/// progress reaches the length, started ones those with some progress
/// short of it; the rest were not started.
pub proof fn law_completion_count(
    stats: CompletionStats,
    cs: Seq<UserSubjectCollection>,
    subject_type: u8,
    by_volumes: bool,
)
    requires
        completion_matches(stats, completion_counts(cs, subject_type, by_volumes)),
    ensures
        stats.total_with_progress == count_known(cs, subject_type, by_volumes),
        stats.completed == count_finished(cs, subject_type, by_volumes),
        stats.in_progress == count_started(cs, subject_type, by_volumes),
        stats.total_with_progress == stats.completed + stats.in_progress + count_not_started(
            cs,
            subject_type,
            by_volumes,
        ),
{
    lemma_completion_count(cs, subject_type, by_volumes);
}

/// The analysis counts anime completion by episodes and book completion
/// by volumes, as `law_completion_count` says.
pub proof fn law_analysis_completion(r: AnalysisResult, cs: Seq<UserSubjectCollection>)
    requires
        is_analysis(r, cs),
    ensures
        r.completion_stats.total_with_progress == count_known(cs, 2, false),
        r.completion_stats.completed == count_finished(cs, 2, false),
        r.completion_stats.in_progress == count_started(cs, 2, false),
        r.book_completion.total_with_progress == count_known(cs, 1, true),
        r.book_completion.completed == count_finished(cs, 1, true),
        r.book_completion.in_progress == count_started(cs, 1, true),
{
    law_completion_count(r.completion_stats, cs, 2, false);
    law_completion_count(r.book_completion, cs, 1, true);
}

// ---------------------------------------------------------------------
// Median rating
// ---------------------------------------------------------------------

/// The number of rated entries (rating above 0).
pub open spec fn count_rated(cs: Seq<UserSubjectCollection>) -> nat {
    cs.filter(|c: UserSubjectCollection| c.rate > 0).len()
}

/// The number of ratings below `v`.
pub open spec fn count_rated_below(cs: Seq<UserSubjectCollection>, v: int) -> nat {
    cs.filter(|c: UserSubjectCollection| 0 < c.rate && c.rate < v).len()
}

/// The number of ratings above `v`.
pub open spec fn count_rated_above(cs: Seq<UserSubjectCollection>, v: int) -> nat {
    cs.filter(|c: UserSubjectCollection| c.rate > 0 && c.rate > v).len()
}

/// `v` is the rating at position `k` (from 0) of the sorted ratings: at
/// most `k` ratings lie below it and at most `m - 1 - k` above it, of the
/// `m` ratings.
pub open spec fn is_sorted_position(cs: Seq<UserSubjectCollection>, k: int, v: int) -> bool {
    &&& count_rated_below(cs, v) <= k
    &&& count_rated_above(cs, v) <= count_rated(cs) - 1 - k
}

proof fn lemma_rate_counts_push(cs: Seq<UserSubjectCollection>, r: int)
    requires
        cs.len() > 0,
    ensures
        rated_upto(cs, r) == rated_upto(cs.drop_last(), r) + (if 0 < cs.last().rate <= r {
            1int
        } else {
            0int
        }),
    decreases r,
{
    if r > 0 {
        lemma_rate_counts_push(cs, r - 1);
    }
}

proof fn lemma_rating_counts(cs: Seq<UserSubjectCollection>, v: int)
    requires
        v >= 0,
    ensures
        rated_upto(cs, v) == count_rated_below(cs, v + 1),
        count_rated(cs) == rated_entries(cs),
        count_rated(cs) == count_rated_below(cs, v + 1) + count_rated_above(cs, v),
        ratings_in_range(cs) ==> count_rated_above(cs, 10) == 0,
    decreases cs.len(),
{
    reveal(Seq::filter);
    if cs.len() > 0 {
        lemma_rating_counts(cs.drop_last(), v);
        lemma_rate_counts_push(cs, v);
        if ratings_in_range(cs) {
            assert forall|i: int| 0 <= i < cs.drop_last().len() implies #[trigger] cs.drop_last()[i].rate <= 10 by {
                assert(cs.drop_last()[i] == cs[i]);
            }
            assert(cs[cs.len() - 1].rate <= 10);
        }
    } else {
        assert(rated_upto(cs, v) == 0) by {
            lemma_rated_upto_empty(cs, v);
        }
    }
}

proof fn lemma_rated_upto_empty(cs: Seq<UserSubjectCollection>, v: int)
    requires
        cs.len() == 0,
    ensures
        rated_upto(cs, v) == 0,
    decreases v,
{
    if v > 0 {
        lemma_rated_upto_empty(cs, v - 1);
    }
}

proof fn lemma_kth_from(cs: Seq<UserSubjectCollection>, k: int, v: int)
    requires
        1 <= v <= 10,
        0 <= k < rated_entries(cs),
        rated_upto(cs, v - 1) <= k,
        rated_upto(cs, 10) == rated_entries(cs),
    ensures
        rated_upto(cs, kth_rating_from(cs, k, v) - 1) <= k,
        rated_upto(cs, kth_rating_from(cs, k, v)) > k,
        1 <= kth_rating_from(cs, k, v) <= 10,
    decreases 10 - v,
{
    if v < 10 && rated_upto(cs, v) <= k {
        lemma_kth_from(cs, k, v + 1);
    }
}

/// The rating at a sorted position has at most that many ratings below it
/// and the rest above it.
proof fn lemma_kth_is_sorted_position(cs: Seq<UserSubjectCollection>, k: int)
    requires
        ratings_in_range(cs),
        0 <= k < rated_entries(cs),
    ensures
        is_sorted_position(cs, k, kth_rating(cs, k)),
        1 <= kth_rating(cs, k) <= 10,
{
    lemma_rating_counts(cs, 10);
    lemma_rating_counts(cs, 0);
    assert(rated_upto(cs, 0) == 0);
    lemma_kth_from(cs, k, 1);
    let w = kth_rating(cs, k);
    lemma_rating_counts(cs, w - 1);
    lemma_rating_counts(cs, w);
}

/// The median rating: without ratings 0 over 0; for an odd number `m` of
/// ratings the rating at sorted position `m / 2` (at most `m / 2` ratings
/// below it and at most `m / 2` above it) over 1; for an even number the
/// sum of the ratings at sorted positions `m / 2 - 1` and `m / 2` over 2.
pub proof fn law_median_rating(r: AnalysisResult, cs: Seq<UserSubjectCollection>)
    requires
        is_analysis(r, cs),
        ratings_in_range(cs),
    ensures
        count_rated(cs) == 0 ==> r.median_rating.total == 0 && r.median_rating.count == 0,
        count_rated(cs) % 2 == 1 ==> r.median_rating.count == 1 && is_sorted_position(
            cs,
            (count_rated(cs) / 2) as int,
            r.median_rating.total as int,
        ),
        count_rated(cs) % 2 == 1 ==> count_rated_below(cs, r.median_rating.total as int) <= count_rated(cs) / 2
            && count_rated_above(cs, r.median_rating.total as int) <= count_rated(cs) / 2,
        count_rated(cs) > 0 && count_rated(cs) % 2 == 0 ==> r.median_rating.count == 2 && exists|a: int, b: int|
            {
                &&& r.median_rating.total == a + b
                &&& a <= b
                &&& #[trigger] is_sorted_position(cs, count_rated(cs) / 2 - 1, a)
                &&& #[trigger] is_sorted_position(cs, (count_rated(cs) / 2) as int, b)
            },
{
    lemma_rating_counts(cs, 0);
    let m = count_rated(cs) as int;
    if m > 0 {
        if m % 2 == 1 {
            lemma_kth_is_sorted_position(cs, m / 2);
        } else {
            lemma_kth_is_sorted_position(cs, m / 2 - 1);
            lemma_kth_is_sorted_position(cs, m / 2);
            let a = kth_rating(cs, m / 2 - 1);
            let b = kth_rating(cs, m / 2);
            lemma_sorted_positions_ordered(cs, m / 2 - 1, a, m / 2, b);
            assert(r.median_rating.total == a + b);
        }
    }
}

/// Ratings at two sorted positions come in order.
proof fn lemma_sorted_positions_ordered(cs: Seq<UserSubjectCollection>, i: int, a: int, j: int, b: int)
    requires
        0 <= i < j < count_rated(cs),
        is_sorted_position(cs, i, a),
        is_sorted_position(cs, j, b),
        0 <= a,
        0 <= b,
    ensures
        a <= b,
{
    if b < a {
        lemma_rating_counts(cs, b);
        lemma_below_monotone(cs, b + 1, a);
    }
}

proof fn lemma_below_monotone(cs: Seq<UserSubjectCollection>, x: int, y: int)
    requires
        x <= y,
    ensures
        count_rated_below(cs, x) <= count_rated_below(cs, y),
    decreases cs.len(),
{
    reveal(Seq::filter);
    if cs.len() > 0 {
        lemma_below_monotone(cs.drop_last(), x, y);
    }
}

// ---------------------------------------------------------------------
// State counts of the chart data
// ---------------------------------------------------------------------

/// The number of entries of the subject type named `kind_name` in the
/// collection state `code`.
pub open spec fn count_in_state(cs: Seq<UserSubjectCollection>, kind_name: Seq<char>, code: u8) -> nat {
    cs.filter(
        |c: UserSubjectCollection| subject_type_label(c.subject_type) == kind_name && c.collection_type == code,
    ).len()
}

proof fn lemma_status_values_index(d: Seq<(String, Vec<(String, usize)>)>)
    ensures
        status_values(d).len() == 5 * d.len(),
        forall|i: int, k: int|
            0 <= i < d.len() && 0 <= k < 5 ==> #[trigger] status_values(d)[5 * i + k] == count_named(
                d[i].1@,
                collection_type_label((k + 1) as u8),
            ),
    decreases d.len(),
{
    reveal_strlit("想看");
    reveal_strlit("看过");
    reveal_strlit("在看");
    reveal_strlit("搁置");
    reveal_strlit("抛弃");
    if d.len() > 0 {
        let p = d.drop_last();
        lemma_status_values_index(p);
        assert forall|i: int, k: int|
            0 <= i < d.len() && 0 <= k < 5 implies #[trigger] status_values(d)[5 * i + k] == count_named(
                d[i].1@,
                collection_type_label((k + 1) as u8),
            ) by {
            if i < d.len() - 1 {
                assert(d[i] == p[i]);
                assert(status_values(d)[5 * i + k] == status_values(p)[5 * i + k]);
            } else {
                assert(5 * i + k == 5 * p.len() + k);
            }
        }
    }
}

proof fn lemma_count_named_first(e: Seq<(String, usize)>, name: Seq<char>, j: int)
    requires
        0 <= j < e.len(),
        e[j].0@ == name,
        forall|i: int| 0 <= i < j ==> #[trigger] e[i].0@ != name,
    ensures
        count_named(e, name) == e[j].1,
    decreases j,
{
    if j > 0 {
        assert(e[0].0@ != name);
        assert forall|i: int| 0 <= i < j - 1 implies #[trigger] e.drop_first()[i].0@ != name by {
            assert(e.drop_first()[i] == e[i + 1]);
        }
        lemma_count_named_first(e.drop_first(), name, j - 1);
    }
}

proof fn lemma_count_named_absent(e: Seq<(String, usize)>, name: Seq<char>)
    requires
        forall|i: int| 0 <= i < e.len() ==> #[trigger] e[i].0@ != name,
    ensures
        count_named(e, name) == 0,
    decreases e.len(),
{
    if e.len() > 0 {
        assert(e[0].0@ != name);
        assert forall|i: int| 0 <= i < e.len() - 1 implies #[trigger] e.drop_first()[i].0@ != name by {
            assert(e.drop_first()[i] == e[i + 1]);
        }
        lemma_count_named_absent(e.drop_first(), name);
    }
}

/// Looking a label up in a tally gives its number of occurrences.
proof fn lemma_count_named_tally(e: Seq<(String, usize)>, labels: Seq<Seq<char>>, name: Seq<char>)
    requires
        is_tally(pairs_view(e), labels),
    ensures
        count_named(e, name) == occurrences(labels, name),
{
    let t = pairs_view(e);
    if exists|j: int| 0 <= j < e.len() && #[trigger] e[j].0@ == name {
        let j = choose|j: int| 0 <= j < e.len() && #[trigger] e[j].0@ == name;
        assert forall|i: int| 0 <= i < j implies #[trigger] e[i].0@ != name by {
            assert(t[i].0 == e[i].0@);
            assert(t[j].0 == e[j].0@);
        }
        lemma_count_named_first(e, name, j);
        assert(t[j].1 == occurrences(labels, t[j].0));
    } else {
        lemma_count_named_absent(e, name);
        if labels.contains(name) {
            let k = choose|k: int| 0 <= k < labels.len() && labels[k] == name;
            assert(has_label(t, labels[k]));
            let i = choose|i: int| 0 <= i < t.len() && #[trigger] t[i].0 == labels[k];
            assert(t[i].0 == e[i].0@);
        }
        lemma_occurrences(labels, name);
    }
}

/// The states 1 to 5 have labels that no other state code has.
proof fn lemma_state_label_distinct(x: u8, code: u8)
    requires
        1 <= code <= 5,
    ensures
        collection_type_label(x) == collection_type_label(code) <==> x == code,
{
    reveal_strlit("想看");
    reveal_strlit("看过");
    reveal_strlit("在看");
    reveal_strlit("搁置");
    reveal_strlit("抛弃");
    reveal_strlit("未知(");
    if collection_type_label(x) == collection_type_label(code) {
        if !(1 <= x <= 5) {
            assert(unknown_label(x)[0] == '未');
        }
        assert(collection_type_label(x)[0] == collection_type_label(code)[0]);
    }
}

proof fn lemma_status_labels_count(cs: Seq<UserSubjectCollection>, kind_name: Seq<char>, code: u8)
    requires
        1 <= code <= 5,
    ensures
        occurrences(status_labels(cs, kind_name), collection_type_label(code)) == count_in_state(cs, kind_name, code),
    decreases cs.len(),
{
    reveal(Seq::filter);
    if cs.len() > 0 {
        lemma_status_labels_count(cs.drop_last(), kind_name, code);
        lemma_state_label_distinct(cs.last().collection_type, code);
        let l = status_labels(cs.drop_last(), kind_name);
        if subject_type_label(cs.last().subject_type) == kind_name {
            assert(status_labels(cs, kind_name).drop_last() == l);
        }
    }
}

/// The chart's state counts: for the `i`-th subject type of the status
/// distribution, position `5 * i + k` holds the number of its entries in
/// collection state `k + 1` (wish, done, doing, on hold, dropped).
pub proof fn law_status_values_count_states(r: AnalysisResult, cs: Seq<UserSubjectCollection>)
    requires
        is_analysis(r, cs),
    ensures
        status_values(r.status_distribution@).len() == 5 * r.status_distribution@.len(),
        forall|i: int, k: int|
            0 <= i < r.status_distribution@.len() && 0 <= k < 5 ==> #[trigger] status_values(
                r.status_distribution@,
            )[5 * i + k] == count_in_state(cs, r.status_distribution@[i].0@, (k + 1) as u8),
{
    let d = r.status_distribution@;
    lemma_status_values_index(d);
    assert forall|i: int, k: int|
        0 <= i < d.len() && 0 <= k < 5 implies #[trigger] status_values(d)[5 * i + k] == count_in_state(
            cs,
            d[i].0@,
            (k + 1) as u8,
        ) by {
        assert(is_tally(pairs_view(d[i].1@), status_labels(cs, d[i].0@)));
        lemma_count_named_tally(d[i].1@, status_labels(cs, d[i].0@), collection_type_label((k + 1) as u8));
        lemma_status_labels_count(cs, d[i].0@, (k + 1) as u8);
    }
}

// ---------------------------------------------------------------------
// Ratings, private and commented entries, popularity
// ---------------------------------------------------------------------

/// The number of entries the user rated `v`.
pub open spec fn count_rated_as(cs: Seq<UserSubjectCollection>, v: int) -> nat {
    cs.filter(|c: UserSubjectCollection| c.rate > 0 && c.rate == v).len()
}

proof fn lemma_rate_count_filter(cs: Seq<UserSubjectCollection>, v: int)
    ensures
        rate_count(cs, v) == count_rated_as(cs, v),
    decreases cs.len(),
{
    reveal(Seq::filter);
    if cs.len() > 0 {
        lemma_rate_count_filter(cs.drop_last(), v);
    }
}

/// The rating distribution holds, for each rating from 1 to 10, the number
/// of entries rated so, and nothing under 0; the average is taken over all
/// rated entries.
pub proof fn law_rating_distribution_counts(r: AnalysisResult, cs: Seq<UserSubjectCollection>)
    requires
        is_analysis(r, cs),
    ensures
        r.rating_distribution@.len() == 11,
        r.rating_distribution@[0] == 0,
        forall|v: int| 1 <= v <= 10 ==> #[trigger] r.rating_distribution@[v] == count_rated_as(cs, v),
        r.average_rating.count == count_rated(cs),
{
    assert forall|v: int| 0 <= v <= 10 implies #[trigger] r.rating_distribution@[v] == count_rated_as(cs, v) by {
        lemma_rate_count_filter(cs, v);
    }
    reveal(Seq::filter);
    lemma_no_rating_zero(cs);
    lemma_rating_counts(cs, 0);
}

proof fn lemma_no_rating_zero(cs: Seq<UserSubjectCollection>)
    ensures
        count_rated_as(cs, 0) == 0,
    decreases cs.len(),
{
    reveal(Seq::filter);
    if cs.len() > 0 {
        lemma_no_rating_zero(cs.drop_last());
    }
}

/// The entry is marked private.
pub open spec fn is_private(c: UserSubjectCollection) -> bool {
    c.private == Some(true)
}

/// The entry carries a comment that is not blank.
pub open spec fn has_written_comment(c: UserSubjectCollection) -> bool {
    c.comment is Some && trim(c.comment->0@).len() > 0
}

/// The entry's subject has a collection count.
pub open spec fn has_collection_total(c: UserSubjectCollection) -> bool {
    c.subject is Some && c.subject->0.collection_total is Some
}

proof fn lemma_entry_counts(cs: Seq<UserSubjectCollection>)
    ensures
        private_entries(cs) == cs.filter(|c: UserSubjectCollection| is_private(c)).len(),
        commented_entries(cs) == cs.filter(|c: UserSubjectCollection| has_written_comment(c)).len(),
        popularity_items(cs).len() == cs.filter(|c: UserSubjectCollection| has_collection_total(c)).len(),
    decreases cs.len(),
{
    reveal(Seq::filter);
    if cs.len() > 0 {
        lemma_entry_counts(cs.drop_last());
    }
}

/// `item` is the subject name and collection count of the entry `c`.
pub open spec fn item_of_entry(item: (Seq<char>, u64), c: UserSubjectCollection) -> bool {
    &&& has_collection_total(c)
    &&& item.0 == c.subject->0.name@
    &&& item.1 == c.subject->0.collection_total->0
}

/// Every entry with a collection count stands among the popularity items
/// with its subject's name and count, and every item comes from such an
/// entry.
proof fn lemma_popularity_items(cs: Seq<UserSubjectCollection>)
    ensures
        forall|j: int|
            0 <= j < cs.len() && has_collection_total(#[trigger] cs[j]) ==> exists|i: int|
                0 <= i < popularity_items(cs).len() && item_of_entry(#[trigger] popularity_items(cs)[i], cs[j]),
        forall|i: int|
            0 <= i < popularity_items(cs).len() ==> exists|j: int|
                0 <= j < cs.len() && item_of_entry(#[trigger] popularity_items(cs)[i], #[trigger] cs[j]),
    decreases cs.len(),
{
    if cs.len() > 0 {
        let p = cs.drop_last();
        lemma_popularity_items(p);
        let items = popularity_items(cs);
        let pi = popularity_items(p);
        let last = cs.len() - 1;
        assert(cs[last] == cs.last());
        if has_collection_total(cs.last()) {
            assert(subject_collection_total(cs.last()) is Some);
            assert(items == pi.push((cs.last().subject->0.name@, cs.last().subject->0.collection_total->0)));
            assert(item_of_entry(items[pi.len() as int], cs[last]));
        } else {
            assert(items == pi);
        }
        assert forall|j: int| 0 <= j < cs.len() && has_collection_total(#[trigger] cs[j]) implies exists|i: int|
            0 <= i < items.len() && item_of_entry(#[trigger] items[i], cs[j]) by {
            if j < p.len() {
                assert(p[j] == cs[j]);
                assert(has_collection_total(p[j]));
                let i = choose|i: int| 0 <= i < pi.len() && item_of_entry(#[trigger] pi[i], p[j]);
                assert(items[i] == pi[i]);
            } else {
                assert(item_of_entry(items[pi.len() as int], cs[last]));
            }
        }
        assert forall|i: int| 0 <= i < items.len() implies exists|j: int|
            0 <= j < cs.len() && item_of_entry(#[trigger] items[i], #[trigger] cs[j]) by {
            if i < pi.len() {
                assert(items[i] == pi[i]);
                let j = choose|j: int| 0 <= j < p.len() && item_of_entry(#[trigger] pi[i], #[trigger] p[j]);
                assert(p[j] == cs[j]);
                assert(item_of_entry(items[i], cs[j]));
            } else {
                assert(item_of_entry(items[i], cs[last]));
            }
        }
    }
}

/// Private entries are those marked so, commented ones those with a
/// comment that is not blank. The popularity average is taken over the
/// entries whose subject has a collection count; the most collected
/// subject has the largest count of any entry and the least collected the
/// smallest, and each is the name and count of such an entry.
pub proof fn law_entry_counts(r: AnalysisResult, cs: Seq<UserSubjectCollection>)
    requires
        is_analysis(r, cs),
    ensures
        r.private_count == cs.filter(|c: UserSubjectCollection| is_private(c)).len(),
        r.comment_count == cs.filter(|c: UserSubjectCollection| has_written_comment(c)).len(),
        r.popularity_stats.avg_collection_total.count == cs.filter(
            |c: UserSubjectCollection| has_collection_total(c),
        ).len(),
        forall|j: int|
            0 <= j < cs.len() && has_collection_total(#[trigger] cs[j]) ==> r.popularity_stats.least_collected_count
                <= cs[j].subject->0.collection_total->0 <= r.popularity_stats.most_collected_count,
        cs.filter(|c: UserSubjectCollection| has_collection_total(c)).len() > 0 ==> exists|j: int|
            0 <= j < cs.len() && has_collection_total(#[trigger] cs[j]) && cs[j].subject->0.name@
                == r.popularity_stats.most_collected_name@ && cs[j].subject->0.collection_total->0
                == r.popularity_stats.most_collected_count,
        cs.filter(|c: UserSubjectCollection| has_collection_total(c)).len() > 0 ==> exists|j: int|
            0 <= j < cs.len() && has_collection_total(#[trigger] cs[j]) && cs[j].subject->0.name@
                == r.popularity_stats.least_collected_name@ && cs[j].subject->0.collection_total->0
                == r.popularity_stats.least_collected_count,
{
    lemma_entry_counts(cs);
    lemma_popularity_items(cs);
    let items = popularity_items(cs);
    let p = r.popularity_stats;
    if items.len() > 0 {
        let im = choose|i: int|
            0 <= i < items.len() && #[trigger] items[i] == (p.most_collected_name@, p.most_collected_count) && (forall|j: int|
                0 <= j < items.len() ==> #[trigger] items[j].1 <= p.most_collected_count) && (forall|j: int|
                0 <= j < i ==> #[trigger] items[j].1 < p.most_collected_count);
        let il = choose|i: int|
            0 <= i < items.len() && #[trigger] items[i] == (p.least_collected_name@, p.least_collected_count) && (forall|j: int|
                0 <= j < items.len() ==> #[trigger] items[j].1 >= p.least_collected_count) && (forall|j: int|
                i < j < items.len() ==> #[trigger] items[j].1 > p.least_collected_count);
        assert(items[im] == (p.most_collected_name@, p.most_collected_count));
        assert(items[il] == (p.least_collected_name@, p.least_collected_count));
        let jm = choose|j: int| 0 <= j < cs.len() && item_of_entry(#[trigger] items[im], #[trigger] cs[j]);
        let jl = choose|j: int| 0 <= j < cs.len() && item_of_entry(#[trigger] items[il], #[trigger] cs[j]);
        assert(has_collection_total(cs[jm]));
        assert(has_collection_total(cs[jl]));
        assert forall|j: int|
            0 <= j < cs.len() && has_collection_total(#[trigger] cs[j]) implies p.least_collected_count
                <= cs[j].subject->0.collection_total->0 <= p.most_collected_count by {
            let i = choose|i: int| 0 <= i < items.len() && item_of_entry(#[trigger] items[i], cs[j]);
            assert(items[i].1 <= p.most_collected_count);
            assert(items[i].1 >= p.least_collected_count);
        }
    } else {
        assert forall|j: int| 0 <= j < cs.len() && has_collection_total(#[trigger] cs[j]) implies false by {
            let i = choose|i: int| 0 <= i < items.len() && item_of_entry(#[trigger] items[i], cs[j]);
        }
    }
}

// ---------------------------------------------------------------------
// Best rated
// ---------------------------------------------------------------------

proof fn lemma_rated_positions_cover(cs: Seq<UserSubjectCollection>)
    ensures
        rated_positions(cs).len() == count_rated(cs),
        forall|k: int|
            0 <= k < rated_positions(cs).len() ==> 0 <= #[trigger] rated_positions(cs)[k] < cs.len()
                && cs[rated_positions(cs)[k]].rate > 0,
        forall|j: int|
            0 <= j < cs.len() && #[trigger] cs[j].rate > 0 ==> exists|x: int|
                0 <= x < rated_positions(cs).len() && #[trigger] rated_positions(cs)[x] == j,
    decreases cs.len(),
{
    reveal(Seq::filter);
    if cs.len() > 0 {
        let p = cs.drop_last();
        lemma_rated_positions_cover(p);
        let pp = rated_positions(p);
        let pc = rated_positions(cs);
        assert forall|k: int| 0 <= k < pp.len() implies cs[pp[k]] == p[pp[k]] by {}
        assert forall|j: int| 0 <= j < cs.len() && #[trigger] cs[j].rate > 0 implies exists|x: int|
            0 <= x < pc.len() && #[trigger] pc[x] == j by {
            if j < p.len() {
                assert(p[j] == cs[j]);
                let x = choose|x: int| 0 <= x < pp.len() && #[trigger] pp[x] == j;
                assert(pc[x] == pp[x]);
            } else {
                assert(pc[pp.len() as int] == j);
            }
        }
    }
}

/// The best rated list holds the ten best rated entries, or all rated
/// entries where there are fewer; its first item has the highest rating
/// of all.
pub proof fn law_top_rated_size_and_first(r: AnalysisResult, cs: Seq<UserSubjectCollection>)
    requires
        is_analysis(r, cs),
    ensures
        r.top_rated@.len() == if count_rated(cs) < 10 {
            count_rated(cs) as int
        } else {
            10
        },
        r.top_rated@.len() > 0 ==> forall|j: int|
            0 <= j < cs.len() && #[trigger] cs[j].rate > 0 ==> cs[j].rate <= r.top_rated@[0].rating,
{
    let top = r.top_rated@;
    let pos = rated_positions(cs);
    let n = pos.len() as int;
    let rel = top_rated_order(cs);
    let sel = choose|sel: Seq<usize>|
        {
            &&& is_first_in_order(sel, n, 10, rel)
            &&& top.len() == sel.len()
            &&& forall|k: int| 0 <= k < top.len() ==> item_matches(#[trigger] top[k], cs[pos[sel[k] as int]])
        };
    lemma_rated_positions_cover(cs);
    if top.len() > 0 {
        assert(item_matches(top[0], cs[pos[sel[0] as int]]));
        assert forall|j: int| 0 <= j < cs.len() && #[trigger] cs[j].rate > 0 implies cs[j].rate <= top[0].rating by {
            let x = choose|x: int| 0 <= x < pos.len() && #[trigger] pos[x] == j;
            if sel.contains(x as usize) {
                let k = choose|k: int| 0 <= k < sel.len() && sel[k] == x as usize;
                if k > 0 {
                    assert(rel(sel[0] as int, sel[k] as int));
                }
            } else {
                assert(rel(sel[0] as int, x));
            }
        }
    }
}

// ---------------------------------------------------------------------
// Hidden gems and overrated subjects
// ---------------------------------------------------------------------

/// The differences never rise along `s`.
pub open spec fn diffs_descending(s: Seq<ScoreComparison>) -> bool {
    forall|a: int, b: int| 0 <= a < b < s.len() ==> #[trigger] s[a].diff >= #[trigger] s[b].diff
}

/// The number of comparisons where the user rated above the community.
pub open spec fn count_above_community(s: Seq<ScoreComparison>) -> nat {
    s.filter(|x: ScoreComparison| x.diff > 0).len()
}

/// The number of comparisons where the user rated below the community.
pub open spec fn count_below_community(s: Seq<ScoreComparison>) -> nat {
    s.filter(|x: ScoreComparison| x.diff < 0).len()
}

proof fn lemma_gap_sorted_descending(sc: Seq<ScoreComparison>, cs: Seq<UserSubjectCollection>)
    requires
        is_gap_sorted(sc, cs),
    ensures
        diffs_descending(sc),
{
    let pos = compared_positions(cs);
    let sel = choose|sel: Seq<usize>|
        {
            &&& is_first_in_order(sel, pos.len() as int, pos.len() as int, gap_order(cs))
            &&& sc.len() == sel.len()
            &&& forall|k: int| 0 <= k < sc.len() ==> comparison_matches(#[trigger] sc[k], cs[pos[sel[k] as int]])
        };
    assert forall|a: int, b: int| 0 <= a < b < sc.len() implies #[trigger] sc[a].diff >= #[trigger] sc[b].diff by {
        assert(comparison_matches(sc[a], cs[pos[sel[a] as int]]));
        assert(comparison_matches(sc[b], cs[pos[sel[b] as int]]));
        assert(gap_order(cs)(sel[a] as int, sel[b] as int));
    }
}

proof fn lemma_sign_runs(s: Seq<ScoreComparison>)
    requires
        diffs_descending(s),
    ensures
        count_above_community(s) <= s.len(),
        count_below_community(s) <= s.len(),
        forall|k: int| 0 <= k < s.len() ==> (#[trigger] s[k].diff > 0 <==> k < count_above_community(s)),
        forall|k: int| 0 <= k < s.len() ==> (#[trigger] s[k].diff < 0 <==> k >= s.len() - count_below_community(s)),
    decreases s.len(),
{
    reveal(Seq::filter);
    if s.len() > 0 {
        let p = s.drop_last();
        assert forall|a: int, b: int| 0 <= a < b < p.len() implies #[trigger] p[a].diff >= #[trigger] p[b].diff by {
            assert(p[a] == s[a] && p[b] == s[b]);
        }
        lemma_sign_runs(p);
        let last = s.len() - 1;
        assert(s[last] == s.last());
        assert forall|k: int| 0 <= k < p.len() implies s[k] == #[trigger] p[k] by {}
        if s.last().diff > 0 {
            assert forall|k: int| 0 <= k < p.len() implies #[trigger] p[k].diff > 0 by {
                assert(s[k].diff >= s[last].diff);
            }
            if count_above_community(p) < p.len() {
                assert(p[p.len() - 1].diff > 0);
            }
        }
        if s.last().diff >= 0 {
            assert forall|k: int| 0 <= k < p.len() implies !(#[trigger] p[k].diff < 0) by {
                assert(s[k].diff >= s[last].diff);
            }
            if count_below_community(p) > 0 {
                assert(p[p.len() - 1].diff < 0);
            }
        }
        if s.last().diff <= 0 {
            assert forall|k: int| 0 <= k < s.len() implies (#[trigger] s[k].diff > 0 <==> k < count_above_community(s)) by {
                if k < p.len() {
                    assert(s[k] == p[k]);
                }
            }
        }
        if s.last().diff < 0 {
            assert forall|k: int| 0 <= k < s.len() implies (#[trigger] s[k].diff < 0 <==> k >= s.len() - count_below_community(s)) by {
                if k < p.len() {
                    assert(s[k] == p[k]);
                }
            }
        }
    }
}

proof fn lemma_gems_prefix(s: Seq<ScoreComparison>, i: int, lim: int)
    requires
        diffs_descending(s),
        0 <= i,
        0 <= lim,
    ensures
        i >= count_above_community(s) ==> gems_from(s, i, lim) == Seq::<ScoreComparison>::empty(),
        i < count_above_community(s) ==> gems_from(s, i, lim) == s.subrange(
            i,
            i + (if lim < count_above_community(s) - i {
                lim
            } else {
                count_above_community(s) - i
            }),
        ),
    decreases s.len() - i,
{
    lemma_sign_runs(s);
    let c = count_above_community(s) as int;
    if i >= s.len() || lim <= 0 {
        if i < c {
            assert(s.subrange(i, i) =~= Seq::<ScoreComparison>::empty());
        }
    } else if s[i].diff > 0 {
        lemma_gems_prefix(s, i + 1, lim - 1);
        let m = if lim < c - i {
            lim
        } else {
            c - i
        };
        assert(gems_from(s, i, lim) == seq![s[i]] + gems_from(s, i + 1, lim - 1));
        if i + 1 >= c {
            assert(m == 1);
            assert(seq![s[i]] + Seq::<ScoreComparison>::empty() =~= s.subrange(i, i + m));
        } else {
            assert(seq![s[i]] + s.subrange(i + 1, i + m) =~= s.subrange(i, i + m));
        }
    } else {
        lemma_gems_prefix(s, i + 1, lim);
    }
}

proof fn lemma_overrated_suffix(s: Seq<ScoreComparison>, j: int, lim: int)
    requires
        diffs_descending(s),
        j <= s.len(),
        0 <= lim,
    ensures
        ({
            let q = s.len() - count_below_community(s);
            let avail = if j - q > 0 {
                j - q
            } else {
                0
            };
            overrated_before(s, j, lim).len() == (if lim < avail {
                lim
            } else {
                avail
            })
        }),
        forall|k: int| 0 <= k < overrated_before(s, j, lim).len() ==> #[trigger] overrated_before(s, j, lim)[k] == s[j - 1 - k],
    decreases j,
{
    lemma_sign_runs(s);
    if j <= 0 || lim <= 0 {
    } else if s[j - 1].diff < 0 {
        lemma_overrated_suffix(s, j - 1, lim - 1);
        let rest = overrated_before(s, j - 1, lim - 1);
        assert(overrated_before(s, j, lim) == seq![s[j - 1]] + rest);
        assert forall|k: int| 0 <= k < overrated_before(s, j, lim).len() implies #[trigger] overrated_before(s, j, lim)[k] == s[j - 1 - k] by {
            if k > 0 {
                assert(overrated_before(s, j, lim)[k] == rest[k - 1]);
            }
        }
    } else {
        lemma_overrated_suffix(s, j - 1, lim);
    }
}

/// The comparisons are sorted by difference, largest first; the hidden
/// gems are their first five with the user above the community (all of
/// them where there are fewer), and the overrated subjects their last five
/// with the user below the community, from the last one back.
pub proof fn law_gems_and_overrated_extremes(r: AnalysisResult, cs: Seq<UserSubjectCollection>)
    requires
        is_analysis(r, cs),
    ensures
        diffs_descending(r.score_comparisons@),
        r.hidden_gems@ == r.score_comparisons@.take(
            if count_above_community(r.score_comparisons@) < 5 {
                count_above_community(r.score_comparisons@) as int
            } else {
                5
            },
        ),
        r.overrated@.len() == (if count_below_community(r.score_comparisons@) < 5 {
            count_below_community(r.score_comparisons@) as int
        } else {
            5
        }),
        forall|k: int|
            0 <= k < r.overrated@.len() ==> #[trigger] r.overrated@[k] == r.score_comparisons@[r.score_comparisons@.len() - 1 - k],
{
    let sc = r.score_comparisons@;
    lemma_gap_sorted_descending(sc, cs);
    lemma_sign_runs(sc);
    lemma_gems_prefix(sc, 0, 5);
    let c = count_above_community(sc) as int;
    if c == 0 {
        assert(sc.take(0) =~= Seq::<ScoreComparison>::empty());
    } else {
        let m = if c < 5 {
            c
        } else {
            5
        };
        assert(sc.subrange(0, m) =~= sc.take(m));
    }
    lemma_overrated_suffix(sc, sc.len() as int, 5);
}

// ---------------------------------------------------------------------
// Subject types
// ---------------------------------------------------------------------

/// The number of entries of the subject type named `kind_name`.
pub open spec fn count_of_kind(cs: Seq<UserSubjectCollection>, kind_name: Seq<char>) -> nat {
    cs.filter(|c: UserSubjectCollection| subject_type_label(c.subject_type) == kind_name).len()
}

proof fn lemma_type_label_count(cs: Seq<UserSubjectCollection>, kind_name: Seq<char>)
    ensures
        occurrences(type_labels(cs), kind_name) == count_of_kind(cs, kind_name),
    decreases cs.len(),
{
    reveal(Seq::filter);
    if cs.len() > 0 {
        lemma_type_label_count(cs.drop_last(), kind_name);
        assert(type_labels(cs).drop_last() =~= type_labels(cs.drop_last()));
    }
}

/// Each subject type of the type distribution stands with the number of
/// entries of that type; a type with entries is always listed.
pub proof fn law_type_distribution_counts(r: AnalysisResult, cs: Seq<UserSubjectCollection>)
    requires
        is_analysis(r, cs),
    ensures
        forall|i: int|
            0 <= i < r.type_distribution@.len() ==> #[trigger] r.type_distribution@[i].1 == count_of_kind(
                cs,
                r.type_distribution@[i].0@,
            ),
        forall|j: int|
            0 <= j < cs.len() ==> exists|i: int|
                0 <= i < r.type_distribution@.len() && #[trigger] r.type_distribution@[i].0@ == subject_type_label(
                    #[trigger] cs[j].subject_type,
                ),
{
    let t = pairs_view(r.type_distribution@);
    assert forall|i: int| 0 <= i < r.type_distribution@.len() implies #[trigger] r.type_distribution@[i].1
        == count_of_kind(cs, r.type_distribution@[i].0@) by {
        assert(t[i].1 == occurrences(type_labels(cs), t[i].0));
        lemma_type_label_count(cs, t[i].0);
    }
    assert forall|j: int| 0 <= j < cs.len() implies exists|i: int|
        0 <= i < r.type_distribution@.len() && #[trigger] r.type_distribution@[i].0@ == subject_type_label(
            #[trigger] cs[j].subject_type,
        ) by {
        assert(type_labels(cs)[j] == subject_type_label(cs[j].subject_type));
        assert(has_label(t, type_labels(cs)[j]));
        let i = choose|i: int| 0 <= i < t.len() && #[trigger] t[i].0 == type_labels(cs)[j];
        assert(t[i].0 == r.type_distribution@[i].0@);
    }
}

// ---------------------------------------------------------------------
// Average rating against the distribution
// ---------------------------------------------------------------------

/// The sum of `u * counts[u]` for `u` from 1 to `v`: the total of the
/// ratings that a distribution of ratings stands for.
pub open spec fn weighted_total(counts: Seq<usize>, v: int) -> int
    decreases v,
{
    if v <= 0 {
        0
    } else {
        weighted_total(counts, v - 1) + v * counts[v]
    }
}

/// The same sum over the rating counts of a collection.
spec fn weighted_rate_counts(cs: Seq<UserSubjectCollection>, v: int) -> int
    decreases v,
{
    if v <= 0 {
        0
    } else {
        weighted_rate_counts(cs, v - 1) + v * rate_count(cs, v)
    }
}

proof fn lemma_weighted_push(cs: Seq<UserSubjectCollection>, v: int)
    requires
        cs.len() > 0,
    ensures
        weighted_rate_counts(cs, v) == weighted_rate_counts(cs.drop_last(), v) + (if 0 < cs.last().rate <= v {
            cs.last().rate as int
        } else {
            0
        }),
    decreases v,
{
    if v > 0 {
        lemma_weighted_push(cs, v - 1);
        let d = rate_count(cs, v) - rate_count(cs.drop_last(), v);
        assert(d == 0 || d == 1);
        assert(v * rate_count(cs, v) == v * rate_count(cs.drop_last(), v) + v * d) by (nonlinear_arith)
            requires
                d == rate_count(cs, v) - rate_count(cs.drop_last(), v),
        ;
    }
}

proof fn lemma_weighted_total(cs: Seq<UserSubjectCollection>)
    requires
        ratings_in_range(cs),
    ensures
        rating_total(cs) == weighted_rate_counts(cs, 10),
    decreases cs.len(),
{
    if cs.len() > 0 {
        let p = cs.drop_last();
        assert forall|i: int| 0 <= i < p.len() implies #[trigger] p[i].rate <= 10 by {
            assert(p[i] == cs[i]);
        }
        lemma_weighted_total(p);
        lemma_weighted_push(cs, 10);
        assert(cs[cs.len() - 1].rate <= 10);
    } else {
        lemma_weighted_empty(cs, 10);
    }
}

proof fn lemma_weighted_empty(cs: Seq<UserSubjectCollection>, v: int)
    requires
        cs.len() == 0,
    ensures
        weighted_rate_counts(cs, v) == 0,
    decreases v,
{
    if v > 0 {
        lemma_weighted_empty(cs, v - 1);
        assert(rate_count(cs, v) == 0);
        assert(v * 0 == 0);
    }
}

proof fn lemma_weighted_same(counts: Seq<usize>, cs: Seq<UserSubjectCollection>, v: int)
    requires
        v <= 10,
        counts.len() == 11,
        forall|u: int| 0 <= u < 11 ==> #[trigger] counts[u] == rate_count(cs, u),
    ensures
        weighted_total(counts, v) == weighted_rate_counts(cs, v),
    decreases v,
{
    if v > 0 {
        lemma_weighted_same(counts, cs, v - 1);
    }
}

/// The average rating is taken over the ratings that the distribution
/// counts: its total is the sum of each rating times its count, and its
/// count the sum of the counts.
pub proof fn law_average_matches_distribution(r: AnalysisResult, cs: Seq<UserSubjectCollection>)
    requires
        is_analysis(r, cs),
        ratings_in_range(cs),
    ensures
        r.average_rating.total == weighted_total(r.rating_distribution@, 10),
{
    lemma_weighted_total(cs);
    lemma_weighted_same(r.rating_distribution@, cs, 10);
}

} // verus!
