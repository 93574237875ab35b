//! The statistics computed over a user's collection.
use vstd::prelude::*;
use crate::counts::{
    comment_count, commented_entries, completion_counts, completion_matches, compute_completion,
    private_count, private_entries, rank_bands, rank_distribution, rank_matches,
};
use crate::groups::{
    is_sorted_tally, is_status_distribution, is_top_tally, month_labels, release_dates_cut_cleanly,
    release_years, status_distribution, tag_counts, tag_labels, timeline, timeline_view,
    top_by_count, type_distribution, type_labels, update_times_cut_cleanly, year_labels,
};
use crate::model::UserSubjectCollection;
use crate::popularity::{is_popularity, popularity_stats};
use crate::ratings::{
    copy_item, count_ratings, is_top_rated, median_parts, median_rating, rate_count, rated_entries,
    rating_total, ratings_in_range, top_rated_items,
};
use crate::scores::{
    compare_scores, compared_positions, compared_score_total, gems_from, hidden_gems,
    is_gap_sorted, overrated, overrated_before,
};
use crate::tally::{is_tally, pairs_view};

verus! {

/// An average, kept exact as a total and the number of values summed;
/// both are zero where there was nothing to average.
#[derive(Clone, Copy, Debug)]
pub struct Mean {
    pub total: u128,
    pub count: usize,
}

/// A subject the user rated, as shown in the lists of top items.
#[derive(Debug)]
pub struct RatedItem {
    pub name: String,
    pub name_cn: Option<String>,
    pub rating: u8,
    pub subject_type: String,
    pub subject_id: u64,
    pub cover_url: Option<String>,
    /// The community score, in thousandths of a point.
    pub community_score: Option<u32>,
    pub rank: Option<u64>,
}

/// How many collection entries were last updated in a month ("YYYY-MM").
#[derive(Debug)]
pub struct TimelineEntry {
    pub month: String,
    pub count: usize,
}

/// Progress over the subjects of one type whose length is known:
/// how many are known, finished, and started but not finished.
#[derive(Clone, Copy, Debug)]
pub struct CompletionStats {
    pub total_with_progress: usize,
    pub completed: usize,
    pub in_progress: usize,
}

/// The user's rating of a subject beside the community's score.
#[derive(Debug)]
pub struct ScoreComparison {
    pub name: String,
    pub name_cn: Option<String>,
    pub user_score: u8,
    /// The community score, in thousandths of a point.
    pub community_score: u32,
    /// The user's rating minus the community score, in thousandths of a point.
    pub diff: i64,
    pub subject_id: u64,
    pub subject_type: String,
}

/// How the collected subjects stand in the site's ranking.
#[derive(Clone, Copy, Debug)]
pub struct RankDistribution {
    pub top_100: usize,
    pub top_500: usize,
    pub top_1000: usize,
    pub ranked: usize,
    pub unranked: usize,
}

/// How many users collected the user's subjects.
#[derive(Debug)]
pub struct PopularityStats {
    pub avg_collection_total: Mean,
    pub most_collected_name: String,
    pub most_collected_count: u64,
    pub least_collected_name: String,
    pub least_collected_count: u64,
}

/// Everything that the analysis of a collection finds.
#[derive(Debug)]
pub struct AnalysisResult {
    pub total_count: usize,
    /// Entries per subject type name.
    pub type_distribution: Vec<(String, usize)>,
    /// Per subject type name, entries per collection state name.
    pub status_distribution: Vec<(String, Vec<(String, usize)>)>,
    /// Entries per rating, indexed 0 to 10 (index 0 stays 0).
    pub rating_distribution: Vec<usize>,
    pub average_rating: Mean,
    pub median_rating: Mean,
    pub top_rated: Vec<RatedItem>,
    pub top_tags: Vec<(String, usize)>,
    pub timeline: Vec<TimelineEntry>,
    pub completion_stats: CompletionStats,
    pub score_comparisons: Vec<ScoreComparison>,
    pub release_year_dist: Vec<(String, usize)>,
    pub rank_distribution: RankDistribution,
    pub private_count: usize,
    pub comment_count: usize,
    pub book_completion: CompletionStats,
    /// The average community score, in thousandths of a point.
    pub avg_community_score: Mean,
    pub popularity_stats: PopularityStats,
    pub most_popular: Vec<RatedItem>,
    pub hidden_gems: Vec<ScoreComparison>,
    pub overrated: Vec<ScoreComparison>,
}

/// The collections that the analysis accepts: ratings from 0 to 10, a
/// number of tags that a `usize` can count, and dates that can be cut at
/// the byte positions read (ten bytes of the update time, four of the
/// release date) without splitting a character.
pub open spec fn analyzable(cs: Seq<UserSubjectCollection>) -> bool {
    &&& ratings_in_range(cs)
    &&& tag_labels(cs).len() < usize::MAX
    &&& update_times_cut_cleanly(cs)
    &&& release_dates_cut_cleanly(cs)
}

/// `r` is the analysis of the collection `cs`.
pub open spec fn is_analysis(r: AnalysisResult, cs: Seq<UserSubjectCollection>) -> bool {
    &&& r.total_count == cs.len()
    &&& is_tally(pairs_view(r.type_distribution@), type_labels(cs))
    &&& is_status_distribution(r.status_distribution@, cs)
    &&& r.rating_distribution@.len() == 11
    &&& forall|v: int| 0 <= v < 11 ==> #[trigger] r.rating_distribution@[v] == rate_count(cs, v)
    &&& r.average_rating.total == rating_total(cs)
    &&& r.average_rating.count == rated_entries(cs)
    &&& r.median_rating.total == median_parts(cs).0
    &&& r.median_rating.count == median_parts(cs).1
    &&& is_top_rated(r.top_rated@, cs, 10)
    &&& is_top_tally(pairs_view(r.top_tags@), tag_labels(cs), 30)
    &&& is_sorted_tally(timeline_view(r.timeline@), month_labels(cs))
    &&& completion_matches(r.completion_stats, completion_counts(cs, 2, false))
    &&& is_gap_sorted(r.score_comparisons@, cs)
    &&& is_sorted_tally(pairs_view(r.release_year_dist@), year_labels(cs))
    &&& rank_matches(r.rank_distribution, rank_bands(cs))
    &&& r.private_count == private_entries(cs)
    &&& r.comment_count == commented_entries(cs)
    &&& completion_matches(r.book_completion, completion_counts(cs, 1, true))
    &&& r.avg_community_score.total == compared_score_total(cs)
    &&& r.avg_community_score.count == compared_positions(cs).len()
    &&& is_popularity(r.popularity_stats, cs)
    &&& is_top_rated(r.most_popular@, cs, 10)
    &&& r.hidden_gems@ == gems_from(r.score_comparisons@, 0, 5)
    &&& r.overrated@ == overrated_before(r.score_comparisons@, r.score_comparisons@.len() as int, 5)
}

/// Analyzes a user's collection: how the entries spread over types,
/// states, ratings, tags, months and release years; the average and
/// median rating; the best rated subjects; progress through anime and
/// books; the ratings beside the community scores; ranking bands; private
/// and commented entries; and how popular the subjects are.
pub fn analyze_collections(collections: &[UserSubjectCollection]) -> (r: AnalysisResult)
    requires
        analyzable(collections@),
    ensures
        is_analysis(r, collections@),
{
    let ghost cs = collections@;
    let total_count = collections.len();
    let type_dist = type_distribution(collections);
    let status_dist = status_distribution(collections, &type_dist);
    let ratings = count_ratings(collections);
    let median = median_rating(&ratings, Ghost(cs));
    let top_rated = top_rated_items(collections);
    let tags = tag_counts(collections);
    let top_tags = top_by_count(&tags, 30, Ghost(tag_labels(cs)));
    let months = timeline(collections);
    let anime_completion = compute_completion(collections, 2, false);
    let book_completion = compute_completion(collections, 1, true);
    let comparisons = compare_scores(collections);
    let gems = hidden_gems(&comparisons.sorted);
    let worst = overrated(&comparisons.sorted);
    let years = release_years(collections);
    let ranks = rank_distribution(collections);
    let private = private_count(collections);
    let comments = comment_count(collections);
    let popularity = popularity_stats(collections);
    let mut most_popular: Vec<RatedItem> = Vec::new();
    let mut k: usize = 0;
    while k < top_rated.len()
        invariant
            k <= top_rated.len(),
            most_popular.len() == k,
            forall|j: int| 0 <= j < k ==> same_item(#[trigger] most_popular@[j], top_rated@[j]),
        decreases top_rated.len() - k,
    {
        let item = copy_item(&top_rated[k]);
        most_popular.push(item);
        k = k + 1;
    }
    proof {
        lemma_same_items_top_rated(top_rated@, most_popular@, cs);
    }
    let ratings_histogram = ratings.histogram;
    AnalysisResult {
        total_count,
        type_distribution: type_dist,
        status_distribution: status_dist,
        rating_distribution: ratings_histogram,
        average_rating: Mean { total: ratings.total, count: ratings.count },
        median_rating: median,
        top_rated,
        top_tags,
        timeline: months,
        completion_stats: anime_completion,
        score_comparisons: comparisons.sorted,
        release_year_dist: years,
        rank_distribution: ranks,
        private_count: private,
        comment_count: comments,
        book_completion,
        avg_community_score: comparisons.average,
        popularity_stats: popularity,
        most_popular,
        hidden_gems: gems,
        overrated: worst,
    }
}

/// Two items describe the same subject in the same way.
pub open spec fn same_item(a: RatedItem, b: RatedItem) -> bool {
    &&& a.name@ == b.name@
    &&& crate::model::opt_view(a.name_cn) == crate::model::opt_view(b.name_cn)
    &&& a.rating == b.rating
    &&& a.subject_type@ == b.subject_type@
    &&& a.subject_id == b.subject_id
    &&& crate::model::opt_view(a.cover_url) == crate::model::opt_view(b.cover_url)
    &&& a.community_score == b.community_score
    &&& a.rank == b.rank
}

proof fn lemma_same_items_top_rated(a: Seq<RatedItem>, b: Seq<RatedItem>, cs: Seq<UserSubjectCollection>)
    requires
        is_top_rated(a, cs, 10),
        a.len() == b.len(),
        forall|j: int| 0 <= j < a.len() ==> same_item(#[trigger] b[j], a[j]),
    ensures
        is_top_rated(b, cs, 10),
{
    let sel = choose|sel: Seq<usize>|
        {
            &&& crate::order::is_first_in_order(
                sel,
                crate::ratings::rated_positions(cs).len() as int,
                10,
                crate::ratings::top_rated_order(cs),
            )
            &&& a.len() == sel.len()
            &&& forall|k: int|
                0 <= k < a.len() ==> crate::ratings::item_matches(
                    #[trigger] a[k],
                    cs[crate::ratings::rated_positions(cs)[sel[k] as int]],
                )
        };
    assert forall|k: int| 0 <= k < b.len() implies crate::ratings::item_matches(
        #[trigger] b[k],
        cs[crate::ratings::rated_positions(cs)[sel[k] as int]],
    ) by {
        assert(same_item(b[k], a[k]));
        assert(crate::ratings::item_matches(a[k], cs[crate::ratings::rated_positions(cs)[sel[k] as int]]));
    }
}

} // verus!
