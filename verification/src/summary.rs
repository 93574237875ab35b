//! The plain-text summary of an analysis that the AI is asked about.
use vstd::prelude::*;
use vstd::string::StringExecFns;
use crate::analysis::{AnalysisResult, RatedItem, ScoreComparison};
use crate::model::opt_view;
use crate::text::{decimal, push_decimal, push_text};

verus! {

/// The texts of the analysis' fractional figures, written as the report
/// shows them: one decimal for ratings, scores and rates, none for the
/// average collection count.
pub struct Figures {
    pub average_rating: String,
    pub median_rating: String,
    pub avg_community_score: String,
    pub anime_completion_rate: String,
    pub book_completion_rate: String,
    pub avg_popularity: String,
    /// For each top rated item, its community score, if it has one.
    pub top_rated_community: Vec<Option<String>>,
    /// For each hidden gem, its community score and its difference.
    pub gem_scores: Vec<(String, String)>,
    /// For each overrated item, its community score and its difference.
    pub overrated_scores: Vec<(String, String)>,
    /// The users' scores of the hidden gems and then the overrated items,
    /// as a JSON array of numbers.
    pub user_scores_json: String,
    /// Their community scores, as a JSON array of numbers.
    pub community_scores_json: String,
}

/// The figures fit the analysis: one per listed item, and a community
/// score text exactly for the top rated items that have a community score.
pub open spec fn figures_fit(f: Figures, a: AnalysisResult) -> bool {
    &&& f.top_rated_community@.len() == a.top_rated@.len()
    &&& forall|i: int|
        0 <= i < a.top_rated@.len() ==> (#[trigger] f.top_rated_community@[i] is Some
            <==> a.top_rated@[i].community_score is Some)
    &&& f.gem_scores@.len() == a.hidden_gems@.len()
    &&& f.overrated_scores@.len() == a.overrated@.len()
}

/// The name a subject is shown under: its Chinese name where it has a
/// non-empty one, else its name.
pub open spec fn shown_name(name: Seq<char>, name_cn: Option<Seq<char>>) -> Seq<char> {
    match name_cn {
        Some(n) => if n.len() > 0 {
            n
        } else {
            name
        },
        None => name,
    }
}

/// Chooses the name a subject is shown under.
pub fn shown_name_of<'a>(name: &'a String, name_cn: &'a Option<String>) -> (s: &'a str)
    ensures
        s@ == shown_name(name@, opt_view(*name_cn)),
{
    match name_cn {
        Some(n) => {
            let t = n.as_str();
            if t.is_empty() {
                name.as_str()
            } else {
                t
            }
        },
        None => name.as_str(),
    }
}

/// One line per subject type: "  <type>：<count> 个".
pub open spec fn type_lines(d: Seq<(String, usize)>) -> Seq<char>
    decreases d.len(),
{
    if d.len() == 0 {
        seq![]
    } else {
        type_lines(d.drop_last()) + "  "@ + d.last().0@ + "："@ + decimal(d.last().1 as nat)
            + " 个\n"@
    }
}

/// One line per rating that some entry has: "  <rating>分：<count> 个".
pub open spec fn rating_lines(rd: Seq<usize>) -> Seq<char>
    decreases rd.len(),
{
    if rd.len() == 0 {
        seq![]
    } else if rd.last() > 0 {
        rating_lines(rd.drop_last()) + "  "@ + decimal((rd.len() - 1) as nat) + "分："@ + decimal(
            rd.last() as nat,
        ) + " 个\n"@
    } else {
        rating_lines(rd.drop_last())
    }
}

/// The community score note of a top rated item: "(社区 <score>)" or
/// nothing.
pub open spec fn community_note(score: Option<String>) -> Seq<char> {
    match score {
        Some(s) => "(社区 "@ + s@ + ")"@,
        None => seq![],
    }
}

/// The line of a top rated item: "  <rating>分 <note> - <name> (<type>)".
pub open spec fn top_rated_line(item: RatedItem, note: Option<String>) -> Seq<char> {
    "  "@ + decimal(item.rating as nat) + "分 "@ + community_note(note) + " - "@ + shown_name(
        item.name@,
        opt_view(item.name_cn),
    ) + " ("@ + item.subject_type@ + ")\n"@
}

/// One line per top rated item.
pub open spec fn top_rated_lines(items: Seq<RatedItem>, notes: Seq<Option<String>>) -> Seq<char>
    decreases items.len(),
{
    if items.len() == 0 {
        seq![]
    } else {
        top_rated_lines(items.drop_last(), notes) + top_rated_line(items.last(), notes[items.len() - 1])
    }
}

/// The line of a compared item:
/// "  <rating> vs 社区 <score> (差值 <sign><diff>) - <name>".
pub open spec fn comparison_line(item: ScoreComparison, s: (String, String), sign: Seq<char>) -> Seq<char> {
    "  "@ + decimal(item.user_score as nat) + " vs 社区 "@ + s.0@ + " (差值 "@ + sign + s.1@
        + ") - "@ + shown_name(item.name@, opt_view(item.name_cn)) + "\n"@
}

/// One line per compared item.
pub open spec fn comparison_lines(
    items: Seq<ScoreComparison>,
    scores: Seq<(String, String)>,
    sign: Seq<char>,
) -> Seq<char>
    decreases items.len(),
{
    if items.len() == 0 {
        seq![]
    } else {
        comparison_lines(items.drop_last(), scores, sign) + comparison_line(
            items.last(),
            scores[items.len() - 1],
            sign,
        )
    }
}

/// One line per tag: "  <tag>：<count> 次".
pub open spec fn tag_lines(tags: Seq<(String, usize)>) -> Seq<char>
    decreases tags.len(),
{
    if tags.len() == 0 {
        seq![]
    } else {
        tag_lines(tags.drop_last()) + "  "@ + tags.last().0@ + "："@ + decimal(tags.last().1 as nat)
            + " 次\n"@
    }
}

/// A section with a heading, present only where it has lines.
pub open spec fn optional_section(heading: Seq<char>, lines: Seq<char>, present: bool) -> Seq<char> {
    if present {
        heading + lines
    } else {
        seq![]
    }
}

/// The opening lines: user, counts and averages.
pub open spec fn summary_head(a: AnalysisResult, username: Seq<char>, f: Figures) -> Seq<char> {
    "用户 "@ + username + " 的收藏概览：\n总收藏数："@ + decimal(a.total_count as nat)
        + "\n平均评分："@ + f.average_rating@ + "\n中位数评分："@ + f.median_rating@
        + "\n社区平均评分："@ + f.avg_community_score@ + "\n私密收藏："@ + decimal(
        a.private_count as nat,
    ) + " 个\n有评论的收藏："@ + decimal(a.comment_count as nat) + " 个\n\n"@
}

/// The completion lines for anime and books.
pub open spec fn summary_completion(a: AnalysisResult, f: Figures) -> Seq<char> {
    "\n动画完成率："@ + f.anime_completion_rate@ + "%（"@ + decimal(
        a.completion_stats.total_with_progress as nat,
    ) + "部有集数信息，"@ + decimal(a.completion_stats.completed as nat) + "部已看完，"@
        + decimal(a.completion_stats.in_progress as nat) + "部在看中）\n"@ + "书籍完成率："@
        + f.book_completion_rate@ + "%（"@ + decimal(a.book_completion.total_with_progress as nat)
        + "本有卷数信息，"@ + decimal(a.book_completion.completed as nat) + "本已看完，"@ + decimal(
        a.book_completion.in_progress as nat,
    ) + "本在看中）\n"@
}

/// The ranking line.
pub open spec fn summary_ranks(a: AnalysisResult) -> Seq<char> {
    "\n排名分布：Top100: "@ + decimal(a.rank_distribution.top_100 as nat) + "个, Top500: "@
        + decimal(a.rank_distribution.top_500 as nat) + "个, Top1000: "@ + decimal(
        a.rank_distribution.top_1000 as nat,
    ) + "个, 有排名: "@ + decimal(a.rank_distribution.ranked as nat) + "个, 无排名: "@ + decimal(
        a.rank_distribution.unranked as nat,
    ) + "个\n"@
}

/// The popularity line.
pub open spec fn summary_popularity(a: AnalysisResult, f: Figures) -> Seq<char> {
    "\n人气统计：平均收藏人数 "@ + f.avg_popularity@ + "，最热门「"@
        + a.popularity_stats.most_collected_name@ + "」("@ + decimal(
        a.popularity_stats.most_collected_count as nat,
    ) + "人收藏)，最冷门「"@ + a.popularity_stats.least_collected_name@ + "」("@ + decimal(
        a.popularity_stats.least_collected_count as nat,
    ) + "人收藏)\n"@
}

/// The whole summary of an analysis for a user.
pub open spec fn summary_text(a: AnalysisResult, username: Seq<char>, f: Figures) -> Seq<char> {
    summary_head(a, username, f) + "类型分布：\n"@ + type_lines(a.type_distribution@)
        + summary_completion(a, f) + "\n评分分布：\n"@ + rating_lines(a.rating_distribution@)
        + summary_ranks(a) + summary_popularity(a, f) + "\n最高评分作品：\n"@ + top_rated_lines(
        a.top_rated@,
        f.top_rated_community@,
    ) + optional_section(
        "\n沧海遗珠（用户评分远高于社区评分）：\n"@,
        comparison_lines(a.hidden_gems@, f.gem_scores@, "+"@),
        a.hidden_gems@.len() > 0,
    ) + optional_section(
        "\n过誉之作（用户评分远低于社区评分）：\n"@,
        comparison_lines(a.overrated@, f.overrated_scores@, ""@),
        a.overrated@.len() > 0,
    ) + "\n热门标签（前10）：\n"@ + tag_lines(
        a.top_tags@.take(if a.top_tags@.len() < 10 {
            a.top_tags@.len() as int
        } else {
            10
        }),
    )
}

fn push_type_lines(out: &mut String, d: &Vec<(String, usize)>)
    ensures
        final(out)@ == old(out)@ + type_lines(d@),
{
    let ghost start = out@;
    let mut i: usize = 0;
    assert(d@.take(0) =~= Seq::<(String, usize)>::empty());
    while i < d.len()
        invariant
            i <= d.len(),
            out@ == start + type_lines(d@.take(i as int)),
        decreases d.len() - i,
    {
        assert(d@.take(i + 1).drop_last() =~= d@.take(i as int));
        push_text(out, "  ");
        push_text(out, d[i].0.as_str());
        push_text(out, "：");
        push_decimal(out, d[i].1 as u64);
        push_text(out, " 个\n");
        i = i + 1;
        assert(out@ =~= start + type_lines(d@.take(i as int)));
    }
    assert(d@.take(d.len() as int) =~= d@);
}

fn push_rating_lines(out: &mut String, rd: &Vec<usize>)
    ensures
        final(out)@ == old(out)@ + rating_lines(rd@),
{
    let ghost start = out@;
    let mut i: usize = 0;
    assert(rd@.take(0) =~= Seq::<usize>::empty());
    while i < rd.len()
        invariant
            i <= rd.len(),
            out@ == start + rating_lines(rd@.take(i as int)),
        decreases rd.len() - i,
    {
        assert(rd@.take(i + 1).drop_last() =~= rd@.take(i as int));
        if rd[i] > 0 {
            push_text(out, "  ");
            push_decimal(out, i as u64);
            push_text(out, "分：");
            push_decimal(out, rd[i] as u64);
            push_text(out, " 个\n");
        }
        i = i + 1;
        assert(out@ =~= start + rating_lines(rd@.take(i as int)));
    }
    assert(rd@.take(rd.len() as int) =~= rd@);
}

fn push_top_rated_line(out: &mut String, item: &RatedItem, note: &Option<String>)
    ensures
        final(out)@ == old(out)@ + top_rated_line(*item, *note),
{
    let ghost start = out@;
    push_text(out, "  ");
    push_decimal(out, item.rating as u64);
    push_text(out, "分 ");
    let ghost mid = out@;
    match note {
        Some(s) => {
            push_text(out, "(社区 ");
            push_text(out, s.as_str());
            push_text(out, ")");
            assert(out@ =~= mid + community_note(*note));
        },
        None => {
            assert(out@ =~= mid + community_note(*note));
        },
    }
    push_text(out, " - ");
    push_text(out, shown_name_of(&item.name, &item.name_cn));
    push_text(out, " (");
    push_text(out, item.subject_type.as_str());
    push_text(out, ")\n");
    assert(out@ =~= start + top_rated_line(*item, *note));
}

fn push_comparison_line(out: &mut String, item: &ScoreComparison, score: &(String, String), sign: &str)
    ensures
        final(out)@ == old(out)@ + comparison_line(*item, *score, sign@),
{
    let ghost start = out@;
    push_text(out, "  ");
    push_decimal(out, item.user_score as u64);
    push_text(out, " vs 社区 ");
    push_text(out, score.0.as_str());
    push_text(out, " (差值 ");
    push_text(out, sign);
    push_text(out, score.1.as_str());
    push_text(out, ") - ");
    push_text(out, shown_name_of(&item.name, &item.name_cn));
    push_text(out, "\n");
    assert(out@ =~= start + comparison_line(*item, *score, sign@));
}

fn push_top_rated_lines(out: &mut String, items: &Vec<RatedItem>, notes: &Vec<Option<String>>)
    requires
        items.len() == notes.len(),
    ensures
        final(out)@ == old(out)@ + top_rated_lines(items@, notes@),
{
    let ghost start = out@;
    let mut i: usize = 0;
    assert(items@.take(0) =~= Seq::<RatedItem>::empty());
    while i < items.len()
        invariant
            i <= items.len(),
            items.len() == notes.len(),
            out@ == start + top_rated_lines(items@.take(i as int), notes@),
        decreases items.len() - i,
    {
        assert(items@.take(i + 1).drop_last() =~= items@.take(i as int));
        let ghost before = out@;
        push_top_rated_line(out, &items[i], &notes[i]);
        i = i + 1;
        proof {
            let j = i - 1;
            assert(items@.take(i as int).last() == items@[j]);
            vstd::seq_lib::lemma_concat_associative(
                start,
                top_rated_lines(items@.take(j), notes@),
                top_rated_line(items@[j], notes@[j]),
            );
        }
    }
    assert(items@.take(items.len() as int) =~= items@);
}

fn push_comparison_lines(
    out: &mut String,
    items: &Vec<ScoreComparison>,
    scores: &Vec<(String, String)>,
    sign: &str,
)
    requires
        items.len() == scores.len(),
    ensures
        final(out)@ == old(out)@ + comparison_lines(items@, scores@, sign@),
{
    let ghost start = out@;
    let mut i: usize = 0;
    assert(items@.take(0) =~= Seq::<ScoreComparison>::empty());
    while i < items.len()
        invariant
            i <= items.len(),
            items.len() == scores.len(),
            out@ == start + comparison_lines(items@.take(i as int), scores@, sign@),
        decreases items.len() - i,
    {
        assert(items@.take(i + 1).drop_last() =~= items@.take(i as int));
        push_comparison_line(out, &items[i], &scores[i], sign);
        i = i + 1;
        proof {
            let j = i - 1;
            assert(items@.take(i as int).last() == items@[j]);
            vstd::seq_lib::lemma_concat_associative(
                start,
                comparison_lines(items@.take(j), scores@, sign@),
                comparison_line(items@[j], scores@[j], sign@),
            );
        }
    }
    assert(items@.take(items.len() as int) =~= items@);
}

fn push_tag_lines(out: &mut String, tags: &Vec<(String, usize)>, limit: usize)
    ensures
        final(out)@ == old(out)@ + tag_lines(
            tags@.take(
                if tags@.len() < limit {
                    tags@.len() as int
                } else {
                    limit as int
                },
            ),
        ),
{
    let ghost start = out@;
    let n = if tags.len() < limit {
        tags.len()
    } else {
        limit
    };
    let mut i: usize = 0;
    assert(tags@.take(0) =~= Seq::<(String, usize)>::empty());
    while i < n
        invariant
            i <= n,
            n <= tags.len(),
            out@ == start + tag_lines(tags@.take(i as int)),
        decreases n - i,
    {
        assert(tags@.take(i + 1).drop_last() =~= tags@.take(i as int));
        push_text(out, "  ");
        push_text(out, tags[i].0.as_str());
        push_text(out, "：");
        push_decimal(out, tags[i].1 as u64);
        push_text(out, " 次\n");
        i = i + 1;
        assert(out@ =~= start + tag_lines(tags@.take(i as int)));
    }
}

fn push_head(s: &mut String, a: &AnalysisResult, username: &str, f: &Figures)
    ensures
        final(s)@ == old(s)@ + summary_head(*a, username@, *f),
{
    let ghost start = s@;
    push_text(s, "用户 ");
    push_text(s, username);
    push_text(s, " 的收藏概览：\n总收藏数：");
    push_decimal(s, a.total_count as u64);
    push_text(s, "\n平均评分：");
    push_text(s, f.average_rating.as_str());
    push_text(s, "\n中位数评分：");
    push_text(s, f.median_rating.as_str());
    push_text(s, "\n社区平均评分：");
    push_text(s, f.avg_community_score.as_str());
    push_text(s, "\n私密收藏：");
    push_decimal(s, a.private_count as u64);
    push_text(s, " 个\n有评论的收藏：");
    push_decimal(s, a.comment_count as u64);
    push_text(s, " 个\n\n");
    assert(s@ =~= start + summary_head(*a, username@, *f));
}

fn push_completion(s: &mut String, a: &AnalysisResult, f: &Figures)
    ensures
        final(s)@ == old(s)@ + summary_completion(*a, *f),
{
    let ghost start = s@;
    push_text(s, "\n动画完成率：");
    push_text(s, f.anime_completion_rate.as_str());
    push_text(s, "%（");
    push_decimal(s, a.completion_stats.total_with_progress as u64);
    push_text(s, "部有集数信息，");
    push_decimal(s, a.completion_stats.completed as u64);
    push_text(s, "部已看完，");
    push_decimal(s, a.completion_stats.in_progress as u64);
    push_text(s, "部在看中）\n");
    push_text(s, "书籍完成率：");
    push_text(s, f.book_completion_rate.as_str());
    push_text(s, "%（");
    push_decimal(s, a.book_completion.total_with_progress as u64);
    push_text(s, "本有卷数信息，");
    push_decimal(s, a.book_completion.completed as u64);
    push_text(s, "本已看完，");
    push_decimal(s, a.book_completion.in_progress as u64);
    push_text(s, "本在看中）\n");
    assert(s@ =~= start + summary_completion(*a, *f));
}

fn push_ranks(s: &mut String, a: &AnalysisResult)
    ensures
        final(s)@ == old(s)@ + summary_ranks(*a),
{
    let ghost start = s@;
    push_text(s, "\n排名分布：Top100: ");
    push_decimal(s, a.rank_distribution.top_100 as u64);
    push_text(s, "个, Top500: ");
    push_decimal(s, a.rank_distribution.top_500 as u64);
    push_text(s, "个, Top1000: ");
    push_decimal(s, a.rank_distribution.top_1000 as u64);
    push_text(s, "个, 有排名: ");
    push_decimal(s, a.rank_distribution.ranked as u64);
    push_text(s, "个, 无排名: ");
    push_decimal(s, a.rank_distribution.unranked as u64);
    push_text(s, "个\n");
    assert(s@ =~= start + summary_ranks(*a));
}

fn push_popularity(s: &mut String, a: &AnalysisResult, f: &Figures)
    ensures
        final(s)@ == old(s)@ + summary_popularity(*a, *f),
{
    let ghost start = s@;
    push_text(s, "\n人气统计：平均收藏人数 ");
    push_text(s, f.avg_popularity.as_str());
    push_text(s, "，最热门「");
    push_text(s, a.popularity_stats.most_collected_name.as_str());
    push_text(s, "」(");
    push_decimal(s, a.popularity_stats.most_collected_count);
    push_text(s, "人收藏)，最冷门「");
    push_text(s, a.popularity_stats.least_collected_name.as_str());
    push_text(s, "」(");
    push_decimal(s, a.popularity_stats.least_collected_count);
    push_text(s, "人收藏)\n");
    assert(s@ =~= start + summary_popularity(*a, *f));
}

/// The plain-text summary of an analysis for a user: counts and averages,
/// types, completion, ratings, ranking bands, popularity, the best rated
/// subjects, the hidden gems and overrated subjects where there are any,
/// and the ten most frequent tags.
pub fn format_analysis_summary(analysis: &AnalysisResult, username: &str, figures: &Figures) -> (summary: String)
    requires
        figures_fit(*figures, *analysis),
    ensures
        summary@ == summary_text(*analysis, username@, *figures),
{
    let a = analysis;
    let f = figures;
    let mut s = String::new();
    push_head(&mut s, a, username, f);
    let ghost p0 = s@;
    push_text(&mut s, "类型分布：\n");
    push_type_lines(&mut s, &a.type_distribution);
    push_completion(&mut s, a, f);
    push_text(&mut s, "\n评分分布：\n");
    push_rating_lines(&mut s, &a.rating_distribution);
    push_ranks(&mut s, a);
    push_popularity(&mut s, a, f);
    let ghost p1 = s@;
    push_text(&mut s, "\n最高评分作品：\n");
    push_top_rated_lines(&mut s, &a.top_rated, &f.top_rated_community);
    let ghost p2 = s@;
    if a.hidden_gems.len() > 0 {
        push_text(&mut s, "\n沧海遗珠（用户评分远高于社区评分）：\n");
        push_comparison_lines(&mut s, &a.hidden_gems, &f.gem_scores, "+");
    }
    let ghost p3 = s@;
    if a.overrated.len() > 0 {
        push_text(&mut s, "\n过誉之作（用户评分远低于社区评分）：\n");
        push_comparison_lines(&mut s, &a.overrated, &f.overrated_scores, "");
    }
    let ghost p4 = s@;
    push_text(&mut s, "\n热门标签（前10）：\n");
    push_tag_lines(&mut s, &a.top_tags, 10);
    proof {
        let gems = optional_section(
            "\n沧海遗珠（用户评分远高于社区评分）：\n"@,
            comparison_lines(a.hidden_gems@, f.gem_scores@, "+"@),
            a.hidden_gems@.len() > 0,
        );
        let worst = optional_section(
            "\n过誉之作（用户评分远低于社区评分）：\n"@,
            comparison_lines(a.overrated@, f.overrated_scores@, ""@),
            a.overrated@.len() > 0,
        );
        assert(p3 == p2 + gems);
        assert(p4 == p3 + worst);
        assert(s@ =~= summary_text(*a, username@, *f));
    }
    s
}

} // verus!
