//! The HTML fragments of the report: the rows of the top rated table,
//! the score comparison lists and the AI analysis section.
use vstd::prelude::*;
use vstd::string::StringExecFns;
use crate::analysis::{RatedItem, ScoreComparison};
use crate::markdown::{markdown_html, markdown_to_html};
use crate::model::opt_view;
use crate::summary::{shown_name, shown_name_of};
use crate::text::{decimal, push_decimal, push_text};

verus! {

/// Before a cover's address.
pub const COVER_OPEN: &'static str = "<img src=\"";
/// Between a cover's address and its alternative text.
pub const COVER_ALT: &'static str = "\" class=\"item-cover\" alt=\"";
/// After a cover's alternative text.
pub const COVER_CLOSE: &'static str = "\" loading=\"lazy\" onerror=\"this.style.display='none'\">";
/// Before the row number of a top rated row.
pub const ROW_OPEN: &'static str = "<tr>\n                    <td>";
/// Between the row number and the cover.
pub const ROW_COVER: &'static str = "</td>\n                    <td class=\"item-name-cell\">\n                        ";
/// Between the cover and the subject id of the link.
pub const ROW_LINK: &'static str = "\n                        <div>\n                            <a href=\"https://bgm.tv/subject/";
/// Between the subject id and the shown name.
pub const LINK_NAME: &'static str = "\" target=\"_blank\">";
/// Between the shown name and the subject type.
pub const ROW_TYPE: &'static str = "</a>\n                            <span class=\"item-type\">";
/// Between the subject type and the badge class.
pub const ROW_BADGE: &'static str = "</span>\n                        </div>\n                    </td>\n                    <td><span class=\"score-badge badge-";
/// Between the badge class and the rating.
pub const ROW_RATING: &'static str = "\">";
/// Between the rating and the community score.
pub const ROW_COMMUNITY: &'static str = "</span></td>\n                    <td>";
/// Between the community score and the rank.
pub const ROW_RANK: &'static str = "</td>\n                    <td>";
/// After the rank.
pub const ROW_CLOSE: &'static str = "</td>\n                </tr>";
/// The heading of the hidden gems list.
pub const GEMS_HEAD: &'static str = "<div class=\"score-group\"><h3>💎 沧海遗珠（你的评分 >> 社区评分）</h3><div class=\"score-list\">";
/// The heading of the overrated list.
pub const OVERRATED_HEAD: &'static str = "<div class=\"score-group\"><h3>📉 过誉之作（你的评分 << 社区评分）</h3><div class=\"score-list\">";
/// Before the subject id of a hidden gem.
pub const GEM_OPEN: &'static str = "<div class=\"score-item gem\">\n                        <a href=\"https://bgm.tv/subject/";
/// Before the subject id of an overrated subject.
pub const OVERRATED_OPEN: &'static str = "<div class=\"score-item overrated\">\n                        <a href=\"https://bgm.tv/subject/";
/// Between the shown name and the user's score of a compared subject.
pub const COMPARE_USER: &'static str = "</a>\n                        <span class=\"score-compare\">你 ";
/// Between the user's score and the community score.
pub const COMPARE_COMMUNITY: &'static str = " vs 社区 ";
/// Between the community score and the difference of a hidden gem.
pub const GEM_DIFF: &'static str = " <span class=\"diff-pos\">+";
/// Between the community score and the difference of an overrated subject.
pub const OVERRATED_DIFF: &'static str = " <span class=\"diff-neg\">";
/// After the difference of a compared subject.
pub const COMPARE_CLOSE: &'static str = "</span></span>\n                    </div>";
/// Before the AI analysis.
pub const AI_OPEN: &'static str = "<section class=\"section\" id=\"ai-analysis\">\n                <h2>🤖 AI 品味分析</h2>\n                <div class=\"ai-content\">";
/// After the AI analysis.
pub const AI_CLOSE: &'static str = "</div>\n            </section>";

/// The badge class of a rating: "high" from 8, "mid" from 5, else "low".
pub open spec fn badge_class(rating: u8) -> Seq<char> {
    if rating >= 8 {
        "high"@
    } else if rating >= 5 {
        "mid"@
    } else {
        "low"@
    }
}

/// The rank shown for an item: "#<rank>" for a positive rank, else "-".
pub open spec fn rank_text(rank: Option<u64>) -> Seq<char> {
    match rank {
        Some(r) => if r > 0 {
            "#"@ + decimal(r as nat)
        } else {
            "-"@
        },
        None => "-"@,
    }
}

/// The cover image of an item, where it has a non-empty cover address.
pub open spec fn cover_html(cover: Seq<char>, name: Seq<char>) -> Seq<char> {
    if cover.len() > 0 {
        COVER_OPEN@ + cover + COVER_ALT@ + name + COVER_CLOSE@
    } else {
        seq![]
    }
}

/// The start of a top rated row: its number and the cover.
pub open spec fn row_start(number: nat, item: RatedItem) -> Seq<char> {
    let name = shown_name(item.name@, opt_view(item.name_cn));
    let cover = match item.cover_url {
        Some(c) => c@,
        None => seq![],
    };
    ROW_OPEN@ + decimal(number) + ROW_COVER@ + cover_html(cover, name)
}

/// The middle of a top rated row: the link, the type and the badge.
pub open spec fn row_middle(item: RatedItem) -> Seq<char> {
    let name = shown_name(item.name@, opt_view(item.name_cn));
    ROW_LINK@ + decimal(item.subject_id as nat) + LINK_NAME@ + name + ROW_TYPE@
        + item.subject_type@ + ROW_BADGE@ + badge_class(item.rating)
}

/// The end of a top rated row: the rating, the community score and the
/// rank.
pub open spec fn row_end(item: RatedItem, community: Option<String>) -> Seq<char> {
    let score = match community {
        Some(s) => s@,
        None => "-"@,
    };
    ROW_RATING@ + decimal(item.rating as nat) + ROW_COMMUNITY@ + score + ROW_RANK@ + rank_text(
        item.rank,
    ) + ROW_CLOSE@
}

/// The table row of the `number`-th top rated item.
pub open spec fn top_rated_row(number: nat, item: RatedItem, community: Option<String>) -> Seq<char> {
    row_start(number, item) + row_middle(item) + row_end(item, community)
}

/// The rows of the top rated items, joined by newlines.
pub open spec fn top_rated_rows(items: Seq<RatedItem>, community: Seq<Option<String>>) -> Seq<char>
    decreases items.len(),
{
    if items.len() == 0 {
        seq![]
    } else if items.len() == 1 {
        top_rated_row(1, items[0], community[0])
    } else {
        top_rated_rows(items.drop_last(), community) + "\n"@ + top_rated_row(
            items.len(),
            items.last(),
            community[items.len() - 1],
        )
    }
}

fn push_cover(s: &mut String, cover_url: &Option<String>, name: &str)
    ensures
        final(s)@ == old(s)@ + cover_html(
            match *cover_url {
                Some(c) => c@,
                None => seq![],
            },
            name@,
        ),
{
    let ghost start = s@;
    match cover_url {
        Some(c) => {
            if !c.as_str().is_empty() {
                push_text(s, COVER_OPEN);
                push_text(s, c.as_str());
                push_text(s, COVER_ALT);
                push_text(s, name);
                push_text(s, COVER_CLOSE);
                assert(s@ =~= start + cover_html(c@, name@));
            } else {
                assert(s@ =~= start + cover_html(c@, name@));
            }
        },
        None => {
            assert(s@ =~= start + cover_html(seq![], name@));
        },
    }
}

fn push_rank(s: &mut String, rank: Option<u64>)
    ensures
        final(s)@ == old(s)@ + rank_text(rank),
{
    let ghost start = s@;
    match rank {
        Some(r) => {
            if r > 0 {
                push_text(s, "#");
                push_decimal(s, r);
                assert(s@ =~= start + rank_text(rank));
            } else {
                push_text(s, "-");
            }
        },
        None => push_text(s, "-"),
    }
}

fn push_row_start(s: &mut String, number: usize, item: &RatedItem)
    ensures
        final(s)@ == old(s)@ + row_start(number as nat, *item),
{
    let ghost start = s@;
    let name = shown_name_of(&item.name, &item.name_cn);
    push_text(s, ROW_OPEN);
    push_decimal(s, number as u64);
    push_text(s, ROW_COVER);
    push_cover(s, &item.cover_url, name);
    assert(s@ =~= start + row_start(number as nat, *item));
}

fn push_row_middle(s: &mut String, item: &RatedItem)
    ensures
        final(s)@ == old(s)@ + row_middle(*item),
{
    let ghost start = s@;
    let name = shown_name_of(&item.name, &item.name_cn);
    push_text(s, ROW_LINK);
    push_decimal(s, item.subject_id);
    push_text(s, LINK_NAME);
    push_text(s, name);
    push_text(s, ROW_TYPE);
    push_text(s, item.subject_type.as_str());
    push_text(s, ROW_BADGE);
    let ghost before_badge = s@;
    if item.rating >= 8 {
        push_text(s, "high");
    } else if item.rating >= 5 {
        push_text(s, "mid");
    } else {
        push_text(s, "low");
    }
    assert(s@ == before_badge + badge_class(item.rating));
    assert(s@ =~= start + row_middle(*item));
}

fn push_row_end(s: &mut String, item: &RatedItem, community: &Option<String>)
    ensures
        final(s)@ == old(s)@ + row_end(*item, *community),
{
    let ghost start = s@;
    push_text(s, ROW_RATING);
    push_decimal(s, item.rating as u64);
    push_text(s, ROW_COMMUNITY);
    match community {
        Some(c) => push_text(s, c.as_str()),
        None => push_text(s, "-"),
    }
    push_text(s, ROW_RANK);
    push_rank(s, item.rank);
    push_text(s, ROW_CLOSE);
    assert(s@ =~= start + row_end(*item, *community));
}

fn push_top_rated_row(s: &mut String, number: usize, item: &RatedItem, community: &Option<String>)
    ensures
        final(s)@ == old(s)@ + top_rated_row(number as nat, *item, *community),
{
    let ghost start = s@;
    push_row_start(s, number, item);
    push_row_middle(s, item);
    push_row_end(s, item, community);
    proof {
        let a = row_start(number as nat, *item);
        let b = row_middle(*item);
        let c = row_end(*item, *community);
        vstd::seq_lib::lemma_concat_associative(start, a, b);
        vstd::seq_lib::lemma_concat_associative(start, a + b, c);
    }
}

/// The rows of the top rated table.
pub fn top_rated_html(items: &Vec<RatedItem>, community: &Vec<Option<String>>) -> (html: String)
    requires
        items.len() == community.len(),
    ensures
        html@ == top_rated_rows(items@, community@),
{
    let mut s = String::new();
    let mut i: usize = 0;
    assert(items@.take(0) =~= Seq::<RatedItem>::empty());
    while i < items.len()
        invariant
            i <= items.len(),
            items.len() == community.len(),
            s@ == top_rated_rows(items@.take(i as int), community@),
        decreases items.len() - i,
    {
        assert(items@.take(i + 1).drop_last() =~= items@.take(i as int));
        if i > 0 {
            push_text(&mut s, "\n");
        }
        push_top_rated_row(&mut s, i + 1, &items[i], &community[i]);
        i = i + 1;
        assert(s@ =~= top_rated_rows(items@.take(i as int), community@));
    }
    assert(items@.take(items.len() as int) =~= items@);
    s
}

/// One compared subject: its link, the user's score, the community score
/// and the difference, between the fragments for its list.
pub open spec fn comparison_item(open: Seq<char>, mid: Seq<char>, item: ScoreComparison, texts: (String, String)) -> Seq<char> {
    open + decimal(item.subject_id as nat) + LINK_NAME@ + shown_name(item.name@, opt_view(item.name_cn))
        + COMPARE_USER@ + decimal(item.user_score as nat) + COMPARE_COMMUNITY@ + texts.0@ + mid
        + texts.1@ + COMPARE_CLOSE@
}

/// The items of a comparison list.
pub open spec fn comparison_items(open: Seq<char>, mid: Seq<char>, items: Seq<ScoreComparison>, texts: Seq<(String, String)>) -> Seq<char>
    decreases items.len(),
{
    if items.len() == 0 {
        seq![]
    } else {
        comparison_items(open, mid, items.drop_last(), texts) + comparison_item(
            open,
            mid,
            items.last(),
            texts[items.len() - 1],
        )
    }
}

/// The comparison lists: the hidden gems and the overrated subjects, each
/// with its heading where it has items, or a note that there is too little
/// to compare.
pub open spec fn comparison_html(
    gems: Seq<ScoreComparison>,
    gem_texts: Seq<(String, String)>,
    worst: Seq<ScoreComparison>,
    worst_texts: Seq<(String, String)>,
) -> Seq<char> {
    let body = (if gems.len() > 0 {
        GEMS_HEAD@ + comparison_items(GEM_OPEN@, GEM_DIFF@, gems, gem_texts) + "</div></div>"@
    } else {
        seq![]
    }) + (if worst.len() > 0 {
        OVERRATED_HEAD@ + comparison_items(OVERRATED_OPEN@, OVERRATED_DIFF@, worst, worst_texts)
            + "</div></div>"@
    } else {
        seq![]
    });
    if body.len() == 0 {
        "<p>暂无足够评分数据进行对比分析</p>"@
    } else {
        body
    }
}

#[verifier::rlimit(40)]
fn push_comparison_items(
    s: &mut String,
    open: &str,
    mid: &str,
    items: &Vec<ScoreComparison>,
    texts: &Vec<(String, String)>,
)
    requires
        items.len() == texts.len(),
    ensures
        final(s)@ == old(s)@ + comparison_items(open@, mid@, items@, texts@),
{
    let ghost start = s@;
    let mut i: usize = 0;
    assert(items@.take(0) =~= Seq::<ScoreComparison>::empty());
    while i < items.len()
        invariant
            i <= items.len(),
            items.len() == texts.len(),
            s@ == start + comparison_items(open@, mid@, items@.take(i as int), texts@),
        decreases items.len() - i,
    {
        assert(items@.take(i + 1).drop_last() =~= items@.take(i as int));
        let item = &items[i];
        push_text(s, open);
        push_decimal(s, item.subject_id);
        push_text(s, LINK_NAME);
        push_text(s, shown_name_of(&item.name, &item.name_cn));
        push_text(s, COMPARE_USER);
        push_decimal(s, item.user_score as u64);
        push_text(s, COMPARE_COMMUNITY);
        push_text(s, texts[i].0.as_str());
        push_text(s, mid);
        push_text(s, texts[i].1.as_str());
        push_text(s, COMPARE_CLOSE);
        i = i + 1;
        assert(s@ =~= start + comparison_items(open@, mid@, items@.take(i as int), texts@));
    }
    assert(items@.take(items.len() as int) =~= items@);
}

/// The score comparison lists of the report.
pub fn score_comparison_html(
    gems: &Vec<ScoreComparison>,
    gem_texts: &Vec<(String, String)>,
    worst: &Vec<ScoreComparison>,
    worst_texts: &Vec<(String, String)>,
) -> (html: String)
    requires
        gems.len() == gem_texts.len(),
        worst.len() == worst_texts.len(),
    ensures
        html@ == comparison_html(gems@, gem_texts@, worst@, worst_texts@),
{
    let mut s = String::new();
    if gems.len() > 0 {
        push_text(&mut s, GEMS_HEAD);
        push_comparison_items(&mut s, GEM_OPEN, GEM_DIFF, gems, gem_texts);
        push_text(&mut s, "</div></div>");
    }
    let ghost first = s@;
    if worst.len() > 0 {
        push_text(&mut s, OVERRATED_HEAD);
        push_comparison_items(&mut s, OVERRATED_OPEN, OVERRATED_DIFF, worst, worst_texts);
        push_text(&mut s, "</div></div>");
    }
    if s.as_str().is_empty() {
        String::from_str("<p>暂无足够评分数据进行对比分析</p>")
    } else {
        s
    }
}

/// The AI analysis section, where there is an analysis.
pub open spec fn ai_section(ai: Option<Seq<char>>) -> Seq<char> {
    match ai {
        Some(text) => AI_OPEN@ + markdown_html(text) + AI_CLOSE@,
        None => seq![],
    }
}

/// The AI analysis section of the report.
pub fn ai_html(ai: Option<&str>) -> (html: String)
    ensures
        html@ == ai_section(
            match ai {
                Some(t) => Some(t@),
                None => None,
            },
        ),
{
    match ai {
        Some(text) => {
            let mut s = String::from_str(AI_OPEN);
            let body = markdown_to_html(text);
            push_text(&mut s, body.as_str());
            push_text(&mut s, AI_CLOSE);
            s
        },
        None => String::new(),
    }
}

} // verus!
