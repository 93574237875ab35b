//! The HTML report: a template whose placeholders are replaced by the
//! user's data, the analysis, its chart data as JSON, and the AI analysis.
use vstd::prelude::*;
use vstd::string::StringExecFns;
use crate::analysis::{AnalysisResult, ScoreComparison, TimelineEntry};
use crate::html::{ai_html, ai_section, comparison_html, score_comparison_html, top_rated_html, top_rated_rows};
use crate::markdown::texts_view;
use crate::model::User;
use crate::summary::{figures_fit, shown_name, shown_name_of, Figures};
use crate::text::{chars_of, decimal, decimal_string, string_of};
use crate::model::opt_view;

verus! {

// ---------------------------------------------------------------------
// JSON
// ---------------------------------------------------------------------

/// Texts joined with "," between them.
pub open spec fn comma_joined(parts: Seq<Seq<char>>) -> Seq<char>
    decreases parts.len(),
{
    if parts.len() == 0 {
        seq![]
    } else if parts.len() == 1 {
        parts[0]
    } else {
        comma_joined(parts.drop_last()) + seq![','] + parts.last()
    }
}

/// A lower-case hexadecimal digit.
pub open spec fn hex_digit(n: nat) -> char {
    seq!['0', '1', '2', '3', '4', '5', '6', '7', '8', '9', 'a', 'b', 'c', 'd', 'e', 'f'][n as int]
}

/// How serde_json writes a character inside a JSON string: `"` and `\`
/// behind a backslash, the control characters 8, 9, 10, 12 and 13 as
/// `\b`, `\t`, `\n`, `\f` and `\r`, the other control characters below
/// 32 as `\u00` and two lower-case hex digits, and every other character
/// as itself.
pub open spec fn json_escaped_char(c: char) -> Seq<char> {
    let n = c as u32;
    if c == '"' {
        seq!['\\', '"']
    } else if c == '\\' {
        seq!['\\', '\\']
    } else if n == 8 {
        seq!['\\', 'b']
    } else if n == 9 {
        seq!['\\', 't']
    } else if n == 10 {
        seq!['\\', 'n']
    } else if n == 12 {
        seq!['\\', 'f']
    } else if n == 13 {
        seq!['\\', 'r']
    } else if n < 32 {
        seq!['\\', 'u', '0', '0', hex_digit((n / 16) as nat), hex_digit((n % 16) as nat)]
    } else {
        seq![c]
    }
}

/// The characters of `s`, each escaped for a JSON string.
pub open spec fn json_escaped(s: Seq<char>) -> Seq<char>
    decreases s.len(),
{
    if s.len() == 0 {
        seq![]
    } else {
        json_escaped(s.drop_last()) + json_escaped_char(s.last())
    }
}

/// A text as a JSON string: escaped, between double quotes.
pub open spec fn json_string(s: Seq<char>) -> Seq<char> {
    seq!['"'] + json_escaped(s) + seq!['"']
}

/// The JSON text that serde_json writes for a list of strings: the JSON
/// strings, separated by ",", between "[" and "]".
pub open spec fn json_of_texts(items: Seq<Seq<char>>) -> Seq<char> {
    seq!['['] + comma_joined(items.map_values(|t: Seq<char>| json_string(t))) + seq![']']
}

/// The JSON text that serde_json writes for a list of counts: their
/// decimal notations, separated by ",", between "[" and "]".
pub open spec fn json_of_counts(items: Seq<usize>) -> Seq<char> {
    seq!['['] + comma_joined(items.map_values(|n: usize| decimal(n as nat))) + seq![']']
}

/// The strings of a vector, as texts.
pub open spec fn strings_view(v: Seq<String>) -> Seq<Seq<char>> {
    v.map_values(|s: String| s@)
}

/// Writes a list of strings as a JSON array with `serde_json::to_string`.
/// Trusted: the text is the one `json_of_texts` states (the compact
/// formatter and serde_json's escape table); serializing strings into
/// memory does not fail, so the empty fallback is not used.
#[verifier::external_body]
fn json_texts(items: &Vec<String>) -> (json: String)
    ensures
        json@ == json_of_texts(strings_view(items@)),
{
    serde_json::to_string(items).unwrap_or_default()
}

/// Writes a list of counts as a JSON array with `serde_json::to_string`.
/// Trusted: the text is the one `json_of_counts` states (the compact
/// formatter writes integers in decimal); serializing integers into memory
/// does not fail, so the empty fallback is not used.
#[verifier::external_body]
fn json_counts(items: &Vec<usize>) -> (json: String)
    ensures
        json@ == json_of_counts(items@),
{
    serde_json::to_string(items).unwrap_or_default()
}

// ---------------------------------------------------------------------
// Replacing placeholders
// ---------------------------------------------------------------------

/// Whether `pat` occurs in `s` at position `i`.
pub open spec fn occurs_at(s: Seq<char>, pat: Seq<char>, i: int) -> bool {
    0 <= i && i + pat.len() <= s.len() && s.subrange(i, i + pat.len()) == pat
}

/// `s` from position `i` on, with every occurrence of a non-empty `pat`
/// replaced by `rep`, left to right, without overlaps (an empty `pat`
/// changes nothing).
pub open spec fn replaced_from(s: Seq<char>, pat: Seq<char>, rep: Seq<char>, i: int) -> Seq<char>
    decreases s.len() - i,
{
    if i < 0 || i >= s.len() {
        seq![]
    } else if pat.len() > 0 && occurs_at(s, pat, i) {
        rep + replaced_from(s, pat, rep, i + pat.len())
    } else {
        seq![s[i]] + replaced_from(s, pat, rep, i + 1)
    }
}

/// `s` with every occurrence of a non-empty `pat` replaced by `rep`
/// (`str::replace`).
pub open spec fn replace_all(s: Seq<char>, pat: Seq<char>, rep: Seq<char>) -> Seq<char> {
    replaced_from(s, pat, rep, 0)
}

/// `s` after replacing each pattern of `pairs` by its text, in order.
pub open spec fn replace_each(s: Seq<char>, pairs: Seq<(Seq<char>, Seq<char>)>) -> Seq<char>
    decreases pairs.len(),
{
    if pairs.len() == 0 {
        s
    } else {
        replace_all(replace_each(s, pairs.drop_last()), pairs.last().0, pairs.last().1)
    }
}

fn occurs_at_exec(s: &Vec<char>, pat: &Vec<char>, i: usize) -> (b: bool)
    requires
        i <= s.len(),
    ensures
        b == occurs_at(s@, pat@, i as int),
{
    if pat.len() > s.len() - i {
        return false;
    }
    let mut k: usize = 0;
    while k < pat.len()
        invariant
            k <= pat.len(),
            i + pat.len() <= s.len(),
            s@.subrange(i as int, i + k) == pat@.take(k as int),
        decreases pat.len() - k,
    {
        if s[i + k] != pat[k] {
            assert(s@.subrange(i as int, i + pat.len())[k as int] != pat@[k as int]);
            return false;
        }
        k = k + 1;
        assert(s@.subrange(i as int, i + k) =~= pat@.take(k as int));
    }
    assert(pat@.take(pat.len() as int) =~= pat@);
    true
}

/// Replaces every occurrence of a non-empty `pat` in `s` by `rep`.
pub fn replace_text(s: &str, pat: &str, rep: &str) -> (r: String)
    ensures
        r@ == replace_all(s@, pat@, rep@),
{
    let sc = chars_of(s);
    let pc = chars_of(pat);
    let rc = chars_of(rep);
    let mut out: Vec<char> = Vec::new();
    let mut i: usize = 0;
    while i < sc.len()
        invariant
            i <= sc.len(),
            out@ + replaced_from(sc@, pc@, rc@, i as int) == replace_all(sc@, pc@, rc@),
        decreases sc.len() - i,
    {
        let ghost before = out@;
        if pc.len() > 0 && occurs_at_exec(&sc, &pc, i) {
            let mut k: usize = 0;
            while k < rc.len()
                invariant
                    k <= rc.len(),
                    out@ == before + rc@.take(k as int),
                decreases rc.len() - k,
            {
                out.push(rc[k]);
                k = k + 1;
                assert(out@ =~= before + rc@.take(k as int));
            }
            assert(rc@.take(rc.len() as int) =~= rc@);
            assert(out@ + replaced_from(sc@, pc@, rc@, i + pc.len()) =~= before + replaced_from(
                sc@,
                pc@,
                rc@,
                i as int,
            ));
            i = i + pc.len();
        } else {
            out.push(sc[i]);
            assert(out@ + replaced_from(sc@, pc@, rc@, i + 1) =~= before + replaced_from(
                sc@,
                pc@,
                rc@,
                i as int,
            ));
            i = i + 1;
        }
    }
    assert(out@ + replaced_from(sc@, pc@, rc@, i as int) =~= out@);
    string_of(&out)
}

/// The (pattern, text) view of a list of replacements.
pub open spec fn pairs_text_view(v: Seq<(String, String)>) -> Seq<(Seq<char>, Seq<char>)> {
    v.map_values(|p: (String, String)| (p.0@, p.1@))
}

/// Applies the replacements in order.
pub fn replace_all_pairs(template: &str, pairs: &Vec<(String, String)>) -> (r: String)
    ensures
        r@ == replace_each(template@, pairs_text_view(pairs@)),
{
    let mut cur = String::from_str(template);
    let ghost pv = pairs_text_view(pairs@);
    let mut k: usize = 0;
    assert(pv.take(0) =~= Seq::<(Seq<char>, Seq<char>)>::empty());
    while k < pairs.len()
        invariant
            k <= pairs.len(),
            pv == pairs_text_view(pairs@),
            cur@ == replace_each(template@, pv.take(k as int)),
        decreases pairs.len() - k,
    {
        assert(pv.take(k + 1).drop_last() =~= pv.take(k as int));
        assert(pv[k as int] == (pairs@[k as int].0@, pairs@[k as int].1@));
        cur = replace_text(cur.as_str(), pairs[k].0.as_str(), pairs[k].1.as_str());
        k = k + 1;
    }
    assert(pv.take(pairs.len() as int) =~= pv);
    cur
}

// ---------------------------------------------------------------------
// The report's values
// ---------------------------------------------------------------------

/// The avatar shown for a user: the large, medium or small image,
/// whichever comes first, else Bangumi's default icon.
pub open spec fn avatar_of(u: User) -> Seq<char> {
    match u.avatar {
        Some(a) => if a.large is Some {
            a.large->0@
        } else if a.medium is Some {
            a.medium->0@
        } else if a.small is Some {
            a.small->0@
        } else {
            "https://bgm.tv/img/no_icon_subject.png"@
        },
        None => "https://bgm.tv/img/no_icon_subject.png"@,
    }
}

/// The user's signature, or nothing.
pub open spec fn sign_of(u: User) -> Seq<char> {
    match u.sign {
        Some(s) => s@,
        None => seq![],
    }
}

/// The count of the first entry named `name`, or 0.
pub open spec fn count_named(entries: Seq<(String, usize)>, name: Seq<char>) -> usize
    decreases entries.len(),
{
    if entries.len() == 0 {
        0
    } else if entries[0].0@ == name {
        entries[0].1
    } else {
        count_named(entries.drop_first(), name)
    }
}

/// For each subject type in order, the entries in each collection state:
/// wish, done, doing, on hold, dropped.
pub open spec fn status_values(d: Seq<(String, Vec<(String, usize)>)>) -> Seq<usize>
    decreases d.len(),
{
    if d.len() == 0 {
        seq![]
    } else {
        let inner = d.last().1@;
        status_values(d.drop_last()) + seq![
            count_named(inner, "想看"@),
            count_named(inner, "看过"@),
            count_named(inner, "在看"@),
            count_named(inner, "搁置"@),
            count_named(inner, "抛弃"@),
        ]
    }
}

/// The labels of a list of (label, count) pairs.
pub open spec fn pair_labels(v: Seq<(String, usize)>) -> Seq<Seq<char>> {
    v.map_values(|p: (String, usize)| p.0@)
}

/// The counts of a list of (label, count) pairs.
pub open spec fn pair_counts(v: Seq<(String, usize)>) -> Seq<usize> {
    v.map_values(|p: (String, usize)| p.1)
}

/// The labels of the rating chart: "0" to "10".
pub open spec fn rating_labels() -> Seq<Seq<char>> {
    Seq::new(11, |i: int| decimal(i as nat))
}

/// The labels of the ranking chart.
pub open spec fn rank_labels() -> Seq<Seq<char>> {
    seq!["Top 100"@, "Top 500"@, "Top 1000"@, "有排名"@, "无排名"@]
}

/// The names under which the hidden gems and then the overrated subjects
/// are shown.
pub open spec fn compared_names(gems: Seq<ScoreComparison>, worst: Seq<ScoreComparison>) -> Seq<Seq<char>> {
    (gems + worst).map_values(|s: ScoreComparison| shown_name(s.name@, opt_view(s.name_cn)))
}

/// The first up to `n` entries.
pub open spec fn first_up_to<A>(s: Seq<A>, n: int) -> Seq<A> {
    if s.len() < n {
        s
    } else {
        s.take(n)
    }
}

/// The placeholders of the page head and their texts.
pub open spec fn head_values(u: User, a: AnalysisResult, f: Figures, now: Seq<char>) -> Seq<(Seq<char>, Seq<char>)> {
    seq![
        ("{{AVATAR_URL}}"@, avatar_of(u)),
        ("{{USER_NICKNAME}}"@, u.nickname@),
        ("{{USER_SIGN}}"@, sign_of(u)),
        ("{{TOTAL_COUNT}}"@, decimal(a.total_count as nat)),
        ("{{AVERAGE_RATING}}"@, f.average_rating@),
        ("{{MEDIAN_RATING}}"@, f.median_rating@),
        ("{{COMPLETION_RATE}}"@, f.anime_completion_rate@),
        ("{{BOOK_COMPLETION_RATE}}"@, f.book_completion_rate@),
        ("{{AVG_COMMUNITY_SCORE}}"@, f.avg_community_score@),
        ("{{AVG_POPULARITY}}"@, f.avg_popularity@),
        ("{{PRIVATE_COUNT}}"@, decimal(a.private_count as nat)),
        ("{{COMMENT_COUNT}}"@, decimal(a.comment_count as nat)),
        ("{{RANK_TOP100}}"@, decimal(a.rank_distribution.top_100 as nat)),
        ("{{RANK_TOP500}}"@, decimal(a.rank_distribution.top_500 as nat)),
        ("{{RANK_TOP1000}}"@, decimal(a.rank_distribution.top_1000 as nat)),
    ]
}

/// The placeholders of the page body and their HTML.
pub open spec fn body_values(a: AnalysisResult, ai: Option<Seq<char>>, f: Figures, now: Seq<char>) -> Seq<(Seq<char>, Seq<char>)> {
    seq![
        ("{{TOP_RATED_HTML}}"@, top_rated_rows(a.top_rated@, f.top_rated_community@)),
        (
            "{{SCORE_COMPARISON_HTML}}"@,
            comparison_html(a.hidden_gems@, f.gem_scores@, a.overrated@, f.overrated_scores@),
        ),
        ("{{AI_ANALYSIS_HTML}}"@, ai_section(ai)),
        ("{{GENERATED_TIME}}"@, now),
    ]
}

/// The placeholders of the chart data and their JSON.
pub open spec fn chart_values(a: AnalysisResult, f: Figures) -> Seq<(Seq<char>, Seq<char>)> {
    let tags = first_up_to(a.top_tags@, 15);
    let timeline = a.timeline@;
    seq![
        ("{{TYPE_LABELS}}"@, json_of_texts(pair_labels(a.type_distribution@))),
        ("{{TYPE_VALUES}}"@, json_of_counts(pair_counts(a.type_distribution@))),
        ("{{RATING_LABELS}}"@, json_of_texts(rating_labels())),
        ("{{RATING_VALUES}}"@, json_of_counts(a.rating_distribution@)),
        (
            "{{STATUS_LABELS}}"@,
            json_of_texts(
                a.status_distribution@.map_values(|p: (String, Vec<(String, usize)>)| p.0@),
            ),
        ),
        ("{{STATUS_VALUES}}"@, json_of_counts(status_values(a.status_distribution@))),
        ("{{TAG_LABELS}}"@, json_of_texts(pair_labels(tags))),
        ("{{TAG_VALUES}}"@, json_of_counts(pair_counts(tags))),
        ("{{TIMELINE_LABELS}}"@, json_of_texts(timeline.map_values(|e: TimelineEntry| e.month@))),
        ("{{TIMELINE_VALUES}}"@, json_of_counts(timeline.map_values(|e: TimelineEntry| e.count))),
        ("{{YEAR_LABELS}}"@, json_of_texts(pair_labels(a.release_year_dist@))),
        ("{{YEAR_VALUES}}"@, json_of_counts(pair_counts(a.release_year_dist@))),
        ("{{RANK_LABELS}}"@, json_of_texts(rank_labels())),
        (
            "{{RANK_VALUES}}"@,
            json_of_counts(
                seq![
                    a.rank_distribution.top_100,
                    a.rank_distribution.top_500,
                    a.rank_distribution.top_1000,
                    a.rank_distribution.ranked,
                    a.rank_distribution.unranked,
                ],
            ),
        ),
        ("{{SCORE_LABELS}}"@, json_of_texts(compared_names(a.hidden_gems@, a.overrated@))),
        ("{{USER_SCORES}}"@, f.user_scores_json@),
        ("{{COMMUNITY_SCORES}}"@, f.community_scores_json@),
    ]
}

/// The HTML report: the template with its placeholders replaced, in order.
pub open spec fn report_html(
    template: Seq<char>,
    u: User,
    a: AnalysisResult,
    ai: Option<Seq<char>>,
    f: Figures,
    now: Seq<char>,
) -> Seq<char> {
    replace_each(template, head_values(u, a, f, now) + body_values(a, ai, f, now) + chart_values(a, f))
}

fn push_pair(v: &mut Vec<(String, String)>, pattern: &str, text: String)
    ensures
        pairs_text_view(final(v)@) == pairs_text_view(old(v)@).push((pattern@, text@)),
{
    let ghost before = pairs_text_view(v@);
    let ghost t = text@;
    v.push((String::from_str(pattern), text));
    assert(pairs_text_view(v@) =~= before.push((pattern@, t)));
}

/// The avatar shown for a user.
pub fn avatar_url(user: &User) -> (url: String)
    ensures
        url@ == avatar_of(*user),
{
    match &user.avatar {
        Some(a) => {
            if let Some(l) = &a.large {
                l.clone()
            } else if let Some(m) = &a.medium {
                m.clone()
            } else if let Some(sm) = &a.small {
                sm.clone()
            } else {
                String::from_str("https://bgm.tv/img/no_icon_subject.png")
            }
        },
        None => String::from_str("https://bgm.tv/img/no_icon_subject.png"),
    }
}

fn sign_text(user: &User) -> (s: String)
    ensures
        s@ == sign_of(*user),
{
    match &user.sign {
        Some(s) => s.clone(),
        None => String::new(),
    }
}

fn head_pairs(user: &User, a: &AnalysisResult, f: &Figures, now: &str) -> (v: Vec<(String, String)>)
    ensures
        pairs_text_view(v@) == head_values(*user, *a, *f, now@),
{
    let mut v: Vec<(String, String)> = Vec::new();
    assert(pairs_text_view(v@) =~= Seq::<(Seq<char>, Seq<char>)>::empty());
    push_pair(&mut v, "{{AVATAR_URL}}", avatar_url(user));
    push_pair(&mut v, "{{USER_NICKNAME}}", user.nickname.clone());
    push_pair(&mut v, "{{USER_SIGN}}", sign_text(user));
    push_pair(&mut v, "{{TOTAL_COUNT}}", decimal_string(a.total_count as u64));
    push_pair(&mut v, "{{AVERAGE_RATING}}", f.average_rating.clone());
    push_pair(&mut v, "{{MEDIAN_RATING}}", f.median_rating.clone());
    push_pair(&mut v, "{{COMPLETION_RATE}}", f.anime_completion_rate.clone());
    push_pair(&mut v, "{{BOOK_COMPLETION_RATE}}", f.book_completion_rate.clone());
    push_pair(&mut v, "{{AVG_COMMUNITY_SCORE}}", f.avg_community_score.clone());
    push_pair(&mut v, "{{AVG_POPULARITY}}", f.avg_popularity.clone());
    push_pair(&mut v, "{{PRIVATE_COUNT}}", decimal_string(a.private_count as u64));
    push_pair(&mut v, "{{COMMENT_COUNT}}", decimal_string(a.comment_count as u64));
    push_pair(&mut v, "{{RANK_TOP100}}", decimal_string(a.rank_distribution.top_100 as u64));
    push_pair(&mut v, "{{RANK_TOP500}}", decimal_string(a.rank_distribution.top_500 as u64));
    push_pair(&mut v, "{{RANK_TOP1000}}", decimal_string(a.rank_distribution.top_1000 as u64));
    v
}

fn body_pairs(a: &AnalysisResult, ai: Option<&str>, f: &Figures, now: &str) -> (v: Vec<(String, String)>)
    requires
        figures_fit(*f, *a),
    ensures
        pairs_text_view(v@) == body_values(
            *a,
            match ai {
                Some(t) => Some(t@),
                None => None,
            },
            *f,
            now@,
        ),
{
    let mut v: Vec<(String, String)> = Vec::new();
    assert(pairs_text_view(v@) =~= Seq::<(Seq<char>, Seq<char>)>::empty());
    push_pair(&mut v, "{{TOP_RATED_HTML}}", top_rated_html(&a.top_rated, &f.top_rated_community));
    push_pair(
        &mut v,
        "{{SCORE_COMPARISON_HTML}}",
        score_comparison_html(&a.hidden_gems, &f.gem_scores, &a.overrated, &f.overrated_scores),
    );
    push_pair(&mut v, "{{AI_ANALYSIS_HTML}}", ai_html(ai));
    push_pair(&mut v, "{{GENERATED_TIME}}", String::from_str(now));
    v
}

fn label_list(v: &Vec<(String, usize)>, limit: usize) -> (labels: Vec<String>)
    ensures
        strings_view(labels@) == pair_labels(first_up_to(v@, limit as int)),
{
    let n = if v.len() < limit {
        v.len()
    } else {
        limit
    };
    let mut labels: Vec<String> = Vec::new();
    let mut k: usize = 0;
    while k < n
        invariant
            k <= n,
            n <= v.len(),
            n == first_up_to(v@, limit as int).len(),
            strings_view(labels@) == pair_labels(v@.take(k as int)),
        decreases n - k,
    {
        let ghost before = labels@;
        let label = v[k].0.clone();
        labels.push(label);
        assert(labels@ == before.push(label));
        assert(strings_view(labels@) =~= strings_view(before).push(label@));
        k = k + 1;
        assert(pair_labels(v@.take(k as int)) =~= pair_labels(v@.take(k - 1)).push(v@[k - 1].0@));
    }
    assert(first_up_to(v@, limit as int) =~= v@.take(n as int));
    labels
}

fn count_list(v: &Vec<(String, usize)>, limit: usize) -> (counts: Vec<usize>)
    ensures
        counts@ == pair_counts(first_up_to(v@, limit as int)),
{
    let n = if v.len() < limit {
        v.len()
    } else {
        limit
    };
    let mut counts: Vec<usize> = Vec::new();
    let mut k: usize = 0;
    while k < n
        invariant
            k <= n,
            n <= v.len(),
            counts@ == pair_counts(v@.take(k as int)),
        decreases n - k,
    {
        counts.push(v[k].1);
        k = k + 1;
        assert(counts@ =~= pair_counts(v@.take(k as int)));
    }
    assert(first_up_to(v@, limit as int) =~= v@.take(n as int));
    counts
}

fn count_named_exec(entries: &Vec<(String, usize)>, name: &str) -> (n: usize)
    ensures
        n == count_named(entries@, name@),
{
    let wanted = String::from_str(name);
    assert(wanted@ == name@);
    let mut k: usize = 0;
    assert(entries@.skip(0) =~= entries@);
    while k < entries.len()
        invariant
            k <= entries.len(),
            wanted@ == name@,
            count_named(entries@, name@) == count_named(entries@.skip(k as int), name@),
        decreases entries.len() - k,
    {
        let ghost t = entries@.skip(k as int);
        assert(t.len() > 0);
        assert(t[0] == entries@[k as int]);
        assert(t.drop_first() =~= entries@.skip(k + 1));
        assert(count_named(t, name@) == if t[0].0@ == name@ {
            t[0].1
        } else {
            count_named(t.drop_first(), name@)
        });
        let same = entries[k].0 == wanted;
        assert(same == (entries@[k as int].0@ == wanted@));
        if same {
            return entries[k].1;
        }
        k = k + 1;
    }
    0
}

fn status_value_list(d: &Vec<(String, Vec<(String, usize)>)>) -> (values: Vec<usize>)
    ensures
        values@ == status_values(d@),
{
    let mut values: Vec<usize> = Vec::new();
    let mut k: usize = 0;
    assert(d@.take(0) =~= Seq::<(String, Vec<(String, usize)>)>::empty());
    while k < d.len()
        invariant
            k <= d.len(),
            values@ == status_values(d@.take(k as int)),
        decreases d.len() - k,
    {
        assert(d@.take(k + 1).drop_last() =~= d@.take(k as int));
        let inner = &d[k].1;
        let ghost before = values@;
        values.push(count_named_exec(inner, "想看"));
        values.push(count_named_exec(inner, "看过"));
        values.push(count_named_exec(inner, "在看"));
        values.push(count_named_exec(inner, "搁置"));
        values.push(count_named_exec(inner, "抛弃"));
        k = k + 1;
        assert(values@ =~= status_values(d@.take(k as int)));
    }
    assert(d@.take(d.len() as int) =~= d@);
    values
}

fn status_label_list(d: &Vec<(String, Vec<(String, usize)>)>) -> (labels: Vec<String>)
    ensures
        strings_view(labels@) == d@.map_values(|p: (String, Vec<(String, usize)>)| p.0@),
{
    let mut labels: Vec<String> = Vec::new();
    let mut k: usize = 0;
    while k < d.len()
        invariant
            k <= d.len(),
            strings_view(labels@) == d@.take(k as int).map_values(
                |p: (String, Vec<(String, usize)>)| p.0@,
            ),
        decreases d.len() - k,
    {
        let ghost before = labels@;
        let label = d[k].0.clone();
        labels.push(label);
        assert(labels@ == before.push(label));
        assert(strings_view(labels@) =~= strings_view(before).push(label@));
        k = k + 1;
        assert(d@.take(k as int).map_values(|p: (String, Vec<(String, usize)>)| p.0@) =~= d@.take(
            k - 1,
        ).map_values(|p: (String, Vec<(String, usize)>)| p.0@).push(d@[k - 1].0@));
    }
    assert(d@.take(d.len() as int) =~= d@);
    labels
}

fn timeline_lists(t: &Vec<TimelineEntry>) -> (r: (Vec<String>, Vec<usize>))
    ensures
        strings_view(r.0@) == t@.map_values(|e: TimelineEntry| e.month@),
        r.1@ == t@.map_values(|e: TimelineEntry| e.count),
{
    let mut labels: Vec<String> = Vec::new();
    let mut counts: Vec<usize> = Vec::new();
    let mut k: usize = 0;
    while k < t.len()
        invariant
            k <= t.len(),
            strings_view(labels@) == t@.take(k as int).map_values(|e: TimelineEntry| e.month@),
            counts@ == t@.take(k as int).map_values(|e: TimelineEntry| e.count),
        decreases t.len() - k,
    {
        let ghost before = labels@;
        let label = t[k].month.clone();
        labels.push(label);
        assert(labels@ == before.push(label));
        assert(strings_view(labels@) =~= strings_view(before).push(label@));
        counts.push(t[k].count);
        k = k + 1;
        assert(t@.take(k as int).map_values(|e: TimelineEntry| e.month@) =~= t@.take(k - 1).map_values(
            |e: TimelineEntry| e.month@,
        ).push(t@[k - 1].month@));
        assert(counts@ =~= t@.take(k as int).map_values(|e: TimelineEntry| e.count));
    }
    assert(t@.take(t.len() as int) =~= t@);
    (labels, counts)
}

fn rating_label_list() -> (labels: Vec<String>)
    ensures
        strings_view(labels@) == rating_labels(),
{
    let mut labels: Vec<String> = Vec::new();
    let mut k: usize = 0;
    while k < 11
        invariant
            k <= 11,
            strings_view(labels@) == rating_labels().take(k as int),
        decreases 11 - k,
    {
        let ghost before = labels@;
        let label = decimal_string(k as u64);
        labels.push(label);
        assert(labels@ == before.push(label));
        assert(strings_view(labels@) =~= strings_view(before).push(label@));
        k = k + 1;
        assert(rating_labels().take(k as int) =~= rating_labels().take(k - 1).push(
            decimal((k - 1) as nat),
        ));
    }
    assert(rating_labels().take(11) =~= rating_labels());
    labels
}

fn rank_label_list() -> (labels: Vec<String>)
    ensures
        strings_view(labels@) == rank_labels(),
{
    let mut labels: Vec<String> = Vec::new();
    labels.push(String::from_str("Top 100"));
    labels.push(String::from_str("Top 500"));
    labels.push(String::from_str("Top 1000"));
    labels.push(String::from_str("有排名"));
    labels.push(String::from_str("无排名"));
    assert(strings_view(labels@) =~= rank_labels());
    labels
}

fn compared_name_list(gems: &Vec<ScoreComparison>, worst: &Vec<ScoreComparison>) -> (names: Vec<String>)
    ensures
        strings_view(names@) == compared_names(gems@, worst@),
{
    let ghost all = gems@ + worst@;
    let mut names: Vec<String> = Vec::new();
    let mut k: usize = 0;
    while k < gems.len()
        invariant
            k <= gems.len(),
            all == gems@ + worst@,
            strings_view(names@) == all.take(k as int).map_values(
                |s: ScoreComparison| shown_name(s.name@, opt_view(s.name_cn)),
            ),
        decreases gems.len() - k,
    {
        let ghost before = names@;
        let name = String::from_str(shown_name_of(&gems[k].name, &gems[k].name_cn));
        names.push(name);
        assert(names@ == before.push(name));
        assert(strings_view(names@) =~= strings_view(before).push(name@));
        assert(all[k as int] == gems@[k as int]);
        k = k + 1;
        assert(all.take(k as int).map_values(
            |s: ScoreComparison| shown_name(s.name@, opt_view(s.name_cn)),
        ) =~= all.take(k - 1).map_values(
            |s: ScoreComparison| shown_name(s.name@, opt_view(s.name_cn)),
        ).push(shown_name(all[k - 1].name@, opt_view(all[k - 1].name_cn))));
    }
    let mut j: usize = 0;
    while j < worst.len()
        invariant
            j <= worst.len(),
            all == gems@ + worst@,
            strings_view(names@) == all.take(gems.len() + j).map_values(
                |s: ScoreComparison| shown_name(s.name@, opt_view(s.name_cn)),
            ),
        decreases worst.len() - j,
    {
        let ghost before = names@;
        let name = String::from_str(shown_name_of(&worst[j].name, &worst[j].name_cn));
        names.push(name);
        assert(names@ == before.push(name));
        assert(strings_view(names@) =~= strings_view(before).push(name@));
        assert(all[gems.len() + j] == worst@[j as int]);
        j = j + 1;
        assert(all.take(gems.len() + j).map_values(
            |s: ScoreComparison| shown_name(s.name@, opt_view(s.name_cn)),
        ) =~= all.take(gems.len() + j - 1).map_values(
            |s: ScoreComparison| shown_name(s.name@, opt_view(s.name_cn)),
        ).push(shown_name(all[gems.len() + j - 1].name@, opt_view(all[gems.len() + j - 1].name_cn))));
    }
    assert(all.take(all.len() as int) =~= all);
    names
}

fn chart_pairs(a: &AnalysisResult, f: &Figures) -> (v: Vec<(String, String)>)
    ensures
        pairs_text_view(v@) == chart_values(*a, *f),
{
    let mut v: Vec<(String, String)> = Vec::new();
    assert(pairs_text_view(v@) =~= Seq::<(Seq<char>, Seq<char>)>::empty());
    let all = a.type_distribution.len();
    push_pair(&mut v, "{{TYPE_LABELS}}", json_texts(&label_list(&a.type_distribution, all)));
    push_pair(&mut v, "{{TYPE_VALUES}}", json_counts(&count_list(&a.type_distribution, all)));
    assert(first_up_to(a.type_distribution@, all as int) =~= a.type_distribution@);
    push_pair(&mut v, "{{RATING_LABELS}}", json_texts(&rating_label_list()));
    push_pair(&mut v, "{{RATING_VALUES}}", json_counts(&a.rating_distribution));
    push_pair(&mut v, "{{STATUS_LABELS}}", json_texts(&status_label_list(&a.status_distribution)));
    push_pair(&mut v, "{{STATUS_VALUES}}", json_counts(&status_value_list(&a.status_distribution)));
    push_pair(&mut v, "{{TAG_LABELS}}", json_texts(&label_list(&a.top_tags, 15)));
    push_pair(&mut v, "{{TAG_VALUES}}", json_counts(&count_list(&a.top_tags, 15)));
    let (months, month_counts) = timeline_lists(&a.timeline);
    push_pair(&mut v, "{{TIMELINE_LABELS}}", json_texts(&months));
    push_pair(&mut v, "{{TIMELINE_VALUES}}", json_counts(&month_counts));
    let years = a.release_year_dist.len();
    push_pair(&mut v, "{{YEAR_LABELS}}", json_texts(&label_list(&a.release_year_dist, years)));
    push_pair(&mut v, "{{YEAR_VALUES}}", json_counts(&count_list(&a.release_year_dist, years)));
    assert(first_up_to(a.release_year_dist@, years as int) =~= a.release_year_dist@);
    push_pair(&mut v, "{{RANK_LABELS}}", json_texts(&rank_label_list()));
    let mut ranks: Vec<usize> = Vec::new();
    ranks.push(a.rank_distribution.top_100);
    ranks.push(a.rank_distribution.top_500);
    ranks.push(a.rank_distribution.top_1000);
    ranks.push(a.rank_distribution.ranked);
    ranks.push(a.rank_distribution.unranked);
    assert(ranks@ =~= seq![
        a.rank_distribution.top_100,
        a.rank_distribution.top_500,
        a.rank_distribution.top_1000,
        a.rank_distribution.ranked,
        a.rank_distribution.unranked,
    ]);
    push_pair(&mut v, "{{RANK_VALUES}}", json_counts(&ranks));
    push_pair(&mut v, "{{SCORE_LABELS}}", json_texts(&compared_name_list(&a.hidden_gems, &a.overrated)));
    push_pair(&mut v, "{{USER_SCORES}}", f.user_scores_json.clone());
    push_pair(&mut v, "{{COMMUNITY_SCORES}}", f.community_scores_json.clone());
    v
}

/// The HTML report for a user: `template` with its placeholders replaced by
/// the user's avatar, name and signature, the analysis' counts and
/// figures, the top rated table, the score comparison lists, the AI
/// analysis (where there is one), the time of generation, and the chart
/// data as JSON.
pub fn generate_html_report(
    user: &User,
    analysis: &AnalysisResult,
    ai_analysis: Option<&str>,
    figures: &Figures,
    generated_at: &str,
    template: &str,
) -> (html: String)
    requires
        figures_fit(*figures, *analysis),
    ensures
        html@ == report_html(
            template@,
            *user,
            *analysis,
            match ai_analysis {
                Some(t) => Some(t@),
                None => None,
            },
            *figures,
            generated_at@,
        ),
{
    let mut pairs = head_pairs(user, analysis, figures, generated_at);
    let mut body = body_pairs(analysis, ai_analysis, figures, generated_at);
    let mut charts = chart_pairs(analysis, figures);
    let ghost h = pairs@;
    let ghost b = body@;
    let ghost c = charts@;
    pairs.append(&mut body);
    pairs.append(&mut charts);
    assert(pairs@ == h + b + c);
    assert(pairs_text_view(pairs@) =~= pairs_text_view(h) + pairs_text_view(b) + pairs_text_view(c));
    replace_all_pairs(template, &pairs)
}

} // verus!
