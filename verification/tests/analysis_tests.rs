use bangumi_ana_report::analysis::{analyze_collections, AnalysisResult};
use bangumi_ana_report::counts::compute_completion;
use bangumi_ana_report::model::{Avatar, SlimSubject, SubjectImages, SubjectTag, User, UserSubjectCollection};
use bangumi_ana_report::ratings::get_cover_url;
use bangumi_ana_report::report::generate_html_report;
use bangumi_ana_report::scores::score_comparions_push;
use bangumi_ana_report::summary::{format_analysis_summary, Figures};

fn subject(name: &str, name_cn: Option<&str>, score: Option<u32>, rank: Option<u64>, total: Option<u64>) -> SlimSubject {
    SlimSubject {
        id: 0,
        subject_type: 0,
        name: name.to_string(),
        name_cn: name_cn.map(|s| s.to_string()),
        short_summary: None,
        date: None,
        images: None,
        volumes: None,
        eps: None,
        collection_total: total,
        score,
        rank,
        tags: None,
    }
}

fn entry(id: u64, subject_type: u8, rate: u8, collection_type: u8, subject: Option<SlimSubject>) -> UserSubjectCollection {
    UserSubjectCollection {
        subject_id: id,
        subject_type,
        rate,
        collection_type,
        comment: None,
        tags: None,
        ep_status: None,
        vol_status: None,
        updated_at: None,
        private: None,
        subject,
    }
}

fn tag(name: &str) -> SubjectTag {
    SubjectTag { name: name.to_string(), count: 1 }
}

fn sample() -> Vec<UserSubjectCollection> {
    let mut s1 = subject("A", Some("甲"), Some(7600), Some(50), Some(1000));
    s1.eps = Some(12);
    s1.date = Some("2020-04-01".to_string());
    s1.tags = Some(vec![tag("热血"), tag("校园")]);
    s1.images = Some(SubjectImages { large: Some("L1".to_string()), medium: Some("M1".to_string()), small: None, grid: None });
    let mut c1 = entry(1, 2, 9, 2, Some(s1));
    c1.ep_status = Some(12);
    c1.updated_at = Some("2024-03-15T10:00:00+08:00".to_string());
    c1.tags = Some(vec!["热血".to_string()]);

    let mut s2 = subject("B", None, Some(8200), Some(700), Some(5000));
    s2.eps = Some(24);
    s2.date = Some("2019".to_string());
    s2.tags = Some(vec![tag("校园")]);
    let mut c2 = entry(2, 2, 6, 3, Some(s2));
    c2.ep_status = Some(5);
    c2.updated_at = Some("2024-01-02T08:00:00+08:00".to_string());

    let mut s3 = subject("C", Some(""), None, None, Some(10));
    s3.volumes = Some(3);
    let mut c3 = entry(3, 1, 0, 1, Some(s3));
    c3.vol_status = Some(3);
    c3.updated_at = Some("garbage".to_string());
    c3.private = Some(true);
    c3.comment = Some("  好看 ".to_string());

    let mut c4 = entry(4, 2, 9, 2, None);
    c4.comment = Some("   ".to_string());

    vec![c1, c2, c3, c4]
}

fn pairs(v: &[(String, usize)]) -> Vec<(&str, usize)> {
    v.iter().map(|(k, c)| (k.as_str(), *c)).collect()
}

#[test]
fn analysis_counts() {
    let r = analyze_collections(&sample());
    assert_eq!(r.total_count, 4);
    assert_eq!(pairs(&r.type_distribution), vec![("动画", 3), ("书籍", 1)]);
    assert_eq!(r.status_distribution.len(), 2);
    assert_eq!(r.status_distribution[0].0, "动画");
    assert_eq!(pairs(&r.status_distribution[0].1), vec![("看过", 2), ("在看", 1)]);
    assert_eq!(r.status_distribution[1].0, "书籍");
    assert_eq!(pairs(&r.status_distribution[1].1), vec![("想看", 1)]);
    assert_eq!(r.private_count, 1);
    assert_eq!(r.comment_count, 1);
}

#[test]
fn type_counts_add_up_to_total() {
    let r = analyze_collections(&sample());
    let sum: usize = r.type_distribution.iter().map(|(_, c)| *c).sum();
    assert_eq!(sum, r.total_count);
}

#[test]
fn rating_figures() {
    let r = analyze_collections(&sample());
    assert_eq!(r.rating_distribution, vec![0, 0, 0, 0, 0, 0, 1, 0, 0, 2, 0]);
    assert_eq!((r.average_rating.total, r.average_rating.count), (24, 3));
    assert_eq!((r.median_rating.total, r.median_rating.count), (9, 1));
    let histogram_sum: usize = r.rating_distribution.iter().sum();
    assert_eq!(histogram_sum, r.average_rating.count);
}

#[test]
fn median_of_even_count_takes_both_middles() {
    let cs = vec![entry(1, 2, 4, 2, None), entry(2, 2, 10, 2, None), entry(3, 2, 7, 2, None), entry(4, 2, 5, 2, None)];
    let r = analyze_collections(&cs);
    assert_eq!((r.median_rating.total, r.median_rating.count), (12, 2));
    assert_eq!((r.average_rating.total, r.average_rating.count), (26, 4));
}

#[test]
fn empty_collection() {
    let r = analyze_collections(&[]);
    assert_eq!(r.total_count, 0);
    assert!(r.type_distribution.is_empty());
    assert_eq!(r.rating_distribution, vec![0; 11]);
    assert_eq!((r.average_rating.total, r.average_rating.count), (0, 0));
    assert_eq!((r.median_rating.total, r.median_rating.count), (0, 0));
    assert!(r.top_rated.is_empty());
    assert!(r.timeline.is_empty());
    assert_eq!(r.popularity_stats.most_collected_name, "N/A");
    assert_eq!(r.popularity_stats.least_collected_name, "N/A");
    assert_eq!(r.popularity_stats.most_collected_count, 0);
    assert_eq!(r.popularity_stats.avg_collection_total.count, 0);
}

#[test]
fn top_rated_order_and_items() {
    let r = analyze_collections(&sample());
    let names: Vec<&str> = r.top_rated.iter().map(|i| i.name.as_str()).collect();
    assert_eq!(names, vec!["A", "Subject #4", "B"]);
    let first = &r.top_rated[0];
    assert_eq!(first.name_cn.as_deref(), Some("甲"));
    assert_eq!(first.rating, 9);
    assert_eq!(first.subject_type, "动画");
    assert_eq!(first.subject_id, 1);
    assert_eq!(first.cover_url.as_deref(), Some("L1"));
    assert_eq!(first.community_score, Some(7600));
    assert_eq!(first.rank, Some(50));
    assert_eq!(r.top_rated[1].community_score, None);
    let popular: Vec<&str> = r.most_popular.iter().map(|i| i.name.as_str()).collect();
    assert_eq!(popular, names);
}

#[test]
fn top_rated_keeps_ten_by_rating_then_name() {
    let mut cs = Vec::new();
    for i in 0..15u64 {
        let name = format!("n{:02}", 14 - i);
        cs.push(entry(i, 2, (i % 3 + 5) as u8, 2, Some(subject(&name, None, None, None, None))));
    }
    let r = analyze_collections(&cs);
    assert_eq!(r.top_rated.len(), 10);
    let shown: Vec<(u8, &str)> = r.top_rated.iter().map(|i| (i.rating, i.name.as_str())).collect();
    assert_eq!(
        shown,
        vec![(7, "n00"), (7, "n03"), (7, "n06"), (7, "n09"), (7, "n12"), (6, "n01"), (6, "n04"), (6, "n07"), (6, "n10"), (6, "n13")]
    );
}

#[test]
fn tags_counted_over_user_and_subject_tags() {
    let r = analyze_collections(&sample());
    assert_eq!(pairs(&r.top_tags), vec![("热血", 2), ("校园", 2)]);
}

#[test]
fn top_tags_keep_thirty_most_frequent() {
    let mut cs = Vec::new();
    for i in 0..40u64 {
        let mut c = entry(i, 2, 0, 1, None);
        let mut tags = vec![format!("t{}", i)];
        if i < 5 {
            tags.push("common".to_string());
        }
        c.tags = Some(tags);
        cs.push(c);
    }
    let r = analyze_collections(&cs);
    assert_eq!(r.top_tags.len(), 30);
    assert_eq!(r.top_tags[0], ("common".to_string(), 5));
    assert!(r.top_tags[1..].iter().all(|(_, c)| *c == 1));
}

#[test]
fn timeline_by_month() {
    let r = analyze_collections(&sample());
    let months: Vec<(&str, usize)> = r.timeline.iter().map(|e| (e.month.as_str(), e.count)).collect();
    assert_eq!(months, vec![("2024-01", 1), ("2024-03", 1)]);
}

#[test]
fn timeline_reads_short_and_invalid_dates() {
    let mut a = entry(1, 2, 0, 1, None);
    a.updated_at = Some("2023-11-30".to_string());
    let mut b = entry(2, 2, 0, 1, None);
    b.updated_at = Some("2023-02-30T00:00:00Z".to_string());
    let mut c = entry(3, 2, 0, 1, None);
    c.updated_at = Some("2023-11-01 extra".to_string());
    let r = analyze_collections(&[a, b, c]);
    let months: Vec<(&str, usize)> = r.timeline.iter().map(|e| (e.month.as_str(), e.count)).collect();
    assert_eq!(months, vec![("2023-11", 2)]);
}

#[test]
fn release_years_sorted() {
    let r = analyze_collections(&sample());
    assert_eq!(pairs(&r.release_year_dist), vec![("2019", 1), ("2020", 1)]);
}

#[test]
fn completion_counts() {
    let r = analyze_collections(&sample());
    let a = r.completion_stats;
    assert_eq!((a.total_with_progress, a.completed, a.in_progress), (2, 1, 1));
    let b = r.book_completion;
    assert_eq!((b.total_with_progress, b.completed, b.in_progress), (1, 1, 0));
    let direct = compute_completion(&sample(), 2, false);
    assert_eq!((direct.total_with_progress, direct.completed, direct.in_progress), (2, 1, 1));
}

#[test]
fn score_comparisons_and_extremes() {
    let r = analyze_collections(&sample());
    let diffs: Vec<(&str, i64)> = r.score_comparisons.iter().map(|s| (s.name.as_str(), s.diff)).collect();
    assert_eq!(diffs, vec![("A", 1400), ("B", -2200)]);
    assert_eq!(r.score_comparisons[0].community_score, 7600);
    assert_eq!(r.score_comparisons[0].user_score, 9);
    assert_eq!(r.score_comparisons[1].subject_type, "动画");
    assert_eq!((r.avg_community_score.total, r.avg_community_score.count), (15800, 2));
    assert_eq!(r.hidden_gems.len(), 1);
    assert_eq!(r.hidden_gems[0].name, "A");
    assert_eq!(r.overrated.len(), 1);
    assert_eq!(r.overrated[0].name, "B");
}

#[test]
fn gems_and_overrated_take_five_from_each_end() {
    let mut cs = Vec::new();
    for i in 0..12u64 {
        let score = 1000 * (i as u32 % 10) + 500;
        cs.push(entry(i, 2, 5, 2, Some(subject(&format!("s{}", i), None, Some(score), None, None))));
    }
    let r = analyze_collections(&cs);
    assert!(r.score_comparisons.windows(2).all(|w| w[0].diff >= w[1].diff));
    assert_eq!(r.hidden_gems.len(), 5);
    assert!(r.hidden_gems.iter().all(|s| s.diff > 0));
    assert_eq!(r.hidden_gems[0].name, "s0");
    assert_eq!(r.hidden_gems[1].name, "s10");
    assert_eq!(r.overrated.len(), 5);
    assert!(r.overrated.iter().all(|s| s.diff < 0));
    assert_eq!(r.overrated[0].name, "s9");
}

#[test]
fn rank_bands() {
    let r = analyze_collections(&sample());
    let d = r.rank_distribution;
    assert_eq!((d.top_100, d.top_500, d.top_1000, d.ranked, d.unranked), (1, 1, 2, 2, 1));
}

#[test]
fn popularity() {
    let r = analyze_collections(&sample());
    let p = &r.popularity_stats;
    assert_eq!((p.avg_collection_total.total, p.avg_collection_total.count), (6010, 3));
    assert_eq!(p.most_collected_name, "B");
    assert_eq!(p.most_collected_count, 5000);
    assert_eq!(p.least_collected_name, "C");
    assert_eq!(p.least_collected_count, 10);
}

#[test]
fn popularity_ties_take_first_most_and_last_least() {
    let cs = vec![
        entry(1, 2, 0, 1, Some(subject("x", None, None, None, Some(7)))),
        entry(2, 2, 0, 1, Some(subject("y", None, None, None, Some(7)))),
    ];
    let r = analyze_collections(&cs);
    assert_eq!(r.popularity_stats.most_collected_name, "x");
    assert_eq!(r.popularity_stats.least_collected_name, "y");
}

#[test]
fn cover_prefers_larger_images() {
    let mut s = subject("A", None, None, None, None);
    s.images = Some(SubjectImages { large: None, medium: None, small: Some("S".to_string()), grid: Some("G".to_string()) });
    let c = entry(1, 2, 0, 1, Some(s));
    assert_eq!(get_cover_url(&c).as_deref(), Some("S"));
    assert_eq!(get_cover_url(&entry(2, 2, 0, 1, None)), None);
}

#[test]
fn comparison_push() {
    let mut list = Vec::new();
    score_comparions_push(&mut list, "名", &Some("中".to_string()), 3, 7250, 9, 4);
    assert_eq!(list.len(), 1);
    assert_eq!(list[0].diff, -4250);
    assert_eq!(list[0].subject_type, "游戏");
    assert_eq!(list[0].name_cn.as_deref(), Some("中"));
}

fn figures(r: &AnalysisResult) -> Figures {
    Figures {
        average_rating: "8.0".to_string(),
        median_rating: "9.0".to_string(),
        avg_community_score: "7.9".to_string(),
        anime_completion_rate: "50.0".to_string(),
        book_completion_rate: "100.0".to_string(),
        avg_popularity: "2003".to_string(),
        top_rated_community: r.top_rated.iter().map(|i| i.community_score.map(|s| format!("{:.1}", s as f64 / 1000.0))).collect(),
        gem_scores: r.hidden_gems.iter().map(|s| ("7.6".to_string(), format!("{:.1}", s.diff as f64 / 1000.0))).collect(),
        overrated_scores: r.overrated.iter().map(|s| ("8.2".to_string(), format!("{:.1}", s.diff as f64 / 1000.0))).collect(),
        user_scores_json: "[9.0,6.0]".to_string(),
        community_scores_json: "[7.6,8.2]".to_string(),
    }
}

#[test]
fn summary_text() {
    let r = analyze_collections(&sample());
    let f = figures(&r);
    let text = format_analysis_summary(&r, "sai", &f);
    let expected = "用户 sai 的收藏概览：\n总收藏数：4\n平均评分：8.0\n中位数评分：9.0\n社区平均评分：7.9\n私密收藏：1 个\n有评论的收藏：1 个\n\n\
类型分布：\n  动画：3 个\n  书籍：1 个\n\
\n动画完成率：50.0%（2部有集数信息，1部已看完，1部在看中）\n\
书籍完成率：100.0%（1本有卷数信息，1本已看完，0本在看中）\n\
\n评分分布：\n  6分：1 个\n  9分：2 个\n\
\n排名分布：Top100: 1个, Top500: 1个, Top1000: 2个, 有排名: 2个, 无排名: 1个\n\
\n人气统计：平均收藏人数 2003，最热门「B」(5000人收藏)，最冷门「C」(10人收藏)\n\
\n最高评分作品：\n  9分 (社区 7.6) - 甲 (动画)\n  9分  - Subject #4 (动画)\n  6分 (社区 8.2) - B (动画)\n\
\n沧海遗珠（用户评分远高于社区评分）：\n  9 vs 社区 7.6 (差值 +1.4) - 甲\n\
\n过誉之作（用户评分远低于社区评分）：\n  6 vs 社区 8.2 (差值 -2.2) - B\n\
\n热门标签（前10）：\n  热血：2 次\n  校园：2 次\n";
    assert_eq!(text, expected);
}

#[test]
fn summary_leaves_out_empty_comparison_sections() {
    let r = analyze_collections(&[entry(1, 4, 0, 1, None)]);
    let f = figures(&r);
    let text = format_analysis_summary(&r, "u", &f);
    assert!(!text.contains("沧海遗珠"));
    assert!(!text.contains("过誉之作"));
    assert!(text.contains("类型分布：\n  游戏：1 个\n"));
    assert!(text.ends_with("\n热门标签（前10）：\n"));
}

fn user() -> User {
    User {
        id: 1,
        username: "sai".to_string(),
        nickname: "Sai".to_string(),
        avatar: Some(Avatar { large: None, medium: Some("M.png".to_string()), small: Some("S.png".to_string()) }),
        sign: None,
    }
}

#[test]
fn report_replaces_placeholders() {
    let r = analyze_collections(&sample());
    let f = figures(&r);
    let template = "{{AVATAR_URL}}|{{USER_NICKNAME}}|{{USER_SIGN}}|{{TOTAL_COUNT}}|{{TYPE_LABELS}}|{{TYPE_VALUES}}|{{RATING_LABELS}}|{{RATING_VALUES}}|{{STATUS_LABELS}}|{{STATUS_VALUES}}|{{RANK_LABELS}}|{{RANK_VALUES}}|{{SCORE_LABELS}}|{{TIMELINE_LABELS}}|{{YEAR_VALUES}}|{{TAG_LABELS}}|{{GENERATED_TIME}}|{{AI_ANALYSIS_HTML}}|{{AVERAGE_RATING}}|{{USER_SCORES}}";
    let html = generate_html_report(&user(), &r, None, &f, "2025-01-01 00:00:00", template);
    let expected = "M.png|Sai||4|[\"动画\",\"书籍\"]|[3,1]|[\"0\",\"1\",\"2\",\"3\",\"4\",\"5\",\"6\",\"7\",\"8\",\"9\",\"10\"]|[0,0,0,0,0,0,1,0,0,2,0]|[\"动画\",\"书籍\"]|[0,2,1,0,0,1,0,0,0,0]|[\"Top 100\",\"Top 500\",\"Top 1000\",\"有排名\",\"无排名\"]|[1,1,2,2,1]|[\"甲\",\"B\"]|[\"2024-01\",\"2024-03\"]|[1,1]|[\"热血\",\"校园\"]|2025-01-01 00:00:00||8.0|[9.0,6.0]";
    assert_eq!(html, expected);
}

#[test]
fn report_top_rated_rows_and_comparisons() {
    let r = analyze_collections(&sample());
    let f = figures(&r);
    let html = generate_html_report(&user(), &r, Some("### 标题\n- **要点**"), &f, "now", "{{TOP_RATED_HTML}}\n=====\n{{SCORE_COMPARISON_HTML}}\n=====\n{{AI_ANALYSIS_HTML}}");
    let row1 = "<tr>\n                    <td>1</td>\n                    <td class=\"item-name-cell\">\n                        <img src=\"L1\" class=\"item-cover\" alt=\"甲\" loading=\"lazy\" onerror=\"this.style.display='none'\">\n                        <div>\n                            <a href=\"https://bgm.tv/subject/1\" target=\"_blank\">甲</a>\n                            <span class=\"item-type\">动画</span>\n                        </div>\n                    </td>\n                    <td><span class=\"score-badge badge-high\">9</span></td>\n                    <td>7.6</td>\n                    <td>#50</td>\n                </tr>";
    let row2 = "<tr>\n                    <td>2</td>\n                    <td class=\"item-name-cell\">\n                        \n                        <div>\n                            <a href=\"https://bgm.tv/subject/4\" target=\"_blank\">Subject #4</a>\n                            <span class=\"item-type\">动画</span>\n                        </div>\n                    </td>\n                    <td><span class=\"score-badge badge-high\">9</span></td>\n                    <td>-</td>\n                    <td>-</td>\n                </tr>";
    let parts: Vec<&str> = html.split("\n=====\n").collect();
    assert_eq!(parts.len(), 3);
    assert!(parts[0].starts_with(&format!("{}\n{}\n", row1, row2)));
    assert!(parts[0].contains("badge-mid\">6</span>"));
    assert!(parts[0].contains("<td>#700</td>"));
    assert!(parts[1].starts_with("<div class=\"score-group\"><h3>💎 沧海遗珠（你的评分 >> 社区评分）</h3><div class=\"score-list\"><div class=\"score-item gem\">\n                        <a href=\"https://bgm.tv/subject/1\" target=\"_blank\">甲</a>\n                        <span class=\"score-compare\">你 9 vs 社区 7.6 <span class=\"diff-pos\">+1.4</span></span>\n                    </div></div></div>"));
    assert!(parts[1].contains("<span class=\"diff-neg\">-2.2</span>"));
    assert_eq!(parts[2], "<section class=\"section\" id=\"ai-analysis\">\n                <h2>🤖 AI 品味分析</h2>\n                <div class=\"ai-content\"><h3>标题</h3>\n<ul>\n  <li><strong>要点</strong></li>\n</ul>\n</div>\n            </section>");
}

#[test]
fn report_notes_missing_comparisons_and_default_avatar() {
    let r = analyze_collections(&[entry(1, 2, 0, 1, None)]);
    let f = figures(&r);
    let mut u = user();
    u.avatar = None;
    u.sign = Some("签名".to_string());
    let html = generate_html_report(&u, &r, None, &f, "t", "{{SCORE_COMPARISON_HTML}}|{{AVATAR_URL}}|{{USER_SIGN}}|{{TOP_RATED_HTML}}|{{SCORE_LABELS}}");
    assert_eq!(html, "<p>暂无足够评分数据进行对比分析</p>|https://bgm.tv/img/no_icon_subject.png|签名||[]");
}

#[test]
fn timeline_pads_early_years_and_months() {
    let mut a = entry(1, 2, 0, 1, None);
    a.updated_at = Some("0999-05-01T00:00:00Z".to_string());
    let mut b = entry(2, 2, 0, 1, None);
    b.updated_at = Some("2024-2-29".to_string());
    let r = analyze_collections(&[a, b]);
    let months: Vec<(&str, usize)> = r.timeline.iter().map(|e| (e.month.as_str(), e.count)).collect();
    assert_eq!(months, vec![("0999-05", 1), ("2024-02", 1)]);
}

#[test]
fn report_chart_labels_escape_json() {
    let s = subject("X", Some("a\"b\\c\nd\u{1}e\tf"), Some(7000), None, None);
    let r = analyze_collections(&[entry(1, 2, 9, 2, Some(s))]);
    let f = figures(&r);
    let html = generate_html_report(&user(), &r, None, &f, "t", "{{SCORE_LABELS}}|{{RATING_VALUES}}");
    assert_eq!(html, "[\"a\\\"b\\\\c\\nd\\u0001e\\tf\"]|[0,0,0,0,0,0,0,0,0,1,0]");
}
