use bangumi_ana_report::ai::{ai_enabled, ai_reply, chat_completions_url, chat_messages, max_tokens_setting, parse_u32};
use bangumi_ana_report::api::{bearer, collections_url, fetched_text, me_url, progress_text, user_url, CollectionPager};
use bangumi_ana_report::markdown::{markdown_to_html, process_inline};
use bangumi_ana_report::names::{collection_type_name, subject_type_name};
use bangumi_ana_report::report::replace_text;
use bangumi_ana_report::text::{decimal_string, is_blank};

#[test]
fn subject_type_names() {
    assert_eq!(subject_type_name(1), "书籍");
    assert_eq!(subject_type_name(2), "动画");
    assert_eq!(subject_type_name(3), "音乐");
    assert_eq!(subject_type_name(4), "游戏");
    assert_eq!(subject_type_name(6), "真人");
    assert_eq!(subject_type_name(5), "未知(5)");
    assert_eq!(subject_type_name(0), "未知(0)");
    assert_eq!(subject_type_name(255), "未知(255)");
}

#[test]
fn collection_type_names() {
    assert_eq!(collection_type_name(1), "想看");
    assert_eq!(collection_type_name(2), "看过");
    assert_eq!(collection_type_name(3), "在看");
    assert_eq!(collection_type_name(4), "搁置");
    assert_eq!(collection_type_name(5), "抛弃");
    assert_eq!(collection_type_name(6), "未知(6)");
    assert_eq!(collection_type_name(12), "未知(12)");
}

#[test]
fn inline_bold() {
    assert_eq!(process_inline("a **b** c"), "a <strong>b</strong> c");
    assert_eq!(process_inline("**开头**与**结尾**"), "<strong>开头</strong>与<strong>结尾</strong>");
}

#[test]
fn inline_unclosed_bold_runs_to_end() {
    assert_eq!(process_inline("x **never closed"), "x <strong>never closed</strong>");
    assert_eq!(process_inline("a***b"), "a<strong>*b</strong>");
    assert_eq!(process_inline("**"), "<strong></strong>");
}

#[test]
fn inline_keeps_plain_text() {
    assert_eq!(process_inline("no markers * here"), "no markers * here");
    assert_eq!(process_inline(""), "");
}

#[test]
fn markdown_blocks() {
    let md = "### 品味画像\n- 第一\n* 第二\n\n普通 **重点** 段落\n## 二级";
    let expected = "<h3>品味画像</h3>\n<ul>\n  <li>第一</li>\n  <li>第二</li>\n</ul>\n<p>普通 <strong>重点</strong> 段落</p>\n<h3>二级</h3>\n";
    assert_eq!(markdown_to_html(md), expected);
}

#[test]
fn markdown_closes_open_list_at_end() {
    assert_eq!(markdown_to_html("- a\r\n- b\r\n"), "<ul>\n  <li>a</li>\n  <li>b</li>\n</ul>\n");
}

#[test]
fn markdown_list_closed_by_heading_and_paragraph() {
    assert_eq!(markdown_to_html("- a\n### h"), "<ul>\n  <li>a</li>\n</ul>\n<h3>h</h3>\n");
    assert_eq!(markdown_to_html("- a\ntext"), "<ul>\n  <li>a</li>\n</ul>\n<p>text</p>\n");
}

#[test]
fn markdown_trims_lines_and_skips_blank_ones() {
    assert_eq!(markdown_to_html("   hello  \n\n\t\n"), "<p>hello</p>\n");
    assert_eq!(markdown_to_html(""), "");
    assert_eq!(markdown_to_html("#不是标题"), "<p>#不是标题</p>\n");
}

#[test]
fn decimal_rendering() {
    assert_eq!(decimal_string(0), "0");
    assert_eq!(decimal_string(7), "7");
    assert_eq!(decimal_string(1234567890), "1234567890");
    assert_eq!(decimal_string(u64::MAX), "18446744073709551615");
}

#[test]
fn blank_text() {
    assert!(is_blank(""));
    assert!(is_blank(" \t\n\u{3000}"));
    assert!(!is_blank(" x "));
}

#[test]
fn replace_every_occurrence() {
    assert_eq!(replace_text("{{A}} and {{A}}", "{{A}}", "x"), "x and x");
    assert_eq!(replace_text("aaa", "aa", "b"), "ba");
    assert_eq!(replace_text("nothing here", "{{A}}", "x"), "nothing here");
}

#[test]
fn api_addresses() {
    assert_eq!(me_url(), "https://api.bgm.tv/v0/me");
    assert_eq!(user_url("sai"), "https://api.bgm.tv/v0/users/sai");
    assert_eq!(
        collections_url("sai", None, None, 50, 100),
        "https://api.bgm.tv/v0/users/sai/collections?limit=50&offset=100"
    );
    assert_eq!(
        collections_url("sai", Some(2), Some(3), 50, 0),
        "https://api.bgm.tv/v0/users/sai/collections?limit=50&offset=0&subject_type=2&type=3"
    );
    assert_eq!(bearer("tok"), "Bearer tok");
}

#[test]
fn pager_walks_pages_until_total() {
    let mut pager = CollectionPager::new();
    assert_eq!(pager.next_url("u", None, None), "https://api.bgm.tv/v0/users/u/collections?limit=50&offset=0");
    assert!(pager.record_page(120, 50));
    assert_eq!(pager.offset, 50);
    assert!(pager.record_page(120, 50));
    assert_eq!(pager.offset, 100);
    assert!(!pager.record_page(120, 20));
    assert_eq!(pager.fetched, 120);
    assert_eq!(pager.offset, 100);
    assert_eq!(pager.total, 120);
}

#[test]
fn pager_stops_on_empty_page() {
    let mut pager = CollectionPager::new();
    assert!(!pager.record_page(500, 0));
    assert_eq!(pager.fetched, 0);
    assert_eq!(pager.offset, 0);
}

#[test]
fn progress_lines() {
    assert_eq!(progress_text(50, 120), "\r正在获取收藏数据... 50/120");
    assert_eq!(fetched_text(120), "\r收藏数据获取完成，共 120 条记录");
}

#[test]
fn completions_endpoint() {
    assert_eq!(chat_completions_url("https://api.openai.com/v1"), "https://api.openai.com/v1/chat/completions");
    assert_eq!(chat_completions_url("https://api.openai.com/v1//"), "https://api.openai.com/v1/chat/completions");
    assert_eq!(chat_completions_url(""), "/chat/completions");
}

#[test]
fn token_limit_parsing() {
    assert_eq!(parse_u32("6000"), Some(6000));
    assert_eq!(parse_u32("+42"), Some(42));
    assert_eq!(parse_u32("4294967295"), Some(u32::MAX));
    assert_eq!(parse_u32("4294967296"), None);
    assert_eq!(parse_u32("-1"), None);
    assert_eq!(parse_u32("+"), None);
    assert_eq!(parse_u32(" 1"), None);
    assert_eq!(parse_u32(""), None);
    assert_eq!(max_tokens_setting(Some("8000")), 8000);
    assert_eq!(max_tokens_setting(Some("lots")), 6000);
    assert_eq!(max_tokens_setting(None), 6000);
}

#[test]
fn parse_reads_back_decimal() {
    for n in [0u32, 9, 10, 6000, 123456789, u32::MAX] {
        assert_eq!(parse_u32(&decimal_string(n as u64)), Some(n));
    }
}

#[test]
fn ai_reply_and_switch() {
    assert_eq!(ai_reply(&vec!["分析".to_string(), "other".to_string()]), "分析");
    assert_eq!(ai_reply(&vec![]), "AI 分析未返回结果");
    assert!(ai_enabled(Some("sk-1")));
    assert!(!ai_enabled(Some("")));
    assert!(!ai_enabled(Some("your_ai_api_key")));
    assert!(!ai_enabled(None));
}

#[test]
fn chat_request_messages() {
    let messages = chat_messages("摘要");
    assert_eq!(messages.len(), 2);
    assert_eq!(messages[0].role, "system");
    assert!(messages[0].content.starts_with("你是一个专业的文化品味分析师，擅长"));
    assert_eq!(messages[1].role, "user");
    assert!(messages[1].content.starts_with("你是一个专业的文化品味分析师。以下是一个用户的 Bangumi"));
    assert!(messages[1].content.contains("请用轻松有趣的语气撰写，可以适当使用比喻和形象的描述。每个部分使用 ### 标题"));
    assert!(messages[1].content.ends_with("以下是用户的收藏数据：\n\n摘要"));
}

#[test]
fn markdown_blocks_concatenate() {
    let cases = [
        ("- x\r", "- y"),
        ("### h", "p **b**"),
        ("", "- z"),
        ("a\n", "b"),
        ("- open", ""),
        ("## t\n- i", "* j\n\nk"),
    ];
    for (a, b) in cases {
        let joined = format!("{}\n\n{}", a, b);
        assert_eq!(markdown_to_html(&joined), markdown_to_html(a) + &markdown_to_html(b));
    }
    assert_eq!(markdown_to_html("- a\n\n- b"), "<ul>\n  <li>a</li>\n</ul>\n<ul>\n  <li>b</li>\n</ul>\n");
}
