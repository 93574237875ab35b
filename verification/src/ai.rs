//! What the AI analysis is asked and how its reply is read: the chat
//! messages, the endpoint address, the token limit and the reply's text.
use vstd::prelude::*;
use vstd::string::StringExecFns;
use crate::text::{chars_of, push_text, string_of};

verus! {

/// The instructions that open the user message, before the summary.
pub const PROMPT_HEAD: &'static str = "你是一个专业的文化品味分析师。以下是一个用户的 Bangumi（番组计划）收藏数据统计信息。\n\n请用中文从以下几个方面进行深入分析，写一篇详细而有趣的报告：\n\n1. **品味画像**：根据收藏类型和评分，总结用户的整体品味特征\n2. **类型偏好分析**：分析用户在不同类型（动画、书籍、游戏等）上的偏好\n3. **评分倾向分析**：用户的评分是否偏高或偏低，评分标准如何\n4. **标签偏好分析**：从热门标签推断用户的兴趣领域和审美偏好\n5. **收藏习惯**：从完成率、收藏时间线等分析用户的使用习惯\n6. **推荐建议**：基于以上分析，给出 3-5 个具体的推荐方向\n\n请用轻松有趣的语气撰写，可以适当使用比喻和形象的描述。每个部分使用 ### 标题，整体结构清晰。\n\n以下是用户的收藏数据：\n\n";

/// The system message.
pub const SYSTEM_PROMPT: &'static str = "你是一个专业的文化品味分析师，擅长从数据中洞察个人偏好和品味特征。请用中文回答。";

/// The text used where the AI returned no choice.
pub const NO_REPLY: &'static str = "AI 分析未返回结果";

/// The token limit used where none is configured or it does not parse.
pub const DEFAULT_MAX_TOKENS: u32 = 6000;

/// One message of a chat request.
#[derive(Debug)]
pub struct ChatMessage {
    pub role: String,
    pub content: String,
}

/// The user message: the instructions followed by the summary.
pub open spec fn prompt_text(summary: Seq<char>) -> Seq<char> {
    PROMPT_HEAD@ + summary
}

/// The messages of the chat request: the system message, then the user
/// message with the instructions and the summary.
pub fn chat_messages(summary: &str) -> (messages: Vec<ChatMessage>)
    ensures
        messages@.len() == 2,
        messages@[0].role@ == "system"@,
        messages@[0].content@ == SYSTEM_PROMPT@,
        messages@[1].role@ == "user"@,
        messages@[1].content@ == prompt_text(summary@),
{
    let mut prompt = String::from_str(PROMPT_HEAD);
    push_text(&mut prompt, summary);
    let mut messages: Vec<ChatMessage> = Vec::new();
    messages.push(ChatMessage { role: String::from_str("system"), content: String::from_str(SYSTEM_PROMPT) });
    messages.push(ChatMessage { role: String::from_str("user"), content: prompt });
    messages
}

/// `s` without its trailing slashes (`trim_end_matches('/')`).
pub open spec fn without_trailing_slashes(s: Seq<char>) -> Seq<char>
    decreases s.len(),
{
    if s.len() > 0 && s.last() == '/' {
        without_trailing_slashes(s.drop_last())
    } else {
        s
    }
}

/// The address of the chat completions endpoint under an API base.
pub open spec fn completions_url(base: Seq<char>) -> Seq<char> {
    without_trailing_slashes(base) + "/chat/completions"@
}

/// The address of the chat completions endpoint under `base_url`.
pub fn chat_completions_url(base_url: &str) -> (url: String)
    ensures
        url@ == completions_url(base_url@),
{
    let chars = chars_of(base_url);
    let mut n: usize = chars.len();
    assert(chars@.take(n as int) =~= chars@);
    while n > 0 && chars[n - 1] == '/'
        invariant
            n <= chars.len(),
            without_trailing_slashes(chars@) == without_trailing_slashes(chars@.take(n as int)),
        decreases n,
    {
        assert(chars@.take(n as int).drop_last() =~= chars@.take(n - 1));
        n = n - 1;
    }
    let mut kept: Vec<char> = Vec::new();
    let mut i: usize = 0;
    while i < n
        invariant
            i <= n,
            n <= chars.len(),
            kept@ == chars@.take(i as int),
        decreases n - i,
    {
        kept.push(chars[i]);
        i = i + 1;
        assert(kept@ =~= chars@.take(i as int));
    }
    let mut url = string_of(&kept);
    push_text(&mut url, "/chat/completions");
    url
}

/// Whether a character is an ASCII digit.
pub open spec fn is_digit(c: char) -> bool {
    '0' <= c && c <= '9'
}

/// The value of a run of ASCII digits.
pub open spec fn digits_value(s: Seq<char>) -> nat
    decreases s.len(),
{
    if s.len() == 0 {
        0
    } else {
        digits_value(s.drop_last()) * 10 + ((s.last() as u32) - ('0' as u32)) as nat
    }
}

/// The digits of a number text: without a leading '+'.
pub open spec fn unsigned_digits(s: Seq<char>) -> Seq<char> {
    if s.len() > 0 && s[0] == '+' {
        s.drop_first()
    } else {
        s
    }
}

/// What `str::parse::<u32>` gives: an optional '+' followed by at least
/// one ASCII digit and nothing else, with a value that fits in a `u32`.
pub open spec fn parsed_u32(s: Seq<char>) -> Option<u32> {
    let d = unsigned_digits(s);
    if d.len() > 0 && (forall|i: int| 0 <= i < d.len() ==> is_digit(#[trigger] d[i])) && digits_value(d)
        <= u32::MAX {
        Some(digits_value(d) as u32)
    } else {
        None
    }
}

proof fn lemma_digits_value_grows(s: Seq<char>, i: int)
    requires
        0 <= i <= s.len(),
        forall|k: int| 0 <= k < s.len() ==> is_digit(#[trigger] s[k]),
    ensures
        digits_value(s.take(i)) <= digits_value(s),
    decreases s.len() - i,
{
    if i < s.len() {
        lemma_digits_value_grows(s, i + 1);
        assert(s.take(i + 1).drop_last() =~= s.take(i));
        assert(s.take(i + 1).last() == s[i]);
    } else {
        assert(s.take(i) =~= s);
    }
}

/// Reads a number as `str::parse::<u32>` does.
pub fn parse_u32(s: &str) -> (r: Option<u32>)
    ensures
        r == parsed_u32(s@),
{
    let chars = chars_of(s);
    let start: usize = if chars.len() > 0 && chars[0] == '+' {
        1
    } else {
        0
    };
    let ghost d = unsigned_digits(chars@);
    assert(d =~= chars@.skip(start as int));
    if start == chars.len() {
        return None;
    }
    let mut value: u64 = 0;
    let mut i: usize = start;
    assert(d.take(0) =~= Seq::<char>::empty());
    while i < chars.len()
        invariant
            start <= i <= chars.len(),
            chars@ == s@,
            d == unsigned_digits(s@),
            d == chars@.skip(start as int),
            forall|k: int| 0 <= k < i - start ==> is_digit(#[trigger] d[k]),
            value == digits_value(d.take(i - start)),
            value <= u32::MAX,
        decreases chars.len() - i,
    {
        let c = chars[i];
        assert(d[i - start] == c);
        if !('0' <= c && c <= '9') {
            assert(!is_digit(d[i - start]));
            assert(chars@ == s@);
            return None;
        }
        let digit = (c as u32 - '0' as u32) as u64;
        let next = value * 10 + digit;
        assert(d.take(i - start + 1).drop_last() =~= d.take(i - start));
        assert(d.take(i - start + 1).last() == c);
        assert(next == digits_value(d.take(i - start + 1)));
        if next > u32::MAX as u64 {
            proof {
                assert(chars@ == s@);
                if forall|k: int| 0 <= k < d.len() ==> is_digit(#[trigger] d[k]) {
                    lemma_digits_value_grows(d, i - start + 1);
                }
            }
            return None;
        }
        value = next;
        i = i + 1;
    }
    assert(d.take(chars.len() - start) =~= d);
    Some(value as u32)
}

/// The token limit of the request: the configured value where it parses
/// as a `u32`, else 6000.
pub fn max_tokens_setting(configured: Option<&str>) -> (limit: u32)
    ensures
        limit == match configured {
            Some(text) => match parsed_u32(text@) {
                Some(v) => v,
                None => DEFAULT_MAX_TOKENS,
            },
            None => DEFAULT_MAX_TOKENS,
        },
{
    match configured {
        Some(text) => match parse_u32(text) {
            Some(v) => v,
            None => DEFAULT_MAX_TOKENS,
        },
        None => DEFAULT_MAX_TOKENS,
    }
}

/// The text of the AI's reply: the content of its first choice, or a note
/// that it returned none.
pub fn ai_reply(contents: &Vec<String>) -> (reply: String)
    ensures
        reply@ == if contents@.len() > 0 {
            contents@[0]@
        } else {
            NO_REPLY@
        },
{
    if contents.len() > 0 {
        contents[0].clone()
    } else {
        String::from_str(NO_REPLY)
    }
}

/// Whether the AI analysis is to be asked for: an API key is configured,
/// is not empty and is not the placeholder "your_ai_api_key".
pub fn ai_enabled(api_key: Option<&str>) -> (enabled: bool)
    ensures
        enabled == match api_key {
            Some(key) => key@.len() > 0 && key@ != "your_ai_api_key"@,
            None => false,
        },
{
    match api_key {
        Some(key) => {
            if key.is_empty() {
                false
            } else {
                let given = String::from_str(key);
                let placeholder = String::from_str("your_ai_api_key");
                !(given == placeholder)
            }
        },
        None => false,
    }
}

} // verus!
