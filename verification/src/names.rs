//! Display names of Bangumi's subject types and collection states.
use vstd::prelude::*;
use vstd::string::StringExecFns;
use crate::text::{decimal, push_decimal, push_text};

verus! {

/// `未知(<code>)`: the name of a code that Bangumi does not define.
pub open spec fn unknown_label(code: u8) -> Seq<char> {
    "未知("@ + decimal(code as nat) + ")"@
}

/// The name of a subject type code: 1 book, 2 anime, 3 music, 4 game,
/// 6 real (live action); any other code is unknown.
pub open spec fn subject_type_label(code: u8) -> Seq<char> {
    if code == 1 {
        "书籍"@
    } else if code == 2 {
        "动画"@
    } else if code == 3 {
        "音乐"@
    } else if code == 4 {
        "游戏"@
    } else if code == 6 {
        "真人"@
    } else {
        unknown_label(code)
    }
}

/// The name of a collection state code: 1 wish, 2 done, 3 doing,
/// 4 on hold, 5 dropped; any other code is unknown.
pub open spec fn collection_type_label(code: u8) -> Seq<char> {
    if code == 1 {
        "想看"@
    } else if code == 2 {
        "看过"@
    } else if code == 3 {
        "在看"@
    } else if code == 4 {
        "搁置"@
    } else if code == 5 {
        "抛弃"@
    } else {
        unknown_label(code)
    }
}

fn unknown_name(code: u8) -> (s: String)
    ensures
        s@ == unknown_label(code),
{
    let mut s = String::from_str("未知(");
    push_decimal(&mut s, code as u64);
    push_text(&mut s, ")");
    s
}

/// The display name of a subject type code.
pub fn subject_type_name(t: u8) -> (s: String)
    ensures
        s@ == subject_type_label(t),
{
    match t {
        1 => String::from_str("书籍"),
        2 => String::from_str("动画"),
        3 => String::from_str("音乐"),
        4 => String::from_str("游戏"),
        6 => String::from_str("真人"),
        _ => unknown_name(t),
    }
}

/// The display name of a collection state code.
pub fn collection_type_name(t: u8) -> (s: String)
    ensures
        s@ == collection_type_label(t),
{
    match t {
        1 => String::from_str("想看"),
        2 => String::from_str("看过"),
        3 => String::from_str("在看"),
        4 => String::from_str("搁置"),
        5 => String::from_str("抛弃"),
        _ => unknown_name(t),
    }
}

} // verus!
