//! The Bangumi API as the client talks to it: the addresses of its
//! endpoints, the authorization header, and the paging through a user's
//! collection.
use vstd::prelude::*;
use vstd::string::StringExecFns;
use crate::text::{decimal, push_decimal, push_text};

verus! {

/// Where the Bangumi API lives.
pub const BANGUMI_API_BASE: &'static str = "https://api.bgm.tv";

/// How many entries a page of the collection holds.
pub const PAGE_LIMIT: u64 = 50;

/// The address of the signed-in user.
pub fn me_url() -> (url: String)
    ensures
        url@ == BANGUMI_API_BASE@ + "/v0/me"@,
{
    let mut url = String::from_str(BANGUMI_API_BASE);
    push_text(&mut url, "/v0/me");
    url
}

/// The address of a user.
pub fn user_url(username: &str) -> (url: String)
    ensures
        url@ == BANGUMI_API_BASE@ + "/v0/users/"@ + username@,
{
    let mut url = String::from_str(BANGUMI_API_BASE);
    push_text(&mut url, "/v0/users/");
    push_text(&mut url, username);
    url
}

/// A query parameter where a filter is given: its key (`&<name>=`) and
/// value.
pub open spec fn filter_param(key: Seq<char>, value: Option<u8>) -> Seq<char> {
    match value {
        Some(v) => key + decimal(v as nat),
        None => seq![],
    }
}

/// The address of one page of a user's collection, optionally only of one
/// subject type and one collection state.
pub open spec fn collections_page_url(
    username: Seq<char>,
    subject_type: Option<u8>,
    collection_type: Option<u8>,
    limit: u64,
    offset: u64,
) -> Seq<char> {
    BANGUMI_API_BASE@ + "/v0/users/"@ + username + "/collections?limit="@ + decimal(limit as nat)
        + "&offset="@ + decimal(offset as nat) + filter_param("&subject_type="@, subject_type)
        + filter_param("&type="@, collection_type)
}

/// The address of one page of a user's collection.
pub fn collections_url(
    username: &str,
    subject_type: Option<u8>,
    collection_type: Option<u8>,
    limit: u64,
    offset: u64,
) -> (url: String)
    ensures
        url@ == collections_page_url(username@, subject_type, collection_type, limit, offset),
{
    let mut url = String::from_str(BANGUMI_API_BASE);
    push_text(&mut url, "/v0/users/");
    push_text(&mut url, username);
    push_text(&mut url, "/collections?limit=");
    push_decimal(&mut url, limit);
    push_text(&mut url, "&offset=");
    push_decimal(&mut url, offset);
    let ghost base = url@;
    if let Some(st) = subject_type {
        push_text(&mut url, "&subject_type=");
        push_decimal(&mut url, st as u64);
    }
    assert(url@ =~= base + filter_param("&subject_type="@, subject_type));
    let ghost with_type = url@;
    if let Some(ct) = collection_type {
        push_text(&mut url, "&type=");
        push_decimal(&mut url, ct as u64);
    }
    assert(url@ =~= with_type + filter_param("&type="@, collection_type));
    url
}

/// The value of the authorization header for a token.
pub fn bearer(token: &str) -> (header: String)
    ensures
        header@ == "Bearer "@ + token@,
{
    let mut header = String::from_str("Bearer ");
    push_text(&mut header, token);
    header
}

/// Where the paging through a user's collection stands: the offset of the
/// next page, how many entries were fetched, and the total that the last
/// page announced.
#[derive(Debug, Clone, Copy)]
pub struct CollectionPager {
    pub offset: u64,
    pub fetched: usize,
    pub total: u64,
}

impl CollectionPager {
    /// Paging starts at offset 0 with nothing fetched.
    pub fn new() -> (p: Self)
        ensures
            p.offset == 0,
            p.fetched == 0,
            p.total == 0,
    {
        CollectionPager { offset: 0, fetched: 0, total: 0 }
    }

    /// The address of the next page to fetch.
    pub fn next_url(&self, username: &str, subject_type: Option<u8>, collection_type: Option<u8>) -> (url: String)
        ensures
            url@ == collections_page_url(username@, subject_type, collection_type, PAGE_LIMIT, self.offset),
    {
        collections_url(username, subject_type, collection_type, PAGE_LIMIT, self.offset)
    }

    /// Whether paging ends after a page of `count` entries that announced
    /// `total`: when the page was empty or all announced entries are in.
    pub open spec fn ends_after(self, total: u64, count: usize) -> bool {
        count == 0 || self.fetched + count >= total as usize
    }

    /// Takes in a page of `count` entries that announced `total` entries in
    /// all. Returns whether another page is to be fetched; the counts are
    /// updated, and the offset moves on by a page where paging goes on.
    pub fn record_page(&mut self, total: u64, count: usize) -> (more: bool)
        requires
            old(self).fetched + count <= usize::MAX,
            !old(self).ends_after(total, count) ==> old(self).offset + PAGE_LIMIT <= u64::MAX,
        ensures
            more == !old(self).ends_after(total, count),
            final(self).fetched == old(self).fetched + count,
            final(self).total == total,
            final(self).offset == if more {
                old(self).offset + PAGE_LIMIT
            } else {
                old(self).offset as int
            },
    {
        let done = count == 0 || self.fetched + count >= total as usize;
        self.fetched = self.fetched + count;
        self.total = total;
        if done {
            false
        } else {
            self.offset = self.offset + PAGE_LIMIT;
            true
        }
    }
}

/// The progress line while paging: "\r正在获取收藏数据... <fetched>/<total>".
pub fn progress_text(fetched: usize, total: u64) -> (text: String)
    ensures
        text@ == "\r正在获取收藏数据... "@ + decimal(fetched as nat) + "/"@ + decimal(total as nat),
{
    let mut text = String::from_str("\r正在获取收藏数据... ");
    push_decimal(&mut text, fetched as u64);
    push_text(&mut text, "/");
    push_decimal(&mut text, total);
    text
}

/// The line that ends paging: "\r收藏数据获取完成，共 <count> 条记录".
pub fn fetched_text(count: usize) -> (text: String)
    ensures
        text@ == "\r收藏数据获取完成，共 "@ + decimal(count as nat) + " 条记录"@,
{
    let mut text = String::from_str("\r收藏数据获取完成，共 ");
    push_decimal(&mut text, count as u64);
    push_text(&mut text, " 条记录");
    text
}

} // verus!
