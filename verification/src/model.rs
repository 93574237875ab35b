//! What the Bangumi API tells about a user and their collection, as the
//! library holds it.
use vstd::prelude::*;

verus! {

/// A Bangumi user.
#[derive(Debug)]
pub struct User {
    pub id: u64,
    pub username: String,
    pub nickname: String,
    pub avatar: Option<Avatar>,
    pub sign: Option<String>,
}

/// The addresses of a user's avatar in three sizes.
#[derive(Debug)]
pub struct Avatar {
    pub large: Option<String>,
    pub medium: Option<String>,
    pub small: Option<String>,
}

/// One entry of a user's collection: a subject and what the user did with it.
#[derive(Debug)]
pub struct UserSubjectCollection {
    pub subject_id: u64,
    /// Subject type code (1 book, 2 anime, 3 music, 4 game, 6 real).
    pub subject_type: u8,
    /// The user's rating, 1 to 10, or 0 when unrated.
    pub rate: u8,
    /// Collection state code (1 wish, 2 done, 3 doing, 4 on hold, 5 dropped).
    pub collection_type: u8,
    pub comment: Option<String>,
    pub tags: Option<Vec<String>>,
    pub ep_status: Option<u32>,
    pub vol_status: Option<u32>,
    pub updated_at: Option<String>,
    pub private: Option<bool>,
    pub subject: Option<SlimSubject>,
}

/// The short description of a subject that comes with a collection entry.
#[derive(Debug)]
pub struct SlimSubject {
    pub id: u64,
    pub subject_type: u8,
    pub name: String,
    pub name_cn: Option<String>,
    pub short_summary: Option<String>,
    pub date: Option<String>,
    pub images: Option<SubjectImages>,
    pub volumes: Option<u32>,
    pub eps: Option<u32>,
    pub collection_total: Option<u64>,
    /// The community score, in thousandths of a point (7.6 is 7600).
    pub score: Option<u32>,
    pub rank: Option<u64>,
    pub tags: Option<Vec<SubjectTag>>,
}

/// The addresses of a subject's cover in four sizes.
#[derive(Debug)]
pub struct SubjectImages {
    pub large: Option<String>,
    pub medium: Option<String>,
    pub small: Option<String>,
    pub grid: Option<String>,
}

/// A tag that the community gave a subject, with how often it was given.
#[derive(Debug)]
pub struct SubjectTag {
    pub name: String,
    pub count: u64,
}

/// The text view of an optional string.
pub open spec fn opt_view(o: Option<String>) -> Option<Seq<char>> {
    match o {
        Some(s) => Some(s@),
        None => None,
    }
}

/// Copies an optional string.
pub fn clone_opt(o: &Option<String>) -> (r: Option<String>)
    ensures
        opt_view(r) == opt_view(*o),
{
    match o {
        Some(s) => Some(s.clone()),
        None => None,
    }
}

} // verus!
