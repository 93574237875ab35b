//! Statistics over a Bangumi user's collection, and the text and HTML
//! built from them.
use vstd::prelude::*;

pub mod ai;
pub mod analysis;
pub mod api;
pub mod counting_laws;
pub mod counts;
pub mod dates;
pub mod groups;
pub mod html;
pub mod laws;
pub mod markdown;
pub mod model;
pub mod names;
pub mod report;
pub mod order;
pub mod popularity;
pub mod ratings;
pub mod scores;
pub mod summary;
pub mod tally;
pub mod text;

verus! {
} // verus!
