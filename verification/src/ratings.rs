//! The user's ratings: how they spread over 1 to 10, their average and
//! median, and the best rated subjects.
use vstd::prelude::*;
use vstd::string::StringExecFns;
use crate::analysis::{Mean, RatedItem};
use crate::model::{clone_opt, opt_view, SlimSubject, UserSubjectCollection};
use crate::names::{subject_type_label, subject_type_name};
use crate::order::{first_in_order, is_first_in_order, strict_total_order};
use crate::text::{
    chars_less, chars_of, decimal, lemma_text_less_asymmetric, lemma_text_less_irreflexive,
    lemma_text_less_total, lemma_text_less_transitive, push_decimal, text_less,
};

verus! {

/// Every rating lies between 0 (unrated) and 10.
pub open spec fn ratings_in_range(cs: Seq<UserSubjectCollection>) -> bool {
    forall|i: int| 0 <= i < cs.len() ==> #[trigger] cs[i].rate <= 10
}

/// How many entries the user rated `r` (only ratings above 0 count).
pub open spec fn rate_count(cs: Seq<UserSubjectCollection>, r: int) -> nat
    decreases cs.len(),
{
    if cs.len() == 0 {
        0
    } else {
        rate_count(cs.drop_last(), r) + (if cs.last().rate > 0 && cs.last().rate == r {
            1nat
        } else {
            0nat
        })
    }
}

/// How many entries the user rated.
pub open spec fn rated_entries(cs: Seq<UserSubjectCollection>) -> nat
    decreases cs.len(),
{
    if cs.len() == 0 {
        0
    } else {
        rated_entries(cs.drop_last()) + (if cs.last().rate > 0 {
            1nat
        } else {
            0nat
        })
    }
}

/// The sum of the user's ratings.
pub open spec fn rating_total(cs: Seq<UserSubjectCollection>) -> nat
    decreases cs.len(),
{
    if cs.len() == 0 {
        0
    } else {
        (rating_total(cs.drop_last()) + cs.last().rate) as nat
    }
}

/// How many ratings are at most `r`.
pub open spec fn rated_upto(cs: Seq<UserSubjectCollection>, r: int) -> nat
    decreases r,
{
    if r <= 0 {
        0
    } else {
        rated_upto(cs, r - 1) + rate_count(cs, r)
    }
}

/// The smallest rating from `v` to 10 with more than `k` ratings at or
/// below it (10 if there is none).
pub open spec fn kth_rating_from(cs: Seq<UserSubjectCollection>, k: int, v: int) -> int
    decreases 10 - v,
{
    if v >= 10 {
        10
    } else if rated_upto(cs, v) > k {
        v
    } else {
        kth_rating_from(cs, k, v + 1)
    }
}

/// The rating at position `k` (from 0) when all ratings are sorted.
pub open spec fn kth_rating(cs: Seq<UserSubjectCollection>, k: int) -> int {
    kth_rating_from(cs, k, 1)
}

/// The median of the ratings as a total over a count: the middle rating
/// over 1, or the two middle ratings over 2; 0 over 0 without ratings.
pub open spec fn median_parts(cs: Seq<UserSubjectCollection>) -> (int, int) {
    let m = rated_entries(cs) as int;
    if m == 0 {
        (0, 0)
    } else if m % 2 == 0 {
        (kth_rating(cs, m / 2 - 1) + kth_rating(cs, m / 2), 2)
    } else {
        (kth_rating(cs, m / 2), 1)
    }
}

proof fn lemma_rate_count_bound(cs: Seq<UserSubjectCollection>, r: int)
    ensures
        rate_count(cs, r) <= cs.len(),
        rated_entries(cs) <= cs.len(),
        rating_total(cs) <= 255 * cs.len(),
    decreases cs.len(),
{
    if cs.len() > 0 {
        lemma_rate_count_bound(cs.drop_last(), r);
    }
}

proof fn lemma_rated_upto_bound(cs: Seq<UserSubjectCollection>, r: int)
    ensures
        rated_upto(cs, r) <= (if r <= 0 {
            0
        } else {
            r
        }) * cs.len(),
    decreases r,
{
    if r > 0 {
        lemma_rated_upto_bound(cs, r - 1);
        lemma_rate_count_bound(cs, r);
        if r - 1 <= 0 {
            assert(rated_upto(cs, r - 1) == 0);
        }
        assert((r - 1) * cs.len() + cs.len() == r * cs.len()) by (nonlinear_arith);
    }
}

/// The ratings: how many entries have each rating (index 0 stays 0),
/// their sum and their number.
pub struct RatingCounts {
    pub histogram: Vec<usize>,
    pub total: u128,
    pub count: usize,
}

/// Counts the ratings of the collection.
pub fn count_ratings(collections: &[UserSubjectCollection]) -> (r: RatingCounts)
    requires
        ratings_in_range(collections@),
    ensures
        r.histogram@.len() == 11,
        forall|v: int| 0 <= v < 11 ==> #[trigger] r.histogram@[v] == rate_count(collections@, v),
        r.total == rating_total(collections@),
        r.count == rated_entries(collections@),
{
    let mut histogram: Vec<usize> = Vec::new();
    let mut v: usize = 0;
    while v < 11
        invariant
            v <= 11,
            histogram@.len() == v,
            forall|w: int| 0 <= w < v ==> #[trigger] histogram@[w] == 0,
        decreases 11 - v,
    {
        histogram.push(0);
        v = v + 1;
    }
    let mut total: u128 = 0;
    let mut count: usize = 0;
    let mut i: usize = 0;
    let ghost cs = collections@;
    assert(cs.take(0) =~= Seq::<UserSubjectCollection>::empty());
    while i < collections.len()
        invariant
            cs == collections@,
            ratings_in_range(cs),
            i <= collections.len(),
            histogram@.len() == 11,
            forall|w: int| 0 <= w < 11 ==> #[trigger] histogram@[w] == rate_count(cs.take(i as int), w),
            total == rating_total(cs.take(i as int)),
            count == rated_entries(cs.take(i as int)),
        decreases collections.len() - i,
    {
        proof {
            assert(cs.take(i + 1).drop_last() =~= cs.take(i as int));
            lemma_rate_count_bound(cs.take(i as int), 0);
            assert forall|w: int| 0 <= w < 11 implies rate_count(cs.take(i as int), w) <= i by {
                lemma_rate_count_bound(cs.take(i as int), w);
            }
        }
        let rate = collections[i].rate;
        assert(rate == cs[i as int].rate);
        if rate > 0 {
            let r = rate as usize;
            let before = histogram[r];
            assert(histogram@[r as int] == before);
            histogram.set(r, before + 1);
            total = total + rate as u128;
            count = count + 1;
        }
        i = i + 1;
    }
    assert(cs.take(collections.len() as int) =~= cs);
    RatingCounts { histogram, total, count }
}

/// The rating at sorted position `k`, read from the histogram.
fn kth_from_histogram(histogram: &Vec<usize>, k: usize, Ghost(cs): Ghost<Seq<UserSubjectCollection>>) -> (v: u8)
    requires
        histogram@.len() == 11,
        forall|w: int| 0 <= w < 11 ==> #[trigger] histogram@[w] == rate_count(cs, w),
        cs.len() <= usize::MAX,
    ensures
        v == kth_rating(cs, k as int),
{
    let mut v: usize = 1;
    let mut cum: u128 = histogram[1] as u128;
    assert(rated_upto(cs, 0) == 0);
    while v < 10 && cum <= k as u128
        invariant
            1 <= v <= 10,
            histogram@.len() == 11,
            forall|w: int| 0 <= w < 11 ==> #[trigger] histogram@[w] == rate_count(cs, w),
            cs.len() <= usize::MAX,
            cum == rated_upto(cs, v as int),
            kth_rating(cs, k as int) == kth_rating_from(cs, k as int, v as int),
        decreases 10 - v,
    {
        v = v + 1;
        proof {
            lemma_rated_upto_bound(cs, v as int);
            assert(v * cs.len() <= 10 * 0x1_0000_0000_0000_0000) by (nonlinear_arith)
                requires
                    v <= 10,
                    cs.len() <= 0x1_0000_0000_0000_0000,
            ;
        }
        cum = cum + histogram[v] as u128;
    }
    v as u8
}

/// The median rating as a total over a count.
pub fn median_rating(counts: &RatingCounts, Ghost(cs): Ghost<Seq<UserSubjectCollection>>) -> (m: Mean)
    requires
        counts.histogram@.len() == 11,
        forall|v: int| 0 <= v < 11 ==> #[trigger] counts.histogram@[v] == rate_count(cs, v),
        counts.count == rated_entries(cs),
        cs.len() <= usize::MAX,
    ensures
        m.total == median_parts(cs).0,
        m.count == median_parts(cs).1,
{
    let n = counts.count;
    if n == 0 {
        Mean { total: 0, count: 0 }
    } else if n % 2 == 0 {
        let a = kth_from_histogram(&counts.histogram, n / 2 - 1, Ghost(cs));
        let b = kth_from_histogram(&counts.histogram, n / 2, Ghost(cs));
        Mean { total: a as u128 + b as u128, count: 2 }
    } else {
        let a = kth_from_histogram(&counts.histogram, n / 2, Ghost(cs));
        Mean { total: a as u128, count: 1 }
    }
}

// ---------------------------------------------------------------------
// Rated items
// ---------------------------------------------------------------------

/// The name an entry is listed under: its subject's name, or
/// "Subject #<id>" where the subject is missing.
pub open spec fn listed_name(c: UserSubjectCollection) -> Seq<char> {
    match c.subject {
        Some(s) => s.name@,
        None => "Subject #"@ + decimal(c.subject_id as nat),
    }
}

/// The cover address of an entry: the first of the large, medium, small
/// and grid images that its subject has.
pub open spec fn cover_of(c: UserSubjectCollection) -> Option<Seq<char>> {
    match c.subject {
        Some(s) => match s.images {
            Some(img) => if img.large is Some {
                opt_view(img.large)
            } else if img.medium is Some {
                opt_view(img.medium)
            } else if img.small is Some {
                opt_view(img.small)
            } else {
                opt_view(img.grid)
            },
            None => None,
        },
        None => None,
    }
}

/// The Chinese name of an entry's subject.
pub open spec fn subject_name_cn(c: UserSubjectCollection) -> Option<Seq<char>> {
    match c.subject {
        Some(s) => opt_view(s.name_cn),
        None => None,
    }
}

/// The community score of an entry's subject, in thousandths.
pub open spec fn subject_score(c: UserSubjectCollection) -> Option<u32> {
    match c.subject {
        Some(s) => s.score,
        None => None,
    }
}

/// The collection count of an entry's subject.
pub open spec fn subject_collection_total(c: UserSubjectCollection) -> Option<u64> {
    match c.subject {
        Some(s) => s.collection_total,
        None => None,
    }
}

/// `item` describes the entry `c`.
pub open spec fn item_matches(item: RatedItem, c: UserSubjectCollection) -> bool {
    &&& item.name@ == listed_name(c)
    &&& opt_view(item.name_cn) == subject_name_cn(c)
    &&& item.rating == c.rate
    &&& item.subject_type@ == subject_type_label(c.subject_type)
    &&& item.subject_id == c.subject_id
    &&& opt_view(item.cover_url) == cover_of(c)
    &&& item.community_score == subject_score(c)
    &&& item.rank == crate::counts::subject_rank(c)
}

/// The cover address of an entry (`get_cover_url`).
pub fn get_cover_url(c: &UserSubjectCollection) -> (url: Option<String>)
    ensures
        opt_view(url) == cover_of(*c),
{
    match &c.subject {
        Some(s) => match &s.images {
            Some(img) => {
                if img.large.is_some() {
                    clone_opt(&img.large)
                } else if img.medium.is_some() {
                    clone_opt(&img.medium)
                } else if img.small.is_some() {
                    clone_opt(&img.small)
                } else {
                    clone_opt(&img.grid)
                }
            },
            None => None,
        },
        None => None,
    }
}

/// The name an entry is listed under.
pub fn listed_name_of(c: &UserSubjectCollection) -> (name: String)
    ensures
        name@ == listed_name(*c),
{
    match &c.subject {
        Some(s) => s.name.clone(),
        None => {
            let mut name = String::from_str("Subject #");
            push_decimal(&mut name, c.subject_id);
            name
        },
    }
}

/// The item that describes an entry.
pub fn rated_item_of(c: &UserSubjectCollection) -> (item: RatedItem)
    ensures
        item_matches(item, *c),
{
    let (name_cn, community_score, rank) = match &c.subject {
        Some(s) => (clone_opt(&s.name_cn), s.score, s.rank),
        None => (None, None, None),
    };
    RatedItem {
        name: listed_name_of(c),
        name_cn,
        rating: c.rate,
        subject_type: subject_type_name(c.subject_type),
        subject_id: c.subject_id,
        cover_url: get_cover_url(c),
        community_score,
        rank,
    }
}

/// A copy of an item.
pub fn copy_item(item: &RatedItem) -> (r: RatedItem)
    ensures
        r.name@ == item.name@,
        opt_view(r.name_cn) == opt_view(item.name_cn),
        r.rating == item.rating,
        r.subject_type@ == item.subject_type@,
        r.subject_id == item.subject_id,
        opt_view(r.cover_url) == opt_view(item.cover_url),
        r.community_score == item.community_score,
        r.rank == item.rank,
{
    RatedItem {
        name: item.name.clone(),
        name_cn: clone_opt(&item.name_cn),
        rating: item.rating,
        subject_type: item.subject_type.clone(),
        subject_id: item.subject_id,
        cover_url: clone_opt(&item.cover_url),
        community_score: item.community_score,
        rank: item.rank,
    }
}

/// The positions of the rated entries, in order.
pub open spec fn rated_positions(cs: Seq<UserSubjectCollection>) -> Seq<int>
    decreases cs.len(),
{
    if cs.len() == 0 {
        seq![]
    } else if cs.last().rate > 0 {
        rated_positions(cs.drop_last()).push(cs.len() - 1)
    } else {
        rated_positions(cs.drop_last())
    }
}

proof fn lemma_rated_positions(cs: Seq<UserSubjectCollection>)
    ensures
        forall|k: int|
            0 <= k < rated_positions(cs).len() ==> 0 <= #[trigger] rated_positions(cs)[k] < cs.len()
                && cs[rated_positions(cs)[k]].rate > 0,
        rated_positions(cs).len() <= cs.len(),
    decreases cs.len(),
{
    if cs.len() > 0 {
        lemma_rated_positions(cs.drop_last());
        let p = rated_positions(cs.drop_last());
        assert forall|k: int| 0 <= k < p.len() implies cs[p[k]] == cs.drop_last()[p[k]] by {}
    }
}

/// Whether the `a`-th rated entry is listed before the `b`-th: higher
/// rating first, then by name, then in collection order.
pub open spec fn rated_before(cs: Seq<UserSubjectCollection>, a: int, b: int) -> bool {
    let pos = rated_positions(cs);
    let ca = cs[pos[a]];
    let cb = cs[pos[b]];
    ||| ca.rate > cb.rate
    ||| ca.rate == cb.rate && text_less(listed_name(ca), listed_name(cb))
    ||| ca.rate == cb.rate && listed_name(ca) == listed_name(cb) && a < b
}

/// The order of the rated entries in the lists of top items.
pub open spec fn top_rated_order(cs: Seq<UserSubjectCollection>) -> spec_fn(int, int) -> bool {
    |a: int, b: int| rated_before(cs, a, b)
}

proof fn lemma_top_rated_order(cs: Seq<UserSubjectCollection>)
    ensures
        strict_total_order(top_rated_order(cs), rated_positions(cs).len() as int),
{
    let rel = top_rated_order(cs);
    let n = rated_positions(cs).len() as int;
    assert forall|i: int| 0 <= i < n implies !#[trigger] rel(i, i) by {
        lemma_text_less_irreflexive(listed_name(cs[rated_positions(cs)[i]]));
    }
    assert forall|i: int, j: int, k: int|
        0 <= i < n && 0 <= j < n && 0 <= k < n && #[trigger] rel(i, j) && #[trigger] rel(
            j,
            k,
        ) implies rel(i, k) by {
        let pos = rated_positions(cs);
        let (a, b, c) = (listed_name(cs[pos[i]]), listed_name(cs[pos[j]]), listed_name(cs[pos[k]]));
        if text_less(a, b) && text_less(b, c) {
            lemma_text_less_transitive(a, b, c);
        }
    }
    assert forall|i: int, j: int| 0 <= i < n && 0 <= j < n && i != j implies #[trigger] rel(i, j)
        || #[trigger] rel(j, i) by {
        let pos = rated_positions(cs);
        let (a, b) = (listed_name(cs[pos[i]]), listed_name(cs[pos[j]]));
        if a != b {
            lemma_text_less_total(a, b);
        }
    }
}

/// The list order of positions `a` and `b`, given each position's rating
/// and name.
pub open spec fn keys_before(ratings: Seq<u8>, names: Seq<Vec<char>>, a: int, b: int) -> bool {
    ||| ratings[a] > ratings[b]
    ||| ratings[a] == ratings[b] && text_less(names[a]@, names[b]@)
    ||| ratings[a] == ratings[b] && names[a]@ == names[b]@ && a < b
}

/// The list order of rated entries `a` and `b`, from their ratings and
/// names.
fn listed_first(ratings: &Vec<u8>, names: &Vec<Vec<char>>, a: usize, b: usize) -> (r: bool)
    requires
        a < ratings.len(),
        b < ratings.len(),
        ratings.len() == names.len(),
    ensures
        r == keys_before(ratings@, names@, a as int, b as int),
{
    if ratings[a] != ratings[b] {
        return ratings[a] > ratings[b];
    }
    if chars_less(&names[a], &names[b]) {
        return true;
    }
    if chars_less(&names[b], &names[a]) {
        proof {
            lemma_text_less_asymmetric(names@[b as int]@, names@[a as int]@);
            lemma_text_less_irreflexive(names@[a as int]@);
        }
        return false;
    }
    proof {
        if names@[a as int]@ != names@[b as int]@ {
            lemma_text_less_total(names@[a as int]@, names@[b as int]@);
        }
    }
    a < b
}

/// `top` lists, for the first `limit` rated entries in list order, the
/// items that describe them.
pub open spec fn is_top_rated(top: Seq<RatedItem>, cs: Seq<UserSubjectCollection>, limit: int) -> bool {
    exists|sel: Seq<usize>|
        {
            &&& is_first_in_order(sel, rated_positions(cs).len() as int, limit, top_rated_order(cs))
            &&& top.len() == sel.len()
            &&& forall|k: int|
                0 <= k < top.len() ==> item_matches(
                    #[trigger] top[k],
                    cs[rated_positions(cs)[sel[k] as int]],
                )
        }
}

/// The ten best rated entries: highest rating first, then by name, then in
/// collection order.
pub fn top_rated_items(collections: &[UserSubjectCollection]) -> (top: Vec<RatedItem>)
    ensures
        is_top_rated(top@, collections@, 10),
{
    let ghost cs = collections@;
    let ghost pos = rated_positions(cs);
    let mut items: Vec<RatedItem> = Vec::new();
    let mut ratings: Vec<u8> = Vec::new();
    let mut names: Vec<Vec<char>> = Vec::new();
    let mut i: usize = 0;
    assert(cs.take(0) =~= Seq::<UserSubjectCollection>::empty());
    while i < collections.len()
        invariant
            cs == collections@,
            pos == rated_positions(cs),
            i <= collections.len(),
            items.len() == rated_positions(cs.take(i as int)).len(),
            ratings.len() == items.len(),
            names.len() == items.len(),
            forall|k: int|
                0 <= k < items.len() ==> {
                    &&& item_matches(#[trigger] items@[k], cs[rated_positions(cs.take(i as int))[k]])
                    &&& ratings@[k] == cs[rated_positions(cs.take(i as int))[k]].rate
                    &&& names@[k]@ == listed_name(cs[rated_positions(cs.take(i as int))[k]])
                },
            forall|k: int|
                0 <= k < rated_positions(cs.take(i as int)).len() ==> 0 <= #[trigger] rated_positions(
                    cs.take(i as int),
                )[k] < i,
        decreases collections.len() - i,
    {
        let ghost prev = rated_positions(cs.take(i as int));
        proof {
            assert(cs.take(i + 1).drop_last() =~= cs.take(i as int));
        }
        let c = &collections[i];
        assert(cs.take(i + 1)[i as int] == cs[i as int]);
        if c.rate > 0 {
            let item = rated_item_of(c);
            let name = chars_of(item.name.as_str());
            let ghost old_items = items@;
            let ghost old_ratings = ratings@;
            let ghost old_names = names@;
            ratings.push(c.rate);
            names.push(name);
            items.push(item);
            proof {
                let now = rated_positions(cs.take(i + 1));
                assert(now == prev.push(i as int));
                assert forall|k: int| 0 <= k < items.len() implies {
                    &&& item_matches(#[trigger] items@[k], cs[now[k]])
                    &&& ratings@[k] == cs[now[k]].rate
                    &&& names@[k]@ == listed_name(cs[now[k]])
                } by {
                    if k < prev.len() {
                        assert(now[k] == prev[k]);
                        assert(items@[k] == old_items[k]);
                        assert(ratings@[k] == old_ratings[k]);
                        assert(names@[k] == old_names[k]);
                    } else {
                        assert(now[k] == i);
                        assert(items@[k] == item);
                    }
                }
            }
        } else {
            proof {
                assert(rated_positions(cs.take(i + 1)) == prev);
            }
        }
        i = i + 1;
    }
    assert(cs.take(collections.len() as int) =~= cs);
    assert(rated_positions(cs.take(collections.len() as int)) == pos);
    assert(forall|k: int|
        0 <= k < items.len() ==> {
            &&& item_matches(#[trigger] items@[k], cs[pos[k]])
            &&& ratings@[k] == cs[pos[k]].rate
            &&& names@[k]@ == listed_name(cs[pos[k]])
        });
    proof {
        lemma_top_rated_order(cs);
    }
    let n = items.len();
    let before = |a: usize, b: usize| -> (r: bool)
        requires
            a < n,
            b < n,
        ensures
            r == keys_before(ratings@, names@, a as int, b as int),
        { listed_first(&ratings, &names, a, b) };
    assert forall|a: usize, b: usize| a < n && b < n implies keys_before(
        ratings@,
        names@,
        a as int,
        b as int,
    ) == #[trigger] top_rated_order(cs)(a as int, b as int) by {
        assert(item_matches(items@[a as int], cs[pos[a as int]]));
        assert(item_matches(items@[b as int], cs[pos[b as int]]));
    }
    let sel = first_in_order(n, 10, before, Ghost(top_rated_order(cs)));
    let mut top: Vec<RatedItem> = Vec::new();
    let mut k: usize = 0;
    while k < sel.len()
        invariant
            k <= sel.len(),
            is_first_in_order(sel@, n as int, 10, top_rated_order(cs)),
            n == items.len(),
            pos == rated_positions(cs),
            n == pos.len(),
            top.len() == k,
            forall|j: int| 0 <= j < items.len() ==> item_matches(#[trigger] items@[j], cs[pos[j]]),
            forall|j: int| 0 <= j < k ==> item_matches(#[trigger] top@[j], cs[pos[sel@[j] as int]]),
        decreases sel.len() - k,
    {
        let s = sel[k];
        assert(sel@[k as int] < n);
        let item = copy_item(&items[s]);
        assert(item_matches(items@[s as int], cs[pos[s as int]]));
        top.push(item);
        k = k + 1;
    }
    assert(is_top_rated(top@, cs, 10));
    top
}

} // verus!
