//! How many users collected the user's subjects: the average, and the
//! most and least collected subject.
use vstd::prelude::*;
use vstd::string::StringExecFns;
use crate::analysis::{Mean, PopularityStats};
use crate::model::UserSubjectCollection;
use crate::ratings::subject_collection_total;

verus! {

/// The (name, collection count) of each entry whose subject has a
/// collection count, in order.
pub open spec fn popularity_items(cs: Seq<UserSubjectCollection>) -> Seq<(Seq<char>, u64)>
    decreases cs.len(),
{
    if cs.len() == 0 {
        seq![]
    } else {
        match subject_collection_total(cs.last()) {
            Some(t) => popularity_items(cs.drop_last()).push((cs.last().subject->0.name@, t)),
            None => popularity_items(cs.drop_last()),
        }
    }
}

/// The sum of the collection counts.
pub open spec fn popularity_total(items: Seq<(Seq<char>, u64)>) -> nat
    decreases items.len(),
{
    if items.len() == 0 {
        0
    } else {
        (popularity_total(items.drop_last()) + items.last().1) as nat
    }
}

/// `(name, count)` is the first item with the largest count.
pub open spec fn is_most_collected(items: Seq<(Seq<char>, u64)>, name: Seq<char>, count: u64) -> bool {
    exists|i: int|
        0 <= i < items.len() && #[trigger] items[i] == (name, count) && (forall|j: int|
            0 <= j < items.len() ==> #[trigger] items[j].1 <= count) && (forall|j: int|
            0 <= j < i ==> #[trigger] items[j].1 < count)
}

/// `(name, count)` is the last item with the smallest count.
pub open spec fn is_least_collected(items: Seq<(Seq<char>, u64)>, name: Seq<char>, count: u64) -> bool {
    exists|i: int|
        0 <= i < items.len() && #[trigger] items[i] == (name, count) && (forall|j: int|
            0 <= j < items.len() ==> #[trigger] items[j].1 >= count) && (forall|j: int|
            i < j < items.len() ==> #[trigger] items[j].1 > count)
}

/// The popularity figures of a collection: without collection counts, an
/// empty average and "N/A" with 0 for both ends; else the average count,
/// the first subject with the largest count and the last with the
/// smallest.
pub open spec fn is_popularity(p: PopularityStats, cs: Seq<UserSubjectCollection>) -> bool {
    let items = popularity_items(cs);
    if items.len() == 0 {
        &&& p.avg_collection_total.total == 0
        &&& p.avg_collection_total.count == 0
        &&& p.most_collected_name@ == "N/A"@
        &&& p.most_collected_count == 0
        &&& p.least_collected_name@ == "N/A"@
        &&& p.least_collected_count == 0
    } else {
        &&& p.avg_collection_total.total == popularity_total(items)
        &&& p.avg_collection_total.count == items.len()
        &&& is_most_collected(items, p.most_collected_name@, p.most_collected_count)
        &&& is_least_collected(items, p.least_collected_name@, p.least_collected_count)
    }
}

proof fn lemma_popularity_bounds(cs: Seq<UserSubjectCollection>)
    ensures
        popularity_items(cs).len() <= cs.len(),
        popularity_total(popularity_items(cs)) <= 0xffff_ffff_ffff_ffff * popularity_items(cs).len(),
    decreases cs.len(),
{
    if cs.len() > 0 {
        lemma_popularity_bounds(cs.drop_last());
        let items = popularity_items(cs);
        if items.len() > 0 {
            assert(popularity_total(items) == popularity_total(items.drop_last()) + items.last().1);
        }
        match subject_collection_total(cs.last()) {
            Some(t) => {
                assert(items.drop_last() =~= popularity_items(cs.drop_last()));
            },
            None => {},
        }
    }
}

/// The popularity figures of a collection.
pub fn popularity_stats(collections: &[UserSubjectCollection]) -> (p: PopularityStats)
    ensures
        is_popularity(p, collections@),
{
    let ghost cs = collections@;
    let mut total: u128 = 0;
    let mut count: usize = 0;
    let mut most: Option<(String, u64)> = None;
    let mut least: Option<(String, u64)> = None;
    let ghost mut most_at: int = 0;
    let ghost mut least_at: int = 0;
    let mut i: usize = 0;
    assert(cs.take(0) =~= Seq::<UserSubjectCollection>::empty());
    while i < collections.len()
        invariant
            cs == collections@,
            i <= collections.len(),
            count == popularity_items(cs.take(i as int)).len(),
            count <= i,
            total == popularity_total(popularity_items(cs.take(i as int))),
            total <= 0xffff_ffff_ffff_ffff * count,
            count == 0 <==> most is None,
            count == 0 <==> least is None,
            most matches Some(m) ==> {
                let items = popularity_items(cs.take(i as int));
                &&& 0 <= most_at < items.len()
                &&& items[most_at] == (m.0@, m.1)
                &&& forall|j: int| 0 <= j < items.len() ==> #[trigger] items[j].1 <= m.1
                &&& forall|j: int| 0 <= j < most_at ==> #[trigger] items[j].1 < m.1
            },
            least matches Some(l) ==> {
                let items = popularity_items(cs.take(i as int));
                &&& 0 <= least_at < items.len()
                &&& items[least_at] == (l.0@, l.1)
                &&& forall|j: int| 0 <= j < items.len() ==> #[trigger] items[j].1 >= l.1
                &&& forall|j: int| least_at < j < items.len() ==> #[trigger] items[j].1 > l.1
            },
        decreases collections.len() - i,
    {
        let ghost prev = popularity_items(cs.take(i as int));
        proof {
            assert(cs.take(i + 1).drop_last() =~= cs.take(i as int));
            assert(cs.take(i + 1).last() == cs[i as int]);
        }
        let c = &collections[i];
        assert(*c == cs[i as int]);
        if let Some(s) = &c.subject {
            if let Some(t) = s.collection_total {
                let ghost now = prev.push((s.name@, t));
                assert(popularity_items(cs.take(i + 1)) == now);
                assert(now.drop_last() =~= prev);
                total = total + t as u128;
                count = count + 1;
                let replace_most = match &most {
                    Some(m) => t > m.1,
                    None => true,
                };
                if replace_most {
                    most = Some((s.name.clone(), t));
                    proof {
                        most_at = prev.len() as int;
                    }
                }
                let replace_least = match &least {
                    Some(l) => t <= l.1,
                    None => true,
                };
                if replace_least {
                    least = Some((s.name.clone(), t));
                    proof {
                        least_at = prev.len() as int;
                    }
                }
                proof {
                    if most is Some {
                        let m = most->0;
                        assert(now[most_at] == (m.0@, m.1));
                        assert forall|j: int| 0 <= j < now.len() implies #[trigger] now[j].1 <= m.1 by {
                            if j < prev.len() {
                                assert(now[j] == prev[j]);
                            }
                        }
                        assert forall|j: int| 0 <= j < most_at implies #[trigger] now[j].1 < m.1 by {
                            assert(now[j] == prev[j]);
                        }
                    }
                    if least is Some {
                        let l = least->0;
                        assert(now[least_at] == (l.0@, l.1));
                        assert forall|j: int| 0 <= j < now.len() implies #[trigger] now[j].1 >= l.1 by {
                            if j < prev.len() {
                                assert(now[j] == prev[j]);
                            }
                        }
                        assert forall|j: int| least_at < j < now.len() implies #[trigger] now[j].1
                            > l.1 by {
                            if j < prev.len() {
                                assert(now[j] == prev[j]);
                            }
                        }
                    }
                }
            } else {
                assert(popularity_items(cs.take(i + 1)) == prev);
            }
        } else {
            assert(popularity_items(cs.take(i + 1)) == prev);
        }
        i = i + 1;
    }
    assert(cs.take(collections.len() as int) =~= cs);
    match (most, least) {
        (Some(m), Some(l)) => PopularityStats {
            avg_collection_total: Mean { total, count },
            most_collected_name: m.0,
            most_collected_count: m.1,
            least_collected_name: l.0,
            least_collected_count: l.1,
        },
        _ => PopularityStats {
            avg_collection_total: Mean { total: 0, count: 0 },
            most_collected_name: String::from_str("N/A"),
            most_collected_count: 0,
            least_collected_name: String::from_str("N/A"),
            least_collected_count: 0,
        },
    }
}

} // verus!
