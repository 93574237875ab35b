//! Simple counts over a collection: ranking bands, private entries,
//! entries with a comment, and how far the user got through subjects.
use vstd::prelude::*;
use crate::analysis::{CompletionStats, RankDistribution};
use crate::model::UserSubjectCollection;
use crate::text::{is_blank, trim};

verus! {

/// The site rank of the entry's subject, where the entry has a subject
/// with a rank.
pub open spec fn subject_rank(c: UserSubjectCollection) -> Option<u64> {
    match c.subject {
        Some(s) => s.rank,
        None => None,
    }
}

/// The ranking bands: among entries with a subject, those with a positive
/// rank count as ranked (and in the top 100, 500, 1000 by that rank), and
/// the others as unranked. Entries without a subject count nowhere.
pub open spec fn rank_bands(cs: Seq<UserSubjectCollection>) -> (nat, nat, nat, nat, nat)
    decreases cs.len(),
{
    if cs.len() == 0 {
        (0, 0, 0, 0, 0)
    } else {
        let (t100, t500, t1000, ranked, unranked) = rank_bands(cs.drop_last());
        let c = cs.last();
        if c.subject is None {
            (t100, t500, t1000, ranked, unranked)
        } else {
            match subject_rank(c) {
                Some(r) if r > 0 => (
                    t100 + (if r <= 100 {
                        1nat
                    } else {
                        0nat
                    }),
                    t500 + (if r <= 500 {
                        1nat
                    } else {
                        0nat
                    }),
                    t1000 + (if r <= 1000 {
                        1nat
                    } else {
                        0nat
                    }),
                    ranked + 1,
                    unranked,
                ),
                _ => (t100, t500, t1000, ranked, unranked + 1),
            }
        }
    }
}

/// Whether a rank distribution holds the given bands.
pub open spec fn rank_matches(d: RankDistribution, b: (nat, nat, nat, nat, nat)) -> bool {
    &&& d.top_100 == b.0
    &&& d.top_500 == b.1
    &&& d.top_1000 == b.2
    &&& d.ranked == b.3
    &&& d.unranked == b.4
}

/// Counts the entries of each ranking band.
pub fn rank_distribution(collections: &[UserSubjectCollection]) -> (d: RankDistribution)
    ensures
        rank_matches(d, rank_bands(collections@)),
{
    let mut d = RankDistribution { top_100: 0, top_500: 0, top_1000: 0, ranked: 0, unranked: 0 };
    let mut i: usize = 0;
    assert(collections@.take(0) =~= Seq::<UserSubjectCollection>::empty());
    while i < collections.len()
        invariant
            i <= collections.len(),
            rank_matches(d, rank_bands(collections@.take(i as int))),
            d.top_100 <= i && d.top_500 <= i && d.top_1000 <= i && d.ranked <= i && d.unranked <= i,
        decreases collections.len() - i,
    {
        assert(collections@.take(i + 1).drop_last() =~= collections@.take(i as int));
        let c = &collections[i];
        if let Some(s) = &c.subject {
            match s.rank {
                Some(r) if r > 0 => {
                    d.ranked = d.ranked + 1;
                    if r <= 100 {
                        d.top_100 = d.top_100 + 1;
                    }
                    if r <= 500 {
                        d.top_500 = d.top_500 + 1;
                    }
                    if r <= 1000 {
                        d.top_1000 = d.top_1000 + 1;
                    }
                },
                _ => {
                    d.unranked = d.unranked + 1;
                },
            }
        }
        i = i + 1;
    }
    assert(collections@.take(collections.len() as int) =~= collections@);
    d
}

/// How many entries are marked private.
pub open spec fn private_entries(cs: Seq<UserSubjectCollection>) -> nat
    decreases cs.len(),
{
    if cs.len() == 0 {
        0
    } else {
        private_entries(cs.drop_last()) + (if cs.last().private == Some(true) {
            1nat
        } else {
            0nat
        })
    }
}

/// Counts the private entries.
pub fn private_count(collections: &[UserSubjectCollection]) -> (n: usize)
    ensures
        n == private_entries(collections@),
{
    let mut n: usize = 0;
    let mut i: usize = 0;
    assert(collections@.take(0) =~= Seq::<UserSubjectCollection>::empty());
    while i < collections.len()
        invariant
            i <= collections.len(),
            n <= i,
            n == private_entries(collections@.take(i as int)),
        decreases collections.len() - i,
    {
        assert(collections@.take(i + 1).drop_last() =~= collections@.take(i as int));
        if collections[i].private == Some(true) {
            n = n + 1;
        }
        i = i + 1;
    }
    assert(collections@.take(collections.len() as int) =~= collections@);
    n
}

/// Whether an entry carries a comment that is not just white space.
pub open spec fn has_comment(c: UserSubjectCollection) -> bool {
    match c.comment {
        Some(s) => trim(s@).len() > 0,
        None => false,
    }
}

/// How many entries carry a comment.
pub open spec fn commented_entries(cs: Seq<UserSubjectCollection>) -> nat
    decreases cs.len(),
{
    if cs.len() == 0 {
        0
    } else {
        commented_entries(cs.drop_last()) + (if has_comment(cs.last()) {
            1nat
        } else {
            0nat
        })
    }
}

/// Counts the entries with a comment that is not blank.
pub fn comment_count(collections: &[UserSubjectCollection]) -> (n: usize)
    ensures
        n == commented_entries(collections@),
{
    let mut n: usize = 0;
    let mut i: usize = 0;
    assert(collections@.take(0) =~= Seq::<UserSubjectCollection>::empty());
    while i < collections.len()
        invariant
            i <= collections.len(),
            n <= i,
            n == commented_entries(collections@.take(i as int)),
        decreases collections.len() - i,
    {
        assert(collections@.take(i + 1).drop_last() =~= collections@.take(i as int));
        let counted = match &collections[i].comment {
            Some(s) => !is_blank(s.as_str()),
            None => false,
        };
        if counted {
            n = n + 1;
        }
        i = i + 1;
    }
    assert(collections@.take(collections.len() as int) =~= collections@);
    n
}

/// The length of the entry's subject that progress is measured against:
/// its volumes when `by_volumes`, else its episodes.
pub open spec fn subject_length(c: UserSubjectCollection, by_volumes: bool) -> Option<u32> {
    match c.subject {
        Some(s) => if by_volumes {
            s.volumes
        } else {
            s.eps
        },
        None => None,
    }
}

/// How far the user got: volumes read for books (type 1), else episodes.
pub open spec fn progress_of(c: UserSubjectCollection, subject_type: u8) -> u32 {
    let p = if subject_type == 1 {
        c.vol_status
    } else {
        c.ep_status
    };
    match p {
        Some(v) => v,
        None => 0,
    }
}

/// Among the entries of the given type whose subject length is known and
/// positive: how many there are, how many the user finished (progress at
/// least the length), and how many the user started without finishing.
pub open spec fn completion_counts(
    cs: Seq<UserSubjectCollection>,
    subject_type: u8,
    by_volumes: bool,
) -> (nat, nat, nat)
    decreases cs.len(),
{
    if cs.len() == 0 {
        (0, 0, 0)
    } else {
        let (known, done, doing) = completion_counts(cs.drop_last(), subject_type, by_volumes);
        let c = cs.last();
        if c.subject_type == subject_type {
            match subject_length(c, by_volumes) {
                Some(total) if total > 0 => {
                    let p = progress_of(c, subject_type);
                    if p >= total {
                        (known + 1, done + 1, doing)
                    } else if p > 0 {
                        (known + 1, done, doing + 1)
                    } else {
                        (known + 1, done, doing)
                    }
                },
                _ => (known, done, doing),
            }
        } else {
            (known, done, doing)
        }
    }
}

/// Whether completion statistics hold the given counts.
pub open spec fn completion_matches(s: CompletionStats, c: (nat, nat, nat)) -> bool {
    &&& s.total_with_progress == c.0
    &&& s.completed == c.1
    &&& s.in_progress == c.2
}

/// Counts progress over the subjects of one type; their length is the
/// number of volumes when `by_volumes`, else the number of episodes.
pub fn compute_completion(
    collections: &[UserSubjectCollection],
    subject_type: u8,
    by_volumes: bool,
) -> (stats: CompletionStats)
    ensures
        completion_matches(stats, completion_counts(collections@, subject_type, by_volumes)),
{
    let mut stats = CompletionStats { total_with_progress: 0, completed: 0, in_progress: 0 };
    let mut i: usize = 0;
    assert(collections@.take(0) =~= Seq::<UserSubjectCollection>::empty());
    while i < collections.len()
        invariant
            i <= collections.len(),
            stats.total_with_progress <= i && stats.completed <= i && stats.in_progress <= i,
            completion_matches(
                stats,
                completion_counts(collections@.take(i as int), subject_type, by_volumes),
            ),
        decreases collections.len() - i,
    {
        assert(collections@.take(i + 1).drop_last() =~= collections@.take(i as int));
        let c = &collections[i];
        if c.subject_type == subject_type {
            let length = match &c.subject {
                Some(s) => if by_volumes {
                    s.volumes
                } else {
                    s.eps
                },
                None => None,
            };
            if let Some(total) = length {
                if total > 0 {
                    stats.total_with_progress = stats.total_with_progress + 1;
                    let progress = if subject_type == 1 {
                        c.vol_status.unwrap_or(0)
                    } else {
                        c.ep_status.unwrap_or(0)
                    };
                    if progress >= total {
                        stats.completed = stats.completed + 1;
                    } else if progress > 0 {
                        stats.in_progress = stats.in_progress + 1;
                    }
                }
            }
        }
        i = i + 1;
    }
    assert(collections@.take(collections.len() as int) =~= collections@);
    stats
}

} // verus!
