//! The user's ratings beside the community's scores: the comparisons,
//! ordered by how much the user rated above the community, the subjects
//! rated most above and most below it, and the average community score.
use vstd::prelude::*;
use vstd::string::StringExecFns;
use crate::analysis::{Mean, ScoreComparison};
use crate::model::{clone_opt, opt_view, UserSubjectCollection};
use crate::names::{subject_type_label, subject_type_name};
use crate::order::{first_in_order, is_first_in_order, strict_total_order};
use crate::ratings::{subject_name_cn, subject_score};

verus! {

/// An entry is compared when the user rated it and its subject has a
/// positive community score.
pub open spec fn comparable(c: UserSubjectCollection) -> bool {
    &&& c.rate > 0
    &&& subject_score(c) is Some
    &&& subject_score(c)->0 > 0
}

/// The positions of the compared entries, in order.
pub open spec fn compared_positions(cs: Seq<UserSubjectCollection>) -> Seq<int>
    decreases cs.len(),
{
    if cs.len() == 0 {
        seq![]
    } else if comparable(cs.last()) {
        compared_positions(cs.drop_last()).push(cs.len() - 1)
    } else {
        compared_positions(cs.drop_last())
    }
}

/// The user's rating minus the community score, in thousandths.
pub open spec fn score_gap(c: UserSubjectCollection) -> int {
    c.rate * 1000 - subject_score(c)->0
}

/// `s` compares the entry `c`.
pub open spec fn comparison_matches(s: ScoreComparison, c: UserSubjectCollection) -> bool {
    &&& c.subject is Some
    &&& s.name@ == c.subject->0.name@
    &&& opt_view(s.name_cn) == subject_name_cn(c)
    &&& s.user_score == c.rate
    &&& Some(s.community_score) == subject_score(c)
    &&& s.diff == score_gap(c)
    &&& s.subject_id == c.subject_id
    &&& s.subject_type@ == subject_type_label(c.subject_type)
}

/// The order of the comparisons: larger difference first, then in
/// collection order (a stable sort by difference, descending).
pub open spec fn gap_order(cs: Seq<UserSubjectCollection>) -> spec_fn(int, int) -> bool {
    |a: int, b: int|
        {
            let pos = compared_positions(cs);
            ||| score_gap(cs[pos[a]]) > score_gap(cs[pos[b]])
            ||| score_gap(cs[pos[a]]) == score_gap(cs[pos[b]]) && a < b
        }
}

/// `sc` compares all compared entries, in the order `gap_order`.
pub open spec fn is_gap_sorted(sc: Seq<ScoreComparison>, cs: Seq<UserSubjectCollection>) -> bool {
    let pos = compared_positions(cs);
    exists|sel: Seq<usize>|
        {
            &&& is_first_in_order(sel, pos.len() as int, pos.len() as int, gap_order(cs))
            &&& sc.len() == sel.len()
            &&& forall|k: int| 0 <= k < sc.len() ==> comparison_matches(#[trigger] sc[k], cs[pos[sel[k] as int]])
        }
}

/// The first `limit` comparisons from position `i` on with a positive
/// difference, in order.
pub open spec fn gems_from(s: Seq<ScoreComparison>, i: int, limit: int) -> Seq<ScoreComparison>
    decreases s.len() - i,
{
    if i < 0 || i >= s.len() || limit <= 0 {
        seq![]
    } else if s[i].diff > 0 {
        seq![s[i]] + gems_from(s, i + 1, limit - 1)
    } else {
        gems_from(s, i + 1, limit)
    }
}

/// The last `limit` comparisons before position `j` with a negative
/// difference, from the back.
pub open spec fn overrated_before(s: Seq<ScoreComparison>, j: int, limit: int) -> Seq<ScoreComparison>
    decreases j,
{
    if j <= 0 || j > s.len() || limit <= 0 {
        seq![]
    } else if s[j - 1].diff < 0 {
        seq![s[j - 1]] + overrated_before(s, j - 1, limit - 1)
    } else {
        overrated_before(s, j - 1, limit)
    }
}

/// The sum of the community scores of the compared entries.
pub open spec fn compared_score_total(cs: Seq<UserSubjectCollection>) -> nat
    decreases cs.len(),
{
    if cs.len() == 0 {
        0
    } else if comparable(cs.last()) {
        (compared_score_total(cs.drop_last()) + subject_score(cs.last())->0) as nat
    } else {
        compared_score_total(cs.drop_last())
    }
}

proof fn lemma_compared_bounds(cs: Seq<UserSubjectCollection>)
    ensures
        compared_positions(cs).len() <= cs.len(),
        compared_score_total(cs) <= 0xffff_ffff * compared_positions(cs).len(),
        forall|k: int|
            0 <= k < compared_positions(cs).len() ==> 0 <= #[trigger] compared_positions(cs)[k]
                < cs.len() && comparable(cs[compared_positions(cs)[k]]),
    decreases cs.len(),
{
    if cs.len() > 0 {
        lemma_compared_bounds(cs.drop_last());
        let p = compared_positions(cs.drop_last());
        assert forall|k: int| 0 <= k < p.len() implies cs[p[k]] == cs.drop_last()[p[k]] by {}
    }
}

/// A copy of a comparison.
pub fn copy_comparison(s: &ScoreComparison) -> (r: ScoreComparison)
    ensures
        r == *s,
{
    let name_cn = match &s.name_cn {
        Some(n) => Some(n.clone()),
        None => None,
    };
    ScoreComparison {
        name: s.name.clone(),
        name_cn,
        user_score: s.user_score,
        community_score: s.community_score,
        diff: s.diff,
        subject_id: s.subject_id,
        subject_type: s.subject_type.clone(),
    }
}

/// Adds the comparison of a rated subject with its community score to a
/// list (`score_comparions_push`).
pub fn score_comparions_push(
    list: &mut Vec<ScoreComparison>,
    name: &str,
    name_cn: &Option<String>,
    user_score: u8,
    community_score: u32,
    subject_id: u64,
    subject_type: u8,
)
    ensures
        final(list)@.len() == old(list)@.len() + 1,
        final(list)@.drop_last() == old(list)@,
        final(list)@.last().name@ == name@,
        opt_view(final(list)@.last().name_cn) == opt_view(*name_cn),
        final(list)@.last().user_score == user_score,
        final(list)@.last().community_score == community_score,
        final(list)@.last().diff == user_score * 1000 - community_score,
        final(list)@.last().subject_id == subject_id,
        final(list)@.last().subject_type@ == subject_type_label(subject_type),
{
    let item = ScoreComparison {
        name: String::from_str(name),
        name_cn: clone_opt(name_cn),
        user_score,
        community_score,
        diff: user_score as i64 * 1000 - community_score as i64,
        subject_id,
        subject_type: subject_type_name(subject_type),
    };
    let ghost before = list@;
    list.push(item);
    assert(list@.drop_last() =~= before);
}

/// The comparisons, their order and the average community score.
pub struct Comparisons {
    pub sorted: Vec<ScoreComparison>,
    pub average: Mean,
}

/// Compares each rated entry whose subject has a positive community score
/// and sorts the comparisons by difference, largest first.
pub fn compare_scores(collections: &[UserSubjectCollection]) -> (r: Comparisons)
    ensures
        is_gap_sorted(r.sorted@, collections@),
        r.average.total == compared_score_total(collections@),
        r.average.count == compared_positions(collections@).len(),
{
    let ghost cs = collections@;
    let ghost pos = compared_positions(cs);
    let mut list: Vec<ScoreComparison> = Vec::new();
    let mut total: u128 = 0;
    let mut i: usize = 0;
    assert(cs.take(0) =~= Seq::<UserSubjectCollection>::empty());
    while i < collections.len()
        invariant
            cs == collections@,
            pos == compared_positions(cs),
            i <= collections.len(),
            list.len() == compared_positions(cs.take(i as int)).len(),
            list.len() <= i,
            total == compared_score_total(cs.take(i as int)),
            total <= 0xffff_ffff * list.len(),
            forall|k: int|
                0 <= k < list.len() ==> comparison_matches(
                    #[trigger] list@[k],
                    cs[compared_positions(cs.take(i as int))[k]],
                ),
            forall|k: int|
                0 <= k < compared_positions(cs.take(i as int)).len() ==> 0
                    <= #[trigger] compared_positions(cs.take(i as int))[k] < i,
        decreases collections.len() - i,
    {
        let ghost prev = compared_positions(cs.take(i as int));
        proof {
            assert(cs.take(i + 1).drop_last() =~= cs.take(i as int));
            assert(cs.take(i + 1).last() == cs[i as int]);
        }
        let c = &collections[i];
        assert(*c == cs[i as int]);
        let mut compared = false;
        if c.rate > 0 {
            if let Some(s) = &c.subject {
                if let Some(score) = s.score {
                    if score > 0 {
                        let ghost old_list = list@;
                        score_comparions_push(
                            &mut list,
                            s.name.as_str(),
                            &s.name_cn,
                            c.rate,
                            score,
                            c.subject_id,
                            c.subject_type,
                        );
                        assert(total + score <= 0xffff_ffff * list.len());
                        total = total + score as u128;
                        compared = true;
                        proof {
                            let now = compared_positions(cs.take(i + 1));
                            assert(now == prev.push(i as int));
                            assert forall|k: int| 0 <= k < list.len() implies comparison_matches(
                                #[trigger] list@[k],
                                cs[now[k]],
                            ) by {
                                if k < old_list.len() {
                                    assert(list@[k] == old_list[k]);
                                    assert(now[k] == prev[k]);
                                }
                            }
                        }
                    }
                }
            }
        }
        if !compared {
            assert(compared_positions(cs.take(i + 1)) == prev);
        }
        i = i + 1;
    }
    assert(cs.take(collections.len() as int) =~= cs);
    assert(compared_positions(cs.take(collections.len() as int)) == pos);
    proof {
        lemma_compared_bounds(cs);
    }
    let n = list.len();
    let ghost rel = gap_order(cs);
    assert(strict_total_order(rel, n as int));
    let before = |a: usize, b: usize| -> (r: bool)
        requires
            a < n,
            b < n,
        ensures
            r == (list@[a as int].diff > list@[b as int].diff || (list@[a as int].diff
                == list@[b as int].diff && a < b)),
        { list[a].diff > list[b].diff || (list[a].diff == list[b].diff && a < b) };
    assert forall|a: usize, b: usize| a < n && b < n implies (list@[a as int].diff
        > list@[b as int].diff || (list@[a as int].diff == list@[b as int].diff && a < b))
        == #[trigger] rel(a as int, b as int) by {
        assert(comparison_matches(list@[a as int], cs[pos[a as int]]));
        assert(comparison_matches(list@[b as int], cs[pos[b as int]]));
    }
    let sel = first_in_order(n, n, before, Ghost(rel));
    let mut sorted: Vec<ScoreComparison> = Vec::new();
    let mut k: usize = 0;
    while k < sel.len()
        invariant
            k <= sel.len(),
            is_first_in_order(sel@, n as int, n as int, rel),
            rel == gap_order(cs),
            n == list.len(),
            n == pos.len(),
            pos == compared_positions(cs),
            sorted.len() == k,
            forall|j: int| 0 <= j < n ==> comparison_matches(#[trigger] list@[j], cs[pos[j]]),
            forall|j: int| 0 <= j < k ==> comparison_matches(#[trigger] sorted@[j], cs[pos[sel@[j] as int]]),
        decreases sel.len() - k,
    {
        let s = sel[k];
        assert(sel@[k as int] < n);
        let item = copy_comparison(&list[s]);
        assert(comparison_matches(list@[s as int], cs[pos[s as int]]));
        sorted.push(item);
        k = k + 1;
    }
    assert(is_gap_sorted(sorted@, cs));
    Comparisons { sorted, average: Mean { total, count: n } }
}

/// The first five comparisons with a positive difference, in order: the
/// subjects the user rated most above the community.
pub fn hidden_gems(sorted: &Vec<ScoreComparison>) -> (gems: Vec<ScoreComparison>)
    ensures
        gems@ == gems_from(sorted@, 0, 5),
{
    let mut gems: Vec<ScoreComparison> = Vec::new();
    let mut i: usize = 0;
    while i < sorted.len() && gems.len() < 5
        invariant
            i <= sorted.len(),
            gems.len() <= 5,
            gems@ + gems_from(sorted@, i as int, 5 - gems.len()) == gems_from(sorted@, 0, 5),
        decreases sorted.len() - i,
    {
        if sorted[i].diff > 0 {
            let item = copy_comparison(&sorted[i]);
            let ghost before = gems@;
            gems.push(item);
            assert(gems@ =~= before + seq![sorted@[i as int]]);
            assert(gems@ + gems_from(sorted@, i + 1, 5 - gems.len()) =~= before + gems_from(
                sorted@,
                i as int,
                5 - before.len(),
            ));
        }
        i = i + 1;
    }
    assert(gems_from(sorted@, i as int, 5 - gems.len()) =~= Seq::<ScoreComparison>::empty());
    assert(gems@ + Seq::<ScoreComparison>::empty() =~= gems@);
    gems
}

/// The last five comparisons with a negative difference, from the back:
/// the subjects the user rated most below the community.
pub fn overrated(sorted: &Vec<ScoreComparison>) -> (worst: Vec<ScoreComparison>)
    ensures
        worst@ == overrated_before(sorted@, sorted@.len() as int, 5),
{
    let mut worst: Vec<ScoreComparison> = Vec::new();
    let mut j: usize = sorted.len();
    while j > 0 && worst.len() < 5
        invariant
            j <= sorted.len(),
            worst.len() <= 5,
            worst@ + overrated_before(sorted@, j as int, 5 - worst.len()) == overrated_before(
                sorted@,
                sorted@.len() as int,
                5,
            ),
        decreases j,
    {
        if sorted[j - 1].diff < 0 {
            let item = copy_comparison(&sorted[j - 1]);
            let ghost before = worst@;
            worst.push(item);
            assert(worst@ =~= before + seq![sorted@[j - 1]]);
            assert(worst@ + overrated_before(sorted@, j - 1, 5 - worst.len()) =~= before
                + overrated_before(sorted@, j as int, 5 - before.len()));
        }
        j = j - 1;
    }
    assert(overrated_before(sorted@, j as int, 5 - worst.len()) =~= Seq::<ScoreComparison>::empty());
    assert(worst@ + Seq::<ScoreComparison>::empty() =~= worst@);
    worst
}

} // verus!
