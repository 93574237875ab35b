//! Counting how often each label occurs: a list of (label, count) pairs
//! with each label once, in the order in which labels were first seen.
use vstd::prelude::*;

verus! {

/// How many times `key` occurs in `labels`.
pub open spec fn occurrences(labels: Seq<Seq<char>>, key: Seq<char>) -> nat
    decreases labels.len(),
{
    if labels.len() == 0 {
        0
    } else {
        occurrences(labels.drop_last(), key) + (if labels.last() == key {
            1nat
        } else {
            0nat
        })
    }
}

/// The (label, count) view of a tally held in a vector.
pub open spec fn pairs_view(t: Seq<(String, usize)>) -> Seq<(Seq<char>, nat)> {
    t.map_values(|p: (String, usize)| (p.0@, p.1 as nat))
}

/// Whether the tally `t` holds the label `key`.
pub open spec fn has_label(t: Seq<(Seq<char>, nat)>, key: Seq<char>) -> bool {
    exists|i: int| 0 <= i < t.len() && #[trigger] t[i].0 == key
}

/// `t` counts `labels`: every label of `labels` stands in `t` exactly once,
/// with the number of its occurrences, and `t` holds no other label.
pub open spec fn is_tally(t: Seq<(Seq<char>, nat)>, labels: Seq<Seq<char>>) -> bool {
    &&& forall|i: int| 0 <= i < t.len() ==> #[trigger] t[i].1 == occurrences(labels, t[i].0)
    &&& forall|i: int, j: int| 0 <= i < j < t.len() ==> #[trigger] t[i].0 != #[trigger] t[j].0
    &&& forall|k: int| 0 <= k < labels.len() ==> has_label(t, #[trigger] labels[k])
    &&& forall|i: int| 0 <= i < t.len() ==> labels.contains(#[trigger] t[i].0)
}

/// A label that does not occur has no occurrences; none has more
/// occurrences than there are labels.
pub proof fn lemma_occurrences(labels: Seq<Seq<char>>, key: Seq<char>)
    ensures
        occurrences(labels, key) <= labels.len(),
        !labels.contains(key) ==> occurrences(labels, key) == 0,
        labels.contains(key) ==> occurrences(labels, key) > 0,
    decreases labels.len(),
{
    if labels.len() > 0 {
        lemma_occurrences(labels.drop_last(), key);
        if labels.drop_last().contains(key) {
            let k = choose|k: int| 0 <= k < labels.drop_last().len() && labels.drop_last()[k] == key;
            assert(labels[k] == key);
        }
        if labels.contains(key) && labels.last() != key {
            let k = choose|k: int| 0 <= k < labels.len() && labels[k] == key;
            assert(k != labels.len() - 1);
            assert(labels.drop_last()[k] == key);
        }
    }
}

/// Counts one more occurrence of `key` in the tally `t`.
pub fn tally_add(t: &mut Vec<(String, usize)>, key: String, Ghost(labels): Ghost<Seq<Seq<char>>>)
    requires
        is_tally(pairs_view(old(t)@), labels),
        labels.len() < usize::MAX,
    ensures
        is_tally(pairs_view(final(t)@), labels.push(key@)),
        forall|i: int|
            0 <= i < old(t)@.len() ==> pairs_view(final(t)@)[i].0 == #[trigger] pairs_view(
                old(t)@,
            )[i].0,
        final(t)@.len() == old(t)@.len() || (final(t)@.len() == old(t)@.len() + 1 && pairs_view(
            final(t)@,
        ).last().0 == key@),
        has_label(pairs_view(old(t)@), key@) ==> final(t)@.len() == old(t)@.len(),
{
    let ghost before = pairs_view(t@);
    let ghost after_labels = labels.push(key@);
    let mut i: usize = 0;
    while i < t.len() && t[i].0 != key
        invariant
            i <= t.len(),
            before == pairs_view(t@),
            forall|j: int| 0 <= j < i ==> t@[j].0@ != key@,
        decreases t.len() - i,
    {
        i = i + 1;
    }
    proof {
        assert(after_labels.drop_last() =~= labels);
        assert forall|x: Seq<char>| #[trigger]
            occurrences(after_labels, x) == occurrences(labels, x) + (if x == key@ {
                1nat
            } else {
                0nat
            }) by {}
    }
    if i < t.len() {
        proof {
            assert(before[i as int].0 == key@);
            lemma_occurrences(labels, key@);
        }
        let count = t[i].1;
        assert(before[i as int].1 == count as nat);
        assert(count as nat == occurrences(labels, key@));
        let name = t[i].0.clone();
        t.set(i, (name, count + 1));
        let ghost now = pairs_view(t@);
        assert(now =~= before.update(i as int, (key@, (count + 1) as nat)));
        assert forall|k: int| 0 <= k < after_labels.len() implies has_label(
            now,
            #[trigger] after_labels[k],
        ) by {
            if k < labels.len() {
                assert(after_labels[k] == labels[k]);
                assert(has_label(before, labels[k]));
                let j = choose|j: int| 0 <= j < before.len() && #[trigger] before[j].0 == labels[k];
                assert(now[j].0 == labels[k]);
            } else {
                assert(now[i as int].0 == key@);
            }
        }
        assert forall|j: int| 0 <= j < now.len() implies after_labels.contains(#[trigger] now[j].0) by {
            assert(labels.contains(before[j].0));
            let k = choose|k: int| 0 <= k < labels.len() && labels[k] == before[j].0;
            assert(after_labels[k] == labels[k]);
        }
    } else {
        proof {
            if labels.contains(key@) {
                let k = choose|k: int| 0 <= k < labels.len() && labels[k] == key@;
                assert(has_label(before, labels[k]));
                let j = choose|j: int| 0 <= j < before.len() && #[trigger] before[j].0 == labels[k];
                assert(t@[j].0@ == before[j].0);
            }
            lemma_occurrences(labels, key@);
            lemma_occurrences(after_labels, key@);
        }
        let ghost key_view = key@;
        t.push((key, 1));
        let ghost now = pairs_view(t@);
        assert(now =~= before.push((key_view, 1nat)));
        assert forall|k: int| 0 <= k < after_labels.len() implies has_label(
            now,
            #[trigger] after_labels[k],
        ) by {
            if k < labels.len() {
                assert(after_labels[k] == labels[k]);
                assert(has_label(before, labels[k]));
                let j = choose|j: int| 0 <= j < before.len() && #[trigger] before[j].0 == labels[k];
                assert(now[j].0 == labels[k]);
            } else {
                assert(now[before.len() as int].0 == key_view);
            }
        }
        assert forall|j: int| 0 <= j < now.len() implies after_labels.contains(#[trigger] now[j].0) by {
            if j < before.len() {
                assert(labels.contains(before[j].0));
                let k = choose|k: int| 0 <= k < labels.len() && labels[k] == before[j].0;
                assert(after_labels[k] == labels[k]);
            } else {
                assert(after_labels[labels.len() as int] == key_view);
            }
        }
        assert forall|a: int, b: int| 0 <= a < b < now.len() implies #[trigger] now[a].0
            != #[trigger] now[b].0 by {
            if b == before.len() {
                assert(t@[a].0@ == before[a].0);
            }
        }
    }
}

} // verus!
