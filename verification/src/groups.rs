//! Entries grouped by a label: subject type, collection state, tag, month
//! of the last update, and year of release.
use vstd::prelude::*;
use vstd::string::StringExecFns;
use vstd::utf8::{decode_utf8, encode_utf8, is_char_boundary};
use vstd::string::StringSliceAdditionalSpecFns;
use crate::analysis::TimelineEntry;
use crate::dates::{parse_calendar_date, parsed_calendar_date, year_month_label, year_month_text};
use crate::model::UserSubjectCollection;
use crate::names::{collection_type_label, collection_type_name, subject_type_label, subject_type_name};
use crate::order::{at_most, first_in_order, strict_total_order};
use crate::tally::{has_label, is_tally, lemma_occurrences, occurrences, pairs_view, tally_add};
use crate::text::{
    chars_less, chars_of, lemma_text_less_asymmetric, lemma_text_less_irreflexive,
    lemma_text_less_total, lemma_text_less_transitive, text_less,
};

verus! {

broadcast use vstd::utf8::encode_utf8_decode_utf8;

// ---------------------------------------------------------------------
// Ordering a tally
// ---------------------------------------------------------------------

/// The labels of a tally, in order.
pub open spec fn labels_of(t: Seq<(Seq<char>, nat)>) -> Seq<Seq<char>> {
    t.map_values(|p: (Seq<char>, nat)| p.0)
}

/// `t` counts `labels`, with the labels in ascending order.
pub open spec fn is_sorted_tally(t: Seq<(Seq<char>, nat)>, labels: Seq<Seq<char>>) -> bool {
    &&& is_tally(t, labels)
    &&& forall|i: int, j: int| 0 <= i < j < t.len() ==> text_less(#[trigger] t[i].0, #[trigger] t[j].0)
}

/// `top` holds the `limit` most frequent labels of `labels` (all of them if
/// there are fewer), each once and with its number of occurrences, most
/// frequent first; a label left out occurs no more often than any listed.
pub open spec fn is_top_tally(top: Seq<(Seq<char>, nat)>, labels: Seq<Seq<char>>, limit: int) -> bool {
    &&& forall|i: int|
        0 <= i < top.len() ==> #[trigger] top[i].1 == occurrences(labels, top[i].0)
            && labels.contains(top[i].0)
    &&& forall|i: int, j: int| 0 <= i < j < top.len() ==> #[trigger] top[i].0 != #[trigger] top[j].0
    &&& forall|i: int, j: int| 0 <= i < j < top.len() ==> #[trigger] top[i].1 >= #[trigger] top[j].1
    &&& top.len() <= limit
    &&& forall|k: int|
        0 <= k < labels.len() && !has_label(top, #[trigger] labels[k]) ==> top.len() == limit
            && forall|i: int| 0 <= i < top.len() ==> occurrences(labels, labels[k]) <= #[trigger] top[i].1
}

/// Label order of the entries of a tally.
pub open spec fn label_order(t: Seq<(Seq<char>, nat)>) -> spec_fn(int, int) -> bool {
    |a: int, b: int| text_less(t[a].0, t[b].0)
}

/// Count order of the entries of a tally: more frequent first, then in
/// the order first seen.
pub open spec fn count_order(t: Seq<(Seq<char>, nat)>) -> spec_fn(int, int) -> bool {
    |a: int, b: int| t[a].1 > t[b].1 || (t[a].1 == t[b].1 && a < b)
}

fn pair_label_less(t: &Vec<(String, usize)>, a: usize, b: usize) -> (r: bool)
    requires
        a < t.len(),
        b < t.len(),
    ensures
        r == text_less(pairs_view(t@)[a as int].0, pairs_view(t@)[b as int].0),
{
    let x = chars_of(t[a].0.as_str());
    let y = chars_of(t[b].0.as_str());
    chars_less(&x, &y)
}

/// A tally with its labels put in ascending order.
pub fn sort_by_label(t: &Vec<(String, usize)>, Ghost(labels): Ghost<Seq<Seq<char>>>) -> (r: Vec<(String, usize)>)
    requires
        is_tally(pairs_view(t@), labels),
    ensures
        is_sorted_tally(pairs_view(r@), labels),
{
    let ghost tv = pairs_view(t@);
    let n = t.len();
    proof {
        let rel = label_order(tv);
        assert forall|i: int| 0 <= i < n implies !#[trigger] rel(i, i) by {
            lemma_text_less_irreflexive(tv[i].0);
        }
        assert forall|i: int, j: int, k: int|
            0 <= i < n && 0 <= j < n && 0 <= k < n && #[trigger] rel(i, j) && #[trigger] rel(
                j,
                k,
            ) implies rel(i, k) by {
            lemma_text_less_transitive(tv[i].0, tv[j].0, tv[k].0);
        }
        assert forall|i: int, j: int| 0 <= i < n && 0 <= j < n && i != j implies #[trigger] rel(
            i,
            j,
        ) || #[trigger] rel(j, i) by {
            if i < j {
                assert(tv[i].0 != tv[j].0);
            } else {
                assert(tv[j].0 != tv[i].0);
            }
            lemma_text_less_total(tv[i].0, tv[j].0);
        }
    }
    let before = |a: usize, b: usize| -> (r: bool)
        requires
            a < n,
            b < n,
        ensures
            r == text_less(pairs_view(t@)[a as int].0, pairs_view(t@)[b as int].0),
        { pair_label_less(t, a, b) };
    let sel = first_in_order(n, n, before, Ghost(label_order(tv)));
    let r = pick_entries(t, &sel);
    proof {
        let rv = pairs_view(r@);
        lemma_permuted_tally(tv, labels, sel@, rv);
        assert forall|i: int, j: int| 0 <= i < j < rv.len() implies text_less(
            #[trigger] rv[i].0,
            #[trigger] rv[j].0,
        ) by {
            assert(label_order(tv)(sel@[i] as int, sel@[j] as int));
        }
    }
    r
}

/// The entries of `t` at the positions `sel`, in that order.
fn pick_entries(t: &Vec<(String, usize)>, sel: &Vec<usize>) -> (r: Vec<(String, usize)>)
    requires
        forall|k: int| 0 <= k < sel.len() ==> #[trigger] sel@[k] < t.len(),
    ensures
        r.len() == sel.len(),
        forall|k: int|
            0 <= k < sel.len() ==> #[trigger] pairs_view(r@)[k] == pairs_view(t@)[sel@[k] as int],
{
    let mut r: Vec<(String, usize)> = Vec::new();
    let mut k: usize = 0;
    while k < sel.len()
        invariant
            k <= sel.len(),
            r.len() == k,
            forall|k: int| 0 <= k < sel.len() ==> #[trigger] sel@[k] < t.len(),
            forall|j: int| 0 <= j < k ==> #[trigger] pairs_view(r@)[j] == pairs_view(t@)[sel@[j] as int],
        decreases sel.len() - k,
    {
        let s = sel[k];
        let entry = (t[s].0.clone(), t[s].1);
        let ghost old_r = r@;
        r.push(entry);
        proof {
            assert forall|j: int| 0 <= j < k + 1 implies #[trigger] pairs_view(r@)[j] == pairs_view(
                t@,
            )[sel@[j] as int] by {
                if j == k {
                    assert(r@[j] == entry);
                } else {
                    assert(r@[j] == old_r[j]);
                    assert(pairs_view(old_r)[j] == pairs_view(t@)[sel@[j] as int]);
                }
            }
        }
        k = k + 1;
    }
    r
}

/// Taking all entries of a tally in an order of all its positions gives
/// a tally of the same labels.
proof fn lemma_permuted_tally(
    t: Seq<(Seq<char>, nat)>,
    labels: Seq<Seq<char>>,
    sel: Seq<usize>,
    r: Seq<(Seq<char>, nat)>,
)
    requires
        is_tally(t, labels),
        t.len() <= usize::MAX,
        r.len() == sel.len(),
        sel.len() == t.len(),
        forall|k: int| 0 <= k < sel.len() ==> #[trigger] sel[k] < t.len(),
        forall|a: int, b: int| 0 <= a < b < sel.len() ==> #[trigger] sel[a] != #[trigger] sel[b],
        forall|x: usize| x < t.len() ==> #[trigger] sel.contains(x),
        forall|k: int| 0 <= k < sel.len() ==> #[trigger] r[k] == t[sel[k] as int],
    ensures
        is_tally(r, labels),
{
    assert forall|i: int| 0 <= i < r.len() implies #[trigger] r[i].1 == occurrences(labels, r[i].0) by {
        assert(r[i] == t[sel[i] as int]);
    }
    assert forall|i: int, j: int| 0 <= i < j < r.len() implies #[trigger] r[i].0 != #[trigger] r[j].0 by {
        assert(r[i] == t[sel[i] as int]);
        assert(r[j] == t[sel[j] as int]);
        if sel[i] < sel[j] {
            assert(t[sel[i] as int].0 != t[sel[j] as int].0);
        } else {
            assert(t[sel[j] as int].0 != t[sel[i] as int].0);
        }
    }
    assert forall|k: int| 0 <= k < labels.len() implies has_label(r, #[trigger] labels[k]) by {
        assert(has_label(t, labels[k]));
        let p = choose|p: int| 0 <= p < t.len() && #[trigger] t[p].0 == labels[k];
        assert(sel.contains(p as usize));
        let q = choose|q: int| 0 <= q < sel.len() && sel[q] == p as usize;
        assert(sel[q] as int == p);
        assert(r[q] == t[p]);
    }
    assert forall|i: int| 0 <= i < r.len() implies labels.contains(#[trigger] r[i].0) by {
        assert(r[i] == t[sel[i] as int]);
    }
}

/// The `limit` most frequent labels of a tally, most frequent first and,
/// among equally frequent ones, in the order first seen.
pub fn top_by_count(t: &Vec<(String, usize)>, limit: usize, Ghost(labels): Ghost<Seq<Seq<char>>>) -> (r: Vec<(String, usize)>)
    requires
        is_tally(pairs_view(t@), labels),
    ensures
        is_top_tally(pairs_view(r@), labels, limit as int),
{
    let ghost tv = pairs_view(t@);
    let n = t.len();
    proof {
        let rel = count_order(tv);
        assert(strict_total_order(rel, n as int));
    }
    let before = |a: usize, b: usize| -> (r: bool)
        requires
            a < n,
            b < n,
        ensures
            r == count_order(pairs_view(t@))(a as int, b as int),
        { t[a].1 > t[b].1 || (t[a].1 == t[b].1 && a < b) };
    let sel = first_in_order(n, limit, before, Ghost(count_order(tv)));
    let r = pick_entries(t, &sel);
    proof {
        let rv = pairs_view(r@);
        let rel = count_order(tv);
        assert forall|i: int| 0 <= i < rv.len() implies #[trigger] rv[i].1 == occurrences(
            labels,
            rv[i].0,
        ) && labels.contains(rv[i].0) by {
            assert(rv[i] == tv[sel@[i] as int]);
        }
        assert forall|i: int, j: int| 0 <= i < j < rv.len() implies #[trigger] rv[i].0
            != #[trigger] rv[j].0 by {
            assert(rel(sel@[i] as int, sel@[j] as int));
            assert(sel@[i] != sel@[j]);
            if sel@[i] < sel@[j] {
                assert(tv[sel@[i] as int].0 != tv[sel@[j] as int].0);
            } else {
                assert(tv[sel@[j] as int].0 != tv[sel@[i] as int].0);
            }
        }
        assert forall|i: int, j: int| 0 <= i < j < rv.len() implies #[trigger] rv[i].1
            >= #[trigger] rv[j].1 by {
            assert(rel(sel@[i] as int, sel@[j] as int));
        }
        assert forall|k: int|
            0 <= k < labels.len() && !has_label(rv, #[trigger] labels[k]) implies rv.len() == limit
            && forall|i: int| 0 <= i < rv.len() ==> occurrences(labels, labels[k]) <= #[trigger] rv[i].1 by {
            assert(has_label(tv, labels[k]));
            let p = choose|p: int| 0 <= p < tv.len() && #[trigger] tv[p].0 == labels[k];
            if sel@.contains(p as usize) {
                let q = choose|q: int| 0 <= q < sel@.len() && sel@[q] == p as usize;
                assert(rv[q].0 == labels[k]);
            }
            assert(!sel@.contains(p as usize));
            assert forall|i: int| 0 <= i < rv.len() implies occurrences(labels, labels[k])
                <= #[trigger] rv[i].1 by {
                assert(rel(sel@[i] as int, p));
                assert(tv[p].1 == occurrences(labels, labels[k]));
            }
            if limit >= n {
                assert(sel@.contains(p as usize));
            }
        }
    }
    r
}

// ---------------------------------------------------------------------
// Subject types and collection states
// ---------------------------------------------------------------------

/// The subject type name of every entry, in order.
pub open spec fn type_labels(cs: Seq<UserSubjectCollection>) -> Seq<Seq<char>> {
    cs.map_values(|c: UserSubjectCollection| subject_type_label(c.subject_type))
}

/// The collection state names of the entries whose subject type name is
/// `kind_name`, in order.
pub open spec fn status_labels(cs: Seq<UserSubjectCollection>, kind_name: Seq<char>) -> Seq<Seq<char>>
    decreases cs.len(),
{
    if cs.len() == 0 {
        seq![]
    } else if subject_type_label(cs.last().subject_type) == kind_name {
        status_labels(cs.drop_last(), kind_name).push(collection_type_label(cs.last().collection_type))
    } else {
        status_labels(cs.drop_last(), kind_name)
    }
}

proof fn lemma_status_labels_len(cs: Seq<UserSubjectCollection>, kind_name: Seq<char>)
    ensures
        status_labels(cs, kind_name).len() <= cs.len(),
    decreases cs.len(),
{
    if cs.len() > 0 {
        lemma_status_labels_len(cs.drop_last(), kind_name);
    }
}

/// Entries per subject type name.
pub fn type_distribution(collections: &[UserSubjectCollection]) -> (t: Vec<(String, usize)>)
    ensures
        is_tally(pairs_view(t@), type_labels(collections@)),
{
    let ghost cs = collections@;
    let mut t: Vec<(String, usize)> = Vec::new();
    let mut i: usize = 0;
    assert(type_labels(cs).take(0) =~= Seq::<Seq<char>>::empty());
    assert(pairs_view(t@) =~= Seq::<(Seq<char>, nat)>::empty());
    while i < collections.len()
        invariant
            cs == collections@,
            i <= collections.len(),
            is_tally(pairs_view(t@), type_labels(cs).take(i as int)),
        decreases collections.len() - i,
    {
        let name = subject_type_name(collections[i].subject_type);
        assert(type_labels(cs).take(i + 1) =~= type_labels(cs).take(i as int).push(name@));
        tally_add(&mut t, name, Ghost(type_labels(cs).take(i as int)));
        i = i + 1;
    }
    assert(type_labels(cs).take(collections.len() as int) =~= type_labels(cs));
    t
}

/// Entries per collection state name, among those of one subject type name.
fn status_tally(collections: &[UserSubjectCollection], kind_name: &String) -> (t: Vec<(String, usize)>)
    ensures
        is_tally(pairs_view(t@), status_labels(collections@, kind_name@)),
{
    let ghost cs = collections@;
    let mut t: Vec<(String, usize)> = Vec::new();
    let mut i: usize = 0;
    assert(cs.take(0) =~= Seq::<UserSubjectCollection>::empty());
    assert(pairs_view(t@) =~= Seq::<(Seq<char>, nat)>::empty());
    while i < collections.len()
        invariant
            cs == collections@,
            i <= collections.len(),
            is_tally(pairs_view(t@), status_labels(cs.take(i as int), kind_name@)),
        decreases collections.len() - i,
    {
        assert(cs.take(i + 1).drop_last() =~= cs.take(i as int));
        let name = subject_type_name(collections[i].subject_type);
        if name == *kind_name {
            let status = collection_type_name(collections[i].collection_type);
            proof {
                lemma_status_labels_len(cs.take(i as int), kind_name@);
            }
            tally_add(&mut t, status, Ghost(status_labels(cs.take(i as int), kind_name@)));
        }
        i = i + 1;
    }
    assert(cs.take(collections.len() as int) =~= cs);
    t
}

/// `d` holds, for each subject type name of the collection once, the
/// entries per collection state name among the entries of that type.
pub open spec fn is_status_distribution(
    d: Seq<(String, Vec<(String, usize)>)>,
    cs: Seq<UserSubjectCollection>,
) -> bool {
    let keys = d.map_values(|p: (String, Vec<(String, usize)>)| (p.0@, 0nat));
    &&& forall|i: int, j: int| 0 <= i < j < d.len() ==> #[trigger] d[i].0@ != #[trigger] d[j].0@
    &&& forall|k: int| 0 <= k < cs.len() ==> has_label(keys, #[trigger] type_labels(cs)[k])
    &&& forall|i: int| 0 <= i < d.len() ==> type_labels(cs).contains(#[trigger] d[i].0@)
    &&& forall|i: int|
        0 <= i < d.len() ==> is_tally(pairs_view(#[trigger] d[i].1@), status_labels(cs, d[i].0@))
}

/// Per subject type name, entries per collection state name.
pub fn status_distribution(collections: &[UserSubjectCollection], types: &Vec<(String, usize)>) -> (d: Vec<(String, Vec<(String, usize)>)>)
    requires
        is_tally(pairs_view(types@), type_labels(collections@)),
    ensures
        is_status_distribution(d@, collections@),
{
    let ghost cs = collections@;
    let ghost tv = pairs_view(types@);
    let mut d: Vec<(String, Vec<(String, usize)>)> = Vec::new();
    let mut i: usize = 0;
    while i < types.len()
        invariant
            i <= types.len(),
            tv == pairs_view(types@),
            cs == collections@,
            d.len() == i,
            forall|j: int| 0 <= j < i ==> #[trigger] d@[j].0@ == tv[j].0,
            forall|j: int|
                0 <= j < i ==> is_tally(pairs_view(#[trigger] d@[j].1@), status_labels(cs, d@[j].0@)),
        decreases types.len() - i,
    {
        let name = types[i].0.clone();
        let inner = status_tally(collections, &name);
        d.push((name, inner));
        i = i + 1;
    }
    proof {
        let keys = d@.map_values(|p: (String, Vec<(String, usize)>)| (p.0@, 0nat));
        assert forall|a: int, b: int| 0 <= a < b < d.len() implies #[trigger] d@[a].0@
            != #[trigger] d@[b].0@ by {
            assert(tv[a].0 != tv[b].0);
        }
        assert forall|k: int| 0 <= k < cs.len() implies has_label(keys, #[trigger] type_labels(cs)[k]) by {
            assert(has_label(tv, type_labels(cs)[k]));
            let p = choose|p: int| 0 <= p < tv.len() && #[trigger] tv[p].0 == type_labels(cs)[k];
            assert(keys[p].0 == d@[p].0@);
        }
        assert forall|j: int| 0 <= j < d.len() implies type_labels(cs).contains(#[trigger] d@[j].0@) by {
            assert(d@[j].0@ == tv[j].0);
        }
    }
    d
}

// ---------------------------------------------------------------------
// Tags
// ---------------------------------------------------------------------

/// The user's own tags on an entry.
pub open spec fn own_tags(c: UserSubjectCollection) -> Seq<Seq<char>> {
    match c.tags {
        Some(v) => v@.map_values(|s: String| s@),
        None => seq![],
    }
}

/// The community tags of an entry's subject.
pub open spec fn community_tags(c: UserSubjectCollection) -> Seq<Seq<char>> {
    match c.subject {
        Some(s) => match s.tags {
            Some(v) => v@.map_values(|t: crate::model::SubjectTag| t.name@),
            None => seq![],
        },
        None => seq![],
    }
}

/// The tags of an entry: the user's own, then the subject's community tags.
pub open spec fn entry_tags(c: UserSubjectCollection) -> Seq<Seq<char>> {
    own_tags(c) + community_tags(c)
}

/// The tags of all entries, in order.
pub open spec fn tag_labels(cs: Seq<UserSubjectCollection>) -> Seq<Seq<char>>
    decreases cs.len(),
{
    if cs.len() == 0 {
        seq![]
    } else {
        tag_labels(cs.drop_last()) + entry_tags(cs.last())
    }
}

proof fn lemma_tag_labels_prefix(cs: Seq<UserSubjectCollection>, i: int)
    requires
        0 <= i <= cs.len(),
    ensures
        tag_labels(cs.take(i)).len() <= tag_labels(cs).len(),
    decreases cs.len() - i,
{
    if i < cs.len() {
        lemma_tag_labels_prefix(cs, i + 1);
        assert(cs.take(i + 1).drop_last() =~= cs.take(i));
    } else {
        assert(cs.take(i) =~= cs);
    }
}

/// Counts one more occurrence of each tag of `v`.
fn tally_all(t: &mut Vec<(String, usize)>, v: &Vec<String>, Ghost(labels): Ghost<Seq<Seq<char>>>, Ghost(bound): Ghost<nat>)
    requires
        is_tally(pairs_view(old(t)@), labels),
        labels.len() + v.len() <= bound,
        bound < usize::MAX,
    ensures
        is_tally(pairs_view(final(t)@), labels + v@.map_values(|s: String| s@)),
{
    let ghost vv = v@.map_values(|s: String| s@);
    let mut k: usize = 0;
    assert(labels + vv.take(0) =~= labels);
    while k < v.len()
        invariant
            k <= v.len(),
            vv == v@.map_values(|s: String| s@),
            labels.len() + v.len() <= bound,
            bound < usize::MAX,
            is_tally(pairs_view(t@), labels + vv.take(k as int)),
        decreases v.len() - k,
    {
        let tag = v[k].clone();
        assert(labels + vv.take(k + 1) =~= (labels + vv.take(k as int)).push(tag@));
        tally_add(t, tag, Ghost(labels + vv.take(k as int)));
        k = k + 1;
    }
    assert(vv.take(v.len() as int) =~= vv);
}

/// Counts one more occurrence of each community tag of `v`.
fn tally_subject_tags(t: &mut Vec<(String, usize)>, v: &Vec<crate::model::SubjectTag>, Ghost(labels): Ghost<Seq<Seq<char>>>, Ghost(bound): Ghost<nat>)
    requires
        is_tally(pairs_view(old(t)@), labels),
        labels.len() + v.len() <= bound,
        bound < usize::MAX,
    ensures
        is_tally(pairs_view(final(t)@), labels + v@.map_values(|s: crate::model::SubjectTag| s.name@)),
{
    let ghost vv = v@.map_values(|s: crate::model::SubjectTag| s.name@);
    let mut k: usize = 0;
    assert(labels + vv.take(0) =~= labels);
    while k < v.len()
        invariant
            k <= v.len(),
            vv == v@.map_values(|s: crate::model::SubjectTag| s.name@),
            labels.len() + v.len() <= bound,
            bound < usize::MAX,
            is_tally(pairs_view(t@), labels + vv.take(k as int)),
        decreases v.len() - k,
    {
        let tag = v[k].name.clone();
        assert(labels + vv.take(k + 1) =~= (labels + vv.take(k as int)).push(tag@));
        tally_add(t, tag, Ghost(labels + vv.take(k as int)));
        k = k + 1;
    }
    assert(vv.take(v.len() as int) =~= vv);
}

/// Occurrences per tag, over the user's tags and the subjects' tags.
pub fn tag_counts(collections: &[UserSubjectCollection]) -> (t: Vec<(String, usize)>)
    requires
        tag_labels(collections@).len() < usize::MAX,
    ensures
        is_tally(pairs_view(t@), tag_labels(collections@)),
{
    let ghost cs = collections@;
    let ghost bound = tag_labels(cs).len();
    let mut t: Vec<(String, usize)> = Vec::new();
    let mut i: usize = 0;
    assert(cs.take(0) =~= Seq::<UserSubjectCollection>::empty());
    assert(pairs_view(t@) =~= Seq::<(Seq<char>, nat)>::empty());
    while i < collections.len()
        invariant
            cs == collections@,
            bound == tag_labels(cs).len(),
            bound < usize::MAX,
            i <= collections.len(),
            is_tally(pairs_view(t@), tag_labels(cs.take(i as int))),
        decreases collections.len() - i,
    {
        let c = &collections[i];
        proof {
            assert(cs.take(i + 1).drop_last() =~= cs.take(i as int));
            assert(cs.take(i + 1).last() == cs[i as int]);
            lemma_tag_labels_prefix(cs, i + 1);
        }
        let ghost base = tag_labels(cs.take(i as int));
        let ghost own = own_tags(cs[i as int]);
        assert(*c == cs[i as int]);
        if let Some(v) = &c.tags {
            tally_all(&mut t, v, Ghost(base), Ghost(bound));
        } else {
            assert(base + own =~= base);
        }
        if let Some(s) = &c.subject {
            if let Some(v) = &s.tags {
                assert((base + own).len() + v.len() <= bound);
                tally_subject_tags(&mut t, v, Ghost(base + own), Ghost(bound));
                assert(base + entry_tags(cs[i as int]) =~= base + own + v@.map_values(
                    |s: crate::model::SubjectTag| s.name@,
                ));
            } else {
                assert(base + entry_tags(cs[i as int]) =~= base + own);
            }
        } else {
            assert(base + entry_tags(cs[i as int]) =~= base + own);
        }
        i = i + 1;
    }
    assert(cs.take(collections.len() as int) =~= cs);
    t
}

// ---------------------------------------------------------------------
// Months and years
// ---------------------------------------------------------------------

/// The text held by the first `k` UTF-8 bytes of `s`.
pub open spec fn leading_bytes_text(s: Seq<char>, k: int) -> Seq<char> {
    decode_utf8(encode_utf8(s).subrange(0, k))
}

/// The number of UTF-8 bytes of `s`, capped at `cap`.
pub open spec fn byte_len_capped(s: Seq<char>, cap: int) -> int {
    at_most(cap, encode_utf8(s).len() as int)
}

/// The text of the first `k` bytes of `s`.
fn leading_bytes(s: &String, k: usize) -> (head: &str)
    requires
        k <= encode_utf8(s@).len(),
        is_char_boundary(encode_utf8(s@), k as int),
    ensures
        head@ == leading_bytes_text(s@, k as int),
{
    let (head, _tail) = s.as_str().split_at(k);
    assert(head.spec_bytes() =~= encode_utf8(s@).subrange(0, k as int));
    head
}

/// The month ("YYYY-MM") of an entry's last update: the first ten bytes of
/// `updated_at` read as a "%Y-%m-%d" date and written as "%Y-%m".
pub open spec fn month_label(c: UserSubjectCollection) -> Option<Seq<char>> {
    match c.updated_at {
        Some(u) => match parsed_calendar_date(leading_bytes_text(u@, byte_len_capped(u@, 10))) {
            Some(ymd) => year_month_text(ymd.0, ymd.1, ymd.2),
            None => None,
        },
        None => None,
    }
}

/// A text of a string in memory: its UTF-8 bytes can be counted in a `usize`.
pub open spec fn byte_len_fits(s: Seq<char>) -> bool {
    encode_utf8(s).len() <= usize::MAX
}

/// Cutting `updated_at` at ten bytes falls between characters.
pub open spec fn update_time_cuts_cleanly(c: UserSubjectCollection) -> bool {
    c.updated_at is Some ==> byte_len_fits(c.updated_at->0@) && is_char_boundary(
        encode_utf8(c.updated_at->0@),
        byte_len_capped(c.updated_at->0@, 10),
    )
}

/// Cutting any `updated_at` at ten bytes falls between characters.
pub open spec fn update_times_cut_cleanly(cs: Seq<UserSubjectCollection>) -> bool {
    forall|i: int| 0 <= i < cs.len() ==> update_time_cuts_cleanly(#[trigger] cs[i])
}

/// The months of the entries that have one, in order.
pub open spec fn month_labels(cs: Seq<UserSubjectCollection>) -> Seq<Seq<char>>
    decreases cs.len(),
{
    if cs.len() == 0 {
        seq![]
    } else {
        match month_label(cs.last()) {
            Some(m) => month_labels(cs.drop_last()).push(m),
            None => month_labels(cs.drop_last()),
        }
    }
}

proof fn lemma_month_labels_len(cs: Seq<UserSubjectCollection>)
    ensures
        month_labels(cs).len() <= cs.len(),
    decreases cs.len(),
{
    if cs.len() > 0 {
        lemma_month_labels_len(cs.drop_last());
    }
}

/// The month of an entry's last update.
fn month_of(c: &UserSubjectCollection) -> (m: Option<String>)
    requires
        update_time_cuts_cleanly(*c),
    ensures
        opt_view_eq(m, month_label(*c)),
{
    match &c.updated_at {
        Some(u) => {
            let len = u.as_str().len();
            assert(u@ == c.updated_at->0@);
            assert(len == encode_utf8(u@).len());
            let k = if len < 10 {
                len
            } else {
                10
            };
            assert(k == byte_len_capped(u@, 10));
            let head = leading_bytes(u, k);
            match parse_calendar_date(head) {
                Some((y, mo, d)) => year_month_label(y, mo, d),
                None => None,
            }
        },
        None => None,
    }
}

/// An optional string holds the given optional text.
pub open spec fn opt_view_eq(m: Option<String>, t: Option<Seq<char>>) -> bool {
    match m {
        Some(s) => t == Some(s@),
        None => t is None,
    }
}

/// Entries per month of the last update, months in ascending order.
pub fn timeline(collections: &[UserSubjectCollection]) -> (tl: Vec<TimelineEntry>)
    requires
        update_times_cut_cleanly(collections@),
    ensures
        is_sorted_tally(timeline_view(tl@), month_labels(collections@)),
{
    let ghost cs = collections@;
    let mut t: Vec<(String, usize)> = Vec::new();
    let mut i: usize = 0;
    assert(cs.take(0) =~= Seq::<UserSubjectCollection>::empty());
    assert(pairs_view(t@) =~= Seq::<(Seq<char>, nat)>::empty());
    while i < collections.len()
        invariant
            cs == collections@,
            update_times_cut_cleanly(cs),
            i <= collections.len(),
            is_tally(pairs_view(t@), month_labels(cs.take(i as int))),
        decreases collections.len() - i,
    {
        proof {
            assert(cs.take(i + 1).drop_last() =~= cs.take(i as int));
            assert(cs.take(i + 1).last() == cs[i as int]);
            lemma_month_labels_len(cs.take(i as int));
        }
        let m = month_of(&collections[i]);
        if let Some(month) = m {
            tally_add(&mut t, month, Ghost(month_labels(cs.take(i as int))));
        }
        i = i + 1;
    }
    assert(cs.take(collections.len() as int) =~= cs);
    let sorted = sort_by_label(&t, Ghost(month_labels(cs)));
    let mut tl: Vec<TimelineEntry> = Vec::new();
    let mut k: usize = 0;
    while k < sorted.len()
        invariant
            k <= sorted.len(),
            tl.len() == k,
            forall|j: int| 0 <= j < k ==> #[trigger] timeline_view(tl@)[j] == pairs_view(sorted@)[j],
        decreases sorted.len() - k,
    {
        let entry = TimelineEntry { month: sorted[k].0.clone(), count: sorted[k].1 };
        let ghost old_tl = tl@;
        tl.push(entry);
        proof {
            assert forall|j: int| 0 <= j < k + 1 implies #[trigger] timeline_view(tl@)[j] == pairs_view(
                sorted@,
            )[j] by {
                if j == k {
                    assert(tl@[j] == entry);
                } else {
                    assert(tl@[j] == old_tl[j]);
                    assert(timeline_view(old_tl)[j] == pairs_view(sorted@)[j]);
                }
            }
        }
        k = k + 1;
    }
    assert(timeline_view(tl@) =~= pairs_view(sorted@));
    tl
}

/// The (month, count) view of a timeline.
pub open spec fn timeline_view(tl: Seq<TimelineEntry>) -> Seq<(Seq<char>, nat)> {
    tl.map_values(|e: TimelineEntry| (e.month@, e.count as nat))
}

/// The release year of an entry's subject: the first four bytes of its
/// date, where the date has at least four bytes.
pub open spec fn year_label(c: UserSubjectCollection) -> Option<Seq<char>> {
    match c.subject {
        Some(s) => match s.date {
            Some(d) => if encode_utf8(d@).len() >= 4 {
                Some(leading_bytes_text(d@, 4))
            } else {
                None
            },
            None => None,
        },
        None => None,
    }
}

/// Cutting a release date at four bytes falls between characters.
pub open spec fn release_dates_cut_cleanly(cs: Seq<UserSubjectCollection>) -> bool {
    forall|i: int|
        0 <= i < cs.len() ==> match (#[trigger] cs[i]).subject {
            Some(s) => match s.date {
                Some(d) => byte_len_fits(d@) && (encode_utf8(d@).len() >= 4 ==> is_char_boundary(
                encode_utf8(d@),
                4,
            )),
                None => true,
            },
            None => true,
        }
}

/// The release years of the entries that have one, in order.
pub open spec fn year_labels(cs: Seq<UserSubjectCollection>) -> Seq<Seq<char>>
    decreases cs.len(),
{
    if cs.len() == 0 {
        seq![]
    } else {
        match year_label(cs.last()) {
            Some(y) => year_labels(cs.drop_last()).push(y),
            None => year_labels(cs.drop_last()),
        }
    }
}

proof fn lemma_year_labels_len(cs: Seq<UserSubjectCollection>)
    ensures
        year_labels(cs).len() <= cs.len(),
    decreases cs.len(),
{
    if cs.len() > 0 {
        lemma_year_labels_len(cs.drop_last());
    }
}

/// Entries per release year, years in ascending order.
pub fn release_years(collections: &[UserSubjectCollection]) -> (r: Vec<(String, usize)>)
    requires
        release_dates_cut_cleanly(collections@),
    ensures
        is_sorted_tally(pairs_view(r@), year_labels(collections@)),
{
    let ghost cs = collections@;
    let mut t: Vec<(String, usize)> = Vec::new();
    let mut i: usize = 0;
    assert(cs.take(0) =~= Seq::<UserSubjectCollection>::empty());
    assert(pairs_view(t@) =~= Seq::<(Seq<char>, nat)>::empty());
    while i < collections.len()
        invariant
            cs == collections@,
            release_dates_cut_cleanly(cs),
            i <= collections.len(),
            is_tally(pairs_view(t@), year_labels(cs.take(i as int))),
        decreases collections.len() - i,
    {
        proof {
            assert(cs.take(i + 1).drop_last() =~= cs.take(i as int));
            assert(cs.take(i + 1).last() == cs[i as int]);
            lemma_year_labels_len(cs.take(i as int));
        }
        let c = &collections[i];
        assert(*c == cs[i as int]);
        if let Some(s) = &c.subject {
            if let Some(date) = &s.date {
                let text = date.as_str();
                assert(text@ == date@);
                if text.len() >= 4 {
                    let year = leading_bytes(date, 4);
                    let label = String::from_str(year);
                    tally_add(&mut t, label, Ghost(year_labels(cs.take(i as int))));
                }
            }
        }
        i = i + 1;
    }
    assert(cs.take(collections.len() as int) =~= cs);
    sort_by_label(&t, Ghost(year_labels(cs)))
}

} // verus!
