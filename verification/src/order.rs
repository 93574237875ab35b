//! Putting positions in order: the first positions of a list under a
//! strict total order on them, which is what a stable sort followed by
//! `take` gives.
use vstd::prelude::*;

verus! {

/// `rel` orders the positions below `n` strictly and totally.
pub open spec fn strict_total_order(rel: spec_fn(int, int) -> bool, n: int) -> bool {
    &&& forall|i: int| 0 <= i < n ==> !#[trigger] rel(i, i)
    &&& forall|i: int, j: int, k: int|
        0 <= i < n && 0 <= j < n && 0 <= k < n && #[trigger] rel(i, j) && #[trigger] rel(j, k)
            ==> rel(i, k)
    &&& forall|i: int, j: int|
        0 <= i < n && 0 <= j < n && i != j ==> #[trigger] rel(i, j) || #[trigger] rel(j, i)
}

/// The smaller of two bounds.
pub open spec fn at_most(limit: int, n: int) -> int {
    if limit < n {
        limit
    } else {
        n
    }
}

/// `r` lists the first `min(limit, n)` positions below `n` in the order
/// `rel`: in that order, and with every position left out coming after all
/// positions listed (so that all positions are listed where `limit` is at
/// least `n`).
pub open spec fn is_first_in_order(
    r: Seq<usize>,
    n: int,
    limit: int,
    rel: spec_fn(int, int) -> bool,
) -> bool {
    &&& r.len() == at_most(limit, n)
    &&& forall|k: int| 0 <= k < r.len() ==> #[trigger] r[k] < n
    &&& forall|a: int, b: int| 0 <= a < b < r.len() ==> rel(#[trigger] r[a] as int, #[trigger] r[b] as int)
    &&& forall|x: int, k: int|
        0 <= x < n && !r.contains(x as usize) && 0 <= k < r.len() ==> #[trigger] rel(r[k] as int, x)
    &&& limit >= n ==> forall|x: usize| x < n ==> #[trigger] r.contains(x)
}

/// The first `min(limit, n)` positions below `n`, in the order that
/// `before` decides and `rel` states.
pub fn first_in_order<F: Fn(usize, usize) -> bool>(
    n: usize,
    limit: usize,
    before: F,
    Ghost(rel): Ghost<spec_fn(int, int) -> bool>,
) -> (r: Vec<usize>)
    requires
        strict_total_order(rel, n as int),
        forall|i: usize, j: usize| i < n && j < n ==> #[trigger] before.requires((i, j)),
        forall|i: usize, j: usize, b: bool|
            i < n && j < n && #[trigger] before.ensures((i, j), b) ==> b == rel(i as int, j as int),
    ensures
        is_first_in_order(r@, n as int, limit as int, rel),
{
    let mut rest: Vec<usize> = Vec::new();
    let mut p: usize = 0;
    while p < n
        invariant
            p <= n,
            rest@.len() == p,
            forall|k: int| 0 <= k < p ==> #[trigger] rest@[k] == k,
        decreases n - p,
    {
        rest.push(p);
        p = p + 1;
    }
    let goal: usize = if limit < n {
        limit
    } else {
        n
    };
    let mut r: Vec<usize> = Vec::new();
    assert forall|x: usize| x < n implies rest@.contains(x) by {
        assert(rest@[x as int] == x);
    }
    while r.len() < goal
        invariant
            goal == at_most(limit as int, n as int),
            goal <= n,
            r.len() <= goal,
            rest.len() + r.len() == n,
            strict_total_order(rel, n as int),
            forall|i: usize, j: usize| i < n && j < n ==> #[trigger] before.requires((i, j)),
            forall|i: usize, j: usize, b: bool|
                i < n && j < n && #[trigger] before.ensures((i, j), b) ==> b == rel(
                    i as int,
                    j as int,
                ),
            forall|k: int| 0 <= k < rest.len() ==> #[trigger] rest@[k] < n,
            forall|k: int| 0 <= k < r.len() ==> #[trigger] r@[k] < n,
            forall|a: int, b: int| 0 <= a < b < rest.len() ==> #[trigger] rest@[a] != #[trigger] rest@[b],
            forall|x: usize| x < n ==> (rest@.contains(x) <==> !r@.contains(x)),
            forall|a: int, b: int|
                0 <= a < b < r.len() ==> rel(#[trigger] r@[a] as int, #[trigger] r@[b] as int),
            forall|a: int, b: int|
                0 <= a < r.len() && 0 <= b < rest.len() ==> rel(
                    #[trigger] r@[a] as int,
                    #[trigger] rest@[b] as int,
                ),
        decreases goal - r.len(),
    {
        let mut best: usize = 0;
        let mut q: usize = 1;
        while q < rest.len()
            invariant
                rest.len() > 0,
                best < rest.len(),
                q <= rest.len(),
                best < q,
                strict_total_order(rel, n as int),
                forall|i: usize, j: usize| i < n && j < n ==> #[trigger] before.requires((i, j)),
                forall|i: usize, j: usize, b: bool|
                    i < n && j < n && #[trigger] before.ensures((i, j), b) ==> b == rel(
                        i as int,
                        j as int,
                    ),
                forall|k: int| 0 <= k < rest.len() ==> #[trigger] rest@[k] < n,
                forall|a: int, b: int|
                    0 <= a < b < rest.len() ==> #[trigger] rest@[a] != #[trigger] rest@[b],
                forall|j: int|
                    0 <= j < q && j != best ==> rel(rest@[best as int] as int, #[trigger] rest@[j] as int),
            decreases rest.len() - q,
        {
            let x = rest[q];
            let y = rest[best];
            if before(x, y) {
                proof {
                    assert forall|j: int| 0 <= j < q + 1 && j != q implies rel(
                        x as int,
                        #[trigger] rest@[j] as int,
                    ) by {
                        if j != best {
                            assert(rel(y as int, rest@[j] as int));
                        }
                    }
                }
                best = q;
            } else {
                proof {
                    assert(rest@[q as int] != rest@[best as int]);
                    assert(rel(y as int, x as int));
                }
            }
            q = q + 1;
        }
        let chosen = rest[best];
        let ghost old_rest = rest@;
        let ghost old_r = r@;
        rest.remove(best);
        r.push(chosen);
        proof {
            assert(rest@ =~= old_rest.remove(best as int));
            assert forall|k: int| 0 <= k < rest.len() implies #[trigger] rest@[k] < n by {
                if k < best {
                    assert(rest@[k] == old_rest[k]);
                } else {
                    assert(rest@[k] == old_rest[k + 1]);
                }
            }
            assert forall|a: int, b: int| 0 <= a < b < rest.len() implies #[trigger] rest@[a]
                != #[trigger] rest@[b] by {
                let a2 = if a < best { a } else { a + 1 };
                let b2 = if b < best { b } else { b + 1 };
                assert(rest@[a] == old_rest[a2]);
                assert(rest@[b] == old_rest[b2]);
            }
            assert forall|a: int, b: int|
                0 <= a < r.len() && 0 <= b < rest.len() implies rel(
                #[trigger] r@[a] as int,
                #[trigger] rest@[b] as int,
            ) by {
                let b2 = if b < best { b } else { b + 1 };
                assert(rest@[b] == old_rest[b2]);
                if a < old_r.len() {
                    assert(r@[a] == old_r[a]);
                } else {
                    assert(r@[a] == chosen);
                    assert(b2 != best);
                }
            }
            assert forall|a: int, b: int| 0 <= a < b < r.len() implies rel(
                #[trigger] r@[a] as int,
                #[trigger] r@[b] as int,
            ) by {
                assert(r@[a] == old_r[a]);
                if b < old_r.len() {
                    assert(r@[b] == old_r[b]);
                } else {
                    assert(r@[b] == old_rest[best as int]);
                }
            }
            assert forall|k: int| 0 <= k < r.len() implies #[trigger] r@[k] < n by {
                if k < old_r.len() {
                    assert(r@[k] == old_r[k]);
                }
            }
            assert forall|x: usize| x < n implies (rest@.contains(x) <==> !r@.contains(x)) by {
                if x == chosen {
                    assert(r@[old_r.len() as int] == x);
                    if rest@.contains(x) {
                        let k = choose|k: int| 0 <= k < rest.len() && rest@[k] == x;
                        let k2 = if k < best { k } else { k + 1 };
                        assert(old_rest[k2] == x);
                        assert(old_rest[best as int] == x);
                    }
                } else {
                    if rest@.contains(x) {
                        let k = choose|k: int| 0 <= k < rest.len() && rest@[k] == x;
                        let k2 = if k < best { k } else { k + 1 };
                        assert(old_rest[k2] == x);
                        if r@.contains(x) {
                            let j = choose|j: int| 0 <= j < r.len() && r@[j] == x;
                            assert(old_r[j] == x);
                        }
                    } else {
                        if old_rest.contains(x) {
                            let k = choose|k: int| 0 <= k < old_rest.len() && old_rest[k] == x;
                            assert(k != best);
                            let k1 = if k < best { k } else { k - 1 };
                            assert(rest@[k1] == x);
                        }
                        let j = choose|j: int| 0 <= j < old_r.len() && old_r[j] == x;
                        assert(r@[j] == x);
                    }
                }
            }
        }
    }
    proof {
        assert forall|x: int, k: int|
            0 <= x < n && !r@.contains(x as usize) && 0 <= k < r.len() implies #[trigger] rel(
            r@[k] as int,
            x,
        ) by {
            assert(rest@.contains(x as usize));
            let b = choose|b: int| 0 <= b < rest.len() && rest@[b] == x as usize;
            assert(rel(r@[k] as int, rest@[b] as int));
        }
        if limit >= n {
            assert forall|x: usize| x < n implies #[trigger] r@.contains(x) by {
                if !r@.contains(x) {
                    assert(rest@.contains(x));
                }
            }
        }
    }
    r
}

} // verus!
