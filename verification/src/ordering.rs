//! Stable ordering of row indices by tick.
use vstd::prelude::*;

verus! {

/// Inserts `m` into `sorted` after every entry whose tick is not greater
/// than the tick of `m`.
pub open spec fn insert_by_tick(ticks: Seq<u64>, sorted: Seq<usize>, m: usize) -> Seq<usize>
    decreases sorted.len(),
{
    if sorted.len() == 0 {
        seq![m]
    } else if ticks[sorted.last() as int] <= ticks[m as int] {
        sorted.push(m)
    } else {
        insert_by_tick(ticks, sorted.drop_last(), m).push(sorted.last())
    }
}

/// The members ordered by tick, members with equal ticks keeping their
/// relative order (what a stable sort by tick gives).
pub open spec fn tick_order(ticks: Seq<u64>, members: Seq<usize>) -> Seq<usize>
    decreases members.len(),
{
    if members.len() == 0 {
        seq![]
    } else {
        insert_by_tick(ticks, tick_order(ticks, members.drop_last()), members.last())
    }
}

/// Where `insert_by_tick` puts `m`: after the last entry whose tick is not
/// greater than the tick of `m`.
proof fn lemma_insert_by_tick_at(ticks: Seq<u64>, sorted: Seq<usize>, m: usize, p: int)
    requires
        0 <= p <= sorted.len(),
        forall|q: int| p <= q < sorted.len() ==> ticks[#[trigger] sorted[q] as int] > ticks[m as int],
        p == 0 || ticks[sorted[p - 1] as int] <= ticks[m as int],
    ensures
        insert_by_tick(ticks, sorted, m) =~= sorted.insert(p, m),
    decreases sorted.len(),
{
    if sorted.len() == 0 {
    } else if ticks[sorted.last() as int] <= ticks[m as int] {
        assert(p == sorted.len());
    } else {
        lemma_insert_by_tick_at(ticks, sorted.drop_last(), m, p);
    }
}

/// Orders `members` by the tick of each, as a stable sort by tick does.
pub fn order_by_tick(ticks: &Vec<u64>, members: &Vec<usize>) -> (order: Vec<usize>)
    requires
        forall|i: int| 0 <= i < members.len() ==> #[trigger] members@[i] < ticks.len(),
    ensures
        order@ == tick_order(ticks@, members@),
{
    let mut order: Vec<usize> = Vec::new();
    let mut i: usize = 0;
    while i < members.len()
        invariant
            i <= members.len(),
            forall|k: int| 0 <= k < members.len() ==> #[trigger] members@[k] < ticks.len(),
            order@ == tick_order(ticks@, members@.take(i as int)),
            forall|k: int| 0 <= k < order.len() ==> #[trigger] order@[k] < ticks.len(),
        decreases members.len() - i,
    {
        let m = members[i];
        let t = ticks[m];
        let mut p: usize = order.len();
        while p > 0 && ticks[order[p - 1]] > t
            invariant
                p <= order.len(),
                t == ticks@[m as int],
                forall|k: int| 0 <= k < order.len() ==> #[trigger] order@[k] < ticks.len(),
                forall|q: int| p <= q < order.len() ==> ticks@[#[trigger] order@[q] as int] > t,
            decreases p,
        {
            p = p - 1;
        }
        proof {
            lemma_insert_by_tick_at(ticks@, order@, m, p as int);
            assert(members@.take(i as int + 1).drop_last() =~= members@.take(i as int));
        }
        let ghost old_order = order@;
        order.insert(p, m);
        assert forall|k: int| 0 <= k < order.len() implies #[trigger] order@[k] < ticks.len() by {
            if k < p {
                assert(order@[k] == old_order[k]);
            } else if k > p {
                assert(order@[k] == old_order[k - 1]);
            }
        }
        i = i + 1;
    }
    assert(members@.take(members.len() as int) =~= members@);
    order
}


/// `a` comes before `b` when ordered by tick, ties broken by index.
pub open spec fn tick_before(ticks: Seq<u64>, a: usize, b: usize) -> bool {
    ticks[a as int] < ticks[b as int] || (ticks[a as int] == ticks[b as int] && a < b)
}

/// `s` is strictly ordered by tick, ties broken by index.
pub open spec fn tick_sorted(ticks: Seq<u64>, s: Seq<usize>) -> bool {
    forall|p: int, q: int| 0 <= p < q < s.len() ==> tick_before(ticks, #[trigger] s[p], #[trigger] s[q])
}

/// `s` is strictly increasing.
pub open spec fn strictly_increasing(s: Seq<usize>) -> bool {
    forall|p: int, q: int| 0 <= p < q < s.len() ==> #[trigger] s[p] < #[trigger] s[q]
}

proof fn lemma_insert_by_tick_sorted(ticks: Seq<u64>, s: Seq<usize>, m: usize)
    requires
        tick_sorted(ticks, s),
        forall|p: int| 0 <= p < s.len() ==> #[trigger] s[p] < m,
    ensures
        tick_sorted(ticks, insert_by_tick(ticks, s, m)),
        insert_by_tick(ticks, s, m).len() == s.len() + 1,
        forall|x: usize| #[trigger] insert_by_tick(ticks, s, m).contains(x) <==> (s.contains(x) || x == m),
    decreases s.len(),
{
    let r = insert_by_tick(ticks, s, m);
    if s.len() == 0 {
        assert forall|x: usize| #[trigger] r.contains(x) <==> (s.contains(x) || x == m) by {
            if r.contains(x) {
                assert(r[0] == m);
            }
            if x == m {
                assert(r[0] == x);
            }
        }
    } else if ticks[s.last() as int] <= ticks[m as int] {
        assert(r == s.push(m));
        assert forall|p: int, q: int| 0 <= p < q < r.len() implies tick_before(ticks, #[trigger] r[p], #[trigger] r[q]) by {
            if q == s.len() {
                if p < s.len() - 1 {
                    assert(tick_before(ticks, s[p], s[s.len() - 1]));
                }
                assert(s[p] < m);
            } else {
                assert(tick_before(ticks, s[p], s[q]));
            }
        }
        assert forall|x: usize| #[trigger] r.contains(x) <==> (s.contains(x) || x == m) by {
            if r.contains(x) {
                let k = choose|k: int| 0 <= k < r.len() && r[k] == x;
                if k < s.len() {
                    assert(s[k] == x);
                }
            }
            if s.contains(x) {
                let k = choose|k: int| 0 <= k < s.len() && s[k] == x;
                assert(r[k] == x);
            }
            if x == m {
                assert(r[s.len() as int] == x);
            }
        }
    } else {
        let s1 = s.drop_last();
        let l = s.last();
        assert forall|p: int, q: int| 0 <= p < q < s1.len() implies tick_before(ticks, #[trigger] s1[p], #[trigger] s1[q]) by {
            assert(s1[p] == s[p] && s1[q] == s[q]);
        }
        lemma_insert_by_tick_sorted(ticks, s1, m);
        let r1 = insert_by_tick(ticks, s1, m);
        assert(r == r1.push(l));
        assert forall|p: int, q: int| 0 <= p < q < r.len() implies tick_before(ticks, #[trigger] r[p], #[trigger] r[q]) by {
            if q == r1.len() {
                let x = r1[p];
                assert(r1.contains(x));
                if x == m {
                } else {
                    assert(s1.contains(x));
                    let k = choose|k: int| 0 <= k < s1.len() && s1[k] == x;
                    assert(tick_before(ticks, s[k], s[s.len() - 1]));
                }
            } else {
                assert(r[p] == r1[p] && r[q] == r1[q]);
            }
        }
        assert forall|x: usize| #[trigger] r.contains(x) <==> (s.contains(x) || x == m) by {
            if r.contains(x) {
                let k = choose|k: int| 0 <= k < r.len() && r[k] == x;
                if k < r1.len() {
                    assert(r1[k] == x);
                    assert(r1.contains(x));
                    if s1.contains(x) {
                        let j = choose|j: int| 0 <= j < s1.len() && s1[j] == x;
                        assert(s[j] == x);
                    }
                } else {
                    assert(s[s.len() - 1] == x);
                }
            }
            if s.contains(x) {
                let k = choose|k: int| 0 <= k < s.len() && s[k] == x;
                if k < s1.len() {
                    assert(s1[k] == x);
                    assert(r1.contains(x));
                    let j = choose|j: int| 0 <= j < r1.len() && r1[j] == x;
                    assert(r[j] == x);
                } else {
                    assert(r[r1.len() as int] == x);
                }
            }
            if x == m {
                assert(r1.contains(x));
                let j = choose|j: int| 0 <= j < r1.len() && r1[j] == x;
                assert(r[j] == x);
            }
        }
    }
}

/// Ordering by tick is a stable sort: the result holds exactly the
/// members, once each, ordered by tick, and members with equal ticks keep
/// their original (increasing) order.
pub proof fn law_tick_order_is_stable_sort(ticks: Seq<u64>, members: Seq<usize>)
    requires
        strictly_increasing(members),
    ensures
        tick_order(ticks, members).len() == members.len(),
        forall|x: usize| #[trigger] tick_order(ticks, members).contains(x) <==> members.contains(x),
        tick_sorted(ticks, tick_order(ticks, members)),
    decreases members.len(),
{
    if members.len() > 0 {
        let front = members.drop_last();
        let m = members.last();
        assert forall|p: int, q: int| 0 <= p < q < front.len() implies #[trigger] front[p] < #[trigger] front[q] by {
            assert(front[p] == members[p] && front[q] == members[q]);
        }
        law_tick_order_is_stable_sort(ticks, front);
        let t = tick_order(ticks, front);
        assert forall|p: int| 0 <= p < t.len() implies #[trigger] t[p] < m by {
            assert(t.contains(t[p]));
            let k = choose|k: int| 0 <= k < front.len() && front[k] == t[p];
            assert(members[k] < members[members.len() - 1]);
        }
        lemma_insert_by_tick_sorted(ticks, t, m);
        assert forall|x: usize| #[trigger] tick_order(ticks, members).contains(x) <==> members.contains(x) by {
            if front.contains(x) {
                let k = choose|k: int| 0 <= k < front.len() && front[k] == x;
                assert(members[k] == x);
            }
            if members.contains(x) {
                let k = choose|k: int| 0 <= k < members.len() && members[k] == x;
                if k < front.len() {
                    assert(front[k] == x);
                }
            }
            if x == m {
                assert(members[members.len() - 1] == x);
            }
        }
    }
}

} // verus!
