//! Grouping rows by a text key (a customer id or an account id), keeping
//! the groups in the order in which their keys first appear.
use vstd::prelude::*;

verus! {

/// The texts of a sequence of keys.
pub open spec fn key_texts(keys: Seq<String>) -> Seq<Seq<char>> {
    keys.map_values(|s: String| s@)
}

/// The indices below `n` whose key is `k`, in increasing order.
pub open spec fn positions_of(keys: Seq<Seq<char>>, k: Seq<char>, n: nat) -> Seq<usize>
    decreases n,
{
    if n == 0 {
        seq![]
    } else {
        let p = positions_of(keys, k, (n - 1) as nat);
        if keys[n - 1] == k {
            p.push((n - 1) as usize)
        } else {
            p
        }
    }
}

/// Whether no earlier index carries the key at index `i`.
pub open spec fn is_first_occurrence(keys: Seq<Seq<char>>, i: int) -> bool {
    forall|j: int| 0 <= j < i ==> keys[j] != keys[i]
}

/// The indices below `n` at which a key appears for the first time.
pub open spec fn first_occurrences(keys: Seq<Seq<char>>, n: nat) -> Seq<usize>
    decreases n,
{
    if n == 0 {
        seq![]
    } else {
        let p = first_occurrences(keys, (n - 1) as nat);
        if is_first_occurrence(keys, n - 1) {
            p.push((n - 1) as usize)
        } else {
            p
        }
    }
}

/// The groups of the first `n` keys: one per distinct key, in order of
/// first appearance, each with the indices that carry its key.
pub open spec fn key_groups_upto(keys: Seq<Seq<char>>, n: nat) -> Seq<(Seq<char>, Seq<usize>)> {
    let f = first_occurrences(keys, n);
    Seq::new(f.len(), |g: int| (keys[f[g] as int], positions_of(keys, keys[f[g] as int], n)))
}

/// The groups of all keys.
pub open spec fn key_groups(keys: Seq<Seq<char>>) -> Seq<(Seq<char>, Seq<usize>)> {
    key_groups_upto(keys, keys.len())
}

/// The rows that share one key.
pub struct KeyGroup {
    pub key: String,
    pub members: Vec<usize>,
}

impl View for KeyGroup {
    type V = (Seq<char>, Seq<usize>);

    open spec fn view(&self) -> (Seq<char>, Seq<usize>) {
        (self.key@, self.members@)
    }
}

/// The views of a sequence of groups.
pub open spec fn group_views(gs: Seq<KeyGroup>) -> Seq<(Seq<char>, Seq<usize>)> {
    gs.map_values(|g: KeyGroup| g@)
}

/// Every index in the list of first occurrences is one, and is below `n`;
/// the list is strictly increasing.
proof fn lemma_first_occurrences_facts(keys: Seq<Seq<char>>, n: nat)
    requires
        n <= keys.len(),
        n <= usize::MAX,
    ensures
        forall|g: int|
            0 <= g < first_occurrences(keys, n).len() ==> {
                let f = #[trigger] first_occurrences(keys, n)[g];
                &&& f < n
                &&& is_first_occurrence(keys, f as int)
            },
        forall|g1: int, g2: int|
            0 <= g1 < g2 < first_occurrences(keys, n).len() ==> first_occurrences(keys, n)[g1]
                < first_occurrences(keys, n)[g2],
    decreases n,
{
    if n > 0 {
        lemma_first_occurrences_facts(keys, (n - 1) as nat);
        let p = first_occurrences(keys, (n - 1) as nat);
        if is_first_occurrence(keys, n - 1) {
            let q = p.push((n - 1) as usize);
            assert(first_occurrences(keys, n) == q);
            assert forall|g: int| 0 <= g < q.len() implies #[trigger] q[g] < n && is_first_occurrence(
                keys,
                q[g] as int,
            ) by {
                if g < p.len() {
                    assert(q[g] == p[g]);
                }
            }
            assert forall|g1: int, g2: int| 0 <= g1 < g2 < q.len() implies q[g1] < q[g2] by {
                assert(q[g1] == p[g1]);
                if g2 < p.len() {
                    assert(q[g2] == p[g2]);
                }
            }
        }
    }
}

/// The groups of the first `n` keys carry pairwise distinct keys, and a
/// key that first appears at `n` is carried by none of them.
proof fn lemma_group_keys_distinct(keys: Seq<Seq<char>>, n: nat)
    requires
        n <= keys.len(),
        n <= usize::MAX,
    ensures
        forall|g1: int, g2: int|
            0 <= g1 < key_groups_upto(keys, n).len() && 0 <= g2 < key_groups_upto(keys, n).len()
                && g1 != g2 ==> #[trigger] key_groups_upto(keys, n)[g1].0 != #[trigger] key_groups_upto(
                keys,
                n,
            )[g2].0,
        n < keys.len() && is_first_occurrence(keys, n as int) ==> forall|g: int|
            0 <= g < key_groups_upto(keys, n).len() ==> #[trigger] key_groups_upto(keys, n)[g].0
                != keys[n as int],
{
    let f = first_occurrences(keys, n);
    lemma_first_occurrences_facts(keys, n);
    assert forall|g1: int, g2: int|
        0 <= g1 < key_groups_upto(keys, n).len() && 0 <= g2 < key_groups_upto(keys, n).len() && g1
            != g2 implies #[trigger] key_groups_upto(keys, n)[g1].0 != #[trigger] key_groups_upto(
        keys,
        n,
    )[g2].0 by {
        if g1 < g2 {
            assert(f[g1] < f[g2]);
            assert(is_first_occurrence(keys, f[g2] as int));
        } else {
            assert(f[g2] < f[g1]);
            assert(is_first_occurrence(keys, f[g1] as int));
        }
    }
}

/// An index below `n` that is a first occurrence is in the list.
proof fn lemma_first_occurrence_listed(keys: Seq<Seq<char>>, n: nat, i: int)
    requires
        n <= keys.len(),
        n <= usize::MAX,
        0 <= i < n,
        is_first_occurrence(keys, i),
    ensures
        exists|g: int|
            0 <= g < first_occurrences(keys, n).len() && first_occurrences(keys, n)[g] == i,
    decreases n,
{
    if i == n - 1 {
        let p = first_occurrences(keys, (n - 1) as nat);
        assert(first_occurrences(keys, n)[p.len() as int] == i);
    } else {
        lemma_first_occurrence_listed(keys, (n - 1) as nat, i);
        let p = first_occurrences(keys, (n - 1) as nat);
        let g = choose|g: int| 0 <= g < p.len() && #[trigger] p[g] == i;
        assert(first_occurrences(keys, n)[g] == i);
    }
}

/// Every key below `n` has a first occurrence at or before it.
proof fn lemma_has_first_occurrence(keys: Seq<Seq<char>>, i: int) -> (f: int)
    requires
        0 <= i < keys.len(),
    ensures
        0 <= f <= i,
        keys[f] == keys[i],
        is_first_occurrence(keys, f),
    decreases i,
{
    if is_first_occurrence(keys, i) {
        i
    } else {
        let j = choose|j: int| 0 <= j < i && #[trigger] keys[j] == keys[i];
        lemma_has_first_occurrence(keys, j)
    }
}

/// Membership in the positions of a key.
pub(crate) proof fn lemma_positions_facts(keys: Seq<Seq<char>>, k: Seq<char>, n: nat)
    requires
        n <= keys.len(),
        n <= usize::MAX,
    ensures
        forall|p: int|
            0 <= p < positions_of(keys, k, n).len() ==> {
                let m = #[trigger] positions_of(keys, k, n)[p];
                &&& m < n
                &&& keys[m as int] == k
            },
        forall|p1: int, p2: int|
            0 <= p1 < p2 < positions_of(keys, k, n).len() ==> positions_of(keys, k, n)[p1]
                < positions_of(keys, k, n)[p2],
        forall|i: int|
            0 <= i < n && keys[i] == k ==> positions_of(keys, k, n).contains(i as usize),
    decreases n,
{
    if n > 0 {
        lemma_positions_facts(keys, k, (n - 1) as nat);
        let p = positions_of(keys, k, (n - 1) as nat);
        if keys[n - 1] == k {
            assert(positions_of(keys, k, n)[p.len() as int] == (n - 1) as usize);
            assert forall|i: int| 0 <= i < n && keys[i] == k implies positions_of(
                keys,
                k,
                n,
            ).contains(i as usize) by {
                if i < n - 1 {
                    let q = choose|q: int| 0 <= q < p.len() && #[trigger] p[q] == i as usize;
                    assert(positions_of(keys, k, n)[q] == i as usize);
                }
            }
        }
    }
}

/// One step of the grouping: the groups of `n + 1` keys from those of `n`.
proof fn lemma_groups_step(keys: Seq<Seq<char>>, n: nat)
    requires
        n < keys.len(),
        n + 1 <= usize::MAX,
    ensures
        is_first_occurrence(keys, n as int) ==> key_groups_upto(keys, n + 1)
            =~= key_groups_upto(keys, n).push((keys[n as int], seq![n as usize])),
        !is_first_occurrence(keys, n as int) ==> exists|g: int|
            0 <= g < key_groups_upto(keys, n).len() && key_groups_upto(keys, n)[g].0 == keys[n as int]
                && key_groups_upto(keys, n + 1) =~= key_groups_upto(keys, n).update(
                g,
                (keys[n as int], key_groups_upto(keys, n)[g].1.push(n as usize)),
            ),
{
    let f0 = first_occurrences(keys, n);
    let f1 = first_occurrences(keys, n + 1);
    let g0 = key_groups_upto(keys, n);
    let g1 = key_groups_upto(keys, n + 1);
    lemma_first_occurrences_facts(keys, n);
    if is_first_occurrence(keys, n as int) {
        assert forall|g: int| 0 <= g < f0.len() implies #[trigger] g1[g] == g0[g] by {
            let f = f0[g];
            assert(f1[g] == f);
            assert(keys[n as int] != keys[f as int]);
            assert(positions_of(keys, keys[f as int], n + 1) == positions_of(keys, keys[f as int], n));
        }
        assert(f1[f0.len() as int] == n as usize);
        assert(positions_of(keys, keys[n as int], n) =~= seq![]) by {
            lemma_positions_facts(keys, keys[n as int], n);
            if positions_of(keys, keys[n as int], n).len() > 0 {
                let m = positions_of(keys, keys[n as int], n)[0];
                assert(keys[m as int] == keys[n as int]);
            }
        }
        assert(positions_of(keys, keys[n as int], n + 1) =~= seq![n as usize]);
    } else {
        let fi = lemma_has_first_occurrence(keys, n as int);
        lemma_first_occurrence_listed(keys, n, fi);
        let g = choose|g: int| 0 <= g < f0.len() && #[trigger] f0[g] == fi;
        assert(f1 == f0);
        assert(g0[g].0 == keys[n as int]);
        assert forall|h: int| 0 <= h < f0.len() && h != g implies #[trigger] g1[h] == g0[h] by {
            let f = f0[h];
            if keys[f as int] == keys[n as int] {
                // two first occurrences of one key would be equal
                if f < fi {
                    assert(keys[f as int] == keys[fi]);
                } else if fi < f {
                    assert(keys[fi] == keys[f as int]);
                }
                assert(f == fi);
            }
        }
        assert(g1 =~= g0.update(g, (keys[n as int], g0[g].1.push(n as usize))));
    }
}

/// Groups `keys` by their text, in order of first appearance; each group
/// lists the indices that carry its key, in increasing order.
pub fn group_by_key(keys: &Vec<String>) -> (groups: Vec<KeyGroup>)
    ensures
        group_views(groups@) == key_groups(key_texts(keys@)),
{
    let ghost ks = key_texts(keys@);
    let mut groups: Vec<KeyGroup> = Vec::new();
    let n = keys.len();
    let mut i: usize = 0;
    while i < n
        invariant
            i <= n,
            n == keys@.len(),
            ks == key_texts(keys@),
            group_views(groups@) =~= key_groups_upto(ks, i as nat),
        decreases n - i,
    {
        proof {
            lemma_groups_step(ks, i as nat);
        }
        let mut j: usize = 0;
        while j < groups.len()
            invariant_except_break
                forall|h: int| 0 <= h < j ==> groups@[h].key@ != ks[i as int],
            invariant
                j <= groups.len(),
                i < n,
                n == keys@.len(),
                ks == key_texts(keys@),
                group_views(groups@) =~= key_groups_upto(ks, i as nat),
            ensures
                j < groups.len() ==> groups@[j as int].key@ == ks[i as int],
                j == groups.len() ==> forall|h: int| 0 <= h < j ==> groups@[h].key@ != ks[i as int],
            decreases groups.len() - j,
        {
            if groups[j].key == keys[i] {
                break;
            }
            j = j + 1;
        }
        let ghost before = group_views(groups@);
        if j < groups.len() {
            groups[j].members.push(i);
            proof {
                lemma_group_keys_distinct(ks, i as nat);
                if is_first_occurrence(ks, i as int) {
                    assert(before[j as int].0 == ks[i as int]);
                }
                let h = choose|h: int|
                    0 <= h < key_groups_upto(ks, i as nat).len() && #[trigger] key_groups_upto(
                        ks,
                        i as nat,
                    )[h].0 == ks[i as int] && key_groups_upto(ks, (i + 1) as nat)
                        =~= key_groups_upto(ks, i as nat).update(
                        h,
                        (ks[i as int], key_groups_upto(ks, i as nat)[h].1.push(i)),
                    );
                assert(key_groups_upto(ks, i as nat)[j as int].0 == ks[i as int]);
                if h != j {
                    assert(key_groups_upto(ks, i as nat)[j as int].0 != key_groups_upto(
                        ks,
                        i as nat,
                    )[h].0);
                }
                assert(h == j);
                assert(group_views(groups@) =~= before.update(j as int, (before[j as int].0, before[j as int].1.push(i))));
            }
        } else {
            let mut members: Vec<usize> = Vec::new();
            members.push(i);
            let g = KeyGroup { key: keys[i].clone(), members };
            groups.push(g);
            proof {
                assert(members@ =~= seq![i]);
                assert(group_views(groups@) =~= before.push((ks[i as int], seq![i])));
                if !is_first_occurrence(ks, i as int) {
                    let h = choose|h: int|
                        0 <= h < key_groups_upto(ks, i as nat).len() && #[trigger] key_groups_upto(
                            ks,
                            i as nat,
                        )[h].0 == ks[i as int] && key_groups_upto(ks, (i + 1) as nat)
                            =~= key_groups_upto(ks, i as nat).update(
                            h,
                            (ks[i as int], key_groups_upto(ks, i as nat)[h].1.push(i)),
                        );
                    assert(before[h].0 == groups@[h].key@);
                }
            }
        }
        i = i + 1;
    }
    groups
}


/// Grouping partitions the rows by key: every member of a group carries
/// the group's key; every row lies in the group of its key; distinct
/// groups carry distinct keys (so no row lies in two groups); members are
/// listed in increasing order; no group is empty; and groups come in the
/// order in which their keys first appear.
pub proof fn law_groups_partition_rows(keys: Seq<Seq<char>>)
    requires
        keys.len() <= usize::MAX,
    ensures
        forall|g: int, p: int|
            0 <= g < key_groups(keys).len() && 0 <= p < key_groups(keys)[g].1.len() ==> {
                let m = #[trigger] key_groups(keys)[g].1[p];
                &&& m < keys.len()
                &&& keys[m as int] == key_groups(keys)[g].0
            },
        forall|i: int|
            0 <= i < keys.len() ==> exists|g: int|
                0 <= g < key_groups(keys).len() && #[trigger] key_groups(keys)[g].0 == #[trigger] keys[i]
                    && key_groups(keys)[g].1.contains(i as usize),
        forall|g1: int, g2: int|
            0 <= g1 < key_groups(keys).len() && 0 <= g2 < key_groups(keys).len() && g1 != g2
                ==> #[trigger] key_groups(keys)[g1].0 != #[trigger] key_groups(keys)[g2].0,
        forall|g: int, p1: int, p2: int|
            0 <= g < key_groups(keys).len() && 0 <= p1 < p2 < key_groups(keys)[g].1.len()
                ==> #[trigger] key_groups(keys)[g].1[p1] < #[trigger] key_groups(keys)[g].1[p2],
        forall|g: int| 0 <= g < key_groups(keys).len() ==> #[trigger] key_groups(keys)[g].1.len() > 0,
        forall|g1: int, g2: int|
            0 <= g1 < g2 < key_groups(keys).len() ==> #[trigger] key_groups(keys)[g1].1[0]
                < #[trigger] key_groups(keys)[g2].1[0],
{
    let n = keys.len();
    let f = first_occurrences(keys, n);
    let gs = key_groups(keys);
    lemma_first_occurrences_facts(keys, n);
    lemma_group_keys_distinct(keys, n);
    assert forall|g: int| 0 <= g < gs.len() implies gs[g].1.len() > 0 && gs[g].1[0] == f[g] && (
    forall|p: int|
        0 <= p < gs[g].1.len() ==> {
            let m = #[trigger] gs[g].1[p];
            &&& m < keys.len()
            &&& keys[m as int] == gs[g].0
        }) && (forall|p1: int, p2: int|
        0 <= p1 < p2 < gs[g].1.len() ==> #[trigger] gs[g].1[p1] < #[trigger] gs[g].1[p2]) by {
        let k = keys[f[g] as int];
        lemma_positions_facts(keys, k, n);
        let ps = positions_of(keys, k, n);
        assert(ps.contains(f[g]));
        let q = choose|q: int| 0 <= q < ps.len() && #[trigger] ps[q] == f[g];
        assert(ps[0] <= f[g]) by {
            if q > 0 {
                assert(ps[0] < ps[q]);
            }
        }
        assert(keys[ps[0] as int] == k);
        assert(is_first_occurrence(keys, f[g] as int));
        assert(ps[0] == f[g]);
    }
    assert forall|i: int| 0 <= i < keys.len() implies exists|g: int|
        0 <= g < gs.len() && #[trigger] gs[g].0 == #[trigger] keys[i] && gs[g].1.contains(i as usize) by {
        let fi = lemma_has_first_occurrence(keys, i);
        lemma_first_occurrence_listed(keys, n, fi);
        let g = choose|g: int| 0 <= g < f.len() && #[trigger] f[g] == fi;
        lemma_positions_facts(keys, keys[i], n);
        assert(gs[g].0 == keys[i]);
        assert(gs[g].1.contains(i as usize));
    }
    assert forall|g1: int, g2: int| 0 <= g1 < g2 < gs.len() implies #[trigger] gs[g1].1[0]
        < #[trigger] gs[g2].1[0] by {
        assert(f[g1] < f[g2]);
    }
}

} // verus!
