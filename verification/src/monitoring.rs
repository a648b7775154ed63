//! Transaction monitoring rules: which checks run on a tick, which
//! customers and accounts a check flags, and the terms of the currency
//! transaction reports and suspicious activity reports that follow.
//!
//! Amounts stay with the caller: a check receives, for each transaction,
//! the facts it decides on (its tick, its direction, whether its amount
//! reaches the rule's threshold).
use vstd::prelude::*;
use crate::grouping::{KeyGroup, group_by_key, group_views, key_groups, key_texts};
use crate::ordering::{order_by_tick, tick_order};
use crate::text::{decimal, hyphenated_id, json_escape, json_escape_text, str_eq};
use crate::windows::{lookback_start, window_start};

verus! {

/// Transactions needed within the structuring lookback to raise an alert.
pub const STRUCTURING_COUNT_THRESHOLD: usize = 3;

/// Days the structuring check looks back.
pub const STRUCTURING_LOOKBACK_DAYS: u64 = 7;

/// A customer with more than this many transactions in the velocity
/// window is a velocity candidate.
pub const HIGH_VELOCITY_COUNT_7D: usize = 10;

/// Days the velocity check looks back.
pub const VELOCITY_LOOKBACK_DAYS: u64 = 7;

/// Days the rapid-movement check looks back.
pub const RAPID_MOVEMENT_WINDOW_DAYS: u64 = 1;

/// Monitoring metrics and SAR filing run every this many ticks.
pub const METRICS_INTERVAL: u64 = 7;

/// SAR filing metrics run every this many ticks, over this many ticks.
pub const SAR_METRICS_INTERVAL: u64 = 30;

/// Days back that SAR filing considers open alerts.
pub const SAR_LOOKBACK_DAYS: u64 = 30;

/// Days after detection within which a SAR is due.
pub const SAR_FILING_WINDOW_DAYS: u64 = 30;

/// Days after the transaction within which a CTR is due.
pub const CTR_FILING_WINDOW_DAYS: u64 = 15;

/// Fine, in dollars, for any late SAR.
pub const LATE_SAR_BASE_FINE: u64 = 25000;

/// Additional fine, in dollars, per day a SAR is late.
pub const LATE_SAR_FINE_PER_DAY: u64 = 1000;

// ── Schedule ─────────────────────────────────────────────────────────────

/// The monitoring steps that run on one tick.
pub struct MonitoringSteps {
    pub detect_structuring: bool,
    pub detect_velocity: bool,
    pub file_ctrs: bool,
    pub detect_rapid_movement: bool,
    pub compute_metrics: bool,
    pub file_sars: bool,
    pub compute_sar_metrics: bool,
}

/// Which monitoring steps run on `tick`: nothing on tick 0; the four
/// detections on every other tick; metrics and SAR filing weekly; SAR
/// metrics monthly.
pub fn monitoring_steps(tick: u64) -> (s: MonitoringSteps)
    ensures
        tick == 0 ==> !s.detect_structuring && !s.detect_velocity && !s.file_ctrs
            && !s.detect_rapid_movement && !s.compute_metrics && !s.file_sars
            && !s.compute_sar_metrics,
        tick != 0 ==> s.detect_structuring && s.detect_velocity && s.file_ctrs
            && s.detect_rapid_movement,
        tick != 0 ==> s.compute_metrics == (tick % METRICS_INTERVAL == 0),
        tick != 0 ==> s.file_sars == (tick % METRICS_INTERVAL == 0),
        tick != 0 ==> s.compute_sar_metrics == (tick % SAR_METRICS_INTERVAL == 0),
{
    if tick == 0 {
        return MonitoringSteps {
            detect_structuring: false,
            detect_velocity: false,
            file_ctrs: false,
            detect_rapid_movement: false,
            compute_metrics: false,
            file_sars: false,
            compute_sar_metrics: false,
        };
    }
    let weekly = tick % METRICS_INTERVAL == 0;
    MonitoringSteps {
        detect_structuring: true,
        detect_velocity: true,
        file_ctrs: true,
        detect_rapid_movement: true,
        compute_metrics: weekly,
        file_sars: weekly,
        compute_sar_metrics: tick % SAR_METRICS_INTERVAL == 0,
    }
}

// ── Transaction facts ────────────────────────────────────────────────────

/// The direction of a transaction, from its `txn_type` text.
#[derive(PartialEq, Eq, Structural, Clone, Copy, Debug)]
pub enum TxnDirection {
    Credit,
    Debit,
    Other,
}

/// The direction that a `txn_type` text names.
pub open spec fn direction_spec(txn_type: Seq<char>) -> TxnDirection {
    if txn_type == "credit"@ {
        TxnDirection::Credit
    } else if txn_type == "debit"@ {
        TxnDirection::Debit
    } else {
        TxnDirection::Other
    }
}

/// Reads the direction of a transaction from its `txn_type` text.
pub fn direction_of(txn_type: &str) -> (d: TxnDirection)
    ensures
        d == direction_spec(txn_type@),
{
    if str_eq(txn_type, "credit") {
        TxnDirection::Credit
    } else if str_eq(txn_type, "debit") {
        TxnDirection::Debit
    } else {
        TxnDirection::Other
    }
}

/// What the rapid-movement check reads of one transaction.
pub struct TxnFacts {
    pub account_id: String,
    pub tick: u64,
    pub direction: TxnDirection,
    /// Whether the amount reaches the rapid-movement threshold.
    pub large_movement: bool,
}

// ── Structuring and velocity ─────────────────────────────────────────────

/// A copy of a group.
fn copy_group(g: &KeyGroup) -> (c: KeyGroup)
    ensures
        c@ == g@,
{
    let mut members: Vec<usize> = Vec::new();
    let mut i: usize = 0;
    while i < g.members.len()
        invariant
            i <= g.members.len(),
            members@ =~= g.members@.take(i as int),
        decreases g.members.len() - i,
    {
        members.push(g.members[i]);
        i = i + 1;
    }
    assert(g.members@.take(g.members.len() as int) =~= g.members@);
    KeyGroup { key: g.key.clone(), members }
}

/// Keeps the groups with at least `min` members, in order.
pub fn groups_with_at_least(groups: &Vec<KeyGroup>, min: usize) -> (kept: Vec<KeyGroup>)
    ensures
        group_views(kept@) == group_views(groups@).filter(
            |g: (Seq<char>, Seq<usize>)| g.1.len() >= min,
        ),
{
    let ghost pred = |g: (Seq<char>, Seq<usize>)| g.1.len() >= min;
    let ghost all = group_views(groups@);
    let mut kept: Vec<KeyGroup> = Vec::new();
    let mut i: usize = 0;
    while i < groups.len()
        invariant
            i <= groups.len(),
            all == group_views(groups@),
            pred == (|g: (Seq<char>, Seq<usize>)| g.1.len() >= min),
            group_views(kept@) =~= all.take(i as int).filter(pred),
        decreases groups.len() - i,
    {
        proof {
            all.take(i as int).lemma_filter_push(all[i as int], pred);
            assert(all.take(i as int + 1) =~= all.take(i as int).push(all[i as int]));
        }
        assert(all[i as int] == groups@[i as int]@);
        let ghost before = kept@;
        if groups[i].members.len() >= min {
            let c = copy_group(&groups[i]);
            kept.push(c);
            assert(group_views(kept@) =~= group_views(before).push(all[i as int]));
        }
        i = i + 1;
    }
    assert(all.take(groups.len() as int) =~= all);
    kept
}

/// The customers whose transactions just under the CTR threshold within
/// the structuring lookback number at least three: the groups (by
/// customer) with at least three members.
pub fn structuring_candidates(customer_ids: &Vec<String>) -> (flagged: Vec<KeyGroup>)
    ensures
        group_views(flagged@) == frequent_groups(
            key_texts(customer_ids@),
            STRUCTURING_COUNT_THRESHOLD as nat,
        ),
{
    let groups = group_by_key(customer_ids);
    groups_with_at_least(&groups, STRUCTURING_COUNT_THRESHOLD)
}

/// The customers with more than ten transactions in the velocity window:
/// the groups (by customer) with at least eleven members. The velocity
/// rule flags those among them whose volume also exceeds its threshold.
pub fn velocity_candidates(customer_ids: &Vec<String>) -> (flagged: Vec<KeyGroup>)
    ensures
        group_views(flagged@) == frequent_groups(
            key_texts(customer_ids@),
            (HIGH_VELOCITY_COUNT_7D + 1) as nat,
        ),
{
    let groups = group_by_key(customer_ids);
    groups_with_at_least(&groups, HIGH_VELOCITY_COUNT_7D + 1)
}


/// The groups of `keys` with at least `min` members, in order.
pub open spec fn frequent_groups(keys: Seq<Seq<char>>, min: nat) -> Seq<(Seq<char>, Seq<usize>)> {
    key_groups(keys).filter(|g: (Seq<char>, Seq<usize>)| g.1.len() >= min)
}

/// A key is carried by one of the groups kept for having at least `min`
/// members exactly when at least `min` rows carry that key.
proof fn lemma_frequent_keys(keys: Seq<Seq<char>>, min: nat, k: Seq<char>)
    requires
        keys.len() <= usize::MAX,
        min > 0,
    ensures
        (exists|j: int|
            0 <= j < frequent_groups(keys, min).len() && (#[trigger] frequent_groups(keys, min)[j]).0
                == k) <==> crate::grouping::positions_of(keys, k, keys.len()).len() >= min,
{
    let pred = |g: (Seq<char>, Seq<usize>)| g.1.len() >= min;
    let gs = key_groups(keys);
    let kept = gs.filter(pred);
    assert(kept == frequent_groups(keys, min));
    let n = keys.len();
    crate::grouping::law_groups_partition_rows(keys);
    let ps = crate::grouping::positions_of(keys, k, n);
    if exists|j: int| 0 <= j < kept.len() && (#[trigger] kept[j]).0 == k {
        let j = choose|j: int| 0 <= j < kept.len() && (#[trigger] kept[j]).0 == k;
        gs.lemma_filter_pred(pred, j);
        assert(kept.contains(kept[j]));
        gs.lemma_filter_contains_rev(pred, kept[j]);
        let g = choose|g: int| 0 <= g < gs.len() && gs[g] == kept[j];
        let f = crate::grouping::first_occurrences(keys, n)[g];
        assert(gs[g].1 == crate::grouping::positions_of(keys, keys[f as int], n));
        assert(keys[f as int] == k);
    }
    if ps.len() >= min {
        crate::grouping::lemma_positions_facts(keys, k, n);
        let m = ps[0];
        assert(keys[m as int] == k);
        let g = choose|g: int| 0 <= g < gs.len() && #[trigger] gs[g].0 == keys[m as int] && gs[g].1.contains(m);
        let f = crate::grouping::first_occurrences(keys, n)[g];
        assert(gs[g].1 == ps);
        gs.lemma_filter_contains(pred, g);
        let j = choose|j: int| 0 <= j < kept.len() && kept[j] == gs[g];
        assert(kept[j].0 == k);
    }
}

/// The structuring rule flags exactly the customers with at least three
/// transactions among those it reads: a customer is carried by a flagged
/// group exactly when three or more of the rows are theirs, and each
/// flagged group lists every row of its customer, in order, so that the
/// alert counts and sums all of them.
pub proof fn law_structuring_flags_customers_with_three_or_more(customers: Seq<Seq<char>>, k: Seq<char>)
    requires
        customers.len() <= usize::MAX,
    ensures
        (exists|j: int|
            0 <= j < frequent_groups(customers, STRUCTURING_COUNT_THRESHOLD as nat).len()
                && (#[trigger] frequent_groups(customers, STRUCTURING_COUNT_THRESHOLD as nat)[j]).0 == k)
            <==> crate::grouping::positions_of(customers, k, customers.len()).len()
            >= STRUCTURING_COUNT_THRESHOLD,
        forall|j: int|
            0 <= j < frequent_groups(customers, STRUCTURING_COUNT_THRESHOLD as nat).len() ==> {
                let g = #[trigger] frequent_groups(customers, STRUCTURING_COUNT_THRESHOLD as nat)[j];
                g.1 == crate::grouping::positions_of(customers, g.0, customers.len())
            },
{
    lemma_frequent_keys(customers, STRUCTURING_COUNT_THRESHOLD as nat, k);
    lemma_frequent_groups_hold_all_rows(customers, STRUCTURING_COUNT_THRESHOLD as nat);
}

/// The velocity rule's candidates are exactly the customers with more than
/// ten transactions among those it reads, and each candidate group lists
/// every row of its customer, in order, so that the volume and the count
/// the rule tests cover all of that customer's transactions.
pub proof fn law_velocity_candidates_have_more_than_ten(customers: Seq<Seq<char>>, k: Seq<char>)
    requires
        customers.len() <= usize::MAX,
    ensures
        (exists|j: int|
            0 <= j < frequent_groups(customers, (HIGH_VELOCITY_COUNT_7D + 1) as nat).len()
                && (#[trigger] frequent_groups(customers, (HIGH_VELOCITY_COUNT_7D + 1) as nat)[j]).0 == k)
            <==> crate::grouping::positions_of(customers, k, customers.len()).len()
            > HIGH_VELOCITY_COUNT_7D,
        forall|j: int|
            0 <= j < frequent_groups(customers, (HIGH_VELOCITY_COUNT_7D + 1) as nat).len() ==> {
                let g = #[trigger] frequent_groups(customers, (HIGH_VELOCITY_COUNT_7D + 1) as nat)[j];
                g.1 == crate::grouping::positions_of(customers, g.0, customers.len())
            },
{
    lemma_frequent_keys(customers, (HIGH_VELOCITY_COUNT_7D + 1) as nat, k);
    lemma_frequent_groups_hold_all_rows(customers, (HIGH_VELOCITY_COUNT_7D + 1) as nat);
}

/// Each group kept for having at least `min` members lists every row that
/// carries its key.
proof fn lemma_frequent_groups_hold_all_rows(keys: Seq<Seq<char>>, min: nat)
    ensures
        forall|j: int|
            0 <= j < frequent_groups(keys, min).len() ==> {
                let g = #[trigger] frequent_groups(keys, min)[j];
                g.1 == crate::grouping::positions_of(keys, g.0, keys.len())
            },
{
    let pred = |g: (Seq<char>, Seq<usize>)| g.1.len() >= min;
    let gs = key_groups(keys);
    let kept = gs.filter(pred);
    assert(kept == frequent_groups(keys, min));
    assert forall|j: int| 0 <= j < kept.len() implies ({
        let g = #[trigger] kept[j];
        g.1 == crate::grouping::positions_of(keys, g.0, keys.len())
    }) by {
        assert(kept.contains(kept[j]));
        gs.lemma_filter_contains_rev(pred, kept[j]);
        let h = choose|h: int| 0 <= h < gs.len() && gs[h] == kept[j];
        let f = crate::grouping::first_occurrences(keys, keys.len());
        assert(gs[h] == (keys[f[h] as int], crate::grouping::positions_of(keys, keys[f[h] as int], keys.len())));
    }
}

// ── Rapid movement ───────────────────────────────────────────────────────

/// The ticks of the transactions.
pub open spec fn fact_ticks(facts: Seq<TxnFacts>) -> Seq<u64> {
    facts.map_values(|f: TxnFacts| f.tick)
}

/// The account of each transaction.
pub open spec fn fact_accounts(facts: Seq<TxnFacts>) -> Seq<Seq<char>> {
    facts.map_values(|f: TxnFacts| f.account_id@)
}

/// A large deposit at `a` followed by a large withdrawal at `b` no more
/// than one tick later.
pub open spec fn rapid_pair(facts: Seq<TxnFacts>, a: usize, b: usize) -> bool {
    &&& facts[a as int].direction == TxnDirection::Credit
    &&& facts[b as int].direction == TxnDirection::Debit
    &&& facts[a as int].large_movement
    &&& facts[b as int].large_movement
    &&& facts[b as int].tick <= facts[a as int].tick + RAPID_MOVEMENT_WINDOW_DAYS
}

/// The first consecutive pair of `order`, from position `p` on, that is a
/// rapid movement.
pub open spec fn first_rapid_pair_from(facts: Seq<TxnFacts>, order: Seq<usize>, p: int) -> Option<
    (usize, usize),
>
    decreases order.len() - p,
{
    if p < 0 || p + 1 >= order.len() {
        None
    } else if rapid_pair(facts, order[p], order[p + 1]) {
        Some((order[p], order[p + 1]))
    } else {
        first_rapid_pair_from(facts, order, p + 1)
    }
}

/// The first consecutive pair of `order` that is a rapid movement.
pub open spec fn first_rapid_pair(facts: Seq<TxnFacts>, order: Seq<usize>) -> Option<(usize, usize)> {
    first_rapid_pair_from(facts, order, 0)
}

/// The rapid movements of the first `n` account groups, at most one per
/// account, each the first one in the account's transactions ordered by tick.
pub open spec fn rapid_pairs_upto(
    facts: Seq<TxnFacts>,
    groups: Seq<(Seq<char>, Seq<usize>)>,
    n: nat,
) -> Seq<(usize, usize)>
    decreases n,
{
    if n == 0 {
        seq![]
    } else {
        let prev = rapid_pairs_upto(facts, groups, (n - 1) as nat);
        match first_rapid_pair(facts, tick_order(fact_ticks(facts), groups[n - 1].1)) {
            Some(pair) => prev.push(pair),
            None => prev,
        }
    }
}

/// The rapid movements among `facts`: per account, in order of the
/// account's first appearance, the first deposit/withdrawal pair of the
/// account's transactions ordered by tick that qualifies.
pub open spec fn rapid_pairs(facts: Seq<TxnFacts>) -> Seq<(usize, usize)> {
    let gs = key_groups(fact_accounts(facts));
    rapid_pairs_upto(facts, gs, gs.len())
}

/// The first consecutive pair of `order` that is a rapid movement.
pub fn first_rapid_pair_in(facts: &Vec<TxnFacts>, order: &Vec<usize>) -> (r: Option<(usize, usize)>)
    requires
        forall|p: int| 0 <= p < order.len() ==> #[trigger] order@[p] < facts.len(),
    ensures
        r == first_rapid_pair(facts@, order@),
{
    let mut p: usize = 0;
    while order.len() > 1 && p < order.len() - 1
        invariant
            forall|q: int| 0 <= q < order.len() ==> #[trigger] order@[q] < facts.len(),
            first_rapid_pair(facts@, order@) == first_rapid_pair_from(facts@, order@, p as int),
        decreases order.len() - p,
    {
        let a = order[p];
        let b = order[p + 1];
        let fa = &facts[a];
        let fb = &facts[b];
        let credit = match fa.direction {
            TxnDirection::Credit => true,
            _ => false,
        };
        let debit = match fb.direction {
            TxnDirection::Debit => true,
            _ => false,
        };
        let soon = fb.tick <= fa.tick || fb.tick - fa.tick <= RAPID_MOVEMENT_WINDOW_DAYS;
        if credit && debit && fa.large_movement && fb.large_movement && soon {
            return Some((a, b));
        }
        p = p + 1;
    }
    None
}

/// The account of each transaction, and the tick of each.
fn accounts_and_ticks(facts: &Vec<TxnFacts>) -> (r: (Vec<String>, Vec<u64>))
    ensures
        key_texts(r.0@) == fact_accounts(facts@),
        r.1@ == fact_ticks(facts@),
{
    let mut accounts: Vec<String> = Vec::new();
    let mut ticks: Vec<u64> = Vec::new();
    let mut i: usize = 0;
    while i < facts.len()
        invariant
            i <= facts.len(),
            key_texts(accounts@) =~= fact_accounts(facts@).take(i as int),
            ticks@ =~= fact_ticks(facts@).take(i as int),
        decreases facts.len() - i,
    {
        let ghost before = accounts@;
        accounts.push(facts[i].account_id.clone());
        ticks.push(facts[i].tick);
        assert(key_texts(accounts@) =~= key_texts(before).push(facts@[i as int].account_id@));
        i = i + 1;
    }
    assert(fact_accounts(facts@).take(facts.len() as int) =~= fact_accounts(facts@));
    assert(fact_ticks(facts@).take(facts.len() as int) =~= fact_ticks(facts@));
    (accounts, ticks)
}

/// The rapid movements among `facts`: for each account at most one pair
/// (deposit index, withdrawal index), the first qualifying consecutive pair
/// of the account's transactions ordered by tick.
pub fn rapid_movement_pairs(facts: &Vec<TxnFacts>) -> (pairs: Vec<(usize, usize)>)
    ensures
        pairs@ == rapid_pairs(facts@),
{
    let (accounts, ticks) = accounts_and_ticks(facts);
    let groups = group_by_key(&accounts);
    let ghost gs = key_groups(fact_accounts(facts@));
    proof {
        crate::grouping::law_groups_partition_rows(fact_accounts(facts@));
    }
    let mut pairs: Vec<(usize, usize)> = Vec::new();
    let mut g: usize = 0;
    while g < groups.len()
        invariant
            g <= groups.len(),
            gs == key_groups(fact_accounts(facts@)),
            group_views(groups@) == gs,
            ticks@ == fact_ticks(facts@),
            ticks@.len() == facts@.len(),
            forall|h: int, p: int|
                0 <= h < gs.len() && 0 <= p < gs[h].1.len() ==> #[trigger] gs[h].1[p]
                    < fact_accounts(facts@).len(),
            forall|h: int, p1: int, p2: int|
                0 <= h < gs.len() && 0 <= p1 < p2 < gs[h].1.len() ==> #[trigger] gs[h].1[p1]
                    < #[trigger] gs[h].1[p2],
            pairs@ =~= rapid_pairs_upto(facts@, gs, g as nat),
        decreases groups.len() - g,
    {
        assert(gs[g as int] == groups@[g as int]@);
        let ghost members = groups@[g as int].members@;
        assert(crate::ordering::strictly_increasing(members)) by {
            assert forall|p1: int, p2: int| 0 <= p1 < p2 < members.len() implies #[trigger] members[p1]
                < #[trigger] members[p2] by {
                assert(gs[g as int].1[p1] < gs[g as int].1[p2]);
            }
        }
        assert forall|p: int| 0 <= p < members.len() implies #[trigger] members[p] < ticks.len() by {
            assert(gs[g as int].1[p] < fact_accounts(facts@).len());
        }
        let order = order_by_tick(&ticks, &groups[g].members);
        proof {
            crate::ordering::law_tick_order_is_stable_sort(ticks@, members);
            assert forall|p: int| 0 <= p < order.len() implies #[trigger] order@[p] < facts.len() by {
                assert(order@.contains(order@[p]));
                let k = choose|k: int| 0 <= k < members.len() && members[k] == order@[p];
                assert(members[k] < ticks.len());
            }
        }
        let found = first_rapid_pair_in(facts, &order);
        match found {
            Some(pair) => {
                pairs.push(pair);
            },
            None => {},
        }
        g = g + 1;
    }
    pairs
}


/// A pair found by the scan is a consecutive pair of `order` from `p` on.
proof fn lemma_first_rapid_pair_found(facts: Seq<TxnFacts>, order: Seq<usize>, p: int)
    requires
        first_rapid_pair_from(facts, order, p) is Some,
    ensures
        ({
            let (a, b) = first_rapid_pair_from(facts, order, p)->0;
            exists|q: int|
                p <= q && q + 1 < order.len() && #[trigger] order[q] == a && order[q + 1] == b
                    && rapid_pair(facts, a, b)
        }),
    decreases order.len() - p,
{
    if !rapid_pair(facts, order[p], order[p + 1]) {
        lemma_first_rapid_pair_found(facts, order, p + 1);
    }
}

proof fn lemma_rapid_pairs_upto(facts: Seq<TxnFacts>, n: nat)
    requires
        facts.len() <= usize::MAX,
        n <= key_groups(fact_accounts(facts)).len(),
    ensures
        ({
            let gs = key_groups(fact_accounts(facts));
            let rp = rapid_pairs_upto(facts, gs, n);
            &&& forall|k: int|
                0 <= k < rp.len() ==> {
                    let (a, b) = #[trigger] rp[k];
                    &&& a < facts.len() && b < facts.len()
                    &&& rapid_pair(facts, a, b)
                    &&& facts[a as int].account_id@ == facts[b as int].account_id@
                    &&& facts[a as int].tick <= facts[b as int].tick
                    &&& exists|h: int| 0 <= h < n && #[trigger] gs[h].0 == facts[a as int].account_id@
                }
            &&& forall|k1: int, k2: int|
                0 <= k1 < k2 < rp.len() ==> facts[(#[trigger] rp[k1]).0 as int].account_id@
                    != facts[(#[trigger] rp[k2]).0 as int].account_id@
        }),
    decreases n,
{
    let keys = fact_accounts(facts);
    let gs = key_groups(keys);
    let ticks = fact_ticks(facts);
    if n > 0 {
        lemma_rapid_pairs_upto(facts, (n - 1) as nat);
        crate::grouping::law_groups_partition_rows(keys);
        let prev = rapid_pairs_upto(facts, gs, (n - 1) as nat);
        let members = gs[n - 1].1;
        let order = tick_order(ticks, members);
        match first_rapid_pair(facts, order) {
            Some(pair) => {
                let (a, b) = pair;
                lemma_first_rapid_pair_found(facts, order, 0);
                let q = choose|q: int|
                    0 <= q && q + 1 < order.len() && #[trigger] order[q] == a && order[q + 1] == b
                        && rapid_pair(facts, a, b);
                assert(crate::ordering::strictly_increasing(members)) by {
                    assert forall|p1: int, p2: int| 0 <= p1 < p2 < members.len() implies #[trigger] members[p1]
                        < #[trigger] members[p2] by {
                        assert(gs[n - 1].1[p1] < gs[n - 1].1[p2]);
                    }
                }
                crate::ordering::law_tick_order_is_stable_sort(ticks, members);
                assert(order.contains(a));
                assert(order.contains(b));
                let pa = choose|pa: int| 0 <= pa < members.len() && members[pa] == a;
                let pb = choose|pb: int| 0 <= pb < members.len() && members[pb] == b;
                assert(gs[n - 1].1[pa] == a);
                assert(gs[n - 1].1[pb] == b);
                assert(crate::ordering::tick_before(ticks, order[q], order[q + 1]));
                let rp = prev.push(pair);
                assert(rapid_pairs_upto(facts, gs, n) == rp);
                assert(keys[a as int] == facts[a as int].account_id@);
                assert forall|k: int| 0 <= k < rp.len() implies ({
                    let (a1, b1) = #[trigger] rp[k];
                    &&& a1 < facts.len() && b1 < facts.len()
                    &&& rapid_pair(facts, a1, b1)
                    &&& facts[a1 as int].account_id@ == facts[b1 as int].account_id@
                    &&& facts[a1 as int].tick <= facts[b1 as int].tick
                    &&& exists|h: int| 0 <= h < n && #[trigger] gs[h].0 == facts[a1 as int].account_id@
                }) by {
                    if k < prev.len() {
                        assert(rp[k] == prev[k]);
                    } else {
                        assert(gs[n - 1].0 == facts[a as int].account_id@);
                    }
                }
                assert forall|k1: int, k2: int| 0 <= k1 < k2 < rp.len() implies facts[(
                #[trigger] rp[k1]).0 as int].account_id@ != facts[(#[trigger] rp[k2]).0 as int].account_id@ by {
                    if k2 < prev.len() {
                        assert(rp[k1] == prev[k1] && rp[k2] == prev[k2]);
                    } else {
                        assert(rp[k1] == prev[k1]);
                        let h = choose|h: int| 0 <= h < n - 1 && #[trigger] gs[h].0 == facts[prev[k1].0 as int].account_id@;
                        assert(gs[h].0 != gs[n - 1].0);
                    }
                }
            },
            None => {},
        }
    }
}

/// What the scan from position `p` on finds: the first consecutive pair
/// from `p` on that is a rapid movement, or nothing when none from `p` on is.
proof fn lemma_first_rapid_pair_from_is_first(facts: Seq<TxnFacts>, order: Seq<usize>, p: int)
    requires
        0 <= p,
    ensures
        match first_rapid_pair_from(facts, order, p) {
            Some(pair) => exists|q: int|
                p <= q && q + 1 < order.len() && pair == (order[q], order[q + 1])
                    && #[trigger] rapid_pair(facts, order[q], order[q + 1]) && forall|q2: int|
                    p <= q2 < q ==> !#[trigger] rapid_pair(facts, order[q2], order[q2 + 1]),
            None => forall|q: int|
                p <= q && q + 1 < order.len() ==> !#[trigger] rapid_pair(facts, order[q], order[q + 1]),
        },
    decreases order.len() - p,
{
    if p + 1 < order.len() && !rapid_pair(facts, order[p], order[p + 1]) {
        lemma_first_rapid_pair_from_is_first(facts, order, p + 1);
        match first_rapid_pair_from(facts, order, p + 1) {
            Some(pair) => {
                let q = choose|q: int|
                    p + 1 <= q && q + 1 < order.len() && pair == (order[q], order[q + 1])
                        && #[trigger] rapid_pair(facts, order[q], order[q + 1]) && forall|q2: int|
                        p + 1 <= q2 < q ==> !#[trigger] rapid_pair(facts, order[q2], order[q2 + 1]);
                assert forall|q2: int| p <= q2 < q implies !#[trigger] rapid_pair(facts, order[q2], order[q2 + 1]) by {
                    if q2 > p {
                        assert(p + 1 <= q2 < q);
                    }
                }
            },
            None => {},
        }
    }
}

/// The rapid-movement scan of an account's transactions examines every
/// consecutive pair: it reports the first consecutive pair, in the given
/// order, that is a large deposit followed within one tick by a large
/// withdrawal, and reports nothing only when no consecutive pair is one.
pub proof fn law_first_rapid_pair_is_first_consecutive(facts: Seq<TxnFacts>, order: Seq<usize>)
    ensures
        match first_rapid_pair(facts, order) {
            Some(pair) => exists|q: int|
                0 <= q && q + 1 < order.len() && pair == (order[q], order[q + 1])
                    && #[trigger] rapid_pair(facts, order[q], order[q + 1]) && forall|q2: int|
                    0 <= q2 < q ==> !#[trigger] rapid_pair(facts, order[q2], order[q2 + 1]),
            None => forall|q: int|
                0 <= q && q + 1 < order.len() ==> !#[trigger] rapid_pair(facts, order[q], order[q + 1]),
        },
{
    lemma_first_rapid_pair_from_is_first(facts, order, 0);
}

/// The transactions of account `k`, ordered by tick (ties in the order in
/// which they were read).
pub open spec fn account_tick_order(facts: Seq<TxnFacts>, k: Seq<char>) -> Seq<usize> {
    tick_order(fact_ticks(facts), crate::grouping::positions_of(fact_accounts(facts), k, facts.len()))
}

/// The pairs found among the first `n` account groups are exactly the
/// first rapid movements of those groups that have one.
proof fn lemma_rapid_pairs_upto_found(facts: Seq<TxnFacts>, n: nat)
    requires
        n <= key_groups(fact_accounts(facts)).len(),
    ensures
        ({
            let gs = key_groups(fact_accounts(facts));
            let rp = rapid_pairs_upto(facts, gs, n);
            &&& forall|j: int|
                0 <= j < rp.len() ==> exists|h: int|
                    0 <= h < n && first_rapid_pair(facts, tick_order(fact_ticks(facts), (#[trigger] gs[h]).1))
                        == Some(#[trigger] rp[j])
            &&& forall|h: int|
                0 <= h < n && (first_rapid_pair(facts, tick_order(fact_ticks(facts), (#[trigger] gs[h]).1)) is Some)
                    ==> exists|j: int|
                    0 <= j < rp.len() && Some(#[trigger] rp[j]) == first_rapid_pair(
                        facts,
                        tick_order(fact_ticks(facts), gs[h].1),
                    )
        }),
    decreases n,
{
    let gs = key_groups(fact_accounts(facts));
    if n > 0 {
        lemma_rapid_pairs_upto_found(facts, (n - 1) as nat);
        let prev = rapid_pairs_upto(facts, gs, (n - 1) as nat);
        let rp = rapid_pairs_upto(facts, gs, n);
        let last = first_rapid_pair(facts, tick_order(fact_ticks(facts), gs[n - 1].1));
        assert forall|j: int| 0 <= j < rp.len() implies exists|h: int|
            0 <= h < n && first_rapid_pair(facts, tick_order(fact_ticks(facts), (#[trigger] gs[h]).1))
                == Some(#[trigger] rp[j]) by {
            if j < prev.len() {
                assert(rp[j] == prev[j]);
                let h = choose|h: int|
                    0 <= h < n - 1 && first_rapid_pair(facts, tick_order(fact_ticks(facts), (#[trigger] gs[h]).1))
                        == Some(prev[j]);
                assert(0 <= h < n);
            } else {
                assert(rp[j] == last->0);
                assert(first_rapid_pair(facts, tick_order(fact_ticks(facts), gs[n - 1].1)) == Some(rp[j]));
            }
        }
        assert forall|h: int|
            0 <= h < n && (first_rapid_pair(facts, tick_order(fact_ticks(facts), (#[trigger] gs[h]).1)) is Some)
                implies exists|j: int|
                0 <= j < rp.len() && Some(#[trigger] rp[j]) == first_rapid_pair(
                    facts,
                    tick_order(fact_ticks(facts), gs[h].1),
                ) by {
            if h < n - 1 {
                let j = choose|j: int|
                    0 <= j < prev.len() && Some(#[trigger] prev[j]) == first_rapid_pair(
                        facts,
                        tick_order(fact_ticks(facts), gs[h].1),
                    );
                assert(rp[j] == prev[j]);
            } else {
                assert(rp[prev.len() as int] == last->0);
            }
        }
    }
}

/// Every transaction in the tick order of an account group belongs to that
/// account.
proof fn lemma_group_order_account(facts: Seq<TxnFacts>, h: int, x: usize)
    requires
        facts.len() <= usize::MAX,
        0 <= h < key_groups(fact_accounts(facts)).len(),
        tick_order(fact_ticks(facts), key_groups(fact_accounts(facts))[h].1).contains(x),
    ensures
        x < facts.len(),
        facts[x as int].account_id@ == key_groups(fact_accounts(facts))[h].0,
{
    let keys = fact_accounts(facts);
    let gs = key_groups(keys);
    crate::grouping::law_groups_partition_rows(keys);
    let members = gs[h].1;
    assert(crate::ordering::strictly_increasing(members)) by {
        assert forall|p1: int, p2: int| 0 <= p1 < p2 < members.len() implies #[trigger] members[p1]
            < #[trigger] members[p2] by {
            assert(gs[h].1[p1] < gs[h].1[p2]);
        }
    }
    crate::ordering::law_tick_order_is_stable_sort(fact_ticks(facts), members);
    assert(members.contains(x));
    let p = choose|p: int| 0 <= p < members.len() && members[p] == x;
    assert(gs[h].1[p] == x);
    assert(keys[x as int] == facts[x as int].account_id@);
}

/// An account group's transactions, ordered by tick, are the account's
/// transactions ordered by tick.
proof fn lemma_group_order_is_account_order(facts: Seq<TxnFacts>, h: int)
    requires
        0 <= h < key_groups(fact_accounts(facts)).len(),
    ensures
        tick_order(fact_ticks(facts), key_groups(fact_accounts(facts))[h].1) == account_tick_order(
            facts,
            key_groups(fact_accounts(facts))[h].0,
        ),
{
    let keys = fact_accounts(facts);
    let f = crate::grouping::first_occurrences(keys, keys.len());
    assert(key_groups(keys)[h] == (keys[f[h] as int], crate::grouping::positions_of(keys, keys[f[h] as int], keys.len())));
}

/// The group that holds row `i`.
proof fn lemma_group_of_row(keys: Seq<Seq<char>>, i: int) -> (g: int)
    requires
        keys.len() <= usize::MAX,
        0 <= i < keys.len(),
    ensures
        0 <= g < key_groups(keys).len(),
        key_groups(keys)[g].0 == keys[i],
{
    crate::grouping::law_groups_partition_rows(keys);
    choose|g: int| 0 <= g < key_groups(keys).len() && #[trigger] key_groups(keys)[g].0 == keys[i]
        && key_groups(keys)[g].1.contains(i as usize)
}

/// Each reported pair is the first rapid movement among consecutive
/// transactions of its account in tick order.
proof fn lemma_pair_is_first_consecutive(facts: Seq<TxnFacts>, j: int)
    requires
        facts.len() <= usize::MAX,
        0 <= j < rapid_pairs(facts).len(),
    ensures
        ({
            let (a, b) = rapid_pairs(facts)[j];
            let o = account_tick_order(facts, facts[a as int].account_id@);
            exists|q: int|
                0 <= q && q + 1 < o.len() && #[trigger] o[q] == a && o[q + 1] == b && rapid_pair(facts, a, b)
                    && forall|q2: int| 0 <= q2 < q ==> !#[trigger] rapid_pair(facts, o[q2], o[q2 + 1])
        }),
{
    let gs = key_groups(fact_accounts(facts));
    let rp = rapid_pairs(facts);
    let ticks = fact_ticks(facts);
    lemma_rapid_pairs_upto_found(facts, gs.len());
    let h = choose|h: int|
        0 <= h < gs.len() && first_rapid_pair(facts, tick_order(ticks, (#[trigger] gs[h]).1)) == Some(rp[j]);
    let oh = tick_order(ticks, gs[h].1);
    law_first_rapid_pair_is_first_consecutive(facts, oh);
    let q = choose|q: int|
        0 <= q && q + 1 < oh.len() && rp[j] == (oh[q], oh[q + 1])
            && #[trigger] rapid_pair(facts, oh[q], oh[q + 1]) && forall|q2: int|
            0 <= q2 < q ==> !#[trigger] rapid_pair(facts, oh[q2], oh[q2 + 1]);
    assert(oh.contains(oh[q]));
    lemma_group_order_account(facts, h, oh[q]);
    lemma_group_order_is_account_order(facts, h);
}

/// An account gets a pair exactly when some two of its transactions,
/// consecutive in tick order, are a rapid movement.
proof fn lemma_account_has_pair_iff(facts: Seq<TxnFacts>, i: int)
    requires
        facts.len() <= usize::MAX,
        0 <= i < facts.len(),
    ensures
        ({
            let k = facts[i].account_id@;
            let o = account_tick_order(facts, k);
            (exists|j: int|
                0 <= j < rapid_pairs(facts).len() && facts[(#[trigger] rapid_pairs(facts)[j]).0 as int].account_id@
                    == k) <==> (exists|q: int|
                0 <= q && q + 1 < o.len() && #[trigger] rapid_pair(facts, o[q], o[q + 1]))
        }),
{
    let keys = fact_accounts(facts);
    let gs = key_groups(keys);
    let rp = rapid_pairs(facts);
    let ticks = fact_ticks(facts);
    let k = facts[i].account_id@;
    let o = account_tick_order(facts, k);
    assert(keys[i] == k);
    let g = lemma_group_of_row(keys, i);
    lemma_group_order_is_account_order(facts, g);
    law_first_rapid_pair_is_first_consecutive(facts, o);
    if exists|j: int| 0 <= j < rp.len() && facts[(#[trigger] rp[j]).0 as int].account_id@ == k {
        let j = choose|j: int| 0 <= j < rp.len() && facts[(#[trigger] rp[j]).0 as int].account_id@ == k;
        lemma_pair_is_first_consecutive(facts, j);
        let (a, b) = rp[j];
        let q = choose|q: int|
            0 <= q && q + 1 < o.len() && #[trigger] o[q] == a && o[q + 1] == b && rapid_pair(facts, a, b)
                && forall|q2: int| 0 <= q2 < q ==> !#[trigger] rapid_pair(facts, o[q2], o[q2 + 1]);
        assert(rapid_pair(facts, o[q], o[q + 1]));
    }
    if exists|q: int| 0 <= q && q + 1 < o.len() && #[trigger] rapid_pair(facts, o[q], o[q + 1]) {
        let q0 = choose|q: int| 0 <= q && q + 1 < o.len() && #[trigger] rapid_pair(facts, o[q], o[q + 1]);
        assert(rapid_pair(facts, o[q0], o[q0 + 1]));
        let pair = first_rapid_pair(facts, o)->0;
        let q = choose|q: int|
            0 <= q && q + 1 < o.len() && pair == (o[q], o[q + 1])
                && #[trigger] rapid_pair(facts, o[q], o[q + 1]) && forall|q2: int|
                0 <= q2 < q ==> !#[trigger] rapid_pair(facts, o[q2], o[q2 + 1]);
        lemma_rapid_pairs_upto_found(facts, gs.len());
        assert(first_rapid_pair(facts, tick_order(ticks, gs[g].1)) is Some);
        let j = choose|j: int| 0 <= j < rp.len() && Some(#[trigger] rp[j]) == first_rapid_pair(facts, tick_order(ticks, gs[g].1));
        assert(o.contains(o[q]));
        lemma_group_order_account(facts, g, o[q]);
        assert(facts[rp[j].0 as int].account_id@ == k);
    }
}

/// The rapid-movement check looks at every account: the account of any
/// transaction `i` gets a pair exactly when some two of its transactions,
/// consecutive in its tick order, are a large deposit followed within one
/// tick by a large withdrawal; and each pair reported is the first such
/// consecutive pair of its account.
pub proof fn law_rapid_movement_reports_every_account(facts: Seq<TxnFacts>, i: int)
    requires
        facts.len() <= usize::MAX,
        0 <= i < facts.len(),
    ensures
        ({
            let k = facts[i].account_id@;
            let o = account_tick_order(facts, k);
            (exists|j: int|
                0 <= j < rapid_pairs(facts).len() && facts[(#[trigger] rapid_pairs(facts)[j]).0 as int].account_id@
                    == k) <==> (exists|q: int|
                0 <= q && q + 1 < o.len() && #[trigger] rapid_pair(facts, o[q], o[q + 1]))
        }),
        forall|j: int|
            0 <= j < rapid_pairs(facts).len() ==> {
                let (a, b) = #[trigger] rapid_pairs(facts)[j];
                let o = account_tick_order(facts, facts[a as int].account_id@);
                exists|q: int|
                    0 <= q && q + 1 < o.len() && #[trigger] o[q] == a && o[q + 1] == b && rapid_pair(facts, a, b)
                        && forall|q2: int| 0 <= q2 < q ==> !#[trigger] rapid_pair(facts, o[q2], o[q2 + 1])
            },
{
    lemma_account_has_pair_iff(facts, i);
    assert forall|j: int| 0 <= j < rapid_pairs(facts).len() implies {
        let (a, b) = #[trigger] rapid_pairs(facts)[j];
        let o = account_tick_order(facts, facts[a as int].account_id@);
        exists|q: int|
            0 <= q && q + 1 < o.len() && #[trigger] o[q] == a && o[q + 1] == b && rapid_pair(facts, a, b)
                && forall|q2: int| 0 <= q2 < q ==> !#[trigger] rapid_pair(facts, o[q2], o[q2 + 1])
    } by {
        lemma_pair_is_first_consecutive(facts, j);
    }
}

/// The rapid-movement check raises at most one alert per account: every
/// pair it reports is a large deposit followed, within one tick, by a large
/// withdrawal on the same account, and no two pairs share an account.
pub proof fn law_rapid_movement_one_alert_per_account(facts: Seq<TxnFacts>)
    requires
        facts.len() <= usize::MAX,
    ensures
        forall|k: int|
            0 <= k < rapid_pairs(facts).len() ==> {
                let (a, b) = #[trigger] rapid_pairs(facts)[k];
                &&& a < facts.len() && b < facts.len()
                &&& rapid_pair(facts, a, b)
                &&& facts[a as int].account_id@ == facts[b as int].account_id@
                &&& facts[a as int].tick <= facts[b as int].tick
            },
        forall|k1: int, k2: int|
            0 <= k1 < k2 < rapid_pairs(facts).len() ==> facts[(#[trigger] rapid_pairs(facts)[k1]).0 as int].account_id@
                != facts[(#[trigger] rapid_pairs(facts)[k2]).0 as int].account_id@,
{
    lemma_rapid_pairs_upto(facts, key_groups(fact_accounts(facts)).len());
}


// ── Alerts ───────────────────────────────────────────────────────────────

/// The kinds of alert that transaction monitoring raises.
#[derive(PartialEq, Eq, Structural, Clone, Copy, Debug)]
pub enum AlertKind {
    Structuring,
    Velocity,
    RapidMovement,
}

impl AlertKind {
    /// The prefix of this kind's alert ids.
    pub fn id_prefix(self) -> (r: &'static str)
        ensures
            r@ == self.id_prefix_text(),
    {
        proof {
            reveal_strlit("STRUCT");
            reveal_strlit("VEL");
            reveal_strlit("RAPID");
        }
        match self {
            AlertKind::Structuring => "STRUCT",
            AlertKind::Velocity => "VEL",
            AlertKind::RapidMovement => "RAPID",
        }
    }

    /// The rule that raises this kind of alert.
    pub fn rule_id(self) -> (r: &'static str)
        ensures
            r@ == match self {
                AlertKind::Structuring => "STRUCT_9K"@,
                AlertKind::Velocity => "VEL_50K_7D"@,
                AlertKind::RapidMovement => "RAPID_MOVE"@,
            },
    {
        proof {
            reveal_strlit("STRUCT_9K");
            reveal_strlit("VEL_50K_7D");
            reveal_strlit("RAPID_MOVE");
        }
        match self {
            AlertKind::Structuring => "STRUCT_9K",
            AlertKind::Velocity => "VEL_50K_7D",
            AlertKind::RapidMovement => "RAPID_MOVE",
        }
    }

    /// The `alert_type` text of this kind of alert.
    pub fn alert_type(self) -> (r: &'static str)
        ensures
            r@ == match self {
                AlertKind::Structuring => "structuring"@,
                AlertKind::Velocity => "velocity"@,
                AlertKind::RapidMovement => "rapid_movement"@,
            },
    {
        proof {
            reveal_strlit("structuring");
            reveal_strlit("velocity");
            reveal_strlit("rapid_movement");
        }
        match self {
            AlertKind::Structuring => "structuring",
            AlertKind::Velocity => "velocity",
            AlertKind::RapidMovement => "rapid_movement",
        }
    }

    /// The score this kind of alert carries.
    pub open spec fn score(self) -> u32 {
        match self {
            AlertKind::Structuring => 90u32,
            AlertKind::Velocity => 75u32,
            AlertKind::RapidMovement => 80u32,
        }
    }

    /// The alert score this kind of alert carries.
    pub fn alert_score(self) -> (r: u32)
        ensures
            r == self.score(),
    {
        match self {
            AlertKind::Structuring => 90,
            AlertKind::Velocity => 75,
            AlertKind::RapidMovement => 80,
        }
    }

    /// The id of an alert of this kind about `subject`, made unique by a
    /// random `draw`: `PREFIX-subject-draw`.
    pub fn alert_id(self, subject: &str, draw: u64) -> (r: String)
        ensures
            r@ == self.id_prefix_text() + "-"@ + subject@ + "-"@ + decimal(draw as nat),
    {
        hyphenated_id(self.id_prefix(), subject, draw)
    }

    /// The prefix of this kind's alert ids, as text.
    pub open spec fn id_prefix_text(self) -> Seq<char> {
        match self {
            AlertKind::Structuring => "STRUCT"@,
            AlertKind::Velocity => "VEL"@,
            AlertKind::RapidMovement => "RAPID"@,
        }
    }
}

/// The alert score at or above which an open alert leads to a SAR.
pub const SAR_ALERT_SCORE_THRESHOLD: u32 = 85;

/// Structuring alerts score high enough to lead to a SAR; velocity and
/// rapid-movement alerts do not.
pub proof fn law_only_structuring_alerts_reach_sar_threshold(kind: AlertKind)
    ensures
        (kind.score() >= SAR_ALERT_SCORE_THRESHOLD) == (kind == AlertKind::Structuring),
{
}

// ── Currency transaction reports ─────────────────────────────────────────

/// The terms of a CTR filed on `filing_tick` for one cash transaction.
pub struct CtrTerms {
    pub filing_deadline: u64,
    pub transaction_type: &'static str,
    pub filed_on_time: bool,
    pub auto_filed: bool,
}

/// The terms of the CTR auto-filed on `tick` for a cash transaction in
/// `direction`: due fifteen days later, a cash deposit for a credit and a
/// cash withdrawal otherwise, filed at once and so on time.
pub fn ctr_terms(tick: u64, direction: TxnDirection) -> (t: CtrTerms)
    requires
        tick <= u64::MAX - CTR_FILING_WINDOW_DAYS,
    ensures
        t.filing_deadline == tick + CTR_FILING_WINDOW_DAYS,
        t.transaction_type@ == (if direction == TxnDirection::Credit {
            "cash_deposit"@
        } else {
            "cash_withdrawal"@
        }),
        t.filed_on_time,
        t.auto_filed,
{
    proof {
        reveal_strlit("cash_deposit");
        reveal_strlit("cash_withdrawal");
    }
    let transaction_type = match direction {
        TxnDirection::Credit => "cash_deposit",
        _ => "cash_withdrawal",
    };
    CtrTerms {
        filing_deadline: tick + CTR_FILING_WINDOW_DAYS,
        transaction_type,
        filed_on_time: true,
        auto_filed: true,
    }
}

/// The id of a CTR for transaction `transaction_id`: `CTR-id-draw`.
pub fn ctr_id(transaction_id: &str, draw: u64) -> (r: String)
    ensures
        r@ == "CTR"@ + "-"@ + transaction_id@ + "-"@ + decimal(draw as nat),
{
    hyphenated_id("CTR", transaction_id, draw)
}

// ── Suspicious activity reports ──────────────────────────────────────────

/// Days between detection at `alert_tick` and filing at `tick` (zero when
/// filing precedes detection).
pub open spec fn sar_days_elapsed(alert_tick: u64, tick: u64) -> int {
    window_start(tick, alert_tick) as int
}

/// Whether a SAR filed at `tick` for an alert raised at `alert_tick` is on
/// time.
pub open spec fn sar_on_time(alert_tick: u64, tick: u64) -> bool {
    sar_days_elapsed(alert_tick, tick) <= SAR_FILING_WINDOW_DAYS
}

/// The regulatory fine, in dollars, for that filing: nothing on time, else
/// the base fine plus a fine per day late.
pub open spec fn sar_fine(alert_tick: u64, tick: u64) -> int {
    if sar_on_time(alert_tick, tick) {
        0
    } else {
        LATE_SAR_BASE_FINE + LATE_SAR_FINE_PER_DAY * (sar_days_elapsed(alert_tick, tick)
            - SAR_FILING_WINDOW_DAYS)
    }
}

/// Whether a SAR went out on time or late.
#[derive(PartialEq, Eq, Structural, Clone, Copy, Debug)]
pub enum SarFilingStatus {
    Filed,
    Late,
}

impl SarFilingStatus {
    /// The `filing_status` text.
    pub fn as_str(self) -> (r: &'static str)
        ensures
            r@ == (if self == SarFilingStatus::Filed {
                "filed"@
            } else {
                "late"@
            }),
    {
        proof {
            reveal_strlit("filed");
            reveal_strlit("late");
        }
        match self {
            SarFilingStatus::Filed => "filed",
            SarFilingStatus::Late => "late",
        }
    }
}

/// The terms of a SAR filed on one tick for one alert.
pub struct SarTerms {
    pub filing_deadline: u64,
    pub days_elapsed: u64,
    pub filed_on_time: bool,
    pub days_late: u64,
    /// In whole dollars.
    pub regulatory_fine: u128,
    pub filing_status: SarFilingStatus,
}

/// The terms of a SAR filed at `tick` for an alert raised at `alert_tick`:
/// due thirty days after detection; late when more than thirty days have
/// passed, with a fine of $25,000 plus $1,000 per day late.
pub fn sar_terms(alert_tick: u64, tick: u64) -> (t: SarTerms)
    requires
        alert_tick <= u64::MAX - SAR_FILING_WINDOW_DAYS,
    ensures
        t.filing_deadline == alert_tick + SAR_FILING_WINDOW_DAYS,
        t.days_elapsed == sar_days_elapsed(alert_tick, tick),
        t.filed_on_time == sar_on_time(alert_tick, tick),
        t.days_late == (if t.filed_on_time {
            0
        } else {
            sar_days_elapsed(alert_tick, tick) - SAR_FILING_WINDOW_DAYS
        }),
        t.regulatory_fine == sar_fine(alert_tick, tick),
        t.filing_status == (if t.filed_on_time {
            SarFilingStatus::Filed
        } else {
            SarFilingStatus::Late
        }),
{
    // Days since detection, zero when filing precedes detection.
    let days_elapsed = lookback_start(tick, alert_tick);
    let filed_on_time = days_elapsed <= SAR_FILING_WINDOW_DAYS;
    if filed_on_time {
        SarTerms {
            filing_deadline: alert_tick + SAR_FILING_WINDOW_DAYS,
            days_elapsed,
            filed_on_time,
            days_late: 0,
            regulatory_fine: 0,
            filing_status: SarFilingStatus::Filed,
        }
    } else {
        let days_late = days_elapsed - SAR_FILING_WINDOW_DAYS;
        let fine: u128 = LATE_SAR_BASE_FINE as u128 + LATE_SAR_FINE_PER_DAY as u128 * days_late as u128;
        SarTerms {
            filing_deadline: alert_tick + SAR_FILING_WINDOW_DAYS,
            days_elapsed,
            filed_on_time,
            days_late,
            regulatory_fine: fine,
            filing_status: SarFilingStatus::Late,
        }
    }
}

/// A SAR is on time exactly when it is filed no later than its deadline,
/// thirty days after detection.
pub proof fn law_sar_on_time_iff_by_deadline(alert_tick: u64, tick: u64)
    ensures
        sar_on_time(alert_tick, tick) <==> tick <= alert_tick + SAR_FILING_WINDOW_DAYS,
{
}

/// A SAR is fined exactly when it is late.
pub proof fn law_sar_fined_iff_late(alert_tick: u64, tick: u64)
    ensures
        (sar_fine(alert_tick, tick) == 0) <==> sar_on_time(alert_tick, tick),
        sar_fine(alert_tick, tick) >= 0,
{
}

/// Filing later never lowers the fine, and each further day late adds
/// exactly $1,000.
pub proof fn law_sar_fine_grows_with_delay(alert_tick: u64, t1: u64, t2: u64)
    requires
        t1 <= t2,
    ensures
        sar_fine(alert_tick, t1) <= sar_fine(alert_tick, t2),
        !sar_on_time(alert_tick, t1) ==> sar_fine(alert_tick, t2) - sar_fine(alert_tick, t1)
            == LATE_SAR_FINE_PER_DAY * (t2 - t1),
{
}

/// The narrative of a SAR about `customer`, by the alert's type.
pub open spec fn sar_narrative_text(alert_type: Seq<char>, customer: Seq<char>, description: Seq<char>) -> Seq<char> {
    if alert_type == "structuring"@ {
        "Customer "@ + customer + " engaged in potential structuring activity. "@ + description
    } else if alert_type == "velocity"@ {
        "Customer "@ + customer + " exhibited high-velocity transaction patterns. "@ + description
    } else if alert_type == "rapid_movement"@ {
        "Customer "@ + customer + " demonstrated rapid money movement patterns. "@ + description
    } else {
        "Suspicious activity detected for customer "@ + customer + ". Type: "@ + alert_type + ". "@
            + description
    }
}

/// Writes the narrative of a SAR about `customer` from the alert's type
/// and description.
pub fn sar_narrative(alert_type: &str, customer: &str, description: &str) -> (r: String)
    ensures
        r@ == sar_narrative_text(alert_type@, customer@, description@),
{
    if str_eq(alert_type, "structuring") {
        let mut r = String::from_str("Customer ");
        r.append(customer);
        r.append(" engaged in potential structuring activity. ");
        r.append(description);
        r
    } else if str_eq(alert_type, "velocity") {
        let mut r = String::from_str("Customer ");
        r.append(customer);
        r.append(" exhibited high-velocity transaction patterns. ");
        r.append(description);
        r
    } else if str_eq(alert_type, "rapid_movement") {
        let mut r = String::from_str("Customer ");
        r.append(customer);
        r.append(" demonstrated rapid money movement patterns. ");
        r.append(description);
        r
    } else {
        let mut r = String::from_str("Suspicious activity detected for customer ");
        r.append(customer);
        r.append(". Type: ");
        r.append(alert_type);
        r.append(". ");
        r.append(description);
        r
    }
}

/// A SAR narrative ends with the alert's whole description, written as it
/// stands, after an opening that depends on the alert's type and the
/// customer alone: two narratives for the same type and customer differ
/// only in the description they end with.
pub proof fn law_sar_narrative_ends_with_description(
    alert_type: Seq<char>,
    customer: Seq<char>,
    description: Seq<char>,
    other_description: Seq<char>,
)
    ensures
        ({
            let n1 = sar_narrative_text(alert_type, customer, description);
            let n2 = sar_narrative_text(alert_type, customer, other_description);
            &&& n1.len() >= description.len()
            &&& n1.subrange(n1.len() - description.len(), n1.len() as int) == description
            &&& n1.len() - description.len() == n2.len() - other_description.len()
            &&& n1.take(n1.len() - description.len()) == n2.take(
                n2.len() - other_description.len(),
            )
            &&& n1.take(n1.len() - description.len()).len() > customer.len()
        }),
{
    let opening = if alert_type == "structuring"@ {
        "Customer "@ + customer + " engaged in potential structuring activity. "@
    } else if alert_type == "velocity"@ {
        "Customer "@ + customer + " exhibited high-velocity transaction patterns. "@
    } else if alert_type == "rapid_movement"@ {
        "Customer "@ + customer + " demonstrated rapid money movement patterns. "@
    } else {
        "Suspicious activity detected for customer "@ + customer + ". Type: "@ + alert_type + ". "@
    };
    let n1 = sar_narrative_text(alert_type, customer, description);
    let n2 = sar_narrative_text(alert_type, customer, other_description);
    reveal_strlit("Customer ");
    reveal_strlit("Suspicious activity detected for customer ");
    assert(n1 == opening + description);
    assert(n2 == opening + other_description);
    assert(n1.subrange(n1.len() - description.len(), n1.len() as int) =~= description);
    assert(n1.take(n1.len() - description.len()) =~= opening);
    assert(n2.take(n2.len() - other_description.len()) =~= opening);
}

/// The id of a SAR about `customer`: `SAR-customer-draw`.
pub fn sar_id(customer: &str, draw: u64) -> (r: String)
    ensures
        r@ == "SAR"@ + "-"@ + customer@ + "-"@ + decimal(draw as nat),
{
    hyphenated_id("SAR", customer, draw)
}

/// The `related_alerts` text recorded with a SAR: a JSON array whose one
/// element is the alert id, as a JSON string.
pub fn related_alerts_text(alert_id: &str) -> (r: String)
    ensures
        r@ == "[\""@ + json_escape(alert_id@) + "\"]"@,
{
    let mut r = String::from_str("[\"");
    let escaped = json_escape_text(alert_id);
    r.append(escaped.as_str());
    r.append("\"]");
    r
}

} // verus!
