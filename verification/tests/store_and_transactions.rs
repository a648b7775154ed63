use fincrime_core::grouping::group_by_key;
use fincrime_core::ordering::order_by_tick;
use fincrime_core::store_rules::{
    fee_column, flag_from_column, flag_to_column, parse_command_id, recon_resolution_status,
    tick_from_column, tick_to_column, ticks_since_last_txn, uptime_window_ticks,
};
use fincrime_core::transactions::{
    cash_withdrawal_rail, debit_category, generates_transactions, is_payroll_tick, new_counterparty,
    recurring_counterparty, PaymentRail,
};
use fincrime_core::windows::lookback_start;

#[test]
fn tick_columns_round_trip() {
    for t in [0u64, 1, 365, i64::MAX as u64, i64::MAX as u64 + 1, u64::MAX] {
        assert_eq!(tick_to_column(t), t as i64);
        assert_eq!(tick_from_column(tick_to_column(t)), t);
    }
    for v in [0i64, 5, -1, i64::MIN, i64::MAX] {
        assert_eq!(tick_from_column(v), v as u64);
    }
}

#[test]
fn flag_columns() {
    assert_eq!(flag_to_column(true), 1);
    assert_eq!(flag_to_column(false), 0);
    assert!(flag_from_column(1));
    assert!(flag_from_column(-3));
    assert!(!flag_from_column(0));
}

#[test]
fn ticks_since_last_transaction() {
    assert_eq!(ticks_since_last_txn(None, 120), 120);
    assert_eq!(ticks_since_last_txn(Some(100), 120), 20);
    assert_eq!(ticks_since_last_txn(Some(130), 120), 0);
    assert_eq!(ticks_since_last_txn(Some(-1), 120), 0);
}

#[test]
fn fee_columns() {
    for f in ["monthly_fee", "overdraft_fee", "nsf_fee", "atm_fee", "wire_fee"] {
        assert_eq!(fee_column(f), Some(f));
    }
    assert_eq!(fee_column("interest_rate"), None);
    assert_eq!(fee_column("monthly_fee; DROP TABLE x"), None);
}

#[test]
fn command_ids() {
    assert_eq!(parse_command_id("17"), Some(17));
    assert_eq!(parse_command_id("-4"), Some(-4));
    assert_eq!(parse_command_id("abc"), None);
}

#[test]
fn recon_statuses() {
    assert_eq!(recon_resolution_status("write_off"), "written_off");
    assert_eq!(recon_resolution_status("auto_clear"), "resolved");
}

#[test]
fn uptime_window() {
    assert_eq!(uptime_window_ticks(10, 40), 30);
    assert_eq!(uptime_window_ticks(10, 10), 1);
}

#[test]
fn lookbacks() {
    assert_eq!(lookback_start(100, 7), 93);
    assert_eq!(lookback_start(3, 7), 0);
    assert_eq!(lookback_start(30, 30), 0);
}

#[test]
fn transaction_schedule() {
    assert!(!generates_transactions(0));
    assert!(generates_transactions(1));
    assert!(is_payroll_tick(0));
    assert!(is_payroll_tick(28));
    assert!(!is_payroll_tick(15));
}

#[test]
fn rails_and_categories() {
    assert_eq!(cash_withdrawal_rail(), PaymentRail::Ach);
    assert_eq!(PaymentRail::Card.rail_id(), "card");
    assert_eq!(PaymentRail::Ach.rail_id(), "ACH");
    assert_eq!(PaymentRail::Wire.rail_id(), "wire");
    assert_eq!(PaymentRail::Rtp.rail_id(), "RTP");
    assert_eq!(PaymentRail::Card.settlement_status(), "pending_authorization");
    assert_eq!(PaymentRail::Rtp.settlement_status(), "settled");
    assert!(!PaymentRail::Card.posts_immediately());
    assert!(PaymentRail::Ach.posts_immediately());
    assert_eq!(debit_category(true), "cash_withdrawal");
    assert_eq!(debit_category(false), "purchase");
}

#[test]
fn counterparties() {
    assert_eq!(recurring_counterparty("cust-9", 3), "merchant-cust-9-3");
    assert_eq!(new_counterparty(9876), "new-merchant-9876");
}

#[test]
fn grouping_keeps_first_appearance_order() {
    let keys: Vec<String> = ["b", "a", "b", "c", "a"].iter().map(|s| s.to_string()).collect();
    let g = group_by_key(&keys);
    assert_eq!(g.len(), 3);
    assert_eq!((g[0].key.as_str(), g[0].members.clone()), ("b", vec![0, 2]));
    assert_eq!((g[1].key.as_str(), g[1].members.clone()), ("a", vec![1, 4]));
    assert_eq!((g[2].key.as_str(), g[2].members.clone()), ("c", vec![3]));
    assert!(group_by_key(&Vec::new()).is_empty());
}

#[test]
fn ordering_is_stable_by_tick() {
    let ticks = vec![5u64, 3, 5, 1, 3];
    assert_eq!(order_by_tick(&ticks, &vec![0, 1, 2, 3, 4]), vec![3, 1, 4, 0, 2]);
    assert_eq!(order_by_tick(&ticks, &vec![0, 2]), vec![0, 2]);
    assert!(order_by_tick(&ticks, &vec![]).is_empty());
}
