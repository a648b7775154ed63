use fincrime_core::monitoring::{
    ctr_id, ctr_terms, direction_of, monitoring_steps, rapid_movement_pairs, related_alerts_text,
    sar_id, sar_narrative, sar_terms, structuring_candidates, velocity_candidates, AlertKind,
    SarFilingStatus, TxnDirection, TxnFacts,
};

fn ids(v: &[&str]) -> Vec<String> {
    v.iter().map(|s| s.to_string()).collect()
}

#[test]
fn schedule_skips_tick_zero() {
    let s = monitoring_steps(0);
    assert!(!s.detect_structuring && !s.detect_velocity && !s.file_ctrs);
    assert!(!s.detect_rapid_movement && !s.compute_metrics && !s.file_sars && !s.compute_sar_metrics);
}

#[test]
fn schedule_weekly_and_monthly() {
    let s = monitoring_steps(7);
    assert!(s.detect_structuring && s.compute_metrics && s.file_sars && !s.compute_sar_metrics);
    let s = monitoring_steps(30);
    assert!(!s.compute_metrics && !s.file_sars && s.compute_sar_metrics);
    let s = monitoring_steps(210);
    assert!(s.compute_metrics && s.file_sars && s.compute_sar_metrics);
    let s = monitoring_steps(5);
    assert!(s.detect_velocity && s.file_ctrs && s.detect_rapid_movement && !s.compute_metrics);
}

#[test]
fn structuring_needs_three_transactions() {
    let customers = ids(&["c1", "c2", "c1", "c3", "c1", "c2", "c2"]);
    let flagged = structuring_candidates(&customers);
    assert_eq!(flagged.len(), 2);
    assert_eq!(flagged[0].key, "c1");
    assert_eq!(flagged[0].members, vec![0, 2, 4]);
    assert_eq!(flagged[1].key, "c2");
    assert_eq!(flagged[1].members, vec![1, 5, 6]);
}

#[test]
fn structuring_two_transactions_not_flagged() {
    let customers = ids(&["c1", "c1", "c2"]);
    assert!(structuring_candidates(&customers).is_empty());
}

#[test]
fn velocity_needs_more_than_ten() {
    let mut customers = ids(&["a"; 10]);
    customers.extend(ids(&["b"; 11]));
    let flagged = velocity_candidates(&customers);
    assert_eq!(flagged.len(), 1);
    assert_eq!(flagged[0].key, "b");
    assert_eq!(flagged[0].members.len(), 11);
}

fn fact(account: &str, tick: u64, txn_type: &str, large: bool) -> TxnFacts {
    TxnFacts {
        account_id: account.to_string(),
        tick,
        direction: direction_of(txn_type),
        large_movement: large,
    }
}

#[test]
fn rapid_movement_deposit_then_withdrawal() {
    let facts = vec![
        fact("acct-1", 5, "debit", true),
        fact("acct-1", 4, "credit", true),
        fact("acct-2", 4, "credit", true),
        fact("acct-2", 5, "debit", false),
    ];
    // acct-1 ordered by tick: credit@4 (index 1), debit@5 (index 0).
    assert_eq!(rapid_movement_pairs(&facts), vec![(1, 0)]);
}

#[test]
fn rapid_movement_one_alert_per_account() {
    let facts = vec![
        fact("a", 1, "credit", true),
        fact("a", 1, "debit", true),
        fact("a", 2, "credit", true),
        fact("a", 2, "debit", true),
    ];
    assert_eq!(rapid_movement_pairs(&facts), vec![(0, 1)]);
}

#[test]
fn rapid_movement_too_late_is_ignored() {
    let facts = vec![fact("a", 1, "credit", true), fact("a", 3, "debit", true)];
    assert!(rapid_movement_pairs(&facts).is_empty());
}

#[test]
fn rapid_movement_stable_order_for_equal_ticks() {
    // Same tick: the debit listed first stays first, so no credit->debit pair.
    let facts = vec![fact("a", 3, "debit", true), fact("a", 3, "credit", true)];
    assert!(rapid_movement_pairs(&facts).is_empty());
}

#[test]
fn direction_reads_txn_type() {
    assert_eq!(direction_of("credit"), TxnDirection::Credit);
    assert_eq!(direction_of("debit"), TxnDirection::Debit);
    assert_eq!(direction_of("Credit"), TxnDirection::Other);
}

#[test]
fn ctr_terms_deadline_and_type() {
    let t = ctr_terms(100, TxnDirection::Credit);
    assert_eq!(t.filing_deadline, 115);
    assert_eq!(t.transaction_type, "cash_deposit");
    assert!(t.filed_on_time && t.auto_filed);
    assert_eq!(ctr_terms(3, TxnDirection::Debit).transaction_type, "cash_withdrawal");
    assert_eq!(ctr_terms(3, TxnDirection::Other).transaction_type, "cash_withdrawal");
}

#[test]
fn sar_on_time_has_no_fine() {
    let t = sar_terms(10, 40);
    assert_eq!(t.filing_deadline, 40);
    assert_eq!(t.days_elapsed, 30);
    assert!(t.filed_on_time);
    assert_eq!(t.days_late, 0);
    assert_eq!(t.regulatory_fine, 0);
    assert_eq!(t.filing_status.as_str(), "filed");
}

#[test]
fn sar_late_fine_formula() {
    let t = sar_terms(10, 45);
    assert!(!t.filed_on_time);
    assert_eq!(t.days_late, 5);
    assert_eq!(t.regulatory_fine, 30000);
    assert_eq!(t.filing_status, SarFilingStatus::Late);
    assert_eq!(t.filing_status.as_str(), "late");
}

#[test]
fn sar_filed_before_alert_counts_zero_days() {
    let t = sar_terms(50, 20);
    assert_eq!(t.days_elapsed, 0);
    assert!(t.filed_on_time);
}

#[test]
fn sar_narratives_by_type() {
    assert_eq!(
        sar_narrative("structuring", "C1", "desc."),
        "Customer C1 engaged in potential structuring activity. desc."
    );
    assert_eq!(
        sar_narrative("velocity", "C1", "d"),
        "Customer C1 exhibited high-velocity transaction patterns. d"
    );
    assert_eq!(
        sar_narrative("rapid_movement", "C1", "d"),
        "Customer C1 demonstrated rapid money movement patterns. d"
    );
    assert_eq!(
        sar_narrative("sanctions", "C1", "d"),
        "Suspicious activity detected for customer C1. Type: sanctions. d"
    );
}

#[test]
fn identifiers() {
    assert_eq!(AlertKind::Structuring.alert_id("cust-7", 4242), "STRUCT-cust-7-4242");
    assert_eq!(AlertKind::Velocity.alert_id("c", 0), "VEL-c-0");
    assert_eq!(AlertKind::RapidMovement.alert_id("c", 99999), "RAPID-c-99999");
    assert_eq!(ctr_id("txn-1", 12), "CTR-txn-1-12");
    assert_eq!(sar_id("cust-1", 123456), "SAR-cust-1-123456");
    assert_eq!(related_alerts_text("STRUCT-c-1"), "[\"STRUCT-c-1\"]");
}

#[test]
fn related_alerts_text_escapes_the_id() {
    assert_eq!(related_alerts_text("A\"1"), "[\"A\\\"1\"]");
    assert_eq!(related_alerts_text("a\\b"), "[\"a\\\\b\"]");
    assert_eq!(related_alerts_text("x\ny\u{1}"), "[\"x\\ny\\u0001\"]");
    for id in ["STRUCT-c-1", "A\"1", "a\\b", "tab\there", "ctl\u{1f}\u{8}\u{c}\r", "é—ü"] {
        let text = related_alerts_text(id);
        let parsed: Vec<String> = serde_json::from_str(&text).unwrap();
        assert_eq!(parsed, vec![id.to_string()]);
        assert_eq!(text, serde_json::to_string(&[id]).unwrap());
    }
}

#[test]
fn alert_kind_constants() {
    assert_eq!(AlertKind::Structuring.rule_id(), "STRUCT_9K");
    assert_eq!(AlertKind::Velocity.rule_id(), "VEL_50K_7D");
    assert_eq!(AlertKind::RapidMovement.rule_id(), "RAPID_MOVE");
    assert_eq!(AlertKind::Structuring.alert_type(), "structuring");
    assert_eq!(AlertKind::RapidMovement.alert_type(), "rapid_movement");
    assert_eq!(AlertKind::Structuring.alert_score(), 90);
    assert_eq!(AlertKind::Velocity.alert_score(), 75);
    assert_eq!(AlertKind::RapidMovement.alert_score(), 80);
}

#[test]
fn sar_fine_grows_by_a_thousand_per_day() {
    let a = sar_terms(0, 31);
    let b = sar_terms(0, 32);
    assert_eq!(a.regulatory_fine, 26000);
    assert_eq!(b.regulatory_fine - a.regulatory_fine, 1000);
    assert!(sar_terms(0, 30).regulatory_fine <= a.regulatory_fine);
}
