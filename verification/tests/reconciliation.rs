use casp_backend::domain::retail::{ClientAccount, FeePosition};
use casp_backend::domain::WalletBalances;
use casp_backend::ledger::RetailLedger;
use casp_backend::reconciliation::{
    evaluate, obligation_inputs, reconcile, require_customer_purchase, snapshot_or_unavailable,
    ReconciliationError, ReconciliationStatus,
};

fn balances(hot: u64, cold: u64) -> WalletBalances {
    WalletBalances {
        corporate_raw: "500".into(),
        hot_raw: hot.to_string(),
        cold_raw: cold.to_string(),
        evidence_block: Some(1),
    }
}

#[test]
fn classifies_balanced_allocation_warning_and_non_blocking_mismatch() {
    assert_eq!(
        evaluate(&balances(2_000, 8_000), 3_000, 1_000, 6_000, 0)
            .unwrap()
            .status,
        ReconciliationStatus::Balanced
    );
    assert_eq!(
        evaluate(&balances(1_000, 9_000), 3_000, 1_000, 6_000, 0)
            .unwrap()
            .status,
        ReconciliationStatus::Warning
    );
    let mismatch = evaluate(&balances(2_000, 7_999), 3_000, 1_000, 6_000, 0).unwrap();
    assert_eq!(mismatch.status, ReconciliationStatus::Mismatch);
    assert_eq!(mismatch.difference_raw.as_deref(), Some("-1"));
}

fn account(id: &str, available: &str, locked: &str) -> ClientAccount {
    ClientAccount {
        client_id: id.into(),
        wallet_address: "0x0".into(),
        available_raw: available.into(),
        locked_raw: locked.into(),
        inventory_available_raw: "6000".into(),
    }
}

#[test]
fn ledger_figures_are_summed_and_evidence_is_kept() {
    let accounts = vec![account("alice", "1000", "500"), account("bob", "2000", "500")];
    let fee = FeePosition { pending_raw: "0".into() };
    assert_eq!(obligation_inputs(&accounts, &fee).unwrap(), (3_000, 1_000, 6_000, 0));
    let snapshot = reconcile(&balances(2_000, 8_000), &accounts, &fee).unwrap();
    assert_eq!(snapshot.status, ReconciliationStatus::Balanced);
    assert_eq!(snapshot.obligation_total_raw.as_deref(), Some("10000"));
    assert_eq!(snapshot.evidence_block, Some(1));
    assert_eq!(snapshot.policy_version, "casp-custody-reconciliation-v1");
    assert!(matches!(
        obligation_inputs(&vec![], &fee),
        Err(ReconciliationError::Unavailable(_))
    ));
}

#[test]
fn failures_become_unavailable_snapshots() {
    let bad = WalletBalances {
        corporate_raw: "x".into(),
        hot_raw: "1".into(),
        cold_raw: "1".into(),
        evidence_block: Some(3),
    };
    let result = evaluate(&bad, 0, 0, 0, 0);
    assert!(matches!(result, Err(ReconciliationError::Unavailable(_))));
    let snapshot = snapshot_or_unavailable(Err(ReconciliationError::Unavailable("RPC down".into())));
    assert_eq!(snapshot.status, ReconciliationStatus::Unavailable);
    assert_eq!(snapshot.reason, "custody reconciliation is unavailable: RPC down");
    assert_eq!(snapshot.hot_raw, None);
    assert_eq!(snapshot.evidence_block, None);
}

#[test]
fn purchases_wait_while_custody_is_short() {
    let short = evaluate(&balances(2_000_000, 7_999_999), 0, 0, 10_000_000, 0).unwrap();
    assert_eq!(short.status, ReconciliationStatus::Mismatch);
    let reason = short.reason.clone();
    match require_customer_purchase(short) {
        Err(ReconciliationError::Unavailable(message)) => assert_eq!(message, reason),
        _ => panic!("a short custody must refuse purchases"),
    }
    let covered = evaluate(&balances(2_000_000, 8_000_000), 0, 0, 10_000_000, 0).unwrap();
    assert_eq!(
        require_customer_purchase(covered).unwrap().status,
        ReconciliationStatus::Balanced
    );
}

#[test]
fn purchase_is_rejected_before_ledger_change_when_custody_is_short() {
    let mut ledger = RetailLedger::new(
        "0x1111111111111111111111111111111111111111".to_string(),
        "0x2222222222222222222222222222222222222222".to_string(),
        "0x3333333333333333333333333333333333333333".to_string(),
    );
    ledger.activate_inventory(10_000_000).unwrap();
    let snapshot = snapshot_or_unavailable(reconcile(
        &balances(2_000_000, 7_999_999),
        &ledger.accounts(),
        &ledger.fee_position(),
    ));
    assert!(matches!(
        require_customer_purchase(snapshot),
        Err(ReconciliationError::Unavailable(_))
    ));
    assert_eq!(ledger.account("alice").unwrap().available_raw, "0");
}

#[test]
fn unreadable_figures_are_named_in_the_reason() {
    let reason = |hot: &str| match evaluate(
        &WalletBalances {
            corporate_raw: "0".into(),
            hot_raw: hot.into(),
            cold_raw: "0".into(),
            evidence_block: None,
        },
        0,
        0,
        0,
        0,
    ) {
        Err(ReconciliationError::Unavailable(m)) => m,
        other => panic!("unexpected {other:?}"),
    };
    let std_text = |hot: &str| hot.parse::<u64>().unwrap_err().to_string();
    for hot in ["", "+", "-1", "12a", "99999999999999999999", "1x99999999999999999999", "99999999999999999999x"] {
        assert_eq!(reason(hot), format!("invalid numeric reconciliation input: {}", std_text(hot)), "{hot:?}");
    }
    assert_eq!(reason("x"), "invalid numeric reconciliation input: invalid digit found in string");
    let fee = FeePosition { pending_raw: "0".into() };
    match obligation_inputs(&vec![], &fee) {
        Err(ReconciliationError::Unavailable(m)) => assert_eq!(m, "no CASP client positions"),
        other => panic!("unexpected {other:?}"),
    }
    let huge = vec![account("alice", &u64::MAX.to_string(), "0"), account("bob", "1", "0")];
    match obligation_inputs(&huge, &fee) {
        Err(ReconciliationError::Unavailable(m)) => assert_eq!(m, "available total overflow"),
        other => panic!("unexpected {other:?}"),
    }
    match evaluate(&balances(u64::MAX, 1), 0, 0, 0, 0) {
        Err(ReconciliationError::Unavailable(m)) => assert_eq!(m, "custody total overflow"),
        other => panic!("unexpected {other:?}"),
    }
}
