use casp_backend::application::{bootstrap_status_after, bootstrap_step, BootstrapError, BootstrapStep};
use casp_backend::domain::BootstrapStatus;
use casp_backend::inventory::{InventoryError, InventoryStatus};
use casp_backend::domain::WalletBalances;
use casp_backend::ledger::RetailLedger;
use casp_backend::reconciliation::{
    reconcile, ReconciliationError, ReconciliationSnapshot, ReconciliationStatus,
};
use casp_backend::registers::{BootstrapRegister, InventoryRegister, ReconciliationRegister};

fn address(last: u8) -> String {
    format!("0x{:040x}", last)
}

#[test]
fn persists_one_idempotent_bootstrap_and_progress() {
    let mut s = BootstrapRegister::new();
    let a = s.create("boot-1", &address(1), &address(2), &address(3), 10);
    let b = s.create("boot-2", &address(9), &address(8), &address(7), 20);
    assert_eq!(a.operation_id, b.operation_id);
    assert_eq!(
        s.advance(BootstrapStatus::FiatSent, None, None, None, 30)
            .unwrap()
            .status,
        BootstrapStatus::FiatSent
    );
}

#[test]
fn bootstrap_keeps_its_purchase_and_first_wallets() {
    let mut s = BootstrapRegister::new();
    let a = s.create("boot-1", &address(1), &address(2), &address(3), 10);
    assert_eq!(a.status, BootstrapStatus::Created);
    assert_eq!(a.amount_usd_minor, "1000000");
    assert_eq!(a.token_amount_raw, "10000000000");
    assert_eq!(a.hot_target_raw, "2000000000");
    assert_eq!(a.cold_target_raw, "8000000000");
    assert_eq!(a.corporate_address, address(1));
    let b = s.create("boot-2", &address(9), &address(8), &address(7), 20);
    assert_eq!(b.corporate_address, address(1));
    assert_eq!(b.created_at_unix_ms, 10);
}

#[test]
fn bootstrap_advance_keeps_hashes_not_given_anew() {
    let mut s = BootstrapRegister::new();
    assert!(matches!(
        s.advance(BootstrapStatus::FiatSent, None, None, None, 1),
        Err(BootstrapError::NotStarted)
    ));
    s.create("boot", &address(1), &address(2), &address(3), 10);
    let issued = s
        .advance(BootstrapStatus::TokensIssued, Some("0xissuer"), None, None, 11)
        .unwrap();
    assert_eq!(issued.issuer_transaction_hash.as_deref(), Some("0xissuer"));
    s.fail("issuer down", 12);
    let failed = s.get().unwrap();
    assert_eq!(failed.status, BootstrapStatus::Failed);
    assert_eq!(failed.last_error.as_deref(), Some("issuer down"));
    assert_eq!(failed.issuer_transaction_hash.as_deref(), Some("0xissuer"));
    let done = s
        .advance(BootstrapStatus::Distributed, None, Some("0xcold"), Some("0xhot"), 13)
        .unwrap();
    assert_eq!(done.issuer_transaction_hash.as_deref(), Some("0xissuer"));
    assert_eq!(done.cold_transaction_hash.as_deref(), Some("0xcold"));
    assert_eq!(done.hot_transaction_hash.as_deref(), Some("0xhot"));
    assert_eq!(done.last_error, None);
    assert_eq!(done.updated_at_unix_ms, 13);
}

#[test]
fn persists_idempotent_request_and_rejects_changed_amount() {
    let mut store = InventoryRegister::new();
    let one = store.create("op", 100, 1).unwrap();
    assert_eq!(one.hot_increment_raw, "200000");
    assert_eq!(store.create("op", 100, 2).unwrap().operation_id, "op");
    assert!(matches!(
        store.create("op", 101, 3),
        Err(InventoryError::IdempotencyConflict)
    ));
}

#[test]
fn replenishment_records_targets_progress_and_failure() {
    let mut store = InventoryRegister::new();
    let one = store.create("op", 100, 1).unwrap();
    assert_eq!(one.token_amount_raw, "1000000");
    assert_eq!(one.cold_increment_raw, "800000");
    let targeted = store.targets("op", 2_200_000, 8_800_000, 2).unwrap();
    assert_eq!(targeted.status, InventoryStatus::TargetsRecorded);
    assert_eq!(targeted.hot_target_raw.as_deref(), Some("2200000"));
    assert_eq!(targeted.cold_target_raw.as_deref(), Some("8800000"));
    store.fail("op", "rpc down", 3);
    let failed = store.get("op").unwrap();
    assert_eq!(failed.status, InventoryStatus::TargetsRecorded);
    assert_eq!(failed.last_error.as_deref(), Some("rpc down"));
    let issued = store
        .advance("op", InventoryStatus::TokensIssued, Some("0xissuer"), None, None, 4)
        .unwrap();
    assert_eq!(issued.last_error, None);
    assert_eq!(issued.hot_target_raw.as_deref(), Some("2200000"));
    assert!(matches!(
        store.advance("missing", InventoryStatus::TokensIssued, None, None, None, 5),
        Err(InventoryError::Storage(_))
    ));
}

#[test]
fn replenishments_are_listed_newest_first() {
    let mut store = InventoryRegister::new();
    store.create("old", 100, 1).unwrap();
    store.create("new", 200, 5).unwrap();
    store.create("mid", 300, 3).unwrap();
    let ids: Vec<String> = store.list().into_iter().map(|o| o.operation_id).collect();
    assert_eq!(ids, vec!["new", "mid", "old"]);
}

fn snapshot(hot: &str, difference: &str) -> ReconciliationSnapshot {
    ReconciliationSnapshot {
        status: ReconciliationStatus::Balanced,
        hot_raw: Some(hot.to_string()),
        cold_raw: Some("8000000".to_string()),
        corporate_raw: None,
        customer_available_raw: Some("0".to_string()),
        customer_locked_raw: Some("0".to_string()),
        inventory_available_raw: Some("10000000".to_string()),
        pending_fee_raw: Some("0".to_string()),
        custody_total_raw: Some("10000000".to_string()),
        obligation_total_raw: Some("10000000".to_string()),
        difference_raw: Some(difference.to_string()),
        evidence_block: Some(7),
        reason: "custody matches obligations".to_string(),
        checked_at_unix_ms: 42,
        policy_version: "casp-custody-reconciliation-v1".to_string(),
    }
}

#[test]
fn reconciliation_register_reads_back_the_latest_snapshot_in_canonical_text() {
    let mut register = ReconciliationRegister::new();
    assert!(register.latest().is_none());
    register.append(&snapshot("2000000", "0")).unwrap();
    register.append(&snapshot("+0002000001", "-1")).unwrap();
    let latest = register.latest().unwrap();
    assert_eq!(latest.hot_raw.as_deref(), Some("2000001"));
    assert_eq!(latest.difference_raw.as_deref(), Some("-1"));
    assert_eq!(latest.corporate_raw, None);
    assert_eq!(latest.evidence_block, Some(7));
    assert_eq!(latest.status, ReconciliationStatus::Balanced);
}

#[test]
fn reconciliation_register_refuses_amounts_that_are_not_integers() {
    let mut register = ReconciliationRegister::new();
    register.append(&snapshot("2000000", "0")).unwrap();
    assert!(matches!(
        register.append(&snapshot("2.5", "0")),
        Err(ReconciliationError::Storage(m)) if m == "invalid digit found in string"
    ));
    assert!(matches!(
        register.append(&snapshot("1", "99999999999999999999")),
        Err(ReconciliationError::Storage(m)) if m == "number too large to fit in target type"
    ));
    for (hot, difference) in [
        ("", "0"),
        ("-", "0"),
        ("+", "0"),
        ("0", "-9223372036854775809"),
        ("0", "-9223372036854775808x"),
        ("9223372036854775808", "0"),
        ("-12a", "0"),
    ] {
        let bad = if hot.parse::<i64>().is_err() { hot } else { difference };
        let expected = bad.parse::<i64>().unwrap_err().to_string();
        match register.append(&snapshot(hot, difference)) {
            Err(ReconciliationError::Storage(m)) => assert_eq!(m, expected, "{bad:?}"),
            other => panic!("unexpected {other:?}"),
        }
    }
    register.append(&snapshot("0", "-9223372036854775808")).unwrap();
    assert_eq!(register.latest().unwrap().difference_raw.as_deref(), Some("-9223372036854775808"));
}

/// Runs the bootstrap's steps until it is finished, counting the outside
/// actions that were taken.
fn run_bootstrap(register: &mut BootstrapRegister, now: u64) -> usize {
    let mut actions = 0;
    let mut operation = register.get().unwrap();
    loop {
        let step = bootstrap_step(operation.status);
        if step == BootstrapStep::Finished {
            return actions;
        }
        actions += 1;
        let issuer = if step == BootstrapStep::SettleIssuerOrder { Some("0xissuer") } else { None };
        let cold = if step == BootstrapStep::DistributeCold { Some("0xcold") } else { None };
        operation = register.advance(bootstrap_status_after(step), issuer, cold, None, now).unwrap();
    }
}

#[test]
fn bootstrap_runs_its_purchase_and_distribution_only_once() {
    let mut register = BootstrapRegister::new();
    register.create("boot", &address(1), &address(2), &address(3), 1);
    assert_eq!(run_bootstrap(&mut register, 2), 4);
    let done = register.get().unwrap();
    assert_eq!(done.status, BootstrapStatus::Distributed);
    assert_eq!(done.issuer_transaction_hash.as_deref(), Some("0xissuer"));
    assert_eq!(done.cold_transaction_hash.as_deref(), Some("0xcold"));
    register.create("other", &address(4), &address(5), &address(6), 3);
    assert_eq!(run_bootstrap(&mut register, 4), 0);
}

#[test]
fn persists_unavailable_evidence_when_chain_read_fails() {
    let mut register = ReconciliationRegister::new();
    let snapshot = register
        .keep_check(Err(ReconciliationError::Unavailable("rpc down".into())))
        .unwrap();
    assert_eq!(snapshot.status, ReconciliationStatus::Unavailable);
    let latest = register.latest().unwrap();
    assert_eq!(latest.status, ReconciliationStatus::Unavailable);
    assert_eq!(latest.reason, "custody reconciliation is unavailable: rpc down");
    assert_eq!(latest.hot_raw, None);
}

#[test]
fn records_drift_and_recovery_after_wallet_correction() {
    let mut ledger = RetailLedger::new(address(11), address(12), address(13));
    ledger.activate_inventory(10_000_000).unwrap();
    let mut register = ReconciliationRegister::new();
    let wallet = |cold: u64| WalletBalances {
        corporate_raw: "0".into(),
        hot_raw: "2000000".into(),
        cold_raw: cold.to_string(),
        evidence_block: Some(7),
    };
    let drift = register
        .keep_check(reconcile(&wallet(7_999_999), &ledger.accounts(), &ledger.fee_position()))
        .unwrap();
    assert_eq!(drift.status, ReconciliationStatus::Mismatch);
    let recovered = register
        .keep_check(reconcile(&wallet(8_000_000), &ledger.accounts(), &ledger.fee_position()))
        .unwrap();
    assert_eq!(recovered.status, ReconciliationStatus::Balanced);
    let latest = register.latest().unwrap();
    assert_eq!(latest.status, ReconciliationStatus::Balanced);
    assert_eq!(latest.evidence_block, Some(7));
}
