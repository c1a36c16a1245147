use casp_backend::ledger::RetailLedger;
use casp_backend::retail_application::{RetailError, TransferPosting};

const CLIENT: &str = "alice";

fn store() -> RetailLedger {
    RetailLedger::new(
        "0x1111111111111111111111111111111111111111".to_string(),
        "0x2222222222222222222222222222222222222222".to_string(),
        "0x3333333333333333333333333333333333333333".to_string(),
    )
}

fn posting<'a>(id: &'a str, sender: &'a str, recipient: &'a str, gross_raw: u64) -> TransferPosting<'a> {
    TransferPosting {
        id,
        sender,
        recipient,
        gross_raw,
        purpose: "private_transfer",
        contract: "x",
        chain: 1,
    }
}

fn check_purchase_is_atomic_and_idempotent() {
    let mut s = store();
    s.activate_inventory(10_000_000).unwrap();
    let a = s.purchase("p1", CLIENT, 100, "0x1", 31337, 1_000).unwrap();
    let b = s.purchase("p1", CLIENT, 100, "0x1", 31337, 2_000).unwrap();
    assert_eq!(a.operation_id, b.operation_id);
    let account = s.account(CLIENT).unwrap();
    assert_eq!(account.available_raw, "1000000");
    assert_eq!(account.inventory_available_raw, "9000000");
    assert_eq!(s.records(CLIENT).len(), 1)
}

#[test]
fn retail_sqlite_purchase_is_atomic_and_idempotent() {
    check_purchase_is_atomic_and_idempotent();
}

#[test]
fn retail_purchase_is_atomic_and_idempotent() {
    check_purchase_is_atomic_and_idempotent();
}

#[test]
fn configured_exchange_rate_is_used_by_purchase_sale_and_record() {
    let mut s = store();
    s.activate_inventory(10_000_000).unwrap();
    let rate = s.set_exchange_rate(125, 500).unwrap();
    assert_eq!(rate.usd_minor_per_rusd, 125);

    let purchase = s.purchase("rate-p", CLIENT, 250, "0x1", 31337, 1_000).unwrap();
    assert_eq!(purchase.quantity_raw, "2000000");
    let sale = s.sale("rate-s", CLIENT, 1_000_000, "0x1", 31337, 2_000).unwrap();
    assert_eq!(sale.fiat_amount_minor, "125");

    let records = s.records(CLIENT);
    assert!(records.iter().all(|record| {
        record.price_method == "casp_admin_configured_rate" && record.unit_price_minor.as_deref() == Some("125")
    }));
}

fn check_redemption_locks_then_removes_position() {
    let mut s = store();
    s.activate_inventory(10_000_000).unwrap();
    s.purchase("p1", CLIENT, 100, "0x1", 31337, 1_000).unwrap();
    s.begin_redemption("r1", CLIENT, 500_000, "0x1", 31337, "hot", 2_000).unwrap();
    assert_eq!(s.account(CLIENT).unwrap().locked_raw, "500000");
    s.complete_redemption("r1", Some("0xtx".to_string()), 3_000).unwrap();
    let a = s.account(CLIENT).unwrap();
    assert_eq!(a.available_raw, "500000");
    assert_eq!(a.locked_raw, "0");
    assert_eq!(s.records(CLIENT).len(), 3)
}

#[test]
fn retail_sqlite_redemption_locks_then_removes_position() {
    check_redemption_locks_then_removes_position();
}

#[test]
fn retail_redemption_locks_then_removes_position() {
    check_redemption_locks_then_removes_position();
}

fn check_sale_changes_only_client_and_unallocated_inventory() {
    let mut s = store();
    s.activate_inventory(2_000_000).unwrap();
    s.purchase("p", CLIENT, 100, "x", 1, 1_000).unwrap();
    s.sale("s", CLIENT, 400_000, "x", 1, 2_000).unwrap();
    let account = s.account(CLIENT).unwrap();
    assert_eq!(account.available_raw, "600000");
    assert_eq!(account.inventory_available_raw, "1400000");
    assert_eq!(s.account("bob").unwrap().available_raw, "0");
    assert_eq!(s.accounts().len(), 3);
    assert_eq!(s.records(CLIENT).len(), 2)
}

#[test]
fn retail_sqlite_sale_changes_only_client_and_unallocated_inventory() {
    check_sale_changes_only_client_and_unallocated_inventory();
}

#[test]
fn retail_sale_changes_only_client_and_unallocated_inventory() {
    check_sale_changes_only_client_and_unallocated_inventory();
}

fn check_rejects_purchase_above_inventory() {
    let mut s = store();
    s.activate_inventory(1).unwrap();
    assert!(matches!(s.purchase("p", CLIENT, 1, "x", 1, 1_000), Err(RetailError::InsufficientInventory)))
}

#[test]
fn retail_sqlite_rejects_purchase_above_inventory() {
    check_rejects_purchase_above_inventory();
}

#[test]
fn retail_rejects_purchase_above_inventory() {
    check_rejects_purchase_above_inventory();
}

#[test]
fn replenishment_posting_increases_inventory_exactly_once() {
    let mut store = store();
    store.activate_inventory(1_000_000).unwrap();
    store.add_inventory_once("inventory-1", "cold", 800_000).unwrap();
    store.add_inventory_once("inventory-1", "cold", 800_000).unwrap();
    store.add_inventory_once("inventory-1", "hot", 200_000).unwrap();
    assert_eq!(store.account("alice").unwrap().inventory_available_raw, "2000000");
    assert!(matches!(
        store.add_inventory_once("inventory-1", "hot", 200_001),
        Err(RetailError::IdempotencyConflict)
    ));
}

#[test]
fn extended_record_keeps_execution_metadata_and_append_only_amendment() {
    let mut store = store();
    store.activate_inventory(10_000_000).unwrap();
    store.purchase("purchase-record", CLIENT, 100, "0xasset", 31337, 1_000).unwrap();
    let record = store.records(CLIENT).remove(0);
    assert_eq!(record.price_method, "casp_admin_configured_rate");
    assert_eq!(record.unit_price_minor.as_deref(), Some("100"));
    assert_eq!(record.gross_quantity_raw, "1000000");
    assert_eq!(record.net_quantity_raw, "1000000");
    assert_eq!(record.instruction_channel, "demo_web");
    assert!(record.settled_at_unix_ms.is_some());

    let amendment = store
        .amend_record(&record.record_id, "correction", "demo classification correction", 2_000)
        .unwrap();
    assert_eq!(amendment.original_record_id, record.record_id);
    assert_eq!(store.records(CLIENT).len(), 1);
    assert_eq!(store.amendments(), vec![amendment]);
}

fn check_transfer_is_atomic_idempotent_and_uses_exact_point_one_percent_fee() {
    let mut s = store();
    s.activate_inventory(10_000_000).unwrap();
    s.purchase("purchase", CLIENT, 100, "x", 1, 1_000).unwrap();

    let first = s.transfer(posting("transfer", CLIENT, "bob", 1_000_000), 2_000).unwrap();
    let replay = s.transfer(posting("transfer", CLIENT, "bob", 1_000_000), 3_000).unwrap();

    assert_eq!(first, replay);
    assert_eq!(first.fee_raw, "1000");
    assert_eq!(first.net_raw, "999000");
    assert_eq!(s.account(CLIENT).unwrap().available_raw, "0");
    assert_eq!(s.account("bob").unwrap().available_raw, "999000");
    assert_eq!(s.fee_position().pending_raw, "1000");
    assert_eq!(s.records(CLIENT).len(), 2);
    assert_eq!(s.records("bob").len(), 1);
}

#[test]
fn retail_sqlite_transfer_is_atomic_idempotent_and_uses_exact_point_one_percent_fee() {
    check_transfer_is_atomic_idempotent_and_uses_exact_point_one_percent_fee();
}

#[test]
fn retail_transfer_is_atomic_idempotent_and_uses_exact_point_one_percent_fee() {
    check_transfer_is_atomic_idempotent_and_uses_exact_point_one_percent_fee();
}

fn check_failed_transfer_does_not_write_partial_balances_or_fee() {
    let mut s = store();
    s.activate_inventory(10_000_000).unwrap();
    assert!(matches!(
        s.transfer(posting("transfer", CLIENT, "bob", 1_000_000), 1_000),
        Err(RetailError::InsufficientBalance)
    ));
    assert_eq!(s.account(CLIENT).unwrap().available_raw, "0");
    assert_eq!(s.account("bob").unwrap().available_raw, "0");
    assert_eq!(s.fee_position().pending_raw, "0");
    assert!(s.records(CLIENT).is_empty());
}

#[test]
fn retail_sqlite_failed_transfer_does_not_write_partial_balances_or_fee() {
    check_failed_transfer_does_not_write_partial_balances_or_fee();
}

#[test]
fn retail_failed_transfer_does_not_write_partial_balances_or_fee() {
    check_failed_transfer_does_not_write_partial_balances_or_fee();
}

fn check_transfer_id_cannot_be_reused_with_different_parameters() {
    let mut s = store();
    s.activate_inventory(10_000_000).unwrap();
    s.purchase("purchase", CLIENT, 100, "x", 1, 1_000).unwrap();
    s.transfer(posting("transfer", CLIENT, "bob", 500_000), 2_000).unwrap();
    assert!(matches!(
        s.transfer(posting("transfer", CLIENT, "carol", 500_000), 3_000),
        Err(RetailError::IdempotencyConflict)
    ));
}

#[test]
fn retail_sqlite_transfer_id_cannot_be_reused_with_different_parameters() {
    check_transfer_id_cannot_be_reused_with_different_parameters();
}

#[test]
fn retail_transfer_id_cannot_be_reused_with_different_parameters() {
    check_transfer_id_cannot_be_reused_with_different_parameters();
}

#[test]
fn purchase_with_the_same_id_but_other_amount_is_a_conflict() {
    let mut s = store();
    s.activate_inventory(10_000_000).unwrap();
    s.purchase("p1", CLIENT, 100, "x", 1, 1_000).unwrap();
    assert!(matches!(s.purchase("p1", CLIENT, 200, "x", 1, 2_000), Err(RetailError::IdempotencyConflict)));
    assert_eq!(s.account(CLIENT).unwrap().available_raw, "1000000");
}

#[test]
fn purchase_below_the_rate_precision_is_refused() {
    let mut s = store();
    s.activate_inventory(10_000_000).unwrap();
    s.set_exchange_rate(2_000_000, 1).unwrap();
    assert!(matches!(
        s.purchase("tiny", CLIENT, 1, "x", 1, 1_000),
        Err(RetailError::Invalid(m)) if m == "amount is below the configured exchange-rate precision"
    ));
    assert!(matches!(
        s.purchase("huge", CLIENT, u64::MAX, "x", 1, 1_000),
        Err(RetailError::Invalid(m)) if m == "amount is too large"
    ));
    assert!(matches!(
        s.activate_inventory(u64::MAX),
        Err(RetailError::Invalid(m)) if m == "amount exceeds demo database range"
    ));
}

#[test]
fn exchange_rate_starts_at_one_dollar() {
    let s = store();
    let rate = s.exchange_rate();
    assert_eq!(rate.usd_minor_per_rusd, 100);
    assert_eq!(rate.methodology, "casp-admin-configured-rate-v1");
}

#[test]
fn sale_without_balance_is_refused() {
    let mut s = store();
    s.activate_inventory(10_000_000).unwrap();
    assert!(matches!(s.sale("s", "bob", 10_000, "x", 1, 1_000), Err(RetailError::InsufficientBalance)));
}

#[test]
fn issuer_failure_marks_redemption_for_retry_and_notes_the_record() {
    let mut s = store();
    s.activate_inventory(10_000_000).unwrap();
    s.purchase("p1", CLIENT, 100, "x", 1, 1_000).unwrap();
    s.begin_redemption("r1", CLIENT, 500_000, "x", 1, "hot", 2_000).unwrap();
    s.fail_redemption("r1", "issuer offline", 3_000);
    let again = s.begin_redemption("r1", CLIENT, 500_000, "x", 1, "hot", 4_000).unwrap();
    assert_eq!(again.status, "issuer_retry_required");
    assert_eq!(again.last_error.as_deref(), Some("issuer offline"));
    let failed: Vec<_> = s.records(CLIENT).into_iter().filter(|r| r.operation_id == "r1").collect();
    assert_eq!(failed.len(), 1);
    assert_eq!(failed[0].failed_at_unix_ms, Some(3_000));
    assert_eq!(failed[0].rejection_reason.as_deref(), Some("issuer offline"));
    assert_eq!(s.account(CLIENT).unwrap().locked_raw, "500000");
}

#[test]
fn completing_an_unknown_redemption_is_a_storage_fault() {
    let mut s = store();
    assert!(matches!(s.complete_redemption("nope", None, 1), Err(RetailError::Storage(_))));
}

#[test]
fn records_are_listed_newest_first() {
    let mut s = store();
    s.activate_inventory(10_000_000).unwrap();
    s.purchase("first", CLIENT, 100, "x", 1, 1_000).unwrap();
    s.purchase("second", CLIENT, 100, "x", 1, 5_000).unwrap();
    let records = s.all_records();
    assert_eq!(records.len(), 2);
    assert_eq!(records[0].operation_id, "second");
    assert_eq!(records[1].operation_id, "first");
    assert_eq!(records[1].record_id, "record-0");
    assert_eq!(records[0].retention_until_unix_ms, 5_000 + 157_680_000_000);
}

#[test]
fn amending_an_unknown_record_is_refused() {
    let mut s = store();
    assert!(matches!(s.amend_record("record-9", "reversal", "why", 1), Err(RetailError::Invalid(_))));
    assert!(s.amendments().is_empty());
}

#[test]
fn inventory_activates_once() {
    let mut s = store();
    s.activate_inventory(5_000_000).unwrap();
    s.activate_inventory(9_000_000).unwrap();
    assert_eq!(s.account(CLIENT).unwrap().inventory_available_raw, "5000000");
    assert!(matches!(s.activate_inventory(u64::MAX), Err(RetailError::Invalid(_))));
}

#[test]
fn replenishment_before_activation_is_recorded_but_not_added() {
    let mut s = store();
    s.add_inventory_once("early", "cold", 700).unwrap();
    s.activate_inventory(1_000).unwrap();
    assert_eq!(s.account(CLIENT).unwrap().inventory_available_raw, "1000");
    s.add_inventory_once("early", "cold", 700).unwrap();
    assert_eq!(s.account(CLIENT).unwrap().inventory_available_raw, "1000");
}

#[test]
fn wallet_addresses_resolve_to_their_clients() {
    let s = store();
    assert_eq!(
        s.client_id_by_wallet("0x2222222222222222222222222222222222222222").as_deref(),
        Some("bob")
    );
    assert_eq!(s.client_id_by_wallet("0x9999999999999999999999999999999999999999"), None);
    assert!(s.has_client("carol"));
    assert!(!s.has_client("dave"));
}

#[test]
fn unknown_client_account_is_a_storage_fault() {
    let s = store();
    assert!(matches!(s.account("dave"), Err(RetailError::Storage(_))));
}
