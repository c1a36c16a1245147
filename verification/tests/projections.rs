use casp_backend::calendar::utc_date;
use casp_backend::ledger::RetailLedger;
use casp_backend::reporting::{ReportingService, ReportingStore};
use casp_backend::retail_application::TransferPosting;
use casp_backend::statements::{StatementError, StatementService, StatementStore};
use std::sync::Arc;

const DAY: u64 = 86_400_000;

fn ledger() -> RetailLedger {
    RetailLedger::new(
        "0x1111111111111111111111111111111111111111".to_string(),
        "0x2222222222222222222222222222222222222222".to_string(),
        "0x3333333333333333333333333333333333333333".to_string(),
    )
}

fn posting<'a>(id: &'a str, sender: &'a str, recipient: &'a str, gross_raw: u64, purpose: &'a str) -> TransferPosting<'a> {
    TransferPosting {
        id,
        sender,
        recipient,
        gross_raw,
        purpose,
        contract: "x",
        chain: 1,
    }
}

fn check_projects_completed_raw_operations() {
    let mut retail = ledger();
    retail.activate_inventory(20_000_000).unwrap();
    retail.purchase("purchase", "alice", 1000, "x", 1, 5_000).unwrap();
    retail
        .transfer(posting("goods", "alice", "bob", 5_000_000, "goods_or_services"), 6_000)
        .unwrap();
    let service = ReportingService::new(Arc::new(retail));
    let report = service.daily("1970-01-01", "9999-12-31").unwrap();
    assert_eq!(report.days.len(), 1);
    assert_eq!(report.days[0].total_operation_count, 2);
    assert_eq!(report.days[0].means_of_exchange_count, 1);
    assert_eq!(report.days[0].means_of_exchange_value_usd_minor, "500");
}

#[test]
fn reporting_sqlite_projects_completed_raw_operations_without_counting_fiat_exchange_as_means_of_exchange() {
    check_projects_completed_raw_operations();
}

#[test]
fn reporting_projects_completed_raw_operations_without_counting_fiat_exchange_as_means_of_exchange() {
    check_projects_completed_raw_operations();
}

#[test]
fn statement_balances_match_ledger_movements() {
    let mut retail = ledger();
    retail.activate_inventory(20_000_000).unwrap();
    retail.purchase("p", "alice", 1000, "x", 1, 1_000).unwrap();
    retail
        .transfer(posting("t", "alice", "bob", 5_000_000, "private_transfer"), 2_000)
        .unwrap();
    retail
        .begin_redemption("r", "alice", 1_000_000, "x", 1, "hot", 3_000)
        .unwrap();
    let source = retail.source("alice", "1970-01-01", "9999-12-31").unwrap();
    assert_eq!(source.opening_available_raw, 0);
    assert_eq!(source.closing_available_raw, 4_000_000);
    assert_eq!(source.closing_locked_raw, 1_000_000);
    assert_eq!(source.movements.len(), 3);
    assert_eq!(
        source
            .movements
            .iter()
            .map(|m| m.available_delta_raw.parse::<i64>().unwrap())
            .sum::<i64>(),
        source.closing_available_raw - source.opening_available_raw
    );
    let transfer = source
        .movements
        .iter()
        .find(|m| m.operation_id == "t")
        .unwrap();
    assert_eq!(transfer.fee_raw, "5000");
}

#[test]
fn unix_times_fall_on_their_utc_days() {
    assert_eq!(utc_date(0).as_deref(), Some("1970-01-01"));
    assert_eq!(utc_date(DAY - 1).as_deref(), Some("1970-01-01"));
    assert_eq!(utc_date(365 * DAY).as_deref(), Some("1971-01-01"));
    assert_eq!(utc_date(951_782_400_000).as_deref(), Some("2000-02-29"));
    assert_eq!(utc_date(951_868_800_000).as_deref(), Some("2000-03-01"));
    assert_eq!(utc_date(1_700_000_000_000).as_deref(), Some("2023-11-14"));
    assert_eq!(utc_date(253_402_300_799_999).as_deref(), Some("9999-12-31"));
    assert_eq!(utc_date(253_402_300_800_000), None);
    assert_eq!(utc_date(u64::MAX), None);
}

#[test]
fn reporting_events_are_ordered_by_day_then_operation_and_keep_only_the_range() {
    let mut retail = ledger();
    retail.activate_inventory(50_000_000).unwrap();
    retail.purchase("b-purchase", "alice", 1000, "x", 1, 2 * DAY + 5).unwrap();
    retail.purchase("a-purchase", "bob", 1000, "x", 1, 2 * DAY + 9).unwrap();
    retail
        .transfer(posting("c-transfer", "alice", "carol", 1_000_000, "private_transfer"), DAY)
        .unwrap();
    retail.purchase("late", "carol", 100, "x", 1, 9 * DAY).unwrap();
    retail.begin_redemption("pending", "alice", 1_000_000, "x", 1, "hot", 2 * DAY).unwrap();
    let events = retail.events("1970-01-02", "1970-01-03").unwrap();
    let ids: Vec<&str> = events.iter().map(|e| e.operation_id.as_str()).collect();
    assert_eq!(ids, vec!["c-transfer", "a-purchase", "b-purchase"]);
    assert_eq!(events[0].date_utc, "1970-01-02");
    assert_eq!(events[0].classification, "private_transfer");
    assert_eq!(events[0].fee_raw, 1_000);
    assert_eq!(events[1].classification, "exchange_for_funds");
    assert_eq!(events[1].value_raw, 10_000_000);
    assert!(!events[1].known_onchain_overlap);
}

#[test]
fn completed_redemption_with_burn_is_a_known_onchain_overlap() {
    let mut retail = ledger();
    retail.activate_inventory(20_000_000).unwrap();
    retail.purchase("p", "alice", 1000, "x", 1, 1_000).unwrap();
    retail.begin_redemption("r", "alice", 1_000_000, "x", 1, "hot", 2_000).unwrap();
    retail.complete_redemption("r", Some("0xburn".to_string()), 3_000).unwrap();
    let events = retail.events("1970-01-01", "1970-01-01").unwrap();
    let redemption = events.iter().find(|e| e.operation_id == "r").unwrap();
    assert!(redemption.known_onchain_overlap);
    assert_eq!(redemption.value_raw, 1_000_000);
}

#[test]
fn statement_movements_carry_counterparties_and_opening_balances() {
    let mut retail = ledger();
    retail.activate_inventory(20_000_000).unwrap();
    retail.purchase("p", "alice", 1000, "x", 1, 1_000).unwrap();
    retail
        .transfer(posting("t", "alice", "bob", 5_000_000, "private_transfer"), DAY + 1)
        .unwrap();
    let alice = retail.source("alice", "1970-01-02", "1970-01-02").unwrap();
    assert_eq!(alice.opening_available_raw, 10_000_000);
    assert_eq!(alice.closing_available_raw, 5_000_000);
    assert_eq!(alice.movements.len(), 1);
    assert_eq!(alice.movements[0].operation_type, "internal_transfer_sent");
    assert_eq!(alice.movements[0].counterparty.as_deref(), Some("bob"));
    assert_eq!(alice.movements[0].available_delta_raw, "-5000000");
    let bob = retail.source("bob", "1970-01-01", "1970-01-02").unwrap();
    assert_eq!(bob.movements.len(), 1);
    assert_eq!(bob.movements[0].operation_type, "internal_transfer_received");
    assert_eq!(bob.movements[0].fee_raw, "0");
    assert_eq!(bob.movements[0].net_raw, "4995000");
    assert_eq!(bob.movements[0].counterparty.as_deref(), Some("alice"));
    let purchase = retail.source("alice", "1970-01-01", "1970-01-01").unwrap();
    assert_eq!(purchase.movements[0].operation_type, "purchase");
    assert_eq!(purchase.movements[0].counterparty.as_deref(), Some("casp-inventory"));
}

#[test]
fn statement_service_reads_the_register() {
    let mut retail = ledger();
    retail.activate_inventory(20_000_000).unwrap();
    retail.purchase("p", "alice", 1000, "x", 1, 1_000).unwrap();
    let service = StatementService::new(Arc::new(retail));
    let statement = service.generate("alice", "1970-01-01", "1970-01-31").unwrap();
    assert_eq!(statement.closing_available_raw, "10000000");
    assert_eq!(statement.total_purchases_raw, "10000000");
    assert!(matches!(
        service.generate("mallory", "1970-01-01", "1970-01-31"),
        Err(StatementError::InvalidClient)
    ));
}

#[test]
fn journal_available_balances_follow_every_client_operation() {
    let mut retail = ledger();
    retail.activate_inventory(50_000_000).unwrap();
    retail.purchase("p1", "alice", 2000, "x", 1, 1_000).unwrap();
    retail.purchase("p2", "bob", 500, "x", 1, 1_500).unwrap();
    retail
        .transfer(posting("t1", "alice", "bob", 3_000_000, "private_transfer"), 2_000)
        .unwrap();
    retail.sale("s1", "bob", 1_000_000, "x", 1, 2_500).unwrap();
    retail
        .begin_redemption("r1", "alice", 2_000_000, "x", 1, "hot", 3_000)
        .unwrap();
    retail.complete_redemption("r1", None, 3_500).unwrap();
    for client in ["alice", "bob", "carol"] {
        let source = retail.source(client, "1970-01-01", "9999-12-31").unwrap();
        let account = retail.account(client).unwrap();
        assert_eq!(source.opening_available_raw, 0);
        assert_eq!(
            source.closing_available_raw.to_string(),
            account.available_raw,
            "{client}"
        );
    }
}

#[test]
fn reports_exact_fiat_value_when_exchange_rate_creates_fractional_token_cents() {
    let mut retail = ledger();
    retail.activate_inventory(200_000_000).unwrap();
    retail.set_exchange_rate(110, 1_000).unwrap();
    let order = retail
        .purchase("purchase-at-1-10", "alice", 10_000, "x", 1, 2_000)
        .unwrap();
    assert_eq!(order.quantity_raw, "90909090");

    let service = ReportingService::new(Arc::new(retail));
    let report = service.daily("1970-01-01", "9999-12-31").unwrap();

    assert_eq!(report.days.len(), 1);
    assert_eq!(report.days[0].total_value_usd_minor, "10000");
}
