use casp_backend::domain::WalletBalances;
use casp_backend::inventory::{
    allocation, inventory_status_after, inventory_status_text, inventory_step, parse_inventory_status, rebalancing_plan,
    reuse_replenishment, validate_replenishment, InventoryError, InventoryOperation,
    InventoryStatus, InventoryStep,
};

#[test]
fn allocation_is_exact_20_80() {
    assert_eq!(
        allocation(12_345).unwrap(),
        (123_450_000, 24_690_000, 98_760_000)
    );
}

#[test]
fn calculator_exposes_required_direction() {
    let balances = WalletBalances {
        corporate_raw: "0".into(),
        hot_raw: "300".into(),
        cold_raw: "700".into(),
        evidence_block: Some(1),
    };
    let plan = rebalancing_plan(&balances).unwrap();
    assert_eq!(plan.hot_delta_raw, -100);
    assert_eq!(plan.cold_delta_raw, 100);
    assert!(!plan.executable_from_corporate_only);
}

#[test]
fn allocation_overflow_is_refused() {
    assert!(matches!(allocation(u64::MAX / 10_000 + 1), Err(InventoryError::Overflow)));
    let (total, hot, cold) = allocation(100).unwrap();
    assert_eq!((total, hot, cold), (1_000_000, 200_000, 800_000));
}

#[test]
fn plan_targets_split_the_total_and_reports_text() {
    let balances = WalletBalances {
        corporate_raw: "5".into(),
        hot_raw: "2001".into(),
        cold_raw: "8000".into(),
        evidence_block: None,
    };
    let plan = rebalancing_plan(&balances).unwrap();
    assert_eq!(plan.target_hot_raw, "2000");
    assert_eq!(plan.target_cold_raw, "8001");
    assert_eq!(plan.hot_delta_raw + plan.cold_delta_raw, 0);
    assert_eq!(plan.policy_version, "casp-manual-inventory-20-80-v1");
    let bad = WalletBalances {
        corporate_raw: "0".into(),
        hot_raw: "12x".into(),
        cold_raw: "1".into(),
        evidence_block: None,
    };
    assert!(matches!(rebalancing_plan(&bad), Err(InventoryError::Storage(_))));
    let huge = WalletBalances {
        corporate_raw: "0".into(),
        hot_raw: u64::MAX.to_string(),
        cold_raw: "1".into(),
        evidence_block: None,
    };
    assert!(matches!(rebalancing_plan(&huge), Err(InventoryError::Overflow)));
}

#[test]
fn replenishment_requests_are_checked_and_reused_only_for_the_same_amount() {
    assert!(matches!(validate_replenishment("  ", 5), Err(InventoryError::Invalid(_))));
    assert!(matches!(validate_replenishment("op", 0), Err(InventoryError::Invalid(_))));
    assert!(validate_replenishment("op", 1).is_ok());
    let existing = InventoryOperation {
        operation_id: "op".into(),
        status: InventoryStatus::Created,
        amount_usd_minor: "100".into(),
        token_amount_raw: "1000000".into(),
        hot_increment_raw: "200000".into(),
        cold_increment_raw: "800000".into(),
        hot_target_raw: None,
        cold_target_raw: None,
        issuer_transaction_hash: None,
        cold_transaction_hash: None,
        hot_transaction_hash: None,
        last_error: None,
        created_at_unix_ms: 1,
        updated_at_unix_ms: 1,
    };
    assert_eq!(reuse_replenishment(existing.clone(), 100).unwrap().operation_id, "op");
    assert!(matches!(
        reuse_replenishment(existing, 101),
        Err(InventoryError::IdempotencyConflict)
    ));
}

#[test]
fn stored_statuses_read_back() {
    for status in [
        InventoryStatus::Created,
        InventoryStatus::IssuerOrderCreated,
        InventoryStatus::FiatSent,
        InventoryStatus::TokensIssued,
        InventoryStatus::TargetsRecorded,
        InventoryStatus::ColdDistributed,
        InventoryStatus::Completed,
    ] {
        assert_eq!(parse_inventory_status(inventory_status_text(status)), status);
    }
    assert_eq!(parse_inventory_status("garbage"), InventoryStatus::Created);
}

fn run_steps(mut status: InventoryStatus) -> Vec<InventoryStep> {
    let mut taken = Vec::new();
    loop {
        let step = inventory_step(status);
        if step == InventoryStep::Finished {
            return taken;
        }
        taken.push(step);
        status = inventory_status_after(step);
    }
}

#[test]
fn resumed_replenishment_repeats_no_outside_action() {
    assert_eq!(
        run_steps(InventoryStatus::Created),
        vec![
            InventoryStep::CreateIssuerOrder,
            InventoryStep::SendFiat,
            InventoryStep::SettleIssuerOrder,
            InventoryStep::RecordTargets,
            InventoryStep::DistributeCold,
            InventoryStep::DistributeHot,
        ]
    );
    assert_eq!(
        run_steps(InventoryStatus::FiatSent),
        vec![
            InventoryStep::SettleIssuerOrder,
            InventoryStep::RecordTargets,
            InventoryStep::DistributeCold,
            InventoryStep::DistributeHot,
        ]
    );
    assert!(run_steps(InventoryStatus::Completed).is_empty());
}
