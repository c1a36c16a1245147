use casp_backend::statements::{
    statement_from_source, StatementError, StatementMovement, StatementService, StatementSource,
    StatementStore,
};
use std::sync::Arc;

fn movement(id: &str, kind: &str, delta: &str, gross: &str, net: &str, fee: &str) -> StatementMovement {
    StatementMovement {
        operation_id: id.into(),
        occurred_at_unix_ms: 1,
        operation_type: kind.into(),
        status: "completed".into(),
        available_delta_raw: delta.into(),
        locked_delta_raw: "0".into(),
        gross_raw: gross.into(),
        net_raw: net.into(),
        fee_raw: fee.into(),
        counterparty: None,
    }
}

struct Store;
impl StatementStore for Store {
    fn source(&self, _: &str, _: &str, _: &str) -> Result<StatementSource, StatementError> {
        Ok(StatementSource {
            opening_available_raw: 1_000_000,
            opening_locked_raw: 0,
            closing_available_raw: 1_499_000,
            closing_locked_raw: 0,
            movements: vec![
                StatementMovement {
                    operation_id: "purchase".into(),
                    occurred_at_unix_ms: 1,
                    operation_type: "purchase".into(),
                    status: "completed".into(),
                    available_delta_raw: "1000000".into(),
                    locked_delta_raw: "0".into(),
                    gross_raw: "1000000".into(),
                    net_raw: "1000000".into(),
                    fee_raw: "0".into(),
                    counterparty: Some("casp-inventory".into()),
                },
                StatementMovement {
                    operation_id: "transfer".into(),
                    occurred_at_unix_ms: 2,
                    operation_type: "internal_transfer_sent".into(),
                    status: "completed".into(),
                    available_delta_raw: "-501000".into(),
                    locked_delta_raw: "0".into(),
                    gross_raw: "501000".into(),
                    net_raw: "500499".into(),
                    fee_raw: "501".into(),
                    counterparty: Some("bob".into()),
                },
            ],
        })
    }
}

#[test]
fn aggregates_deterministically() {
    let report = StatementService::new(Arc::new(Store))
        .generate("alice", "2026-08-01", "2026-08-31")
        .unwrap();
    assert_eq!(report.total_purchases_raw, "1000000");
    assert_eq!(report.total_transfers_sent_raw, "501000");
    assert_eq!(report.total_fees_raw, "501");
    assert_eq!(report.closing_available_raw, "1499000");
}

#[test]
fn unknown_clients_and_bad_ranges_are_refused() {
    let service = StatementService::new(Arc::new(Store));
    assert!(matches!(
        service.generate("mallory", "2026-08-01", "2026-08-31"),
        Err(StatementError::InvalidClient)
    ));
    assert!(matches!(
        service.generate("bob", "2026-08-31", "2026-08-01"),
        Err(StatementError::InvalidRange)
    ));
}

#[test]
fn redemptions_count_only_when_they_leave_the_available_position() {
    let source = StatementSource {
        opening_available_raw: -5,
        opening_locked_raw: 0,
        closing_available_raw: 0,
        closing_locked_raw: 7,
        movements: vec![
            movement("r1", "redemption", "-300", "300", "300", "0"),
            movement("r2", "redemption", "0", "300", "300", "0"),
            movement("t", "internal_transfer_received", "999", "1000", "999", "1"),
            movement("s", "sale", "-20", "20", "20", "0"),
        ],
    };
    let statement = statement_from_source("carol", "2026-01-01", "2026-01-31", source).unwrap();
    assert_eq!(statement.total_redemptions_raw, "300");
    assert_eq!(statement.total_transfers_received_raw, "999");
    assert_eq!(statement.total_sales_raw, "20");
    assert_eq!(statement.opening_available_raw, "-5");
    let broken = StatementSource {
        opening_available_raw: 0,
        opening_locked_raw: 0,
        closing_available_raw: 0,
        closing_locked_raw: 0,
        movements: vec![movement("x", "purchase", "1", "one", "1", "0")],
    };
    assert!(matches!(
        statement_from_source("carol", "2026-01-01", "2026-01-31", broken),
        Err(StatementError::Storage(_))
    ));
    let overflow = StatementSource {
        opening_available_raw: 0,
        opening_locked_raw: 0,
        closing_available_raw: 0,
        closing_locked_raw: 0,
        movements: vec![
            movement("a", "sale", "0", &i64::MAX.to_string(), "0", "0"),
            movement("b", "sale", "0", "1", "0", "0"),
        ],
    };
    assert!(matches!(
        statement_from_source("carol", "2026-01-01", "2026-01-31", overflow),
        Err(StatementError::Overflow)
    ));
}
