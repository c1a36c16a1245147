use casp_backend::requests::{ExternalWithdrawalRequest, TransferRequest};
use casp_backend::validators::{iso_date, positive, required};

#[test]
fn accepts_canonical_iso_date() {
    assert!(iso_date("2026-09-04", "from").is_ok());
}

#[test]
fn rejects_non_canonical_date() {
    assert!(iso_date("04.09.2026", "from").is_err());
}

#[test]
fn field_messages_name_the_field() {
    assert_eq!(required(" \t", "reason").unwrap_err(), "reason nie może być puste");
    assert!(required(" x ", "reason").is_ok());
    assert_eq!(positive(0, "amountUsdMinor").unwrap_err(), "amountUsdMinor musi być większe od zera");
    assert_eq!(iso_date("2026-9-04", "to").unwrap_err(), "to musi mieć format RRRR-MM-DD");
}

#[test]
fn requests_report_their_first_failing_field() {
    let transfer = TransferRequest {
        operation_id: "t1".into(),
        recipient_client_id: "".into(),
        token_amount_raw: 0,
        purpose_classification: "".into(),
    };
    assert_eq!(transfer.validate().unwrap_err(), "recipientClientId nie może być puste");
    let withdrawal = ExternalWithdrawalRequest {
        operation_id: "w1".into(),
        destination_address: "0x1234".into(),
        token_amount_raw: 10_000,
    };
    assert_eq!(
        withdrawal.validate().unwrap_err(),
        "destinationAddress musi być adresem Ethereum"
    );
    let good = ExternalWithdrawalRequest {
        operation_id: "w1".into(),
        destination_address: format!("0x{}", "a".repeat(40)),
        token_amount_raw: 10_000,
    };
    assert!(good.validate().is_ok());
}
