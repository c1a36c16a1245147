use casp_backend::application::BootstrapError;
use casp_backend::config::{config_from, ConfigError, Environment};
use casp_backend::issuer::{issuer_error, IssuerErrorResponse};
use casp_backend::ledger::RetailLedger;
use casp_backend::public_info::PublicInfoError;
use casp_backend::external_withdrawals::ExternalWithdrawalError;
use casp_backend::retail_application::{
    redemption_next, settle_redemption, transfer_recipient, IssuerRedemption, RedemptionNext, RetailError,
};

fn ledger() -> RetailLedger {
    RetailLedger::new(
        "0x1111111111111111111111111111111111111111".to_string(),
        "0x2222222222222222222222222222222222222222".to_string(),
        "0x3333333333333333333333333333333333333333".to_string(),
    )
}

#[test]
fn maps_issuer_block_code_without_leaking_a_generic_http_error() {
    let error = issuer_error(
        "409 Conflict",
        Some(IssuerErrorResponse {
            code: Some("issuance_blocked".into()),
            error: Some("technical reason".into()),
            user_message: Some("Emisja rUSD jest obecnie zablokowana przez emitenta.".into()),
        }),
    );
    assert!(matches!(error, BootstrapError::IssuanceBlocked));
    assert_eq!(error.message(), "Emisja rUSD jest obecnie zablokowana przez emitenta.");
}

#[test]
fn issuer_errors_prefer_the_message_for_people() {
    let body = |user: Option<&str>, error: Option<&str>| IssuerErrorResponse {
        code: Some("other".into()),
        error: error.map(String::from),
        user_message: user.map(String::from),
    };
    match issuer_error("500 Internal Server Error", Some(body(Some("try later"), Some("db down")))) {
        BootstrapError::Issuer(m) => assert_eq!(m, "try later"),
        other => panic!("unexpected {other:?}"),
    }
    match issuer_error("500 Internal Server Error", Some(body(None, Some("db down")))) {
        BootstrapError::Issuer(m) => assert_eq!(m, "db down"),
        other => panic!("unexpected {other:?}"),
    }
    match issuer_error("502 Bad Gateway", None) {
        BootstrapError::Issuer(m) => assert_eq!(m, "emitent zwrócił HTTP 502 Bad Gateway"),
        other => panic!("unexpected {other:?}"),
    }
}

fn environment() -> Environment {
    Environment {
        casp_database_path: None,
        issuer_url: Some("http://issuer:3000".into()),
        issuer_public_url: None,
        mock_bank_url: None,
        rpc_url: None,
        token_address: Some("0x5FbDB2315678afecb367f032d93F642f64180aa3".into()),
        casp_deposit_router_address: Some("0xe7f1725E7734CE288F8367e1Bb143E90bb3F0512".into()),
        casp_deposit_confirmations: None,
        casp_corporate_private_key: Some("0x59c6995e998f97a5a0044966f0945389dc9e86dae88c7a8412f4603b6b78690d".into()),
        casp_hot_private_key: Some("0x59c6995e998f97a5a0044966f0945389dc9e86dae88c7a8412f4603b6b78690d".into()),
        casp_corporate_address: Some("0x70997970C51812dc3A010C7d01b50e0d17dc79C8".into()),
        casp_hot_address: Some("0x3C44CdDdB6a900fa2b585dd299e03d12FA4293BC".into()),
        casp_cold_address: Some("0x90F79bf6EB2c4f870365E785982E1f101E93b906".into()),
        chain_id: None,
    }
}

#[test]
fn configuration_takes_defaults_and_addresses() {
    let config = config_from(&environment()).unwrap();
    assert_eq!(config.database_path, "data/casp.sqlite");
    assert_eq!(config.issuer_url, "http://issuer:3000");
    assert_eq!(config.rpc_url, "http://127.0.0.1:8545");
    assert_eq!(config.deposit_confirmations, 2);
    assert_eq!(config.chain_id, 31337);
    assert_eq!(config.token_address.len(), 20);
    assert_eq!(config.token_address[0], 0x5f);
    assert_eq!(config.token_address[19], 0xa3);
}

#[test]
fn configuration_reports_the_first_bad_value() {
    let mut env = environment();
    env.token_address = None;
    env.chain_id = Some("x".into());
    assert_eq!(config_from(&env).unwrap_err(), ConfigError::Missing("TOKEN_ADDRESS"));
    let mut env = environment();
    env.casp_hot_address = Some("0x123".into());
    assert_eq!(config_from(&env).unwrap_err(), ConfigError::Address("CASP_HOT_ADDRESS"));
    let mut env = environment();
    env.casp_deposit_confirmations = Some("-1".into());
    assert_eq!(config_from(&env).unwrap_err(), ConfigError::ChainId);
    let mut env = environment();
    env.casp_hot_private_key = None;
    assert_eq!(config_from(&env).unwrap_err(), ConfigError::Missing("CASP_HOT_PRIVATE_KEY"));
    assert_eq!(ConfigError::Address("TOKEN_ADDRESS").message(), "invalid address in TOKEN_ADDRESS");
    assert_eq!(ConfigError::HttpAddress.message(), "invalid CASP_HTTP_ADDRESS");
}

#[test]
fn transfer_recipient_resolves_wallets_and_checks_requests() {
    let ledger = ledger();
    assert_eq!(
        transfer_recipient(&ledger, "alice", "0x2222222222222222222222222222222222222222", "t1", 10_000, "private_transfer")
            .unwrap(),
        "bob"
    );
    assert_eq!(transfer_recipient(&ledger, "alice", "carol", "t1", 10_000, "goods_or_services").unwrap(), "carol");
    assert!(matches!(
        transfer_recipient(&ledger, "alice", "alice", "t1", 10_000, "private_transfer"),
        Err(RetailError::Invalid(m)) if m == "sender and recipient must be different clients"
    ));
    assert!(matches!(
        transfer_recipient(&ledger, "alice", "0x1111111111111111111111111111111111111111", "t1", 10_000, "private_transfer"),
        Err(RetailError::Invalid(m)) if m == "sender and recipient must be different clients"
    ));
    assert!(matches!(
        transfer_recipient(&ledger, "alice", "dave", "t1", 10_000, "private_transfer"),
        Err(RetailError::Invalid(m)) if m == "unknown demo client"
    ));
    assert!(matches!(
        transfer_recipient(&ledger, "alice", "bob", "t1", 10_001, "private_transfer"),
        Err(RetailError::Invalid(m)) if m == "tokenAmountRaw must be positive and represent whole USD cents"
    ));
    assert!(matches!(
        transfer_recipient(&ledger, "alice", "bob", "t1", 10_000, "gift"),
        Err(RetailError::Invalid(m)) if m == "purposeClassification must be private_transfer or goods_or_services"
    ));
}

#[test]
fn settling_a_redemption_completes_or_marks_for_retry() {
    let mut ledger = ledger();
    ledger.activate_inventory(10_000_000).unwrap();
    ledger.purchase("p", "alice", 100, "x", 1, 1).unwrap();
    ledger.begin_redemption("r1", "alice", 100_000, "x", 1, "hot", 2).unwrap();
    let failed = settle_redemption(&mut ledger, "r1", Err(RetailError::Issuer("offline".into())), 3);
    assert!(matches!(failed, Err(RetailError::Issuer(_))));
    let retry = ledger.begin_redemption("r1", "alice", 100_000, "x", 1, "hot", 4).unwrap();
    assert_eq!(retry.status, "issuer_retry_required");
    assert_eq!(retry.last_error.as_deref(), Some("issuer redemption failed: offline"));
    let done = settle_redemption(
        &mut ledger,
        "r1",
        Ok(IssuerRedemption { transaction_hash: Some("0xburn".into()) }),
        5,
    )
    .unwrap();
    assert_eq!(done.status, "completed");
    assert_eq!(done.blockchain_transaction_hash.as_deref(), Some("0xburn"));
    assert_eq!(ledger.account("alice").unwrap().locked_raw, "0");
    assert_eq!(ledger.account("alice").unwrap().available_raw, "900000");
}

#[test]
fn error_texts_match_the_service_messages() {
    assert_eq!(RetailError::InsufficientBalance.message(), "insufficient client balance");
    assert_eq!(RetailError::Invalid("x".into()).message(), "invalid retail request: x");
    assert_eq!(BootstrapError::NotStarted.message(), "bootstrap has not been started");
    assert_eq!(
        PublicInfoError::Unavailable("down".into()).message(),
        "issuer public information is unavailable: down"
    );
}

#[test]
fn completed_redemption_does_not_call_issuer_twice() {
    let mut ledger = ledger();
    ledger.activate_inventory(10_000_000).unwrap();
    ledger.purchase("purchase", "alice", 100, "0x1", 31337, 1).unwrap();
    let order = ledger.begin_redemption("r", "alice", 1_000_000, "0x1", 31337, "hot", 2).unwrap();
    let issuer_id = match redemption_next(&order).unwrap() {
        RedemptionNext::AskIssuer(id) => id,
        RedemptionNext::AlreadyCompleted => panic!("a new redemption goes to the issuer"),
    };
    assert_eq!(Some(issuer_id), order.issuer_operation_id);
    settle_redemption(&mut ledger, "r", Ok(IssuerRedemption { transaction_hash: Some("0xburn".into()) }), 3)
        .unwrap();
    let again = ledger.begin_redemption("r", "alice", 1_000_000, "0x1", 31337, "hot", 4).unwrap();
    assert!(matches!(redemption_next(&again), Ok(RedemptionNext::AlreadyCompleted)));
}

#[test]
fn uncertain_withdrawal_message_asks_for_a_manual_check() {
    let message = ExternalWithdrawalError::SubmissionUncertain("brak potwierdzenia z dostawcy RPC".into()).message();
    assert!(message.contains("niejednoznaczny"));
    assert!(message.ends_with("brak potwierdzenia z dostawcy RPC"));
}

#[test]
fn rejects_self_transfer_before_any_ledger_change() {
    let mut ledger = ledger();
    ledger.activate_inventory(10_000_000).unwrap();
    assert!(matches!(
        transfer_recipient(&ledger, "alice", "alice", "self", 100_000, "private_transfer"),
        Err(RetailError::Invalid(_))
    ));
    assert_eq!(ledger.fee_position().pending_raw, "0");
}
