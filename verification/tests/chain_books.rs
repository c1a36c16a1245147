use alloy::primitives::keccak256;
use casp_backend::external_deposits::{client_for_reference, deposit_window, DepositWindow, ExternalDepositError, ExternalDepositEvent};
use casp_backend::external_withdrawals::{settle_withdrawal, withdrawal_next, ExternalWithdrawalError, WithdrawalNext};
use casp_backend::fee_sweep::{check_sweep_id, settle_fee_sweep, sweep_next, FeeSweepError, SweepNext};
use casp_backend::ledger::RetailLedger;
use casp_backend::retail_application::TransferPosting;

const DESTINATION: &str = "0x0000000000000000000000000000000000000007";

fn store() -> RetailLedger {
    RetailLedger::new(
        "0x1111111111111111111111111111111111111111".to_string(),
        "0x2222222222222222222222222222222222222222".to_string(),
        "0x3333333333333333333333333333333333333333".to_string(),
    )
}

/// A register in which alice holds 2,000,000 raw units.
fn funded() -> RetailLedger {
    let mut s = store();
    s.activate_inventory(10_000_000).unwrap();
    s.purchase("funding", "alice", 200, "x", 1, 1).unwrap();
    s
}

fn positions(s: &RetailLedger, client: &str) -> (String, String) {
    let a = s.account(client).unwrap();
    (a.available_raw, a.locked_raw)
}

#[test]
fn completion_debits_amount_and_fee_exactly_once() {
    let mut store = funded();
    store.begin_withdrawal("withdraw", "alice", DESTINATION, 1_000_000, 10_000, 10).unwrap();
    store.confirm_withdrawal("withdraw", "0xtx", 11);
    let first = store.complete_withdrawal("withdraw", "0xtoken", 31337, 12).unwrap();
    let second = store.complete_withdrawal("withdraw", "0xtoken", 31337, 13).unwrap();
    assert_eq!(first, second);
    assert_eq!(positions(&store, "alice"), ("990000".to_string(), "0".to_string()));
    assert_eq!(store.fee_position().pending_raw, "10000");
    let records = store.all_records().into_iter().filter(|r| r.order_type == "external_withdrawal").count();
    assert_eq!(records, 1);
}

#[test]
fn definite_submission_failure_releases_locked_balance() {
    let mut store = funded();
    store.begin_withdrawal("failed", "alice", DESTINATION, 1_000_000, 10_000, 10).unwrap();
    store.fail_withdrawal("failed", "submission rejected", 11).unwrap();
    assert_eq!(positions(&store, "alice"), ("2000000".to_string(), "0".to_string()));
}

#[test]
fn withdrawal_locks_amount_and_fee() {
    let mut store = funded();
    let w = store.begin_withdrawal("w", "alice", DESTINATION, 1_000_000, 10_000, 10).unwrap();
    assert_eq!(w.status, "pending_chain");
    assert_eq!(w.total_debit_raw, "1010000");
    assert_eq!(positions(&store, "alice"), ("990000".to_string(), "1010000".to_string()));
    let again = store.begin_withdrawal("w", "alice", &DESTINATION.to_uppercase().replace("0X", "0x"), 1_000_000, 10_000, 20).unwrap();
    assert_eq!(again, w);
    assert!(matches!(
        store.begin_withdrawal("w", "alice", DESTINATION, 2_000_000, 20_000, 30),
        Err(ExternalWithdrawalError::IdempotencyConflict)
    ));
}

#[test]
fn withdrawal_beyond_balance_is_refused() {
    let mut store = funded();
    assert!(matches!(
        store.begin_withdrawal("big", "alice", DESTINATION, 2_000_000, 20_000, 10),
        Err(ExternalWithdrawalError::InsufficientBalance)
    ));
    assert!(matches!(
        store.begin_withdrawal("huge", "alice", DESTINATION, u64::MAX, 1, 10),
        Err(ExternalWithdrawalError::Invalid(_))
    ));
}

#[test]
fn unconfirmed_withdrawal_cannot_complete() {
    let mut store = funded();
    store.begin_withdrawal("w", "alice", DESTINATION, 1_000_000, 10_000, 10).unwrap();
    assert!(matches!(store.complete_withdrawal("w", "x", 1, 11), Err(ExternalWithdrawalError::Storage(_))));
    assert!(matches!(store.complete_withdrawal("none", "x", 1, 11), Err(ExternalWithdrawalError::Storage(_))));
}

#[test]
fn uncertain_withdrawal_keeps_its_lock() {
    let mut store = funded();
    store.begin_withdrawal("w", "alice", DESTINATION, 1_000_000, 10_000, 10).unwrap();
    store.mark_withdrawal_uncertain("w", "timeout", 11);
    let w = store.withdrawal("w").unwrap();
    assert_eq!(w.status, "submission_uncertain");
    assert_eq!(w.last_error.as_deref(), Some("timeout"));
    assert_eq!(positions(&store, "alice"), ("990000".to_string(), "1010000".to_string()));
}

#[test]
fn withdrawal_next_follows_the_status() {
    let mut store = funded();
    let w = store.begin_withdrawal("w", "alice", DESTINATION, 1_000_000, 10_000, 10).unwrap();
    assert!(matches!(withdrawal_next(w.clone()), Ok(WithdrawalNext::Send)));
    let mut uncertain = w.clone();
    uncertain.status = "submission_uncertain".to_string();
    match withdrawal_next(uncertain) {
        Err(ExternalWithdrawalError::SubmissionUncertain(m)) => assert_eq!(m, "wymaga ręcznego potwierdzenia transakcji"),
        other => panic!("unexpected {other:?}"),
    }
    let mut failed = w.clone();
    failed.status = "failed".to_string();
    assert!(matches!(withdrawal_next(failed), Err(ExternalWithdrawalError::IdempotencyConflict)));
    let mut confirmed = w.clone();
    confirmed.status = "chain_confirmed".to_string();
    assert!(matches!(withdrawal_next(confirmed), Ok(WithdrawalNext::Complete)));
    let mut done = w;
    done.status = "completed".to_string();
    assert!(matches!(withdrawal_next(done), Ok(WithdrawalNext::Done(_))));
}

#[test]
fn settling_a_withdrawal_follows_the_wallet_answer() {
    let mut store = funded();
    store.begin_withdrawal("ok", "alice", DESTINATION, 500_000, 5_000, 10).unwrap();
    let done = settle_withdrawal(&mut store, "ok", Ok("0xhash".to_string()), "0xtoken", 31337, 11).unwrap();
    assert_eq!(done.status, "completed");
    assert_eq!(done.transaction_hash.as_deref(), Some("0xhash"));

    store.begin_withdrawal("unsure", "alice", DESTINATION, 500_000, 5_000, 12).unwrap();
    let answer = settle_withdrawal(
        &mut store,
        "unsure",
        Err(ExternalWithdrawalError::SubmissionUncertain("rpc timeout".to_string())),
        "0xtoken",
        31337,
        13,
    );
    assert!(matches!(answer, Err(ExternalWithdrawalError::SubmissionUncertain(_))));
    let unsure = store.withdrawal("unsure").unwrap();
    assert_eq!(unsure.status, "submission_uncertain");
    assert_eq!(
        unsure.last_error.as_deref(),
        Some("wynik wysłania transakcji z portfela gorącego jest niejednoznaczny: rpc timeout")
    );

    store.begin_withdrawal("bad", "alice", DESTINATION, 500_000, 5_000, 14).unwrap();
    let answer = settle_withdrawal(&mut store, "bad", Err(ExternalWithdrawalError::InsufficientHotWalletBalance), "0xtoken", 31337, 15);
    assert!(matches!(answer, Err(ExternalWithdrawalError::InsufficientHotWalletBalance)));
    assert_eq!(store.withdrawal("bad").unwrap().status, "failed");
}

fn with_fees() -> RetailLedger {
    let mut s = store();
    s.activate_inventory(10_000_000).unwrap();
    s.purchase("p", "alice", 100, "x", 1, 1).unwrap();
    s.transfer(
        TransferPosting {
            id: "t",
            sender: "alice",
            recipient: "bob",
            gross_raw: 1_000_000,
            purpose: "private_transfer",
            contract: "x",
            chain: 1,
        },
        2,
    )
    .unwrap();
    s
}

#[test]
fn completing_a_sweep_moves_the_exact_pending_position_once() {
    let mut store = with_fees();
    let pending = store.begin_fee_sweep("sweep-1", 10).unwrap();
    assert_eq!(pending.amount_raw, "1000");
    store.confirm_fee_sweep("sweep-1", "0xabc", 11).unwrap();
    let completed = store.complete_fee_sweep("sweep-1", 12).unwrap();
    let replay = store.complete_fee_sweep("sweep-1", 13).unwrap();
    assert_eq!(completed, replay);
    assert_eq!(completed.status, "completed");
    assert_eq!(store.fee_position().pending_raw, "0");
}

#[test]
fn refuses_to_create_a_sweep_without_pending_fees() {
    let mut store = store();
    assert!(matches!(store.begin_fee_sweep("empty", 1), Err(FeeSweepError::NoPendingFees)));
}

#[test]
fn failed_sweep_is_opened_again() {
    let mut store = with_fees();
    store.begin_fee_sweep("s", 10).unwrap();
    store.fail_fee_sweep("s", "wallet down", 11);
    assert_eq!(store.fee_sweep("s").unwrap().status, "failed");
    let again = store.begin_fee_sweep("s", 12).unwrap();
    assert_eq!(again.status, "pending");
    assert_eq!(again.last_error, None);
}

#[test]
fn sweep_decisions_follow_the_stored_sweep() {
    let mut store = with_fees();
    let s = store.begin_fee_sweep("s", 10).unwrap();
    assert!(matches!(sweep_next(s.clone()), Ok(SweepNext::Send(1000))));
    let mut corrupt = s.clone();
    corrupt.amount_raw = "ten".to_string();
    assert!(matches!(sweep_next(corrupt), Err(FeeSweepError::Storage(_))));
    let done = settle_fee_sweep(&mut store, "s", Some(Ok("0xhash".to_string())), 11).unwrap();
    assert_eq!(done.status, "completed");
    assert!(matches!(sweep_next(done), Ok(SweepNext::Done(_))));
    assert!(check_sweep_id("sweep").is_ok());
    assert!(matches!(check_sweep_id("  "), Err(FeeSweepError::InvalidOperationId)));
    assert!(matches!(check_sweep_id(&"x".repeat(129)), Err(FeeSweepError::InvalidOperationId)));
}

#[test]
fn failed_wallet_transfer_fails_the_sweep() {
    let mut store = with_fees();
    store.begin_fee_sweep("s", 10).unwrap();
    let r = settle_fee_sweep(&mut store, "s", Some(Err(FeeSweepError::InsufficientHotBalance)), 11);
    assert!(matches!(r, Err(FeeSweepError::InsufficientHotBalance)));
    let s = store.fee_sweep("s").unwrap();
    assert_eq!(s.status, "failed");
    assert_eq!(s.last_error.as_deref(), Some("hot wallet does not contain enough rUSD for this fee transfer"));
    assert_eq!(store.fee_position().pending_raw, "1000");
}

fn event(hash: &str, reference: &str) -> ExternalDepositEvent {
    ExternalDepositEvent {
        transaction_hash: hash.into(),
        log_index: 0,
        block_number: 10,
        sender: "0x0000000000000000000000000000000000000009".to_string(),
        client_reference: keccak256(reference.as_bytes()).to_vec(),
        amount_raw: 25_000_000,
    }
}

#[test]
fn credits_a_known_deposit_exactly_once_and_keeps_unknown_references_uncredited() {
    let mut store = store();
    let known = event("0xknown", "rusd:casp:alice");
    store.apply_deposit(31337, &known, Some("alice"), 1).unwrap();
    store.apply_deposit(31337, &known, Some("alice"), 2).unwrap();
    let unknown = event("0xunknown", "unknown");
    store.apply_deposit(31337, &unknown, None, 3).unwrap();
    assert_eq!(store.account("alice").unwrap().available_raw, "25000000");
    assert_eq!(store.all_records().len(), 1);
    assert_eq!(store.deposit_status(31337, "0xunknown", 0), Some("unknown_reference"));
}

#[test]
fn resolves_only_known_logical_wallet_references() {
    assert_eq!(client_for_reference(keccak256(b"rusd:casp:alice").as_slice()), Some("alice"));
    assert_eq!(client_for_reference(keccak256(b"unknown").as_slice()), None);
}

#[test]
fn deposit_references_of_each_client_resolve() {
    assert_eq!(client_for_reference(keccak256(b"rusd:casp:bob").as_slice()), Some("bob"));
    assert_eq!(client_for_reference(keccak256(b"rusd:casp:carol").as_slice()), Some("carol"));
    assert_eq!(client_for_reference(&[0u8; 32]), None);
}

#[test]
fn applies_a_batch_of_deposits_and_advances_the_checkpoint() {
    let mut store = store();
    let events = vec![event("0xa", "rusd:casp:bob"), event("0xb", "rusd:casp:carol"), event("0xc", "nobody")];
    store.apply_deposits(31337, &events, 12, 5).unwrap();
    assert_eq!(store.deposit_checkpoint(), 12);
    assert_eq!(store.account("bob").unwrap().available_raw, "25000000");
    assert_eq!(store.account("carol").unwrap().available_raw, "25000000");
    assert_eq!(store.deposit_status(31337, "0xc", 0), Some("unknown_reference"));
    store.advance_deposits(3);
    assert_eq!(store.deposit_checkpoint(), 12);
    store.reset_deposit_checkpoint();
    assert_eq!(store.deposit_checkpoint(), 0);
}

#[test]
fn oversized_deposit_is_refused() {
    let mut store = store();
    let mut e = event("0xbig", "rusd:casp:alice");
    e.amount_raw = u64::MAX;
    assert!(matches!(store.apply_deposit(1, &e, Some("alice"), 1), Err(ExternalDepositError::AmountOverflow)));
    assert_eq!(store.deposit_status(1, "0xbig", 0), None);
}

#[test]
fn deposit_window_reads_unread_confirmed_blocks() {
    assert_eq!(deposit_window(5, 10), DepositWindow { reset: false, scan: Some((6, 10)) });
    assert_eq!(deposit_window(10, 10), DepositWindow { reset: false, scan: None });
    assert_eq!(deposit_window(50, 10), DepositWindow { reset: true, scan: Some((1, 10)) });
    assert_eq!(deposit_window(3, 0), DepositWindow { reset: true, scan: None });
    assert_eq!(deposit_window(u64::MAX, u64::MAX), DepositWindow { reset: false, scan: Some((u64::MAX, u64::MAX)) });
}
