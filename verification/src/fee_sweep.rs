//! Sweeping the CASP's pending transfer fees from the hot wallet to the
//! corporate wallet: the checks, and what follows each answer of the wallet.
use crate::decimal::{parse_u64, spec_parse_u64};
use crate::ledger::sweeps::{complete_sweep_post, confirm_sweep_post, fail_sweep_post};
use crate::ledger::RetailLedger;
use crate::text::{byte_len, is_blank, str_byte_len, str_eq, str_is_blank};
use vstd::prelude::*;

verus! {

/// A fee sweep as the API hands it out.
#[derive(Debug, Clone, PartialEq, Eq)]
pub struct FeeSweep {
    pub operation_id: String,
    pub amount_raw: String,
    pub status: String,
    pub transaction_hash: Option<String>,
    pub last_error: Option<String>,
    pub created_at_unix_ms: u64,
    pub updated_at_unix_ms: u64,
}

/// Failures of fee sweeps.
#[derive(Debug)]
pub enum FeeSweepError {
    InvalidOperationId,
    NoPendingFees,
    IdempotencyConflict,
    InsufficientHotBalance,
    Wallet(String),
    Reconciliation(String),
    Storage(String),
}

/// The text of a fee sweep failure.
pub open spec fn fee_sweep_error_text(e: FeeSweepError) -> Seq<char> {
    match e {
        FeeSweepError::InvalidOperationId => "operationId is required and must not exceed 128 characters"@,
        FeeSweepError::NoPendingFees => "there are no pending CASP fees to transfer"@,
        FeeSweepError::IdempotencyConflict => "fee sweep operation conflicts with an existing request"@,
        FeeSweepError::InsufficientHotBalance => "hot wallet does not contain enough rUSD for this fee transfer"@,
        FeeSweepError::Wallet(m) => "fee transfer failed: "@ + m@,
        FeeSweepError::Reconciliation(m) => "custody reconciliation failed: "@ + m@,
        FeeSweepError::Storage(m) => "fee sweep storage failed: "@ + m@,
    }
}

impl FeeSweepError {
    /// The failure as it is reported.
    pub fn message(&self) -> (r: String)
        ensures
            r@ == fee_sweep_error_text(*self),
    {
        match self {
            FeeSweepError::InvalidOperationId => String::from_str(
                "operationId is required and must not exceed 128 characters",
            ),
            FeeSweepError::NoPendingFees => String::from_str("there are no pending CASP fees to transfer"),
            FeeSweepError::IdempotencyConflict => String::from_str(
                "fee sweep operation conflicts with an existing request",
            ),
            FeeSweepError::InsufficientHotBalance => String::from_str(
                "hot wallet does not contain enough rUSD for this fee transfer",
            ),
            FeeSweepError::Wallet(m) => String::from_str("fee transfer failed: ").concat(m.as_str()),
            FeeSweepError::Reconciliation(m) => String::from_str("custody reconciliation failed: ").concat(
                m.as_str(),
            ),
            FeeSweepError::Storage(m) => String::from_str("fee sweep storage failed: ").concat(m.as_str()),
        }
    }
}

/// A sweep operation ID: not blank and at most 128 bytes.
pub open spec fn valid_sweep_id(id: Seq<char>) -> bool {
    !is_blank(id) && byte_len(id) <= 128
}

/// Checks a sweep operation ID.
pub fn check_sweep_id(id: &str) -> (r: Result<(), FeeSweepError>)
    ensures
        r is Ok <==> valid_sweep_id(id@),
        r is Err ==> r matches Err(FeeSweepError::InvalidOperationId),
{
    if str_is_blank(id) || str_byte_len(id) > 128 {
        Err(FeeSweepError::InvalidOperationId)
    } else {
        Ok(())
    }
}

/// What follows once the register has answered a sweep's start.
#[derive(Debug)]
pub enum SweepNext {
    /// The sweep is complete already; hand it back.
    Done(FeeSweep),
    /// Ask the hot wallet to send this amount to the corporate wallet.
    Send(u64),
    /// The transfer was sent before; complete the sweep in the register.
    Complete,
}

/// Decides from the sweep the register reports what it needs next.
pub fn sweep_next(s: FeeSweep) -> (r: Result<SweepNext, FeeSweepError>)
    ensures
        s.status@ == "completed"@ ==> (r matches Ok(SweepNext::Done(x)) && x == s),
        s.status@ != "completed"@ ==> match spec_parse_u64(s.amount_raw@) {
            None => r matches Err(FeeSweepError::Storage(m)) && m@ == "invalid persisted sweep amount"@,
            Some(amount) => if s.transaction_hash is None {
                r matches Ok(SweepNext::Send(a)) && a == amount
            } else {
                r matches Ok(SweepNext::Complete)
            },
        },
{
    if str_eq(s.status.as_str(), "completed") {
        return Ok(SweepNext::Done(s));
    }
    let amount = match parse_u64(s.amount_raw.as_str()) {
        Some(a) => a,
        None => return Err(FeeSweepError::Storage(String::from_str("invalid persisted sweep amount"))),
    };
    if s.transaction_hash.is_none() {
        Ok(SweepNext::Send(amount))
    } else {
        Ok(SweepNext::Complete)
    }
}

/// What recording the wallet's answer `sent` for sweep `id` does (`None`
/// when nothing had to be sent): a transaction hash confirms the sweep and
/// it completes; a failure marks it failed and is handed on.
pub open spec fn settle_sweep_post(
    old: RetailLedger,
    id: Seq<char>,
    sent: Option<Result<String, FeeSweepError>>,
    now: u64,
    new: RetailLedger,
    r: Result<FeeSweep, FeeSweepError>,
) -> bool {
    match sent {
        None => complete_sweep_post(old, id, now, new, r),
        Some(Ok(hash)) => exists|mid: RetailLedger, c: Result<FeeSweep, FeeSweepError>|
            #[trigger] confirm_sweep_post(old, id, hash@, now, mid, c) && match c {
                Ok(_) => complete_sweep_post(mid, id, now, new, r),
                Err(x) => new == mid && r == Err::<FeeSweep, FeeSweepError>(x),
            },
        Some(Err(e)) => fail_sweep_post(old, id, fee_sweep_error_text(e), now, new) && r == Err::<
            FeeSweep,
            FeeSweepError,
        >(e),
    }
}

/// Records the wallet's answer to sweep `id` in the register and completes
/// the sweep when the transfer went through.
pub fn settle_fee_sweep(
    ledger: &mut RetailLedger,
    id: &str,
    sent: Option<Result<String, FeeSweepError>>,
    now: u64,
) -> (r: Result<FeeSweep, FeeSweepError>)
    requires
        old(ledger).wf(),
    ensures
        final(ledger).wf(),
        settle_sweep_post(*old(ledger), id@, sent, now, *final(ledger), r),
{
    match sent {
        None => ledger.complete_fee_sweep(id, now),
        Some(Ok(hash)) => {
            let c = ledger.confirm_fee_sweep(id, hash.as_str(), now);
            let ghost mid = *ledger;
            assert(confirm_sweep_post(*old(ledger), id@, hash@, now, mid, c));
            match c {
                Ok(_) => ledger.complete_fee_sweep(id, now),
                Err(x) => Err(x),
            }
        },
        Some(Err(e)) => {
            let message = e.message();
            ledger.fail_fee_sweep(id, message.as_str(), now);
            Err(e)
        },
    }
}

} // verus!
