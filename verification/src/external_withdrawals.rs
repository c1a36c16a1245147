//! Withdrawals of rUSD from a client's position to an external address: the
//! checks a request passes, the 1 % fee, and what follows each answer of the
//! hot wallet.
use crate::account_restrictions::{restricted, AccountRestrictionRegister};
use crate::ledger::withdrawals::{
    complete_withdrawal_post, confirm_withdrawal_post, fail_withdrawal_post, uncertain_withdrawal_post,
};
use crate::ledger::{position_index, RetailLedger};
use crate::blacklist::{normalized, AddressBlacklistRegister};
use crate::chain::{checksummed, checksummed_address};
use crate::retail_application::{valid_operation_id, whole_cents};
use crate::statements::is_demo_client;
use crate::text::{str_byte_len, str_eq, str_is_blank};
use vstd::prelude::*;

verus! {

/// Raw token units in one USD cent.
pub const UNITS_PER_CENT: u64 = 10_000;

/// The withdrawal fee is the amount divided by this: 1 % in rUSD.
pub const EXTERNAL_FEE_DIVISOR: u64 = 100;

/// A withdrawal as the API hands it out.
#[derive(Debug, Clone, PartialEq, Eq)]
pub struct ExternalWithdrawal {
    pub operation_id: String,
    pub client_id: String,
    pub destination_address: String,
    pub amount_raw: String,
    pub fee_raw: String,
    pub total_debit_raw: String,
    pub status: String,
    pub transaction_hash: Option<String>,
    pub last_error: Option<String>,
    pub created_at_unix_ms: u64,
    pub updated_at_unix_ms: u64,
}

/// Failures of external withdrawals.
#[derive(Debug)]
pub enum ExternalWithdrawalError {
    Invalid(String),
    IdempotencyConflict,
    InsufficientBalance,
    InsufficientHotWalletBalance,
    BlacklistedAddress(String),
    AccountRestricted(String),
    Storage(String),
    Wallet(String),
    SubmissionUncertain(String),
    Reconciliation(String),
}

/// The text of a withdrawal failure.
pub open spec fn withdrawal_error_text(e: ExternalWithdrawalError) -> Seq<char> {
    match e {
        ExternalWithdrawalError::Invalid(m) => "invalid external withdrawal: "@ + m@,
        ExternalWithdrawalError::IdempotencyConflict => "external withdrawal conflicts with an existing operation"@,
        ExternalWithdrawalError::InsufficientBalance => "insufficient client balance for amount and 1% fee"@,
        ExternalWithdrawalError::InsufficientHotWalletBalance => "insufficient rUSD liquidity in the CASP hot wallet"@,
        ExternalWithdrawalError::BlacklistedAddress(m) => "external withdrawal rejected because address is blacklisted: "@
            + m@,
        ExternalWithdrawalError::AccountRestricted(m) => "konto klienta jest zablokowane: "@ + m@,
        ExternalWithdrawalError::Storage(m) => "external withdrawal persistence failed: "@ + m@,
        ExternalWithdrawalError::Wallet(m) => "hot-wallet transfer failed: "@ + m@,
        ExternalWithdrawalError::SubmissionUncertain(m) => "wynik wysłania transakcji z portfela gorącego jest niejednoznaczny: "@
            + m@,
        ExternalWithdrawalError::Reconciliation(m) => "custody reconciliation failed: "@ + m@,
    }
}

impl ExternalWithdrawalError {
    /// The failure as it is reported.
    pub fn message(&self) -> (r: String)
        ensures
            r@ == withdrawal_error_text(*self),
    {
        match self {
            ExternalWithdrawalError::Invalid(m) => String::from_str("invalid external withdrawal: ").concat(
                m.as_str(),
            ),
            ExternalWithdrawalError::IdempotencyConflict => String::from_str(
                "external withdrawal conflicts with an existing operation",
            ),
            ExternalWithdrawalError::InsufficientBalance => String::from_str(
                "insufficient client balance for amount and 1% fee",
            ),
            ExternalWithdrawalError::InsufficientHotWalletBalance => String::from_str(
                "insufficient rUSD liquidity in the CASP hot wallet",
            ),
            ExternalWithdrawalError::BlacklistedAddress(m) => String::from_str(
                "external withdrawal rejected because address is blacklisted: ",
            ).concat(m.as_str()),
            ExternalWithdrawalError::AccountRestricted(m) => String::from_str(
                "konto klienta jest zablokowane: ",
            ).concat(m.as_str()),
            ExternalWithdrawalError::Storage(m) => String::from_str(
                "external withdrawal persistence failed: ",
            ).concat(m.as_str()),
            ExternalWithdrawalError::Wallet(m) => String::from_str("hot-wallet transfer failed: ").concat(
                m.as_str(),
            ),
            ExternalWithdrawalError::SubmissionUncertain(m) => String::from_str(
                "wynik wysłania transakcji z portfela gorącego jest niejednoznaczny: ",
            ).concat(m.as_str()),
            ExternalWithdrawalError::Reconciliation(m) => String::from_str(
                "custody reconciliation failed: ",
            ).concat(m.as_str()),
        }
    }
}

/// The name under which a demonstration client is shown to people.
pub open spec fn display_name(client: Seq<char>) -> Seq<char> {
    if client == "alice"@ {
        "Alicja"@
    } else if client == "bob"@ {
        "Bartosz"@
    } else if client == "carol"@ {
        "Karolina"@
    } else {
        client
    }
}

/// The name under which a client is shown to people.
pub fn client_display_name(client: &str) -> (r: &str)
    ensures
        r@ == display_name(client@),
{
    if str_eq(client, "alice") {
        "Alicja"
    } else if str_eq(client, "bob") {
        "Bartosz"
    } else if str_eq(client, "carol") {
        "Karolina"
    } else {
        client
    }
}

/// The fee of a withdrawal of `amount`: 1 %, rounded down.
pub open spec fn withdrawal_fee(amount: u64) -> u64 {
    amount / EXTERNAL_FEE_DIVISOR
}

/// Law: the withdrawal fee is one percent of the amount. For every amount the
/// fee is the largest whole number of raw units whose hundredfold does not
/// exceed the amount, and for an amount of whole cents (every amount a
/// withdrawal accepts) a hundred times the fee is exactly the amount, so the
/// client is debited a hundred and one hundredths of the amount.
pub proof fn lemma_withdrawal_fee_is_one_percent(amount: u64)
    ensures
        withdrawal_fee(amount) * 100 <= amount < (withdrawal_fee(amount) + 1) * 100,
        amount % 10_000 == 0 ==> withdrawal_fee(amount) * 100 == amount,
        amount % 10_000 == 0 ==> (amount + withdrawal_fee(amount)) * 100 == amount * 101,
{
    let f = withdrawal_fee(amount) as int;
    let a = amount as int;
    assert(f == a / 100);
    assert(f * 100 <= a < (f + 1) * 100) by (nonlinear_arith)
        requires
            f == a / 100,
    ;
    if amount % 10_000 == 0 {
        assert(f * 100 == a) by (nonlinear_arith)
            requires
                f == a / 100,
                a % 10_000 == 0,
        ;
    }
}

/// A request that passed its checks: the destination in checksummed form,
/// the client's own wallet and the fee.
#[derive(Debug)]
pub struct CheckedWithdrawal {
    pub destination: String,
    pub source: String,
    pub fee_raw: u64,
}

/// Checks a withdrawal request: the account is not restricted, the client is
/// a demonstration client, the operation ID is valid, the amount is a
/// positive number of whole cents, the destination is an Ethereum address,
/// and neither the client's wallet (as `ledger` holds it) nor the
/// destination is blacklisted.
pub fn check_withdrawal(
    restrictions: &AccountRestrictionRegister,
    blacklist: &AddressBlacklistRegister,
    ledger: &RetailLedger,
    client: &str,
    operation: &str,
    destination: &str,
    amount: u64,
) -> (r: Result<CheckedWithdrawal, ExternalWithdrawalError>)
    requires
        restrictions.wf(),
        blacklist.wf(),
        ledger.wf(),
    ensures
        r matches Ok(c) ==> c.fee_raw * 100 == amount && amount % 10_000 == 0 && amount > 0,
        restricted(restrictions.rows(), client@) ==> (r matches Err(ExternalWithdrawalError::AccountRestricted(n))
            && n@ == display_name(client@)),
        !restricted(restrictions.rows(), client@) ==> {
            if !is_demo_client(client@) {
                r matches Err(ExternalWithdrawalError::Invalid(m)) && m@ == "unknown demo client"@
            } else if !valid_operation_id(operation@) {
                r matches Err(ExternalWithdrawalError::Invalid(m)) && m@
                    == "operationId must contain 1-128 characters"@
            } else if !whole_cents(amount) {
                r matches Err(ExternalWithdrawalError::Invalid(m)) && m@
                    == "tokenAmountRaw must represent positive whole USD cents"@
            } else if checksummed_address(destination@) is None {
                r matches Err(ExternalWithdrawalError::Invalid(m)) && m@
                    == "destinationAddress must be a valid Ethereum address"@
            } else {
                match position_index(ledger.positions(), client@) {
                    None => r matches Err(ExternalWithdrawalError::Storage(_)),
                    Some(k) => {
                        let wallet = ledger.positions()[k].wallet_address@;
                        match normalized(wallet) {
                            None => r matches Err(ExternalWithdrawalError::Storage(_)),
                            Some(key) => if blacklist.holds(key) {
                                r matches Err(ExternalWithdrawalError::BlacklistedAddress(a)) && a@ == wallet
                            } else {
                                let d = checksummed_address(destination@)->Some_0;
                                match normalized(d) {
                                    None => r matches Err(ExternalWithdrawalError::Storage(_)),
                                    Some(dk) => if blacklist.holds(dk) {
                                        r matches Err(ExternalWithdrawalError::BlacklistedAddress(a)) && a@ == d
                                    } else {
                                        r matches Ok(c) && c.destination@ == d && c.source@ == wallet
                                            && c.fee_raw == withdrawal_fee(amount)
                                    },
                                }
                            },
                        }
                    },
                }
            }
        },
{
    if restrictions.restricted_now(client) {
        return Err(ExternalWithdrawalError::AccountRestricted(client_display_name(client).to_owned()));
    }
    if !crate::statements::demo_client(client) {
        return Err(ExternalWithdrawalError::Invalid(String::from_str("unknown demo client")));
    }
    if str_is_blank(operation) || str_byte_len(operation) > 128 {
        return Err(ExternalWithdrawalError::Invalid(String::from_str("operationId must contain 1-128 characters")));
    }
    if amount == 0 || amount % UNITS_PER_CENT != 0 {
        return Err(
            ExternalWithdrawalError::Invalid(
                String::from_str("tokenAmountRaw must represent positive whole USD cents"),
            ),
        );
    }
    let destination = match checksummed(destination) {
        Some(d) => d,
        None => {
            return Err(
                ExternalWithdrawalError::Invalid(
                    String::from_str("destinationAddress must be a valid Ethereum address"),
                ),
            )
        },
    };
    let source = ledger.client_wallet(client)?;
    match blacklist.contains(source.as_str()) {
        Ok(true) => return Err(ExternalWithdrawalError::BlacklistedAddress(source)),
        Ok(false) => {},
        Err(e) => return Err(ExternalWithdrawalError::Storage(e.message())),
    }
    match blacklist.contains(destination.as_str()) {
        Ok(true) => return Err(ExternalWithdrawalError::BlacklistedAddress(destination)),
        Ok(false) => {},
        Err(e) => return Err(ExternalWithdrawalError::Storage(e.message())),
    }
    assert((amount / 100) * 100 == amount) by (nonlinear_arith)
        requires
            amount % 10_000 == 0,
    ;
    Ok(CheckedWithdrawal { destination, source, fee_raw: amount / EXTERNAL_FEE_DIVISOR })
}

/// What follows once the register has answered a withdrawal's start.
#[derive(Debug)]
pub enum WithdrawalNext {
    /// The withdrawal is complete already; hand it back.
    Done(ExternalWithdrawal),
    /// The chain confirmed it before; complete it in the register.
    Complete,
    /// Ask the hot wallet to send the amount.
    Send,
}

/// The message given when a withdrawal's outcome awaits a person and no
/// failure text was recorded.
pub open spec fn manual_confirmation_text() -> Seq<char> {
    "wymaga ręcznego potwierdzenia transakcji"@
}

proof fn lemma_status_texts_differ()
    ensures
        "completed"@ != "chain_confirmed"@,
        "completed"@ != "submission_uncertain"@,
        "completed"@ != "pending_chain"@,
        "chain_confirmed"@ != "submission_uncertain"@,
        "chain_confirmed"@ != "pending_chain"@,
        "submission_uncertain"@ != "pending_chain"@,
{
    reveal_strlit("completed");
    reveal_strlit("chain_confirmed");
    reveal_strlit("submission_uncertain");
    reveal_strlit("pending_chain");
    assert("completed"@.len() == 9);
    assert("chain_confirmed"@.len() == 15);
    assert("submission_uncertain"@.len() == 20);
    assert("pending_chain"@.len() == 13);
}

/// Decides from the status the register reports what a withdrawal needs next.
pub fn withdrawal_next(w: ExternalWithdrawal) -> (r: Result<WithdrawalNext, ExternalWithdrawalError>)
    ensures
        w.status@ == "completed"@ ==> (r matches Ok(WithdrawalNext::Done(x)) && x == w),
        w.status@ == "chain_confirmed"@ ==> r matches Ok(WithdrawalNext::Complete),
        w.status@ == "submission_uncertain"@ ==> (r matches Err(ExternalWithdrawalError::SubmissionUncertain(m))
            && m@ == match w.last_error {
            Some(e) => e@,
            None => manual_confirmation_text(),
        }),
        w.status@ == "pending_chain"@ ==> r matches Ok(WithdrawalNext::Send),
        w.status@ != "completed"@ && w.status@ != "chain_confirmed"@ && w.status@ != "submission_uncertain"@
            && w.status@ != "pending_chain"@ ==> r matches Err(ExternalWithdrawalError::IdempotencyConflict),
{
    proof {
        lemma_status_texts_differ();
    }
    if str_eq(w.status.as_str(), "completed") {
        return Ok(WithdrawalNext::Done(w));
    }
    if str_eq(w.status.as_str(), "chain_confirmed") {
        return Ok(WithdrawalNext::Complete);
    }
    if str_eq(w.status.as_str(), "submission_uncertain") {
        let message = match w.last_error {
            Some(e) => e,
            None => String::from_str("wymaga ręcznego potwierdzenia transakcji"),
        };
        return Err(ExternalWithdrawalError::SubmissionUncertain(message));
    }
    if !str_eq(w.status.as_str(), "pending_chain") {
        return Err(ExternalWithdrawalError::IdempotencyConflict);
    }
    Ok(WithdrawalNext::Send)
}

/// What recording the hot wallet's answer `sent` for withdrawal `id` does:
/// a transaction hash confirms and completes the withdrawal; an uncertain
/// submission keeps the lock for a person to resolve; any other failure
/// returns the locked total to the client. The wallet's failure is handed on.
pub open spec fn settle_withdrawal_post(
    old: RetailLedger,
    id: Seq<char>,
    sent: Result<String, ExternalWithdrawalError>,
    contract: Seq<char>,
    chain: u64,
    now: u64,
    new: RetailLedger,
    r: Result<ExternalWithdrawal, ExternalWithdrawalError>,
) -> bool {
    match sent {
        Ok(hash) => exists|mid: RetailLedger|
            confirm_withdrawal_post(old, id, hash@, now, mid) && #[trigger] complete_withdrawal_post(
                mid,
                id,
                contract,
                chain,
                now,
                new,
                r,
            ),
        Err(e) => match e {
            ExternalWithdrawalError::SubmissionUncertain(_) => uncertain_withdrawal_post(
                old,
                id,
                withdrawal_error_text(e),
                now,
                new,
            ) && r == Err::<ExternalWithdrawal, ExternalWithdrawalError>(e),
            _ => exists|f: Result<(), ExternalWithdrawalError>|
                #[trigger] fail_withdrawal_post(old, id, withdrawal_error_text(e), now, new, f) && match f {
                    Ok(_) => r == Err::<ExternalWithdrawal, ExternalWithdrawalError>(e),
                    Err(x) => r == Err::<ExternalWithdrawal, ExternalWithdrawalError>(x),
                },
        },
    }
}

/// Records the hot wallet's answer to withdrawal `id` in the register.
pub fn settle_withdrawal(
    ledger: &mut RetailLedger,
    id: &str,
    sent: Result<String, ExternalWithdrawalError>,
    contract: &str,
    chain: u64,
    now: u64,
) -> (r: Result<ExternalWithdrawal, ExternalWithdrawalError>)
    requires
        old(ledger).wf(),
    ensures
        final(ledger).wf(),
        settle_withdrawal_post(*old(ledger), id@, sent, contract@, chain, now, *final(ledger), r),
{
    match sent {
        Ok(hash) => {
            ledger.confirm_withdrawal(id, hash.as_str(), now);
            let ghost mid = *ledger;
            let r = ledger.complete_withdrawal(id, contract, chain, now);
            assert(complete_withdrawal_post(mid, id@, contract@, chain, now, *ledger, r));
            r
        },
        Err(e) => {
            let message = e.message();
            match e {
                ExternalWithdrawalError::SubmissionUncertain(_) => {
                    ledger.mark_withdrawal_uncertain(id, message.as_str(), now);
                    Err(e)
                },
                _ => {
                    let f = ledger.fail_withdrawal(id, message.as_str(), now);
                    assert(fail_withdrawal_post(*old(ledger), id@, message@, now, *ledger, f));
                    match f {
                        Ok(()) => Err(e),
                        Err(x) => Err(x),
                    }
                },
            }
        },
    }
}

} // verus!
