//! The custody bootstrap: its fixed amounts, errors and the order of its steps.
use crate::decimal::{decimal_nat, u64_to_string};
use crate::domain::{BootstrapStatus, WalletBalances};
use vstd::prelude::*;

verus! {

/// USD cents paid to the issuer for the initial custody pool.
pub const PURCHASE_USD_MINOR: u64 = 1_000_000;

/// Raw token units issued for the initial custody pool.
pub const PURCHASE_TOKEN_RAW: u64 = 10_000_000_000;

/// Raw token units that end up in the cold wallet (80 %).
pub const COLD_TARGET_RAW: u64 = 8_000_000_000;

/// Raw token units that stay in the hot wallet (20 %).
pub const HOT_TARGET_RAW: u64 = 2_000_000_000;

/// What the issuer reports once it has issued the ordered tokens.
#[derive(Debug, Clone)]
pub struct IssuerOrder {
    pub transaction_hash: Option<String>,
}

/// Failures of the bootstrap and of the gateways it drives.
#[derive(Debug)]
pub enum BootstrapError {
    Storage(String),
    Issuer(String),
    IssuanceBlocked,
    Bank(String),
    Wallet(String),
    Reconciliation(String),
    NotStarted,
}

/// The text of a bootstrap failure.
pub open spec fn bootstrap_error_text(e: BootstrapError) -> Seq<char> {
    match e {
        BootstrapError::Storage(m) => "CASP persistence failed: "@ + m@,
        BootstrapError::Issuer(m) => "issuer request failed: "@ + m@,
        BootstrapError::IssuanceBlocked => "Emisja rUSD jest obecnie zablokowana przez emitenta."@,
        BootstrapError::Bank(m) => "bank transfer failed: "@ + m@,
        BootstrapError::Wallet(m) => "wallet operation failed: "@ + m@,
        BootstrapError::Reconciliation(m) => "bootstrap reconciliation failed: "@ + m@,
        BootstrapError::NotStarted => "bootstrap has not been started"@,
    }
}

impl BootstrapError {
    /// The failure as it is reported.
    pub fn message(&self) -> (r: String)
        ensures
            r@ == bootstrap_error_text(*self),
    {
        match self {
            BootstrapError::Storage(m) => String::from_str("CASP persistence failed: ").concat(m.as_str()),
            BootstrapError::Issuer(m) => String::from_str("issuer request failed: ").concat(m.as_str()),
            BootstrapError::IssuanceBlocked => String::from_str("Emisja rUSD jest obecnie zablokowana przez emitenta."),
            BootstrapError::Bank(m) => String::from_str("bank transfer failed: ").concat(m.as_str()),
            BootstrapError::Wallet(m) => String::from_str("wallet operation failed: ").concat(m.as_str()),
            BootstrapError::Reconciliation(m) => String::from_str("bootstrap reconciliation failed: ").concat(m.as_str()),
            BootstrapError::NotStarted => String::from_str("bootstrap has not been started"),
        }
    }
}

/// The next outside action of a bootstrap, chosen from its persisted status.
#[derive(Debug, Clone, Copy, PartialEq, Eq, Structural)]
pub enum BootstrapStep {
    /// Ask the issuer for an order that mints to the hot wallet.
    CreateIssuerOrder,
    /// Pay the issuer's order from the bank.
    SendFiat,
    /// Let the issuer settle the order and issue the tokens.
    SettleIssuerOrder,
    /// Move the cold share from the hot wallet and check the 20/80 balances.
    DistributeCold,
    /// Nothing left to do.
    Finished,
}

/// The step that a bootstrap in `status` takes next (a failed one starts over).
pub open spec fn spec_bootstrap_step(status: BootstrapStatus) -> BootstrapStep {
    match status {
        BootstrapStatus::Created | BootstrapStatus::Failed => BootstrapStep::CreateIssuerOrder,
        BootstrapStatus::IssuerOrderCreated => BootstrapStep::SendFiat,
        BootstrapStatus::FiatSent => BootstrapStep::SettleIssuerOrder,
        BootstrapStatus::TokensIssued => BootstrapStep::DistributeCold,
        BootstrapStatus::Distributed => BootstrapStep::Finished,
    }
}

/// The status that a successful `step` records.
pub open spec fn spec_bootstrap_status_after(step: BootstrapStep) -> BootstrapStatus {
    match step {
        BootstrapStep::CreateIssuerOrder => BootstrapStatus::IssuerOrderCreated,
        BootstrapStep::SendFiat => BootstrapStatus::FiatSent,
        BootstrapStep::SettleIssuerOrder => BootstrapStatus::TokensIssued,
        BootstrapStep::DistributeCold | BootstrapStep::Finished => BootstrapStatus::Distributed,
    }
}

/// Chooses the next outside action of a bootstrap from its persisted status.
pub fn bootstrap_step(status: BootstrapStatus) -> (r: BootstrapStep)
    ensures
        r == spec_bootstrap_step(status),
{
    match status {
        BootstrapStatus::Created | BootstrapStatus::Failed => BootstrapStep::CreateIssuerOrder,
        BootstrapStatus::IssuerOrderCreated => BootstrapStep::SendFiat,
        BootstrapStatus::FiatSent => BootstrapStep::SettleIssuerOrder,
        BootstrapStatus::TokensIssued => BootstrapStep::DistributeCold,
        BootstrapStatus::Distributed => BootstrapStep::Finished,
    }
}

/// The status that a successful `step` records.
pub fn bootstrap_status_after(step: BootstrapStep) -> (r: BootstrapStatus)
    ensures
        r == spec_bootstrap_status_after(step),
{
    match step {
        BootstrapStep::CreateIssuerOrder => BootstrapStatus::IssuerOrderCreated,
        BootstrapStep::SendFiat => BootstrapStatus::FiatSent,
        BootstrapStep::SettleIssuerOrder => BootstrapStatus::TokensIssued,
        BootstrapStep::DistributeCold | BootstrapStep::Finished => BootstrapStatus::Distributed,
    }
}

/// How far a bootstrap has come; a failed one counts as not started.
pub open spec fn bootstrap_rank(status: BootstrapStatus) -> nat {
    match status {
        BootstrapStatus::Created | BootstrapStatus::Failed => 0,
        BootstrapStatus::IssuerOrderCreated => 1,
        BootstrapStatus::FiatSent => 2,
        BootstrapStatus::TokensIssued => 3,
        BootstrapStatus::Distributed => 4,
    }
}

/// The position of a step in the bootstrap's sequence.
pub open spec fn bootstrap_step_rank(step: BootstrapStep) -> nat {
    match step {
        BootstrapStep::CreateIssuerOrder => 0,
        BootstrapStep::SendFiat => 1,
        BootstrapStep::SettleIssuerOrder => 2,
        BootstrapStep::DistributeCold => 3,
        BootstrapStep::Finished => 4,
    }
}

/// `n` successful steps from `status`.
pub open spec fn bootstrap_after_steps(status: BootstrapStatus, n: nat) -> BootstrapStatus
    decreases n,
{
    if n == 0 {
        status
    } else {
        bootstrap_after_steps(spec_bootstrap_status_after(spec_bootstrap_step(status)), (n - 1) as nat)
    }
}

proof fn lemma_bootstrap_run_rank(status: BootstrapStatus, i: nat)
    requires
        i <= 4 - bootstrap_rank(status),
    ensures
        bootstrap_rank(bootstrap_after_steps(status, i)) == bootstrap_rank(status) + i,
        bootstrap_step_rank(spec_bootstrap_step(bootstrap_after_steps(status, i))) == bootstrap_rank(status)
            + i,
    decreases i,
{
    if i > 0 {
        lemma_bootstrap_run_rank(spec_bootstrap_status_after(spec_bootstrap_step(status)), (i - 1) as nat);
    }
}

/// Law: every step of an unfinished bootstrap moves it exactly one status
/// forward, a failed one starts over with a new issuer order, a distributed
/// one takes no further action, and any bootstrap is distributed after the
/// steps it has left.
pub proof fn lemma_bootstrap_steps_progress(status: BootstrapStatus)
    ensures
        status != BootstrapStatus::Distributed ==> bootstrap_rank(
            spec_bootstrap_status_after(spec_bootstrap_step(status)),
        ) == bootstrap_rank(status) + 1,
        status == BootstrapStatus::Failed ==> spec_bootstrap_step(status) == BootstrapStep::CreateIssuerOrder,
        status == BootstrapStatus::Distributed <==> spec_bootstrap_step(status) == BootstrapStep::Finished,
        bootstrap_after_steps(status, (4 - bootstrap_rank(status)) as nat) == BootstrapStatus::Distributed,
{
    lemma_bootstrap_run_rank(status, (4 - bootstrap_rank(status)) as nat);
}

/// Law: along a run of successful steps, no outside action is taken twice:
/// the issuer order is created, the fiat sent, the order settled and the cold
/// share moved at most once each.
pub proof fn lemma_bootstrap_steps_once(status: BootstrapStatus, i: nat, j: nat)
    requires
        i < j <= 4 - bootstrap_rank(status),
    ensures
        spec_bootstrap_step(bootstrap_after_steps(status, i)) != spec_bootstrap_step(
            bootstrap_after_steps(status, j),
        ),
{
    lemma_bootstrap_run_rank(status, i);
    lemma_bootstrap_run_rank(status, j);
}

/// Law: a run from `status` to distribution takes an outside action if and
/// only if that action's place is at or after the place of `status`: a new or
/// failed bootstrap creates the issuer order, sends the fiat, settles and moves
/// the cold share; one resumed later skips what was already done; a
/// distributed one takes none.
pub proof fn lemma_bootstrap_run_calls(status: BootstrapStatus, step: BootstrapStep)
    requires
        step != BootstrapStep::Finished,
    ensures
        (exists|i: nat|
            i < 4 - bootstrap_rank(status) && spec_bootstrap_step(#[trigger] bootstrap_after_steps(status, i))
                == step) <==> bootstrap_rank(status) <= bootstrap_step_rank(step),
{
    if bootstrap_rank(status) <= bootstrap_step_rank(step) {
        let i: nat = (bootstrap_step_rank(step) - bootstrap_rank(status)) as nat;
        lemma_bootstrap_run_rank(status, i);
        let taken = spec_bootstrap_step(bootstrap_after_steps(status, i));
        assert(taken == step) by {
            assert(bootstrap_step_rank(taken) == bootstrap_step_rank(step));
        }
    }
    if exists|i: nat|
        i < 4 - bootstrap_rank(status) && spec_bootstrap_step(#[trigger] bootstrap_after_steps(status, i))
            == step {
        let i = choose|i: nat|
            i < 4 - bootstrap_rank(status) && spec_bootstrap_step(#[trigger] bootstrap_after_steps(status, i))
                == step;
        lemma_bootstrap_run_rank(status, i);
    }
}

/// The hot and cold balances after distribution are exactly 2000 and 8000 rUSD.
pub open spec fn spec_bootstrap_balanced(balances: WalletBalances) -> bool {
    balances.hot_raw@ == decimal_nat(HOT_TARGET_RAW as nat) && balances.cold_raw@ == decimal_nat(
        COLD_TARGET_RAW as nat,
    )
}

/// Checks the wallet balances read after distribution against the 20/80 targets;
/// corporate funds are not part of the check.
pub fn check_bootstrap_balances(balances: &WalletBalances) -> (r: Result<(), BootstrapError>)
    ensures
        r is Ok <==> spec_bootstrap_balanced(*balances),
        r is Err ==> r->Err_0 is Reconciliation,
{
    let hot = u64_to_string(HOT_TARGET_RAW);
    let cold = u64_to_string(COLD_TARGET_RAW);
    if balances.hot_raw != hot || balances.cold_raw != cold {
        return Err(
            BootstrapError::Reconciliation(
                String::from_str("wallet balances do not match the 2000/8000 hot/cold target"),
            ),
        );
    }
    Ok(())
}

/// The text under which a bootstrap status is stored.
pub open spec fn spec_bootstrap_status_text(status: BootstrapStatus) -> Seq<char> {
    match status {
        BootstrapStatus::Created => "created"@,
        BootstrapStatus::IssuerOrderCreated => "issuer_order_created"@,
        BootstrapStatus::FiatSent => "fiat_sent"@,
        BootstrapStatus::TokensIssued => "tokens_issued"@,
        BootstrapStatus::Distributed => "distributed"@,
        BootstrapStatus::Failed => "failed"@,
    }
}

/// The text under which a bootstrap status is stored.
pub fn bootstrap_status_text(status: BootstrapStatus) -> (r: &'static str)
    ensures
        r@ == spec_bootstrap_status_text(status),
{
    match status {
        BootstrapStatus::Created => "created",
        BootstrapStatus::IssuerOrderCreated => "issuer_order_created",
        BootstrapStatus::FiatSent => "fiat_sent",
        BootstrapStatus::TokensIssued => "tokens_issued",
        BootstrapStatus::Distributed => "distributed",
        BootstrapStatus::Failed => "failed",
    }
}

/// Reads a stored bootstrap status; any unknown text counts as `Failed`.
pub fn parse_bootstrap_status(value: &str) -> (r: BootstrapStatus)
    ensures
        value@ == "created"@ ==> r == BootstrapStatus::Created,
        value@ == "issuer_order_created"@ ==> r == BootstrapStatus::IssuerOrderCreated,
        value@ == "fiat_sent"@ ==> r == BootstrapStatus::FiatSent,
        value@ == "tokens_issued"@ ==> r == BootstrapStatus::TokensIssued,
        value@ == "distributed"@ ==> r == BootstrapStatus::Distributed,
        value@ != "created"@ && value@ != "issuer_order_created"@ && value@ != "fiat_sent"@
            && value@ != "tokens_issued"@ && value@ != "distributed"@ ==> r
            == BootstrapStatus::Failed,
{
    proof {
        lemma_bootstrap_texts_distinct();
    }
    if crate::text::str_eq(value, "created") {
        BootstrapStatus::Created
    } else if crate::text::str_eq(value, "issuer_order_created") {
        BootstrapStatus::IssuerOrderCreated
    } else if crate::text::str_eq(value, "fiat_sent") {
        BootstrapStatus::FiatSent
    } else if crate::text::str_eq(value, "tokens_issued") {
        BootstrapStatus::TokensIssued
    } else if crate::text::str_eq(value, "distributed") {
        BootstrapStatus::Distributed
    } else {
        BootstrapStatus::Failed
    }
}

/// Law: a stored bootstrap status reads back as itself.
pub proof fn lemma_bootstrap_status_round_trip(status: BootstrapStatus, text: Seq<char>)
    requires
        text == spec_bootstrap_status_text(status),
    ensures
        text == "created"@ ==> status == BootstrapStatus::Created,
        text == "issuer_order_created"@ ==> status == BootstrapStatus::IssuerOrderCreated,
        text == "fiat_sent"@ ==> status == BootstrapStatus::FiatSent,
        text == "tokens_issued"@ ==> status == BootstrapStatus::TokensIssued,
        text == "distributed"@ ==> status == BootstrapStatus::Distributed,
        text == "failed"@ ==> status == BootstrapStatus::Failed,
{
    lemma_bootstrap_texts_distinct();
}

proof fn lemma_bootstrap_texts_distinct()
    ensures
        "created"@.len() == 7,
        "issuer_order_created"@.len() == 20,
        "fiat_sent"@.len() == 9,
        "tokens_issued"@.len() == 13,
        "distributed"@.len() == 11,
        "failed"@.len() == 6,
{
    reveal_strlit("created");
    reveal_strlit("issuer_order_created");
    reveal_strlit("fiat_sent");
    reveal_strlit("tokens_issued");
    reveal_strlit("distributed");
    reveal_strlit("failed");
}

} // verus!
