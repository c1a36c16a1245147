//! Replenishment of the CASP inventory and its 20/80 hot/cold policy.
use crate::application::{bootstrap_error_text, BootstrapError};
use crate::decimal::{decimal_nat, parse_u64, spec_parse_u64, u64_to_string};
use crate::domain::WalletBalances;
use crate::text::{is_blank, str_eq, str_is_blank};
use vstd::prelude::*;

verus! {

/// Raw token units in one USD cent (the token has six decimals).
pub const TOKEN_UNITS_PER_CENT: u64 = 10_000;

/// Version tag of the manual 20/80 inventory policy.
pub const POLICY_VERSION: &'static str = "casp-manual-inventory-20-80-v1";

/// Progress of one inventory replenishment.
#[derive(Debug, Clone, Copy, PartialEq, Eq, Structural)]
pub enum InventoryStatus {
    Created,
    IssuerOrderCreated,
    FiatSent,
    TokensIssued,
    TargetsRecorded,
    ColdDistributed,
    Completed,
}

/// A persisted replenishment: the amount bought, its split and its evidence.
#[derive(Debug, Clone)]
pub struct InventoryOperation {
    pub operation_id: String,
    pub status: InventoryStatus,
    pub amount_usd_minor: String,
    pub token_amount_raw: String,
    pub hot_increment_raw: String,
    pub cold_increment_raw: String,
    pub hot_target_raw: Option<String>,
    pub cold_target_raw: Option<String>,
    pub issuer_transaction_hash: Option<String>,
    pub cold_transaction_hash: Option<String>,
    pub hot_transaction_hash: Option<String>,
    pub last_error: Option<String>,
    pub created_at_unix_ms: u64,
    pub updated_at_unix_ms: u64,
}

/// Failures of inventory replenishment and rebalancing.
#[derive(Debug)]
pub enum InventoryError {
    Invalid(String),
    IdempotencyConflict,
    Overflow,
    Storage(String),
    Bootstrap(BootstrapError),
    Ledger(String),
    Reconciliation(String),
}

/// The text of a inventory failure.
pub open spec fn inventory_error_text(e: InventoryError) -> Seq<char> {
    match e {
        InventoryError::Invalid(m) => "invalid inventory request: "@ + m@,
        InventoryError::IdempotencyConflict => "inventory operation conflicts with the persisted request"@,
        InventoryError::Overflow => "inventory amount overflow"@,
        InventoryError::Storage(m) => "inventory persistence failed: "@ + m@,
        InventoryError::Bootstrap(inner) => bootstrap_error_text(inner),
        InventoryError::Ledger(m) => "inventory ledger update failed: "@ + m@,
        InventoryError::Reconciliation(m) => "inventory reconciliation failed: "@ + m@,
    }
}

impl InventoryError {
    /// The failure as it is reported.
    pub fn message(&self) -> (r: String)
        ensures
            r@ == inventory_error_text(*self),
    {
        match self {
            InventoryError::Invalid(m) => String::from_str("invalid inventory request: ").concat(m.as_str()),
            InventoryError::IdempotencyConflict => String::from_str("inventory operation conflicts with the persisted request"),
            InventoryError::Overflow => String::from_str("inventory amount overflow"),
            InventoryError::Storage(m) => String::from_str("inventory persistence failed: ").concat(m.as_str()),
            InventoryError::Bootstrap(inner) => inner.message(),
            InventoryError::Ledger(m) => String::from_str("inventory ledger update failed: ").concat(m.as_str()),
            InventoryError::Reconciliation(m) => String::from_str("inventory reconciliation failed: ").concat(m.as_str()),
        }
    }
}

/// The split of a purchase of `amount_minor` cents: total raw units, the hot
/// fifth (rounded down) and the cold rest; `None` when the total overflows.
pub open spec fn spec_allocation(amount_minor: u64) -> Option<(u64, u64, u64)> {
    let total = amount_minor * TOKEN_UNITS_PER_CENT;
    if total <= u64::MAX {
        Some((total as u64, (total / 5) as u64, (total - total / 5) as u64))
    } else {
        None
    }
}

/// Splits a purchase of `amount_minor` USD cents into raw token units:
/// `(total, hot, cold)` with `hot = total / 5` and `cold = total - hot`.
pub fn allocation(amount_minor: u64) -> (r: Result<(u64, u64, u64), InventoryError>)
    ensures
        match spec_allocation(amount_minor) {
            Some(split) => r == Ok::<(u64, u64, u64), InventoryError>(split),
            None => r matches Err(InventoryError::Overflow),
        },
{
    let total = match amount_minor.checked_mul(TOKEN_UNITS_PER_CENT) {
        Some(v) => v,
        None => return Err(InventoryError::Overflow),
    };
    let hot = total / 5;
    Ok((total, hot, total - hot))
}

/// Law: the split keeps every unit and gives the hot wallet 20 % rounded down.
pub proof fn lemma_allocation_is_20_80(amount_minor: u64)
    requires
        spec_allocation(amount_minor) is Some,
    ensures
        ({
            let (total, hot, cold) = spec_allocation(amount_minor)->Some_0;
            &&& total == amount_minor * TOKEN_UNITS_PER_CENT
            &&& hot + cold == total
            &&& 5 * hot <= total < 5 * hot + 5
            &&& 4 * hot <= cold
        }),
{
}

/// The moves that bring the hot and cold wallets to the 20/80 target.
#[derive(Debug)]
pub struct RebalancingPlan {
    pub hot_delta_raw: i128,
    pub cold_delta_raw: i128,
    pub target_hot_raw: String,
    pub target_cold_raw: String,
    pub executable_from_corporate_only: bool,
    pub policy_version: &'static str,
}

/// The plan's numbers for balances `hot` and `cold` whose sum fits in 64 bits:
/// the targets split the sum 20/80 and each delta is target minus balance.
pub open spec fn spec_plan_matches(plan: RebalancingPlan, hot: u64, cold: u64) -> bool {
    let total = hot + cold;
    let target_hot = total / 5;
    let target_cold = total - target_hot;
    &&& plan.hot_delta_raw == target_hot - hot
    &&& plan.cold_delta_raw == target_cold - cold
    &&& plan.target_hot_raw@ == decimal_nat(target_hot as nat)
    &&& plan.target_cold_raw@ == decimal_nat(target_cold as nat)
    &&& plan.executable_from_corporate_only == (plan.hot_delta_raw >= 0 && plan.cold_delta_raw
        >= 0)
    &&& plan.policy_version@ == POLICY_VERSION@
}

/// The error of an amount text that does not parse.
pub open spec fn is_invalid_amount(e: InventoryError) -> bool {
    e matches InventoryError::Storage(m) && m@ == "invalid persisted amount"@
}

/// Computes how far the hot and cold balances are from the 20/80 target.
pub fn rebalancing_plan(balances: &WalletBalances) -> (r: Result<RebalancingPlan, InventoryError>)
    ensures
        match (spec_parse_u64(balances.hot_raw@), spec_parse_u64(balances.cold_raw@)) {
            (Some(hot), Some(cold)) => if hot + cold > u64::MAX {
                r matches Err(InventoryError::Overflow)
            } else {
                r matches Ok(plan) && spec_plan_matches(plan, hot, cold)
            },
            _ => r matches Err(e) && is_invalid_amount(e),
        },
{
    let hot = parse(balances.hot_raw.as_str())?;
    let cold = parse(balances.cold_raw.as_str())?;
    let total = match hot.checked_add(cold) {
        Some(v) => v,
        None => return Err(InventoryError::Overflow),
    };
    let target_hot = total / 5;
    let target_cold = total - target_hot;
    let hot_delta = target_hot as i128 - hot as i128;
    let cold_delta = target_cold as i128 - cold as i128;
    proof {
        reveal_strlit("casp-manual-inventory-20-80-v1");
    }
    Ok(
        RebalancingPlan {
            hot_delta_raw: hot_delta,
            cold_delta_raw: cold_delta,
            target_hot_raw: u64_to_string(target_hot),
            target_cold_raw: u64_to_string(target_cold),
            executable_from_corporate_only: hot_delta >= 0 && cold_delta >= 0,
            policy_version: POLICY_VERSION,
        },
    )
}

/// Law: a plan moves no units in or out: the deltas cancel, and the targets
/// split the current total 20/80.
pub proof fn lemma_plan_conserves_total(plan: RebalancingPlan, hot: u64, cold: u64)
    requires
        hot + cold <= u64::MAX,
        spec_plan_matches(plan, hot, cold),
    ensures
        plan.hot_delta_raw + plan.cold_delta_raw == 0,
        5 * (hot + plan.hot_delta_raw) <= hot + cold < 5 * (hot + plan.hot_delta_raw) + 5,
{
}

/// Reads a persisted amount; text that is not a `u64` is a storage fault.
pub fn parse(value: &str) -> (r: Result<u64, InventoryError>)
    ensures
        match spec_parse_u64(value@) {
            Some(v) => r == Ok::<u64, InventoryError>(v),
            None => r matches Err(e) && is_invalid_amount(e),
        },
{
    match parse_u64(value) {
        Some(v) => Ok(v),
        None => Err(InventoryError::Storage(String::from_str("invalid persisted amount"))),
    }
}

/// Reads a recorded distribution target; a missing one is a storage fault.
pub fn required(value: &Option<String>) -> (r: Result<u64, InventoryError>)
    ensures
        match value {
            None => r matches Err(InventoryError::Storage(m)) && m@
                == "distribution target is missing"@,
            Some(text) => match spec_parse_u64(text@) {
                Some(v) => r == Ok::<u64, InventoryError>(v),
                None => r matches Err(e) && is_invalid_amount(e),
            },
        },
{
    match value {
        Some(text) => parse(text.as_str()),
        None => Err(InventoryError::Storage(String::from_str("distribution target is missing"))),
    }
}

/// A replenishment request needs an operation ID that is not blank and a
/// positive amount.
pub fn validate_replenishment(id: &str, amount_minor: u64) -> (r: Result<(), InventoryError>)
    ensures
        r is Ok <==> !is_blank(id@) && amount_minor != 0,
        r is Err ==> (r matches Err(InventoryError::Invalid(m)) && m@
            == "operationId and a positive amountUsdMinor are required"@),
{
    if str_is_blank(id) || amount_minor == 0 {
        return Err(
            InventoryError::Invalid(
                String::from_str("operationId and a positive amountUsdMinor are required"),
            ),
        );
    }
    Ok(())
}

/// The balances each wallet must reach once the issued tokens are distributed:
/// its current balance plus its increment. Parse faults and overflow are errors.
pub fn distribution_targets(balances: &WalletBalances, operation: &InventoryOperation) -> (r:
    Result<(u64, u64), InventoryError>)
    ensures
        match (
            spec_parse_u64(balances.hot_raw@),
            spec_parse_u64(operation.hot_increment_raw@),
            spec_parse_u64(balances.cold_raw@),
            spec_parse_u64(operation.cold_increment_raw@),
        ) {
            (Some(h), Some(hi), Some(c), Some(ci)) => if h + hi > u64::MAX || c + ci
                > u64::MAX {
                r matches Err(InventoryError::Overflow)
            } else {
                r == Ok::<(u64, u64), InventoryError>(((h + hi) as u64, (c + ci) as u64))
            },
            (Some(h), Some(hi), _, _) => if h + hi > u64::MAX {
                r matches Err(InventoryError::Overflow)
            } else {
                r matches Err(e) && is_invalid_amount(e)
            },
            _ => r matches Err(e) && is_invalid_amount(e),
        },
{
    let hot = parse(balances.hot_raw.as_str())?;
    let hot_increment = parse(operation.hot_increment_raw.as_str())?;
    let hot_target = match hot.checked_add(hot_increment) {
        Some(v) => v,
        None => return Err(InventoryError::Overflow),
    };
    let cold = parse(balances.cold_raw.as_str())?;
    let cold_increment = parse(operation.cold_increment_raw.as_str())?;
    let cold_target = match cold.checked_add(cold_increment) {
        Some(v) => v,
        None => return Err(InventoryError::Overflow),
    };
    Ok((hot_target, cold_target))
}

/// The next outside action of a replenishment, chosen from its status.
#[derive(Debug, Clone, Copy, PartialEq, Eq, Structural)]
pub enum InventoryStep {
    CreateIssuerOrder,
    SendFiat,
    SettleIssuerOrder,
    RecordTargets,
    DistributeCold,
    DistributeHot,
    Finished,
}

/// The position of a status in the replenishment's sequence.
pub open spec fn inventory_rank(status: InventoryStatus) -> nat {
    match status {
        InventoryStatus::Created => 0,
        InventoryStatus::IssuerOrderCreated => 1,
        InventoryStatus::FiatSent => 2,
        InventoryStatus::TokensIssued => 3,
        InventoryStatus::TargetsRecorded => 4,
        InventoryStatus::ColdDistributed => 5,
        InventoryStatus::Completed => 6,
    }
}

/// The step a replenishment in `status` takes next.
pub open spec fn spec_inventory_step(status: InventoryStatus) -> InventoryStep {
    match status {
        InventoryStatus::Created => InventoryStep::CreateIssuerOrder,
        InventoryStatus::IssuerOrderCreated => InventoryStep::SendFiat,
        InventoryStatus::FiatSent => InventoryStep::SettleIssuerOrder,
        InventoryStatus::TokensIssued => InventoryStep::RecordTargets,
        InventoryStatus::TargetsRecorded => InventoryStep::DistributeCold,
        InventoryStatus::ColdDistributed => InventoryStep::DistributeHot,
        InventoryStatus::Completed => InventoryStep::Finished,
    }
}

/// The status a successful `step` records.
pub open spec fn spec_inventory_status_after(step: InventoryStep) -> InventoryStatus {
    match step {
        InventoryStep::CreateIssuerOrder => InventoryStatus::IssuerOrderCreated,
        InventoryStep::SendFiat => InventoryStatus::FiatSent,
        InventoryStep::SettleIssuerOrder => InventoryStatus::TokensIssued,
        InventoryStep::RecordTargets => InventoryStatus::TargetsRecorded,
        InventoryStep::DistributeCold => InventoryStatus::ColdDistributed,
        InventoryStep::DistributeHot | InventoryStep::Finished => InventoryStatus::Completed,
    }
}

/// Chooses the next outside action of a replenishment from its status.
pub fn inventory_step(status: InventoryStatus) -> (r: InventoryStep)
    ensures
        r == spec_inventory_step(status),
{
    match status {
        InventoryStatus::Created => InventoryStep::CreateIssuerOrder,
        InventoryStatus::IssuerOrderCreated => InventoryStep::SendFiat,
        InventoryStatus::FiatSent => InventoryStep::SettleIssuerOrder,
        InventoryStatus::TokensIssued => InventoryStep::RecordTargets,
        InventoryStatus::TargetsRecorded => InventoryStep::DistributeCold,
        InventoryStatus::ColdDistributed => InventoryStep::DistributeHot,
        InventoryStatus::Completed => InventoryStep::Finished,
    }
}

/// The status a successful `step` records.
pub fn inventory_status_after(step: InventoryStep) -> (r: InventoryStatus)
    ensures
        r == spec_inventory_status_after(step),
{
    match step {
        InventoryStep::CreateIssuerOrder => InventoryStatus::IssuerOrderCreated,
        InventoryStep::SendFiat => InventoryStatus::FiatSent,
        InventoryStep::SettleIssuerOrder => InventoryStatus::TokensIssued,
        InventoryStep::RecordTargets => InventoryStatus::TargetsRecorded,
        InventoryStep::DistributeCold => InventoryStatus::ColdDistributed,
        InventoryStep::DistributeHot | InventoryStep::Finished => InventoryStatus::Completed,
    }
}

/// `n` successful steps from `status`.
pub open spec fn inventory_after_steps(status: InventoryStatus, n: nat) -> InventoryStatus
    decreases n,
{
    if n == 0 {
        status
    } else {
        inventory_after_steps(spec_inventory_status_after(spec_inventory_step(status)), (n - 1) as nat)
    }
}

/// Law: every step of an unfinished replenishment moves it exactly one status
/// forward, a completed one takes no further action, and a new one is
/// completed after six steps.
pub proof fn lemma_inventory_steps_progress(status: InventoryStatus)
    ensures
        status != InventoryStatus::Completed ==> inventory_rank(
            spec_inventory_status_after(spec_inventory_step(status)),
        ) == inventory_rank(status) + 1,
        status == InventoryStatus::Completed <==> spec_inventory_step(status)
            == InventoryStep::Finished,
        inventory_after_steps(InventoryStatus::Created, 6) == InventoryStatus::Completed,
{
    reveal_with_fuel(inventory_after_steps, 7);
}

/// The position of a step in the replenishment's sequence.
pub open spec fn inventory_step_rank(step: InventoryStep) -> nat {
    match step {
        InventoryStep::CreateIssuerOrder => 0,
        InventoryStep::SendFiat => 1,
        InventoryStep::SettleIssuerOrder => 2,
        InventoryStep::RecordTargets => 3,
        InventoryStep::DistributeCold => 4,
        InventoryStep::DistributeHot => 5,
        InventoryStep::Finished => 6,
    }
}

proof fn lemma_inventory_run_rank(status: InventoryStatus, i: nat)
    requires
        i <= 6 - inventory_rank(status),
    ensures
        inventory_rank(inventory_after_steps(status, i)) == inventory_rank(status) + i,
        inventory_step_rank(spec_inventory_step(inventory_after_steps(status, i))) == inventory_rank(status)
            + i,
    decreases i,
{
    if i > 0 {
        lemma_inventory_run_rank(spec_inventory_status_after(spec_inventory_step(status)), (i - 1) as nat);
    }
}

/// Law: along a run of successful steps from any status, no outside action is
/// taken twice (the issuer order, the fiat payment, the settlement, the
/// targets, the cold and the hot distribution each at most once, in that
/// order), and the replenishment is completed after the steps it has left.
pub proof fn lemma_inventory_steps_once(status: InventoryStatus, i: nat, j: nat)
    requires
        i < j <= 6 - inventory_rank(status),
    ensures
        inventory_step_rank(spec_inventory_step(inventory_after_steps(status, i))) < inventory_step_rank(
            spec_inventory_step(inventory_after_steps(status, j)),
        ),
        inventory_after_steps(status, (6 - inventory_rank(status)) as nat) == InventoryStatus::Completed,
{
    lemma_inventory_run_rank(status, i);
    lemma_inventory_run_rank(status, j);
    lemma_inventory_run_rank(status, (6 - inventory_rank(status)) as nat);
}

/// Law: a run from `status` to completion takes an outside action if and only
/// if that action's place is at or after the place of `status`: a new
/// replenishment creates the issuer order, sends the fiat, settles, records
/// the targets and distributes cold, then hot; one resumed later skips what
/// was already done and repeats none of it.
pub proof fn lemma_inventory_run_calls(status: InventoryStatus, step: InventoryStep)
    requires
        step != InventoryStep::Finished,
    ensures
        (exists|i: nat|
            i < 6 - inventory_rank(status) && spec_inventory_step(#[trigger] inventory_after_steps(status, i))
                == step) <==> inventory_rank(status) <= inventory_step_rank(step),
{
    if inventory_rank(status) <= inventory_step_rank(step) {
        let i: nat = (inventory_step_rank(step) - inventory_rank(status)) as nat;
        lemma_inventory_run_rank(status, i);
        let taken = spec_inventory_step(inventory_after_steps(status, i));
        assert(taken == step) by {
            assert(inventory_step_rank(taken) == inventory_step_rank(step));
        }
    }
    if exists|i: nat|
        i < 6 - inventory_rank(status) && spec_inventory_step(#[trigger] inventory_after_steps(status, i))
            == step {
        let i = choose|i: nat|
            i < 6 - inventory_rank(status) && spec_inventory_step(#[trigger] inventory_after_steps(status, i))
                == step;
        lemma_inventory_run_rank(status, i);
    }
}

/// The text under which a replenishment status is stored.
pub open spec fn spec_inventory_status_text(status: InventoryStatus) -> Seq<char> {
    match status {
        InventoryStatus::Created => "created"@,
        InventoryStatus::IssuerOrderCreated => "issuer_order_created"@,
        InventoryStatus::FiatSent => "fiat_sent"@,
        InventoryStatus::TokensIssued => "tokens_issued"@,
        InventoryStatus::TargetsRecorded => "targets_recorded"@,
        InventoryStatus::ColdDistributed => "cold_distributed"@,
        InventoryStatus::Completed => "completed"@,
    }
}

/// The text under which a replenishment status is stored.
pub fn inventory_status_text(status: InventoryStatus) -> (r: &'static str)
    ensures
        r@ == spec_inventory_status_text(status),
{
    match status {
        InventoryStatus::Created => "created",
        InventoryStatus::IssuerOrderCreated => "issuer_order_created",
        InventoryStatus::FiatSent => "fiat_sent",
        InventoryStatus::TokensIssued => "tokens_issued",
        InventoryStatus::TargetsRecorded => "targets_recorded",
        InventoryStatus::ColdDistributed => "cold_distributed",
        InventoryStatus::Completed => "completed",
    }
}

proof fn lemma_inventory_texts()
    ensures
        "created"@.len() == 7,
        "issuer_order_created"@.len() == 20,
        "fiat_sent"@.len() == 9,
        "tokens_issued"@.len() == 13,
        "targets_recorded"@.len() == 16,
        "cold_distributed"@.len() == 16,
        "completed"@.len() == 9,
        "targets_recorded"@[0] == 't',
        "cold_distributed"@[0] == 'c',
        "fiat_sent"@[0] == 'f',
        "completed"@[0] == 'c',
{
    reveal_strlit("created");
    reveal_strlit("issuer_order_created");
    reveal_strlit("fiat_sent");
    reveal_strlit("tokens_issued");
    reveal_strlit("targets_recorded");
    reveal_strlit("cold_distributed");
    reveal_strlit("completed");
}

/// Reads a stored replenishment status; unknown text counts as `Created`.
pub fn parse_inventory_status(value: &str) -> (r: InventoryStatus)
    ensures
        forall|s: InventoryStatus| value@ == spec_inventory_status_text(s) ==> r == s,
        value@ != "issuer_order_created"@ && value@ != "fiat_sent"@ && value@
            != "tokens_issued"@ && value@ != "targets_recorded"@ && value@ != "cold_distributed"@
            && value@ != "completed"@ ==> r == InventoryStatus::Created,
{
    proof {
        lemma_inventory_texts();
    }
    if str_eq(value, "issuer_order_created") {
        InventoryStatus::IssuerOrderCreated
    } else if str_eq(value, "fiat_sent") {
        InventoryStatus::FiatSent
    } else if str_eq(value, "tokens_issued") {
        InventoryStatus::TokensIssued
    } else if str_eq(value, "targets_recorded") {
        InventoryStatus::TargetsRecorded
    } else if str_eq(value, "cold_distributed") {
        InventoryStatus::ColdDistributed
    } else if str_eq(value, "completed") {
        InventoryStatus::Completed
    } else {
        InventoryStatus::Created
    }
}

/// A repeated replenishment request is answered with the stored operation when
/// it asks for the same amount, and refused otherwise.
pub fn reuse_replenishment(existing: InventoryOperation, amount_minor: u64) -> (r: Result<
    InventoryOperation,
    InventoryError,
>)
    ensures
        existing.amount_usd_minor@ == decimal_nat(amount_minor as nat) ==> r
            == Ok::<InventoryOperation, InventoryError>(existing),
        existing.amount_usd_minor@ != decimal_nat(amount_minor as nat) ==> r matches Err(
            InventoryError::IdempotencyConflict,
        ),
{
    let amount = u64_to_string(amount_minor);
    if existing.amount_usd_minor != amount {
        return Err(InventoryError::IdempotencyConflict);
    }
    Ok(existing)
}

} // verus!
