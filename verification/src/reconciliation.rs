//! Custody reconciliation: the hot and cold wallets against everything the
//! CASP owes its clients and itself.
use crate::decimal::{
    decimal_int, decimal_nat, i128_to_string, parse_u64, spec_parse_u64, u64_parse_error, u64_parse_error_text,
    u64_to_string,
};
use crate::domain::retail::{ClientAccount, FeePosition};
use crate::clock::unix_ms;
use crate::domain::WalletBalances;
use vstd::prelude::*;

verus! {

/// Version tag of the reconciliation policy written into every snapshot.
pub const RECONCILIATION_POLICY_VERSION: &'static str = "casp-custody-reconciliation-v1";

/// Outcome of one reconciliation run.
#[derive(Debug, Clone, Copy, PartialEq, Eq, Structural)]
pub enum ReconciliationStatus {
    Balanced,
    Warning,
    Mismatch,
    Unavailable,
}

/// Evidence of one reconciliation run, amounts in raw token units.
#[derive(Debug, Clone, PartialEq, Eq)]
pub struct ReconciliationSnapshot {
    pub status: ReconciliationStatus,
    pub hot_raw: Option<String>,
    pub cold_raw: Option<String>,
    pub corporate_raw: Option<String>,
    pub customer_available_raw: Option<String>,
    pub customer_locked_raw: Option<String>,
    pub inventory_available_raw: Option<String>,
    pub pending_fee_raw: Option<String>,
    pub custody_total_raw: Option<String>,
    pub obligation_total_raw: Option<String>,
    pub difference_raw: Option<String>,
    pub evidence_block: Option<u64>,
    pub reason: String,
    pub checked_at_unix_ms: u64,
    pub policy_version: String,
}

/// Failures of reconciliation.
#[derive(Debug)]
pub enum ReconciliationError {
    Unavailable(String),
    Storage(String),
}

/// The text of an error, as its `Display` writes it.
pub open spec fn spec_reconciliation_error_text(e: ReconciliationError) -> Seq<char> {
    match e {
        ReconciliationError::Unavailable(m) => "custody reconciliation is unavailable: "@ + m@,
        ReconciliationError::Storage(m) => "custody reconciliation persistence failed: "@ + m@,
    }
}

impl ReconciliationError {
    /// The text of the error, as its `Display` writes it.
    pub fn message(&self) -> (r: String)
        ensures
            r@ == spec_reconciliation_error_text(*self),
    {
        match self {
            ReconciliationError::Unavailable(m) => String::from_str(
                "custody reconciliation is unavailable: ",
            ).concat(m.as_str()),
            ReconciliationError::Storage(m) => String::from_str(
                "custody reconciliation persistence failed: ",
            ).concat(m.as_str()),
        }
    }
}

/// The status for custody `hot + cold` against `obligations`: any difference
/// is a mismatch; covered custody off the 20 % hot share is a warning.
pub open spec fn spec_status(hot: int, custody: int, obligations: int) -> ReconciliationStatus {
    if custody != obligations {
        ReconciliationStatus::Mismatch
    } else if custody > 0 && hot * 100 != custody * 20 {
        ReconciliationStatus::Warning
    } else {
        ReconciliationStatus::Balanced
    }
}

/// The explanation written with each status.
pub open spec fn spec_reason(status: ReconciliationStatus) -> Seq<char> {
    match status {
        ReconciliationStatus::Mismatch =>
            "hot and cold custody do not equal customer positions, locks, unallocated inventory and pending CASP fees"@,
        ReconciliationStatus::Warning =>
            "custody is covered, but the hot/cold allocation differs from the 20/80 demo target"@,
        _ => "custody and CASP obligations reconcile at the 20/80 demo target"@,
    }
}

/// An `Option<String>` that holds exactly the decimal text `t`.
pub open spec fn holds_text(o: Option<String>, t: Seq<char>) -> bool {
    o matches Some(s) && s@ == t
}

/// `snapshot` is the evaluation of the given custody and obligation figures.
pub open spec fn spec_snapshot_of(
    snapshot: ReconciliationSnapshot,
    balances: WalletBalances,
    hot: u64,
    cold: u64,
    corporate: u64,
    available: u64,
    locked: u64,
    inventory: u64,
    pending_fee: u64,
) -> bool {
    let custody = hot + cold;
    let obligations = available + locked + inventory + pending_fee;
    &&& snapshot.status == spec_status(hot as int, custody, obligations)
    &&& holds_text(snapshot.hot_raw, decimal_nat(hot as nat))
    &&& holds_text(snapshot.cold_raw, decimal_nat(cold as nat))
    &&& holds_text(snapshot.corporate_raw, decimal_nat(corporate as nat))
    &&& holds_text(snapshot.customer_available_raw, decimal_nat(available as nat))
    &&& holds_text(snapshot.customer_locked_raw, decimal_nat(locked as nat))
    &&& holds_text(snapshot.inventory_available_raw, decimal_nat(inventory as nat))
    &&& holds_text(snapshot.pending_fee_raw, decimal_nat(pending_fee as nat))
    &&& holds_text(snapshot.custody_total_raw, decimal_nat(custody as nat))
    &&& holds_text(snapshot.obligation_total_raw, decimal_nat(obligations as nat))
    &&& holds_text(snapshot.difference_raw, decimal_int(custody - obligations))
    &&& snapshot.evidence_block == balances.evidence_block
    &&& snapshot.reason@ == spec_reason(snapshot.status)
    &&& snapshot.policy_version@ == RECONCILIATION_POLICY_VERSION@
}

/// Why a figure that does not read as an amount makes the reconciliation
/// unavailable.
pub open spec fn unreadable_input(value: Seq<char>) -> Seq<char> {
    "invalid numeric reconciliation input: "@ + u64_parse_error(value)
}

fn numeric_input(value: &str) -> (r: Result<u64, ReconciliationError>)
    ensures
        match spec_parse_u64(value@) {
            Some(v) => r == Ok::<u64, ReconciliationError>(v),
            None => r matches Err(ReconciliationError::Unavailable(m)) && m@ == unreadable_input(value@),
        },
{
    match parse_u64(value) {
        Some(v) => Ok(v),
        None => {
            let why = u64_parse_error_text(value);
            Err(
                ReconciliationError::Unavailable(
                    String::from_str("invalid numeric reconciliation input: ").concat(why.as_str()),
                ),
            )
        },
    }
}

/// Compares custody (hot plus cold wallet) with the CASP's obligations
/// (client available and locked positions, unallocated inventory, pending fees).
/// Unreadable balances and overflowing totals make the result unavailable.
pub fn evaluate(
    balances: &WalletBalances,
    customer_available: u64,
    customer_locked: u64,
    inventory: u64,
    pending_fee: u64,
) -> (r: Result<ReconciliationSnapshot, ReconciliationError>)
    ensures
        match (
            spec_parse_u64(balances.hot_raw@),
            spec_parse_u64(balances.cold_raw@),
            spec_parse_u64(balances.corporate_raw@),
        ) {
            (Some(hot), Some(cold), Some(corporate)) => if hot + cold > u64::MAX
                || customer_available + customer_locked + inventory + pending_fee > u64::MAX {
                r matches Err(ReconciliationError::Unavailable(_))
            } else {
                r matches Ok(snapshot) && spec_snapshot_of(
                    snapshot,
                    *balances,
                    hot,
                    cold,
                    corporate,
                    customer_available,
                    customer_locked,
                    inventory,
                    pending_fee,
                )
            },
            _ => r matches Err(ReconciliationError::Unavailable(_)),
        },
        match evaluation_fault(*balances, customer_available, customer_locked, inventory, pending_fee) {
            Some(m) => unavailable_as(r, m),
            None => r is Ok,
        },
{
    let hot = numeric_input(balances.hot_raw.as_str())?;
    let cold = numeric_input(balances.cold_raw.as_str())?;
    let corporate = numeric_input(balances.corporate_raw.as_str())?;
    let custody = match hot.checked_add(cold) {
        Some(v) => v,
        None => return Err(
            ReconciliationError::Unavailable(String::from_str("custody total overflow")),
        ),
    };
    let obligations = match customer_available.checked_add(customer_locked) {
        Some(a) => match a.checked_add(inventory) {
            Some(b) => match b.checked_add(pending_fee) {
                Some(c) => c,
                None => return Err(
                    ReconciliationError::Unavailable(String::from_str("obligation total overflow")),
                ),
            },
            None => return Err(
                ReconciliationError::Unavailable(String::from_str("obligation total overflow")),
            ),
        },
        None => return Err(
            ReconciliationError::Unavailable(String::from_str("obligation total overflow")),
        ),
    };
    let difference: i128 = custody as i128 - obligations as i128;
    let status;
    let reason;
    if difference != 0 {
        status = ReconciliationStatus::Mismatch;
        reason = "hot and cold custody do not equal customer positions, locks, unallocated inventory and pending CASP fees";
    } else if custody > 0 && (hot as u128) * 100 != (custody as u128) * 20 {
        status = ReconciliationStatus::Warning;
        reason = "custody is covered, but the hot/cold allocation differs from the 20/80 demo target";
    } else {
        status = ReconciliationStatus::Balanced;
        reason = "custody and CASP obligations reconcile at the 20/80 demo target";
    }
    Ok(
        ReconciliationSnapshot {
            status,
            hot_raw: Some(u64_to_string(hot)),
            cold_raw: Some(u64_to_string(cold)),
            corporate_raw: Some(u64_to_string(corporate)),
            customer_available_raw: Some(u64_to_string(customer_available)),
            customer_locked_raw: Some(u64_to_string(customer_locked)),
            inventory_available_raw: Some(u64_to_string(inventory)),
            pending_fee_raw: Some(u64_to_string(pending_fee)),
            custody_total_raw: Some(u64_to_string(custody)),
            obligation_total_raw: Some(u64_to_string(obligations)),
            difference_raw: Some(i128_to_string(difference)),
            evidence_block: balances.evidence_block,
            reason: String::from_str(reason),
            checked_at_unix_ms: unix_ms(),
            policy_version: String::from_str(RECONCILIATION_POLICY_VERSION),
        },
    )
}

/// Law: a snapshot is balanced or a warning exactly when custody covers the
/// obligations to the unit, and balanced ones hold exactly 20 % hot.
pub proof fn lemma_status_reflects_coverage(hot: u64, cold: u64, obligations: int)
    requires
        hot + cold <= u64::MAX,
    ensures
        (spec_status(hot as int, hot + cold, obligations) != ReconciliationStatus::Mismatch)
            <==> (hot + cold == obligations),
        spec_status(hot as int, hot + cold, obligations) == ReconciliationStatus::Balanced
            ==> hot * 5 == hot + cold,
        spec_status(hot as int, hot + cold, obligations) != ReconciliationStatus::Unavailable,
{
}

/// A snapshot that records that no evidence could be gathered, and why.
pub open spec fn spec_is_unavailable_snapshot(s: ReconciliationSnapshot, reason: Seq<char>) -> bool {
    &&& s.status == ReconciliationStatus::Unavailable
    &&& s.hot_raw is None && s.cold_raw is None && s.corporate_raw is None
    &&& s.customer_available_raw is None && s.customer_locked_raw is None
    &&& s.inventory_available_raw is None && s.pending_fee_raw is None
    &&& s.custody_total_raw is None && s.obligation_total_raw is None
    &&& s.difference_raw is None && s.evidence_block is None
    &&& s.reason@ == reason
    &&& s.policy_version@ == RECONCILIATION_POLICY_VERSION@
}

impl ReconciliationSnapshot {
    /// A snapshot recording that the figures could not be gathered.
    pub fn unavailable(reason: String) -> (r: ReconciliationSnapshot)
        ensures
            spec_is_unavailable_snapshot(r, reason@),
    {
        ReconciliationSnapshot {
            status: ReconciliationStatus::Unavailable,
            hot_raw: None,
            cold_raw: None,
            corporate_raw: None,
            customer_available_raw: None,
            customer_locked_raw: None,
            inventory_available_raw: None,
            pending_fee_raw: None,
            custody_total_raw: None,
            obligation_total_raw: None,
            difference_raw: None,
            evidence_block: None,
            reason,
            checked_at_unix_ms: unix_ms(),
            policy_version: String::from_str(RECONCILIATION_POLICY_VERSION),
        }
    }
}

/// The snapshot that a check appends: the evaluation itself, or, when it
/// failed, an unavailable snapshot carrying the error's text.
pub fn snapshot_or_unavailable(result: Result<ReconciliationSnapshot, ReconciliationError>) -> (r:
    ReconciliationSnapshot)
    ensures
        match result {
            Ok(s) => r == s,
            Err(e) => spec_is_unavailable_snapshot(r, spec_reconciliation_error_text(e)),
        },
{
    match result {
        Ok(snapshot) => snapshot,
        Err(error) => ReconciliationSnapshot::unavailable(error.message()),
    }
}

/// Custody covers what the CASP owes: the snapshot is balanced or a warning.
pub open spec fn custody_covered(status: ReconciliationStatus) -> bool {
    status == ReconciliationStatus::Balanced || status == ReconciliationStatus::Warning
}

/// A customer purchase creates a new liability, so it needs a fresh snapshot
/// in which custody covers the obligations; otherwise it is refused with the
/// snapshot's reason.
pub fn require_customer_purchase(snapshot: ReconciliationSnapshot) -> (r: Result<
    ReconciliationSnapshot,
    ReconciliationError,
>)
    ensures
        custody_covered(snapshot.status) ==> r == Ok::<ReconciliationSnapshot, ReconciliationError>(snapshot),
        !custody_covered(snapshot.status) ==> (r matches Err(ReconciliationError::Unavailable(m)) && m@
            == snapshot.reason@),
{
    match snapshot.status {
        ReconciliationStatus::Balanced | ReconciliationStatus::Warning => Ok(snapshot),
        _ => Err(ReconciliationError::Unavailable(snapshot.reason)),
    }
}

/// The locked or the available position of an account, as text.
pub open spec fn position_text(account: ClientAccount, locked: bool) -> Seq<char> {
    if locked {
        account.locked_raw@
    } else {
        account.available_raw@
    }
}

/// Every account's locked (or available) position reads as a `u64`.
pub open spec fn all_parse(accounts: Seq<ClientAccount>, locked: bool) -> bool {
    forall|i: int|
        0 <= i < accounts.len() ==> spec_parse_u64(position_text(#[trigger] accounts[i], locked))
            is Some
}

/// Why a sum of positions overflows.
pub open spec fn overflow_text(locked: bool) -> Seq<char> {
    if locked {
        "locked total overflow"@
    } else {
        "available total overflow"@
    }
}

/// The first fault met when the available (or locked) positions from `k` on
/// are added to `acc`: a position that does not read as an amount, or a sum
/// past `u64::MAX`.
pub open spec fn sum_fault_from(accounts: Seq<ClientAccount>, locked: bool, k: int, acc: int) -> Option<
    Seq<char>,
>
    decreases accounts.len() - k,
{
    if k < 0 || k >= accounts.len() {
        None
    } else {
        match spec_parse_u64(position_text(accounts[k], locked)) {
            None => Some(unreadable_input(position_text(accounts[k], locked))),
            Some(v) => if acc + v > u64::MAX {
                Some(overflow_text(locked))
            } else {
                sum_fault_from(accounts, locked, k + 1, acc + v)
            },
        }
    }
}

/// The first fault met reading the ledger's figures, if any.
pub open spec fn obligation_fault(accounts: Seq<ClientAccount>, fee: FeePosition) -> Option<Seq<char>> {
    if accounts.len() == 0 {
        Some("no CASP client positions"@)
    } else if spec_parse_u64(accounts[0].inventory_available_raw@) is None {
        Some(unreadable_input(accounts[0].inventory_available_raw@))
    } else if sum_fault_from(accounts, false, 0, 0) is Some {
        sum_fault_from(accounts, false, 0, 0)
    } else if sum_fault_from(accounts, true, 0, 0) is Some {
        sum_fault_from(accounts, true, 0, 0)
    } else if spec_parse_u64(fee.pending_raw@) is None {
        Some(unreadable_input(fee.pending_raw@))
    } else {
        None
    }
}

/// The first fault met comparing the wallets with the obligations, if any.
pub open spec fn evaluation_fault(b: WalletBalances, available: u64, locked: u64, inventory: u64, fee: u64) -> Option<
    Seq<char>,
> {
    match (spec_parse_u64(b.hot_raw@), spec_parse_u64(b.cold_raw@), spec_parse_u64(b.corporate_raw@)) {
        (None, _, _) => Some(unreadable_input(b.hot_raw@)),
        (Some(_), None, _) => Some(unreadable_input(b.cold_raw@)),
        (Some(_), Some(_), None) => Some(unreadable_input(b.corporate_raw@)),
        (Some(h), Some(c), Some(_)) => if h + c > u64::MAX {
            Some("custody total overflow"@)
        } else if available + locked + inventory + fee > u64::MAX {
            Some("obligation total overflow"@)
        } else {
            None
        },
    }
}

/// `r` is unavailable with the text `m`.
pub open spec fn unavailable_as<T>(r: Result<T, ReconciliationError>, m: Seq<char>) -> bool {
    r matches Err(ReconciliationError::Unavailable(t)) && t@ == m
}

/// The sum of the parsed available (or locked) positions.
pub open spec fn position_total(accounts: Seq<ClientAccount>, locked: bool) -> int
    decreases accounts.len(),
{
    if accounts.len() == 0 {
        0
    } else {
        let last = accounts.last();
        position_total(accounts.drop_last(), locked) + spec_parse_u64(
            position_text(last, locked),
        )->Some_0
    }
}

proof fn lemma_position_total_monotone(accounts: Seq<ClientAccount>, locked: bool, k: int)
    requires
        0 <= k <= accounts.len(),
    ensures
        position_total(accounts.take(k), locked) <= position_total(accounts, locked),
        position_total(accounts.take(k), locked) >= 0,
    decreases accounts.len() - k,
{
    if k < accounts.len() {
        lemma_position_total_monotone(accounts, locked, k + 1);
        assert(accounts.take(k + 1).drop_last() =~= accounts.take(k));
        lemma_position_total_nonneg(accounts.take(k), locked);
    } else {
        assert(accounts.take(k) =~= accounts);
        lemma_position_total_nonneg(accounts, locked);
    }
}

proof fn lemma_position_total_nonneg(accounts: Seq<ClientAccount>, locked: bool)
    ensures
        position_total(accounts, locked) >= 0,
    decreases accounts.len(),
{
    if accounts.len() > 0 {
        lemma_position_total_nonneg(accounts.drop_last(), locked);
    }
}

fn position_sum(accounts: &Vec<ClientAccount>, locked: bool) -> (r: Result<u64, ReconciliationError>)
    ensures
        all_parse(accounts@, locked) && position_total(accounts@, locked) <= u64::MAX ==> r
            == Ok::<u64, ReconciliationError>(position_total(accounts@, locked) as u64),
        !(all_parse(accounts@, locked) && position_total(accounts@, locked) <= u64::MAX) ==> r
            matches Err(ReconciliationError::Unavailable(_)),
        match sum_fault_from(accounts@, locked, 0, 0) {
            Some(m) => unavailable_as(r, m),
            None => r is Ok,
        },
{
    let mut sum: u64 = 0;
    let mut i: usize = 0;
    while i < accounts.len()
        invariant
            i <= accounts.len(),
            all_parse(accounts@.take(i as int), locked),
            sum == position_total(accounts@.take(i as int), locked),
            sum_fault_from(accounts@, locked, 0, 0) == sum_fault_from(accounts@, locked, i as int, sum as int),
        decreases accounts.len() - i,
    {
        let text = if locked { accounts[i].locked_raw.as_str() } else { accounts[i].available_raw.as_str() };
        let value = match numeric_input(text) {
            Ok(v) => v,
            Err(e) => {
                assert(position_text(accounts@[i as int], locked) == text@);
                assert(!all_parse(accounts@, locked));
                return Err(e);
            },
        };
        assert(accounts@.take(i + 1).drop_last() =~= accounts@.take(i as int));
        assert(accounts@.take(i + 1).last() == accounts@[i as int]);
        match sum.checked_add(value) {
            Some(v) => sum = v,
            None => {
                proof {
                    lemma_position_total_monotone(accounts@, locked, i + 1);
                }
                return Err(
                    ReconciliationError::Unavailable(
                        if locked {
                            String::from_str("locked total overflow")
                        } else {
                            String::from_str("available total overflow")
                        },
                    ),
                );
            },
        }
        i = i + 1;
        assert(position_text(accounts@[i - 1], locked) == text@);
        assert forall|k: int| 0 <= k < i implies spec_parse_u64(
            position_text(#[trigger] accounts@.take(i as int)[k], locked),
        ) is Some by {
            if k < i - 1 {
                assert(accounts@.take(i as int)[k] == accounts@.take(i - 1)[k]);
            }
        }
    }
    assert(accounts@.take(accounts.len() as int) =~= accounts@);
    Ok(sum)
}

/// The obligation figures that the ledger reports: summed available and
/// locked client positions, the unallocated inventory (as the first account
/// reports it) and the pending fees.
pub fn obligation_inputs(accounts: &Vec<ClientAccount>, fee: &FeePosition) -> (r: Result<
    (u64, u64, u64, u64),
    ReconciliationError,
>)
    ensures
        ({
            let ok = accounts.len() > 0 && spec_parse_u64(accounts@[0].inventory_available_raw@)
                is Some && all_parse(accounts@, false) && position_total(accounts@, false)
                <= u64::MAX && all_parse(accounts@, true) && position_total(accounts@, true)
                <= u64::MAX && spec_parse_u64(fee.pending_raw@) is Some;
            &&& ok ==> r == Ok::<(u64, u64, u64, u64), ReconciliationError>(
                (
                    position_total(accounts@, false) as u64,
                    position_total(accounts@, true) as u64,
                    spec_parse_u64(accounts@[0].inventory_available_raw@)->Some_0,
                    spec_parse_u64(fee.pending_raw@)->Some_0,
                ),
            )
            &&& !ok ==> r matches Err(ReconciliationError::Unavailable(_))
        }),
        match obligation_fault(accounts@, *fee) {
            Some(m) => unavailable_as(r, m),
            None => r is Ok,
        },
{
    if accounts.len() == 0 {
        return Err(ReconciliationError::Unavailable(String::from_str("no CASP client positions")));
    }
    let inventory = numeric_input(accounts[0].inventory_available_raw.as_str())?;
    let available = position_sum(accounts, false)?;
    let locked = position_sum(accounts, true)?;
    let pending_fee = numeric_input(fee.pending_raw.as_str())?;
    Ok((available, locked, inventory, pending_fee))
}

/// One reconciliation from the figures the wallets and the ledger report.
pub fn reconcile(balances: &WalletBalances, accounts: &Vec<ClientAccount>, fee: &FeePosition) -> (r:
    Result<ReconciliationSnapshot, ReconciliationError>)
    ensures
        match obligation_inputs_spec(accounts@, *fee) {
            None => r matches Err(ReconciliationError::Unavailable(_)),
            Some((a, l, i, f)) => match (
                spec_parse_u64(balances.hot_raw@),
                spec_parse_u64(balances.cold_raw@),
                spec_parse_u64(balances.corporate_raw@),
            ) {
                (Some(hot), Some(cold), Some(corporate)) => if hot + cold > u64::MAX || a + l + i
                    + f > u64::MAX {
                    r matches Err(ReconciliationError::Unavailable(_))
                } else {
                    r matches Ok(s) && spec_snapshot_of(
                        s,
                        *balances,
                        hot,
                        cold,
                        corporate,
                        a,
                        l,
                        i,
                        f,
                    )
                },
                _ => r matches Err(ReconciliationError::Unavailable(_)),
            },
        },
        match reconcile_fault(*balances, accounts@, *fee) {
            Some(m) => unavailable_as(r, m),
            None => r is Ok,
        },
{
    let (available, locked, inventory, pending_fee) = obligation_inputs(accounts, fee)?;
    evaluate(balances, available, locked, inventory, pending_fee)
}

/// The first fault met reconciling, if any: reading the ledger's figures,
/// then comparing them with the wallets.
pub open spec fn reconcile_fault(b: WalletBalances, accounts: Seq<ClientAccount>, fee: FeePosition) -> Option<
    Seq<char>,
> {
    match obligation_fault(accounts, fee) {
        Some(m) => Some(m),
        None => match obligation_inputs_spec(accounts, fee) {
            Some((a, l, i, f)) => evaluation_fault(b, a, l, i, f),
            None => None,
        },
    }
}

/// The figures `obligation_inputs` reads, when it can read them.
pub open spec fn obligation_inputs_spec(accounts: Seq<ClientAccount>, fee: FeePosition) -> Option<
    (u64, u64, u64, u64),
> {
    if accounts.len() > 0 && spec_parse_u64(accounts[0].inventory_available_raw@) is Some
        && all_parse(accounts, false) && position_total(accounts, false) <= u64::MAX
        && all_parse(accounts, true) && position_total(accounts, true) <= u64::MAX
        && spec_parse_u64(fee.pending_raw@) is Some {
        Some(
            (
                position_total(accounts, false) as u64,
                position_total(accounts, true) as u64,
                spec_parse_u64(accounts[0].inventory_available_raw@)->Some_0,
                spec_parse_u64(fee.pending_raw@)->Some_0,
            ),
        )
    } else {
        None
    }
}

} // verus!
