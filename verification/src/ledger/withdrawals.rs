//! The register's book of external withdrawals: the amount and its fee are
//! locked when a withdrawal starts, leave the client when the chain confirms
//! the transfer, and return to it when the transfer definitely failed.
use super::records::{record_id_string, record_id_text, retention_until, RecordDetails, RecordRow, RETENTION_MS};
use super::{
    entry, entry_is, find_position, one_record_added, position_index, same_records, with_balances, ClientPosition,
    RetailLedger, MAX_STORED,
};
use crate::decimal::{decimal_nat, u64_to_string};
use crate::external_withdrawals::{ExternalWithdrawal, ExternalWithdrawalError};
use crate::text::{ascii_lower, ascii_lowercase, str_eq};
use vstd::prelude::*;

verus! {

/// Where an external withdrawal stands.
#[derive(Debug, Clone, Copy, PartialEq, Eq, Structural)]
pub enum WithdrawalStatus {
    PendingChain,
    ChainConfirmed,
    SubmissionUncertain,
    Completed,
    Failed,
}

/// The stored name of a withdrawal status.
pub open spec fn withdrawal_status_text(s: WithdrawalStatus) -> Seq<char> {
    match s {
        WithdrawalStatus::PendingChain => "pending_chain"@,
        WithdrawalStatus::ChainConfirmed => "chain_confirmed"@,
        WithdrawalStatus::SubmissionUncertain => "submission_uncertain"@,
        WithdrawalStatus::Completed => "completed"@,
        WithdrawalStatus::Failed => "failed"@,
    }
}

fn withdrawal_status_str(s: WithdrawalStatus) -> (r: &'static str)
    ensures
        r@ == withdrawal_status_text(s),
{
    match s {
        WithdrawalStatus::PendingChain => "pending_chain",
        WithdrawalStatus::ChainConfirmed => "chain_confirmed",
        WithdrawalStatus::SubmissionUncertain => "submission_uncertain",
        WithdrawalStatus::Completed => "completed",
        WithdrawalStatus::Failed => "failed",
    }
}

/// One external withdrawal as the register keeps it.
#[derive(Debug)]
pub struct WithdrawalRow {
    pub operation_id: String,
    pub client_id: String,
    pub destination_address: String,
    pub amount_raw: u64,
    pub fee_raw: u64,
    pub total_debit_raw: u64,
    pub status: WithdrawalStatus,
    pub transaction_hash: Option<String>,
    pub last_error: Option<String>,
    pub created_at_unix_ms: u64,
    pub updated_at_unix_ms: u64,
}

/// The withdrawal with `id`, if any.
pub open spec fn withdrawal_index(rows: Seq<WithdrawalRow>, id: Seq<char>) -> Option<int> {
    if exists|i: int| 0 <= i < rows.len() && (#[trigger] rows[i]).operation_id@ == id {
        Some(choose|i: int| 0 <= i < rows.len() && (#[trigger] rows[i]).operation_id@ == id)
    } else {
        None
    }
}

fn find_withdrawal(rows: &Vec<WithdrawalRow>, id: &str) -> (r: Option<usize>)
    ensures
        match r {
            Some(k) => k < rows@.len() && rows@[k as int].operation_id@ == id@,
            None => forall|j: int| 0 <= j < rows@.len() ==> (#[trigger] rows@[j]).operation_id@ != id@,
        },
{
    let mut k: usize = 0;
    while k < rows.len()
        invariant
            k <= rows@.len(),
            forall|j: int| 0 <= j < k ==> (#[trigger] rows@[j]).operation_id@ != id@,
        decreases rows.len() - k,
    {
        if str_eq(rows[k].operation_id.as_str(), id) {
            return Some(k);
        }
        k = k + 1;
    }
    None
}

/// With unique IDs, the withdrawal found for an ID is the one that holds it.
pub proof fn lemma_withdrawal_index_at(rows: Seq<WithdrawalRow>, k: int)
    requires
        0 <= k < rows.len(),
        forall|i: int, j: int|
            0 <= i < j < rows.len() ==> (#[trigger] rows[i]).operation_id@ != (#[trigger] rows[j]).operation_id@,
    ensures
        withdrawal_index(rows, rows[k].operation_id@) == Some(k),
{
    let id = rows[k].operation_id@;
    let c = choose|i: int| 0 <= i < rows.len() && (#[trigger] rows[i]).operation_id@ == id;
    assert(rows[k].operation_id@ == id);
    if c < k {
        assert(rows[c].operation_id@ != rows[k].operation_id@);
    } else if c > k {
        assert(rows[k].operation_id@ != rows[c].operation_id@);
    }
}

fn opt_clone(o: &Option<String>) -> (r: Option<String>)
    ensures
        r == *o,
{
    match o {
        Some(s) => Some(s.clone()),
        None => None,
    }
}

/// `w` shows withdrawal `row` as the API hands withdrawals out.
pub open spec fn withdrawal_of(w: ExternalWithdrawal, row: WithdrawalRow) -> bool {
    &&& w.operation_id@ == row.operation_id@
    &&& w.client_id@ == row.client_id@
    &&& w.destination_address@ == row.destination_address@
    &&& w.amount_raw@ == decimal_nat(row.amount_raw as nat)
    &&& w.fee_raw@ == decimal_nat(row.fee_raw as nat)
    &&& w.total_debit_raw@ == decimal_nat(row.total_debit_raw as nat)
    &&& w.status@ == withdrawal_status_text(row.status)
    &&& super::opt_text(w.transaction_hash) == super::opt_text(row.transaction_hash)
    &&& super::opt_text(w.last_error) == super::opt_text(row.last_error)
    &&& w.created_at_unix_ms == row.created_at_unix_ms
    &&& w.updated_at_unix_ms == row.updated_at_unix_ms
}

/// Shows a withdrawal as the API hands withdrawals out.
pub fn to_external_withdrawal(row: &WithdrawalRow) -> (w: ExternalWithdrawal)
    ensures
        withdrawal_of(w, *row),
{
    ExternalWithdrawal {
        operation_id: row.operation_id.clone(),
        client_id: row.client_id.clone(),
        destination_address: row.destination_address.clone(),
        amount_raw: u64_to_string(row.amount_raw),
        fee_raw: u64_to_string(row.fee_raw),
        total_debit_raw: u64_to_string(row.total_debit_raw),
        status: String::from_str(withdrawal_status_str(row.status)),
        transaction_hash: opt_clone(&row.transaction_hash),
        last_error: opt_clone(&row.last_error),
        created_at_unix_ms: row.created_at_unix_ms,
        updated_at_unix_ms: row.updated_at_unix_ms,
    }
}

fn lower_code(c: char) -> (r: u32)
    ensures
        r == ascii_lower(c) as u32,
{
    if 'A' <= c && c <= 'Z' {
        (c as u32) + 32
    } else {
        c as u32
    }
}

/// Equality of two texts when ASCII case is ignored, as `str::eq_ignore_ascii_case` tests it.
pub fn str_eq_ignore_ascii_case(a: &str, b: &str) -> (r: bool)
    ensures
        r == (ascii_lowercase(a@) == ascii_lowercase(b@)),
{
    let n = a.unicode_len();
    if n != b.unicode_len() {
        assert(ascii_lowercase(a@).len() != ascii_lowercase(b@).len());
        return false;
    }
    let mut i: usize = 0;
    while i < n
        invariant
            n == a@.len(),
            n == b@.len(),
            i <= n,
            forall|k: int| 0 <= k < i ==> ascii_lower(a@[k]) == ascii_lower(b@[k]),
        decreases n - i,
    {
        if lower_code(a.get_char(i)) != lower_code(b.get_char(i)) {
            assert(ascii_lowercase(a@)[i as int] != ascii_lowercase(b@)[i as int]);
            return false;
        }
        i = i + 1;
    }
    assert(ascii_lowercase(a@) =~= ascii_lowercase(b@));
    true
}

/// Everything but positions, pending fees, the journal and the withdrawals
/// is the same in `a` and `b`.
pub open spec fn same_but_withdrawal_books(a: RetailLedger, b: RetailLedger) -> bool {
    &&& a.inventory() == b.inventory()
    &&& a.activated() == b.activated()
    &&& a.rate() == b.rate()
    &&& a.rate_updated_at() == b.rate_updated_at()
    &&& a.orders() == b.orders()
    &&& a.transfers() == b.transfers()
    &&& a.postings() == b.postings()
    &&& a.sweeps() == b.sweeps()
    &&& a.deposits() == b.deposits()
    &&& a.checkpoint() == b.checkpoint()
}

/// The stored withdrawal `w` is the same request as the one described.
pub open spec fn same_withdrawal(w: WithdrawalRow, client: Seq<char>, destination: Seq<char>, amount: u64) -> bool {
    &&& w.client_id@ == client
    &&& ascii_lowercase(w.destination_address@) == ascii_lowercase(destination)
    &&& w.amount_raw == amount
}

/// What starting withdrawal `id` of `amount` plus `fee` by `client` to
/// `destination` does: the total moves from available to locked.
pub open spec fn begin_withdrawal_post(
    old: RetailLedger,
    id: Seq<char>,
    client: Seq<char>,
    destination: Seq<char>,
    amount: u64,
    fee: u64,
    now: u64,
    new: RetailLedger,
    r: Result<ExternalWithdrawal, ExternalWithdrawalError>,
) -> bool {
    let total = amount + fee;
    if total > u64::MAX {
        r matches Err(ExternalWithdrawalError::Invalid(t)) && t@ == "amount overflow"@ && new == old
    } else {
        match withdrawal_index(old.withdrawals(), id) {
            Some(k) => new == old && if same_withdrawal(old.withdrawals()[k], client, destination, amount) {
                r matches Ok(w) && withdrawal_of(w, old.withdrawals()[k])
            } else {
                r matches Err(ExternalWithdrawalError::IdempotencyConflict)
            },
            None => if total > MAX_STORED {
                r matches Err(ExternalWithdrawalError::Invalid(t)) && t@ == "amount exceeds demo range"@
                    && new == old
            } else {
                match position_index(old.positions(), client) {
                    None => r matches Err(ExternalWithdrawalError::InsufficientBalance) && new == old,
                    Some(p) => {
                        let pos = old.positions()[p];
                        if pos.available_raw < total {
                            r matches Err(ExternalWithdrawalError::InsufficientBalance) && new == old
                        } else if pos.locked_raw + total > MAX_STORED {
                            r matches Err(ExternalWithdrawalError::Storage(_)) && new == old
                        } else {
                            let row = new.withdrawals().last();
                            &&& new.positions() == old.positions().update(
                                p,
                                with_balances(
                                    pos,
                                    (pos.available_raw - total) as u64,
                                    (pos.locked_raw + total) as u64,
                                ),
                            )
                            &&& new.pending_fee() == old.pending_fee()
                            &&& same_but_withdrawal_books(old, new)
                            &&& same_records(old, new)
                            &&& new.withdrawals().len() == old.withdrawals().len() + 1
                            &&& new.withdrawals().drop_last() == old.withdrawals()
                            &&& row.operation_id@ == id
                            &&& row.client_id@ == client
                            &&& row.destination_address@ == destination
                            &&& row.amount_raw == amount
                            &&& row.fee_raw == fee
                            &&& row.total_debit_raw == total
                            &&& row.status == WithdrawalStatus::PendingChain
                            &&& row.transaction_hash is None
                            &&& row.last_error is None
                            &&& row.created_at_unix_ms == now
                            &&& row.updated_at_unix_ms == now
                            &&& new.entries().len() == old.entries().len() + 2
                            &&& new.entries().take(old.entries().len() as int) == old.entries()
                            &&& entry_is(new.entries()[old.entries().len() as int], id, "client"@, client, "debit"@, total as u64, now)
                            &&& entry_is(
                                new.entries()[old.entries().len() as int + 1],
                                id,
                                "client_locked"@,
                                client,
                                "lock"@,
                                total as u64,
                                now,
                            )
                            &&& r matches Ok(w) && withdrawal_of(w, row)
                        }
                    },
                }
            },
        }
    }
}

/// `new` is withdrawal `old` moved to `status` at `now`, with the given
/// transaction hash and error text; nothing else of it changes.
pub open spec fn moved_withdrawal(
    old: WithdrawalRow,
    new: WithdrawalRow,
    status: WithdrawalStatus,
    hash: Option<Seq<char>>,
    error: Option<Seq<char>>,
    now: u64,
) -> bool {
    &&& new.operation_id == old.operation_id
    &&& new.client_id == old.client_id
    &&& new.destination_address == old.destination_address
    &&& new.amount_raw == old.amount_raw
    &&& new.fee_raw == old.fee_raw
    &&& new.total_debit_raw == old.total_debit_raw
    &&& new.status == status
    &&& super::opt_text(new.transaction_hash) == hash
    &&& super::opt_text(new.last_error) == error
    &&& new.created_at_unix_ms == old.created_at_unix_ms
    &&& new.updated_at_unix_ms == now
}

/// `new` differs from `old` only in withdrawal `k`.
pub open spec fn only_withdrawal_changed(old: RetailLedger, new: RetailLedger, k: int) -> bool {
    &&& new.positions() == old.positions()
    &&& new.pending_fee() == old.pending_fee()
    &&& new.entries() == old.entries()
    &&& same_but_withdrawal_books(old, new)
    &&& same_records(old, new)
    &&& new.withdrawals().len() == old.withdrawals().len()
    &&& forall|i: int| 0 <= i < old.withdrawals().len() && i != k ==> new.withdrawals()[i] == old.withdrawals()[i]
}

/// What recording the chain's confirmation `hash` of withdrawal `id` does:
/// a withdrawal waiting for the chain moves to confirmed.
pub open spec fn confirm_withdrawal_post(old: RetailLedger, id: Seq<char>, hash: Seq<char>, now: u64, new: RetailLedger) -> bool {
    match withdrawal_index(old.withdrawals(), id) {
        Some(k) => if old.withdrawals()[k].status == WithdrawalStatus::PendingChain {
            only_withdrawal_changed(old, new, k) && moved_withdrawal(
                old.withdrawals()[k],
                new.withdrawals()[k],
                WithdrawalStatus::ChainConfirmed,
                Some(hash),
                super::opt_text(old.withdrawals()[k].last_error),
                now,
            )
        } else {
            new == old
        },
        None => new == old,
    }
}

/// What recording that the outcome of withdrawal `id` is unknown does: a
/// withdrawal waiting for the chain keeps its lock and awaits a person.
pub open spec fn uncertain_withdrawal_post(old: RetailLedger, id: Seq<char>, message: Seq<char>, now: u64, new: RetailLedger) -> bool {
    match withdrawal_index(old.withdrawals(), id) {
        Some(k) => if old.withdrawals()[k].status == WithdrawalStatus::PendingChain {
            only_withdrawal_changed(old, new, k) && moved_withdrawal(
                old.withdrawals()[k],
                new.withdrawals()[k],
                WithdrawalStatus::SubmissionUncertain,
                super::opt_text(old.withdrawals()[k].transaction_hash),
                Some(message),
                now,
            )
        } else {
            new == old
        },
        None => new == old,
    }
}

/// What completing withdrawal `id` does once the chain confirmed it: the
/// locked total leaves the client and the fee joins the pending fees.
pub open spec fn complete_withdrawal_post(
    old: RetailLedger,
    id: Seq<char>,
    contract: Seq<char>,
    chain: u64,
    now: u64,
    new: RetailLedger,
    r: Result<ExternalWithdrawal, ExternalWithdrawalError>,
) -> bool {
    match withdrawal_index(old.withdrawals(), id) {
        None => r matches Err(ExternalWithdrawalError::Storage(m)) && m@ == "withdrawal not found"@ && new == old,
        Some(k) => {
            let w = old.withdrawals()[k];
            if w.status == WithdrawalStatus::Completed {
                r matches Ok(x) && withdrawal_of(x, w) && new == old
            } else if w.status != WithdrawalStatus::ChainConfirmed {
                r matches Err(ExternalWithdrawalError::Storage(m)) && m@ == "withdrawal has no confirmed transaction"@
                    && new == old
            } else if old.pending_fee() + w.fee_raw > MAX_STORED {
                r matches Err(ExternalWithdrawalError::Storage(_)) && new == old
            } else {
                &&& new.positions() == super::release_locked(old.positions(), w.client_id@, w.total_debit_raw)
                &&& new.pending_fee() == old.pending_fee() + w.fee_raw
                &&& same_but_withdrawal_books(old, new)
                &&& one_record_added(old, new)
                &&& withdrawal_record_is(new.record_rows().last(), old.record_rows().len(), w, contract, chain, now)
                &&& new.withdrawals().len() == old.withdrawals().len()
                &&& forall|i: int| 0 <= i < old.withdrawals().len() && i != k ==> new.withdrawals()[i]
                    == old.withdrawals()[i]
                &&& moved_withdrawal(
                    w,
                    new.withdrawals()[k],
                    WithdrawalStatus::Completed,
                    super::opt_text(w.transaction_hash),
                    super::opt_text(w.last_error),
                    now,
                )
                &&& new.entries().len() == old.entries().len() + 2
                &&& new.entries().take(old.entries().len() as int) == old.entries()
                &&& entry_is(
                    new.entries()[old.entries().len() as int],
                    id,
                    "client_locked"@,
                    w.client_id@,
                    "debit"@,
                    w.total_debit_raw,
                    now,
                )
                &&& entry_is(
                    new.entries()[old.entries().len() as int + 1],
                    id,
                    "casp_fee_pending"@,
                    "casp-fees"@,
                    "credit"@,
                    w.fee_raw,
                    now,
                )
                &&& r matches Ok(x) && withdrawal_of(x, new.withdrawals()[k])
            }
        },
    }
}

/// The record of completed withdrawal `w`, written as record number `n`.
pub open spec fn withdrawal_record_is(row: RecordRow, n: nat, w: WithdrawalRow, contract: Seq<char>, chain: u64, now: u64) -> bool {
    &&& row.record_id@ == record_id_text(n)
    &&& row.operation_id@ == w.operation_id@
    &&& row.client_id@ == w.client_id@
    &&& row.service_type@ == "transfer_service"@
    &&& row.order_type@ == "external_withdrawal"@
    &&& row.contract_address@ == contract
    &&& row.chain_id == chain
    &&& row.quantity_raw == w.amount_raw
    &&& row.gross_fiat_minor == 0
    &&& row.status@ == "completed"@
    &&& super::opt_text(row.source_account) == Some(w.client_id@)
    &&& super::opt_text(row.destination_account) == Some(w.destination_address@)
    &&& super::opt_text(row.blockchain_transaction_hash) == super::opt_text(w.transaction_hash)
    &&& row.decision_actor@ == "casp-external-withdrawal-v1"@
    &&& row.created_at_unix_ms == now
    &&& row.details matches Some(d) && {
        &&& d.received_at_unix_ms == now
        &&& d.accepted_at_unix_ms == Some(now)
        &&& d.executed_at_unix_ms == Some(now)
        &&& d.settled_at_unix_ms == Some(now)
        &&& d.failed_at_unix_ms is None
        &&& d.price_method@ == "not_applicable"@
        &&& d.unit_price_minor is None
        &&& d.gross_quantity_raw == w.total_debit_raw
        &&& d.net_quantity_raw == w.amount_raw
        &&& d.fee_quantity_raw == w.fee_raw
        &&& d.instruction_channel@ == "demo_web"@
        &&& d.execution_actor@ == "casp-withdrawal-engine"@
        &&& d.policy_version@ == "casp-external-withdrawal-v1"@
        &&& d.rejection_reason is None
        &&& d.retention_until_unix_ms == retention_until(now)
    }
}

fn withdrawal_record(n: usize, w: &WithdrawalRow, contract: &str, chain: u64, now: u64) -> (row: RecordRow)
    ensures
        withdrawal_record_is(row, n as nat, *w, contract@, chain, now),
{
    RecordRow {
        record_id: record_id_string("record-", n),
        operation_id: w.operation_id.clone(),
        client_id: w.client_id.clone(),
        service_type: String::from_str("transfer_service"),
        order_type: String::from_str("external_withdrawal"),
        contract_address: contract.to_owned(),
        chain_id: chain,
        quantity_raw: w.amount_raw,
        gross_fiat_minor: 0,
        status: String::from_str("completed"),
        source_account: Some(w.client_id.clone()),
        destination_account: Some(w.destination_address.clone()),
        blockchain_transaction_hash: opt_clone(&w.transaction_hash),
        decision_actor: String::from_str("casp-external-withdrawal-v1"),
        created_at_unix_ms: now,
        details: Some(
            RecordDetails {
                received_at_unix_ms: now,
                accepted_at_unix_ms: Some(now),
                executed_at_unix_ms: Some(now),
                settled_at_unix_ms: Some(now),
                failed_at_unix_ms: None,
                price_method: String::from_str("not_applicable"),
                unit_price_minor: None,
                gross_quantity_raw: w.total_debit_raw,
                net_quantity_raw: w.amount_raw,
                fee_quantity_raw: w.fee_raw,
                instruction_channel: String::from_str("demo_web"),
                execution_actor: String::from_str("casp-withdrawal-engine"),
                policy_version: String::from_str("casp-external-withdrawal-v1"),
                rejection_reason: None,
                retention_until_unix_ms: now.saturating_add(RETENTION_MS),
            },
        ),
    }
}

/// The positions after a failed withdrawal's total returns from locked to
/// available, when the client holds it locked.
pub open spec fn unlock_to_available(ps: Seq<ClientPosition>, client: Seq<char>, total: u64) -> Seq<ClientPosition> {
    match position_index(ps, client) {
        Some(p) => ps.update(
            p,
            with_balances(ps[p], (ps[p].available_raw + total) as u64, (ps[p].locked_raw - total) as u64),
        ),
        None => ps,
    }
}

/// Returning `total` to `client` cannot be stored: the client does not hold
/// it locked, or its available balance would pass what the store holds.
pub open spec fn unlock_fails(ps: Seq<ClientPosition>, client: Seq<char>, total: u64) -> bool {
    match position_index(ps, client) {
        Some(p) => ps[p].locked_raw < total || ps[p].available_raw + total > MAX_STORED,
        None => false,
    }
}

/// What recording that withdrawal `id` definitely failed does: a withdrawal
/// still waiting for the chain returns its total to the client; the
/// withdrawal is marked failed with the failure's text.
pub open spec fn fail_withdrawal_post(
    old: RetailLedger,
    id: Seq<char>,
    message: Seq<char>,
    now: u64,
    new: RetailLedger,
    r: Result<(), ExternalWithdrawalError>,
) -> bool {
    match withdrawal_index(old.withdrawals(), id) {
        None => r matches Err(ExternalWithdrawalError::Storage(m)) && m@ == "withdrawal not found"@ && new == old,
        Some(k) => {
            let w = old.withdrawals()[k];
            let pending = w.status == WithdrawalStatus::PendingChain;
            if pending && unlock_fails(old.positions(), w.client_id@, w.total_debit_raw) {
                r matches Err(ExternalWithdrawalError::Storage(_)) && new == old
            } else {
                &&& r is Ok
                &&& new.pending_fee() == old.pending_fee()
                &&& same_but_withdrawal_books(old, new)
                &&& same_records(old, new)
                &&& new.withdrawals().len() == old.withdrawals().len()
                &&& forall|i: int| 0 <= i < old.withdrawals().len() && i != k ==> new.withdrawals()[i]
                    == old.withdrawals()[i]
                &&& moved_withdrawal(
                    w,
                    new.withdrawals()[k],
                    WithdrawalStatus::Failed,
                    super::opt_text(w.transaction_hash),
                    Some(message),
                    now,
                )
                &&& if pending {
                    &&& new.positions() == unlock_to_available(old.positions(), w.client_id@, w.total_debit_raw)
                    &&& new.entries().len() == old.entries().len() + 2
                    &&& new.entries().take(old.entries().len() as int) == old.entries()
                    &&& entry_is(
                        new.entries()[old.entries().len() as int],
                        id,
                        "client_locked"@,
                        w.client_id@,
                        "release"@,
                        w.total_debit_raw,
                        now,
                    )
                    &&& entry_is(
                        new.entries()[old.entries().len() as int + 1],
                        id,
                        "client"@,
                        w.client_id@,
                        "credit"@,
                        w.total_debit_raw,
                        now,
                    )
                } else {
                    new.positions() == old.positions() && new.entries() == old.entries()
                }
            }
        },
    }
}

impl RetailLedger {
    /// The wallet address of `client`; an unknown client is a storage fault.
    pub fn client_wallet(&self, client: &str) -> (r: Result<String, ExternalWithdrawalError>)
        requires
            self.wf(),
        ensures
            match position_index(self.positions(), client@) {
                Some(k) => r matches Ok(w) && w@ == self.positions()[k].wallet_address@,
                None => r matches Err(ExternalWithdrawalError::Storage(_)),
            },
    {
        proof {
            self.lemma_views();
        }
        match find_position(&self.positions, client) {
            Some(k) => Ok(self.positions[k].wallet_address.clone()),
            None => Err(ExternalWithdrawalError::Storage(String::from_str("Query returned no rows"))),
        }
    }

    /// The withdrawal with `id`, as the API hands withdrawals out.
    pub fn withdrawal(&self, id: &str) -> (r: Option<ExternalWithdrawal>)
        requires
            self.wf(),
        ensures
            match withdrawal_index(self.withdrawals(), id@) {
                Some(k) => r matches Some(w) && withdrawal_of(w, self.withdrawals()[k]),
                None => r is None,
            },
    {
        proof {
            self.lemma_views();
        }
        match find_withdrawal(&self.withdrawals, id) {
            Some(k) => {
                proof {
                    lemma_withdrawal_index_at(self.withdrawals@, k as int);
                }
                Some(to_external_withdrawal(&self.withdrawals[k]))
            },
            None => None,
        }
    }

    /// Starts withdrawal `id`: locks `amount` and `fee` of `client` for the
    /// transfer to `destination`. A repeated request with the same ID is
    /// answered with the stored withdrawal when it is the same request (the
    /// destination compared without regard to ASCII case), and refused
    /// otherwise.
    pub fn begin_withdrawal(
        &mut self,
        id: &str,
        client: &str,
        destination: &str,
        amount: u64,
        fee: u64,
        now: u64,
    ) -> (r: Result<ExternalWithdrawal, ExternalWithdrawalError>)
        requires
            old(self).wf(),
        ensures
            final(self).wf(),
            begin_withdrawal_post(*old(self), id@, client@, destination@, amount, fee, now, *final(self), r),
    {
        proof {
            self.lemma_views();
        }
        let total = match amount.checked_add(fee) {
            Some(t) => t,
            None => return Err(ExternalWithdrawalError::Invalid(String::from_str("amount overflow"))),
        };
        match find_withdrawal(&self.withdrawals, id) {
            Some(k) => {
                proof {
                    lemma_withdrawal_index_at(self.withdrawals@, k as int);
                }
                let w = &self.withdrawals[k];
                if str_eq(w.client_id.as_str(), client) && str_eq_ignore_ascii_case(
                    w.destination_address.as_str(),
                    destination,
                ) && w.amount_raw == amount {
                    return Ok(to_external_withdrawal(w));
                }
                return Err(ExternalWithdrawalError::IdempotencyConflict);
            },
            None => {},
        }
        if total > MAX_STORED {
            return Err(ExternalWithdrawalError::Invalid(String::from_str("amount exceeds demo range")));
        }
        let p = match find_position(&self.positions, client) {
            Some(p) => p,
            None => return Err(ExternalWithdrawalError::InsufficientBalance),
        };
        if self.positions[p].available_raw < total {
            return Err(ExternalWithdrawalError::InsufficientBalance);
        }
        if self.positions[p].locked_raw > MAX_STORED - total {
            return Err(ExternalWithdrawalError::Storage(String::from_str("integer overflow")));
        }
        let ghost before = *self;
        let available = self.positions[p].available_raw - total;
        let locked = self.positions[p].locked_raw + total;
        self.set_balances(p, available, locked);
        let row = WithdrawalRow {
            operation_id: id.to_owned(),
            client_id: client.to_owned(),
            destination_address: destination.to_owned(),
            amount_raw: amount,
            fee_raw: fee,
            total_debit_raw: total,
            status: WithdrawalStatus::PendingChain,
            transaction_hash: None,
            last_error: None,
            created_at_unix_ms: now,
            updated_at_unix_ms: now,
        };
        let view = to_external_withdrawal(&row);
        self.withdrawals.push(row);
        self.entries.push(entry(id, "client", client, "debit", total, now));
        self.entries.push(entry(id, "client_locked", client, "lock", total, now));
        proof {
            assert(self.withdrawals@.drop_last() =~= before.withdrawals@);
            assert(self.entries@.take(before.entries@.len() as int) =~= before.entries@);
            assert forall|i: int, j: int|
                0 <= i < j < self.positions@.len() implies (#[trigger] self.positions@[i]).client_id@
                != (#[trigger] self.positions@[j]).client_id@ by {
                assert(before.positions@[i].client_id@ != before.positions@[j].client_id@);
            }
            assert forall|i: int, j: int|
                0 <= i < j < self.withdrawals@.len() implies (#[trigger] self.withdrawals@[i]).operation_id@
                != (#[trigger] self.withdrawals@[j]).operation_id@ by {
                if j == self.withdrawals@.len() - 1 {
                    assert(self.withdrawals@[i] == before.withdrawals@[i]);
                } else {
                    assert(self.withdrawals@[i] == before.withdrawals@[i]);
                    assert(self.withdrawals@[j] == before.withdrawals@[j]);
                }
            }
        }
        Ok(view)
    }

    fn set_withdrawal(&mut self, k: usize, row: WithdrawalRow)
        requires
            k < old(self).withdrawals@.len(),
            row.operation_id@ == old(self).withdrawals@[k as int].operation_id@,
            row.total_debit_raw == row.amount_raw + row.fee_raw,
            old(self).wf(),
        ensures
            final(self).wf(),
            final(self).withdrawals@ == old(self).withdrawals@.update(k as int, row),
            final(self).positions == old(self).positions,
            final(self).inventory_raw == old(self).inventory_raw,
            final(self).inventory_activated == old(self).inventory_activated,
            final(self).pending_fee_raw == old(self).pending_fee_raw,
            final(self).usd_minor_per_rusd == old(self).usd_minor_per_rusd,
            final(self).rate_updated_at_unix_ms == old(self).rate_updated_at_unix_ms,
            final(self).orders == old(self).orders,
            final(self).transfers == old(self).transfers,
            final(self).postings == old(self).postings,
            final(self).entries == old(self).entries,
            final(self).sweeps == old(self).sweeps,
            final(self).deposits == old(self).deposits,
            final(self).deposit_checkpoint == old(self).deposit_checkpoint,
            final(self).records == old(self).records,
            final(self).amendments == old(self).amendments,
    {
        proof {
            self.lemma_views();
        }
        let ghost before = self.withdrawals@;
        self.withdrawals.set(k, row);
        proof {
            self.lemma_views();
            assert forall|i: int, j: int|
                0 <= i < j < self.withdrawals@.len() implies (#[trigger] self.withdrawals@[i]).operation_id@
                != (#[trigger] self.withdrawals@[j]).operation_id@ by {
                assert(before[i].operation_id@ != before[j].operation_id@);
            }
        }
    }

    /// Records the chain's confirmation of withdrawal `id`.
    pub fn confirm_withdrawal(&mut self, id: &str, hash: &str, now: u64)
        requires
            old(self).wf(),
        ensures
            final(self).wf(),
            confirm_withdrawal_post(*old(self), id@, hash@, now, *final(self)),
    {
        proof {
            self.lemma_views();
        }
        let k = match find_withdrawal(&self.withdrawals, id) {
            Some(k) => k,
            None => return,
        };
        proof {
            lemma_withdrawal_index_at(self.withdrawals@, k as int);
        }
        if self.withdrawals[k].status != WithdrawalStatus::PendingChain {
            return;
        }
        let w = &self.withdrawals[k];
        let row = WithdrawalRow {
            operation_id: w.operation_id.clone(),
            client_id: w.client_id.clone(),
            destination_address: w.destination_address.clone(),
            amount_raw: w.amount_raw,
            fee_raw: w.fee_raw,
            total_debit_raw: w.total_debit_raw,
            status: WithdrawalStatus::ChainConfirmed,
            transaction_hash: Some(hash.to_owned()),
            last_error: opt_clone(&w.last_error),
            created_at_unix_ms: w.created_at_unix_ms,
            updated_at_unix_ms: now,
        };
        self.set_withdrawal(k, row);
        proof {
            self.lemma_views();
        }
    }

    /// Records that the outcome of withdrawal `id` could not be determined.
    pub fn mark_withdrawal_uncertain(&mut self, id: &str, message: &str, now: u64)
        requires
            old(self).wf(),
        ensures
            final(self).wf(),
            uncertain_withdrawal_post(*old(self), id@, message@, now, *final(self)),
    {
        proof {
            self.lemma_views();
        }
        let k = match find_withdrawal(&self.withdrawals, id) {
            Some(k) => k,
            None => return,
        };
        proof {
            lemma_withdrawal_index_at(self.withdrawals@, k as int);
        }
        if self.withdrawals[k].status != WithdrawalStatus::PendingChain {
            return;
        }
        let w = &self.withdrawals[k];
        let row = WithdrawalRow {
            operation_id: w.operation_id.clone(),
            client_id: w.client_id.clone(),
            destination_address: w.destination_address.clone(),
            amount_raw: w.amount_raw,
            fee_raw: w.fee_raw,
            total_debit_raw: w.total_debit_raw,
            status: WithdrawalStatus::SubmissionUncertain,
            transaction_hash: opt_clone(&w.transaction_hash),
            last_error: Some(message.to_owned()),
            created_at_unix_ms: w.created_at_unix_ms,
            updated_at_unix_ms: now,
        };
        self.set_withdrawal(k, row);
        proof {
            self.lemma_views();
        }
    }

    /// Completes withdrawal `id` after the chain confirmed it. A completed
    /// withdrawal is answered as it stands.
    pub fn complete_withdrawal(&mut self, id: &str, contract: &str, chain: u64, now: u64) -> (r: Result<
        ExternalWithdrawal,
        ExternalWithdrawalError,
    >)
        requires
            old(self).wf(),
        ensures
            final(self).wf(),
            complete_withdrawal_post(*old(self), id@, contract@, chain, now, *final(self), r),
    {
        proof {
            self.lemma_views();
        }
        let k = match find_withdrawal(&self.withdrawals, id) {
            Some(k) => k,
            None => return Err(ExternalWithdrawalError::Storage(String::from_str("withdrawal not found"))),
        };
        proof {
            lemma_withdrawal_index_at(self.withdrawals@, k as int);
        }
        if self.withdrawals[k].status == WithdrawalStatus::Completed {
            return Ok(to_external_withdrawal(&self.withdrawals[k]));
        }
        if self.withdrawals[k].status != WithdrawalStatus::ChainConfirmed {
            return Err(ExternalWithdrawalError::Storage(String::from_str("withdrawal has no confirmed transaction")));
        }
        let fee = self.withdrawals[k].fee_raw;
        let total = self.withdrawals[k].total_debit_raw;
        if fee > MAX_STORED || self.pending_fee_raw > MAX_STORED - fee {
            return Err(ExternalWithdrawalError::Storage(String::from_str("integer overflow")));
        }
        let record = withdrawal_record(self.records.len(), &self.withdrawals[k], contract, chain, now);
        let ghost before = *self;
        let client = self.withdrawals[k].client_id.clone();
        match find_position(&self.positions, client.as_str()) {
            Some(p) => {
                if self.positions[p].locked_raw >= total {
                    let available = self.positions[p].available_raw;
                    let locked = self.positions[p].locked_raw - total;
                    self.set_balances(p, available, locked);
                }
            },
            None => {},
        }
        self.pending_fee_raw = self.pending_fee_raw + fee;
        let w = &self.withdrawals[k];
        let row = WithdrawalRow {
            operation_id: w.operation_id.clone(),
            client_id: w.client_id.clone(),
            destination_address: w.destination_address.clone(),
            amount_raw: w.amount_raw,
            fee_raw: w.fee_raw,
            total_debit_raw: w.total_debit_raw,
            status: WithdrawalStatus::Completed,
            transaction_hash: opt_clone(&w.transaction_hash),
            last_error: opt_clone(&w.last_error),
            created_at_unix_ms: w.created_at_unix_ms,
            updated_at_unix_ms: now,
        };
        let view = to_external_withdrawal(&row);
        proof {
            assert forall|i: int, j: int|
                0 <= i < j < self.positions@.len() implies (#[trigger] self.positions@[i]).client_id@
                != (#[trigger] self.positions@[j]).client_id@ by {
                assert(before.positions@[i].client_id@ != before.positions@[j].client_id@);
            }
        }
        self.set_withdrawal(k, row);
        self.entries.push(entry(id, "client_locked", client.as_str(), "debit", total, now));
        self.entries.push(entry(id, "casp_fee_pending", "casp-fees", "credit", fee, now));
        self.records.push(record);
        proof {
            self.lemma_views();
            assert(self.entries@.take(before.entries@.len() as int) =~= before.entries@);
            assert(self.records@.drop_last() =~= before.records@);
        }
        Ok(view)
    }

    /// Records that withdrawal `id` definitely failed: a withdrawal still
    /// waiting for the chain returns its locked total to the client.
    pub fn fail_withdrawal(&mut self, id: &str, message: &str, now: u64) -> (r: Result<(), ExternalWithdrawalError>)
        requires
            old(self).wf(),
        ensures
            final(self).wf(),
            fail_withdrawal_post(*old(self), id@, message@, now, *final(self), r),
    {
        proof {
            self.lemma_views();
        }
        let k = match find_withdrawal(&self.withdrawals, id) {
            Some(k) => k,
            None => return Err(ExternalWithdrawalError::Storage(String::from_str("withdrawal not found"))),
        };
        proof {
            lemma_withdrawal_index_at(self.withdrawals@, k as int);
        }
        let pending = self.withdrawals[k].status == WithdrawalStatus::PendingChain;
        let total = self.withdrawals[k].total_debit_raw;
        let client = self.withdrawals[k].client_id.clone();
        let position = find_position(&self.positions, client.as_str());
        if pending {
            match position {
                Some(p) => {
                    if self.positions[p].locked_raw < total || self.positions[p].available_raw > MAX_STORED - total {
                        return Err(ExternalWithdrawalError::Storage(String::from_str("CHECK constraint failed")));
                    }
                },
                None => {},
            }
        }
        let ghost before = *self;
        if pending {
            match position {
                Some(p) => {
                    let available = self.positions[p].available_raw + total;
                    let locked = self.positions[p].locked_raw - total;
                    self.set_balances(p, available, locked);
                },
                None => {},
            }
            self.entries.push(entry(id, "client_locked", client.as_str(), "release", total, now));
            self.entries.push(entry(id, "client", client.as_str(), "credit", total, now));
        }
        let w = &self.withdrawals[k];
        let row = WithdrawalRow {
            operation_id: w.operation_id.clone(),
            client_id: w.client_id.clone(),
            destination_address: w.destination_address.clone(),
            amount_raw: w.amount_raw,
            fee_raw: w.fee_raw,
            total_debit_raw: w.total_debit_raw,
            status: WithdrawalStatus::Failed,
            transaction_hash: opt_clone(&w.transaction_hash),
            last_error: Some(message.to_owned()),
            created_at_unix_ms: w.created_at_unix_ms,
            updated_at_unix_ms: now,
        };
        proof {
            assert forall|i: int, j: int|
                0 <= i < j < self.positions@.len() implies (#[trigger] self.positions@[i]).client_id@
                != (#[trigger] self.positions@[j]).client_id@ by {
                assert(before.positions@[i].client_id@ != before.positions@[j].client_id@);
            }
        }
        self.set_withdrawal(k, row);
        proof {
            self.lemma_views();
            assert(self.entries@.take(before.entries@.len() as int) =~= before.entries@);
        }
        Ok(())
    }
}

} // verus!
