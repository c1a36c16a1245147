//! The register's book of fee sweeps: a sweep takes the pending fees at the
//! time it starts and removes exactly that amount from them once the chain
//! confirmed the transfer to the corporate wallet.
use super::{entry, entry_is, RetailLedger};
use crate::decimal::{decimal_nat, u64_to_string};
use crate::fee_sweep::{FeeSweep, FeeSweepError};
use crate::text::str_eq;
use vstd::prelude::*;

verus! {

/// Where a fee sweep stands.
#[derive(Debug, Clone, Copy, PartialEq, Eq, Structural)]
pub enum SweepStatus {
    Pending,
    ChainConfirmed,
    Completed,
    Failed,
}

/// The stored name of a sweep status.
pub open spec fn sweep_status_text(s: SweepStatus) -> Seq<char> {
    match s {
        SweepStatus::Pending => "pending"@,
        SweepStatus::ChainConfirmed => "chain_confirmed"@,
        SweepStatus::Completed => "completed"@,
        SweepStatus::Failed => "failed"@,
    }
}

fn sweep_status_str(s: SweepStatus) -> (r: &'static str)
    ensures
        r@ == sweep_status_text(s),
{
    match s {
        SweepStatus::Pending => "pending",
        SweepStatus::ChainConfirmed => "chain_confirmed",
        SweepStatus::Completed => "completed",
        SweepStatus::Failed => "failed",
    }
}

/// One fee sweep as the register keeps it.
#[derive(Debug)]
pub struct SweepRow {
    pub operation_id: String,
    pub amount_raw: u64,
    pub status: SweepStatus,
    pub transaction_hash: Option<String>,
    pub last_error: Option<String>,
    pub created_at_unix_ms: u64,
    pub updated_at_unix_ms: u64,
}

/// The sweep with `id`, if any.
pub open spec fn sweep_index(rows: Seq<SweepRow>, id: Seq<char>) -> Option<int> {
    if exists|i: int| 0 <= i < rows.len() && (#[trigger] rows[i]).operation_id@ == id {
        Some(choose|i: int| 0 <= i < rows.len() && (#[trigger] rows[i]).operation_id@ == id)
    } else {
        None
    }
}

fn find_sweep(rows: &Vec<SweepRow>, id: &str) -> (r: Option<usize>)
    ensures
        match r {
            Some(k) => k < rows@.len() && rows@[k as int].operation_id@ == id@,
            None => forall|j: int| 0 <= j < rows@.len() ==> (#[trigger] rows@[j]).operation_id@ != id@,
        },
{
    let mut k: usize = 0;
    while k < rows.len()
        invariant
            k <= rows@.len(),
            forall|j: int| 0 <= j < k ==> (#[trigger] rows@[j]).operation_id@ != id@,
        decreases rows.len() - k,
    {
        if str_eq(rows[k].operation_id.as_str(), id) {
            return Some(k);
        }
        k = k + 1;
    }
    None
}

/// With unique IDs, the sweep found for an ID is the one that holds it.
pub proof fn lemma_sweep_index_at(rows: Seq<SweepRow>, k: int)
    requires
        0 <= k < rows.len(),
        forall|i: int, j: int|
            0 <= i < j < rows.len() ==> (#[trigger] rows[i]).operation_id@ != (#[trigger] rows[j]).operation_id@,
    ensures
        sweep_index(rows, rows[k].operation_id@) == Some(k),
{
    let id = rows[k].operation_id@;
    let c = choose|i: int| 0 <= i < rows.len() && (#[trigger] rows[i]).operation_id@ == id;
    assert(rows[k].operation_id@ == id);
    if c < k {
        assert(rows[c].operation_id@ != rows[k].operation_id@);
    } else if c > k {
        assert(rows[k].operation_id@ != rows[c].operation_id@);
    }
}

fn opt_clone(o: &Option<String>) -> (r: Option<String>)
    ensures
        r == *o,
{
    match o {
        Some(s) => Some(s.clone()),
        None => None,
    }
}

/// `f` shows sweep `row` as the API hands sweeps out.
pub open spec fn sweep_of(f: FeeSweep, row: SweepRow) -> bool {
    &&& f.operation_id@ == row.operation_id@
    &&& f.amount_raw@ == decimal_nat(row.amount_raw as nat)
    &&& f.status@ == sweep_status_text(row.status)
    &&& super::opt_text(f.transaction_hash) == super::opt_text(row.transaction_hash)
    &&& super::opt_text(f.last_error) == super::opt_text(row.last_error)
    &&& f.created_at_unix_ms == row.created_at_unix_ms
    &&& f.updated_at_unix_ms == row.updated_at_unix_ms
}

/// Shows a sweep as the API hands sweeps out.
pub fn to_fee_sweep(row: &SweepRow) -> (f: FeeSweep)
    ensures
        sweep_of(f, *row),
{
    FeeSweep {
        operation_id: row.operation_id.clone(),
        amount_raw: u64_to_string(row.amount_raw),
        status: String::from_str(sweep_status_str(row.status)),
        transaction_hash: opt_clone(&row.transaction_hash),
        last_error: opt_clone(&row.last_error),
        created_at_unix_ms: row.created_at_unix_ms,
        updated_at_unix_ms: row.updated_at_unix_ms,
    }
}

/// Everything but pending fees, the journal and the sweeps is the same in
/// `a` and `b`.
pub open spec fn same_but_sweep_books(a: super::RetailLedger, b: super::RetailLedger) -> bool {
    &&& a.positions() == b.positions()
    &&& a.inventory() == b.inventory()
    &&& a.activated() == b.activated()
    &&& a.rate() == b.rate()
    &&& a.rate_updated_at() == b.rate_updated_at()
    &&& a.orders() == b.orders()
    &&& a.transfers() == b.transfers()
    &&& a.postings() == b.postings()
    &&& a.withdrawals() == b.withdrawals()
    &&& a.deposits() == b.deposits()
    &&& a.checkpoint() == b.checkpoint()
    &&& a.record_rows() == b.record_rows()
    &&& a.amendment_rows() == b.amendment_rows()
}

/// `new` is sweep `old` moved to `status` at `now` with the given hash and
/// error text; its amount and creation stay.
pub open spec fn moved_sweep(
    old: SweepRow,
    new: SweepRow,
    status: SweepStatus,
    hash: Option<Seq<char>>,
    error: Option<Seq<char>>,
    now: u64,
) -> bool {
    &&& new.operation_id == old.operation_id
    &&& new.amount_raw == old.amount_raw
    &&& new.status == status
    &&& super::opt_text(new.transaction_hash) == hash
    &&& super::opt_text(new.last_error) == error
    &&& new.created_at_unix_ms == old.created_at_unix_ms
    &&& new.updated_at_unix_ms == now
}

/// `new` differs from `old` in sweep `k` alone.
pub open spec fn only_sweep_changed(old: RetailLedger, new: RetailLedger, k: int) -> bool {
    &&& same_but_sweep_books(old, new)
    &&& new.pending_fee() == old.pending_fee()
    &&& new.entries() == old.entries()
    &&& new.sweeps().len() == old.sweeps().len()
    &&& forall|i: int| 0 <= i < old.sweeps().len() && i != k ==> new.sweeps()[i] == old.sweeps()[i]
}

/// What starting sweep `id` does: a new sweep takes all pending fees; a
/// failed one is opened again; any other is handed back as it stands.
pub open spec fn begin_sweep_post(old: RetailLedger, id: Seq<char>, now: u64, new: RetailLedger, r: Result<FeeSweep, FeeSweepError>) -> bool {
    match sweep_index(old.sweeps(), id) {
        Some(k) => if old.sweeps()[k].status == SweepStatus::Failed {
            &&& only_sweep_changed(old, new, k)
            &&& moved_sweep(
                old.sweeps()[k],
                new.sweeps()[k],
                SweepStatus::Pending,
                super::opt_text(old.sweeps()[k].transaction_hash),
                None,
                now,
            )
            &&& r matches Ok(f) && sweep_of(f, new.sweeps()[k])
        } else {
            new == old && (r matches Ok(f) && sweep_of(f, old.sweeps()[k]))
        },
        None => if old.pending_fee() == 0 {
            r matches Err(FeeSweepError::NoPendingFees) && new == old
        } else {
            let row = new.sweeps().last();
            &&& same_but_sweep_books(old, new)
            &&& new.pending_fee() == old.pending_fee()
            &&& new.entries() == old.entries()
            &&& new.sweeps().len() == old.sweeps().len() + 1
            &&& new.sweeps().drop_last() == old.sweeps()
            &&& row.operation_id@ == id
            &&& row.amount_raw == old.pending_fee()
            &&& row.status == SweepStatus::Pending
            &&& row.transaction_hash is None
            &&& row.last_error is None
            &&& row.created_at_unix_ms == now
            &&& row.updated_at_unix_ms == now
            &&& r matches Ok(f) && sweep_of(f, row)
        },
    }
}

/// What recording the chain's confirmation `hash` of sweep `id` does: a sweep
/// without a transaction takes it and moves to confirmed.
pub open spec fn confirm_sweep_post(
    old: RetailLedger,
    id: Seq<char>,
    hash: Seq<char>,
    now: u64,
    new: RetailLedger,
    r: Result<FeeSweep, FeeSweepError>,
) -> bool {
    match sweep_index(old.sweeps(), id) {
        None => r matches Err(FeeSweepError::Storage(_)) && new == old,
        Some(k) => if old.sweeps()[k].transaction_hash is None {
            &&& only_sweep_changed(old, new, k)
            &&& moved_sweep(old.sweeps()[k], new.sweeps()[k], SweepStatus::ChainConfirmed, Some(hash), None, now)
            &&& r matches Ok(f) && sweep_of(f, new.sweeps()[k])
        } else {
            new == old && (r matches Ok(f) && sweep_of(f, old.sweeps()[k]))
        },
    }
}

/// What completing sweep `id` does: once the chain confirmed it, exactly its
/// amount leaves the pending fees.
pub open spec fn complete_sweep_post(old: RetailLedger, id: Seq<char>, now: u64, new: RetailLedger, r: Result<FeeSweep, FeeSweepError>) -> bool {
    match sweep_index(old.sweeps(), id) {
        None => r matches Err(FeeSweepError::Storage(m)) && m@ == "fee sweep does not exist"@ && new == old,
        Some(k) => {
            let s = old.sweeps()[k];
            if s.status == SweepStatus::Completed {
                new == old && (r matches Ok(f) && sweep_of(f, s))
            } else if s.status != SweepStatus::ChainConfirmed {
                r matches Err(FeeSweepError::Storage(m)) && m@ == "on-chain transfer is not confirmed"@ && new == old
            } else if old.pending_fee() < s.amount_raw {
                r matches Err(FeeSweepError::Storage(m)) && m@ == "pending fee position is lower than confirmed sweep"@
                    && new == old
            } else {
                &&& same_but_sweep_books(old, new)
                &&& new.pending_fee() == old.pending_fee() - s.amount_raw
                &&& new.sweeps().len() == old.sweeps().len()
                &&& forall|i: int| 0 <= i < old.sweeps().len() && i != k ==> new.sweeps()[i] == old.sweeps()[i]
                &&& moved_sweep(
                    s,
                    new.sweeps()[k],
                    SweepStatus::Completed,
                    super::opt_text(s.transaction_hash),
                    super::opt_text(s.last_error),
                    now,
                )
                &&& new.entries().len() == old.entries().len() + 1
                &&& new.entries().drop_last() == old.entries()
                &&& entry_is(new.entries().last(), id, "casp_fee_pending"@, "casp-fees"@, "debit"@, s.amount_raw, now)
                &&& r matches Ok(f) && sweep_of(f, new.sweeps()[k])
            }
        },
    }
}

/// What recording that sweep `id` failed does: a sweep without a transaction
/// is marked failed with the failure's text.
pub open spec fn fail_sweep_post(old: RetailLedger, id: Seq<char>, error: Seq<char>, now: u64, new: RetailLedger) -> bool {
    match sweep_index(old.sweeps(), id) {
        Some(k) => if old.sweeps()[k].transaction_hash is None {
            only_sweep_changed(old, new, k) && moved_sweep(
                old.sweeps()[k],
                new.sweeps()[k],
                SweepStatus::Failed,
                None,
                Some(error),
                now,
            )
        } else {
            new == old
        },
        None => new == old,
    }
}

impl RetailLedger {
    fn set_sweep(&mut self, k: usize, row: SweepRow)
        requires
            k < old(self).sweeps@.len(),
            row.operation_id@ == old(self).sweeps@[k as int].operation_id@,
            old(self).wf(),
        ensures
            final(self).wf(),
            final(self).sweeps@ == old(self).sweeps@.update(k as int, row),
            final(self).positions == old(self).positions,
            final(self).inventory_raw == old(self).inventory_raw,
            final(self).inventory_activated == old(self).inventory_activated,
            final(self).pending_fee_raw == old(self).pending_fee_raw,
            final(self).usd_minor_per_rusd == old(self).usd_minor_per_rusd,
            final(self).rate_updated_at_unix_ms == old(self).rate_updated_at_unix_ms,
            final(self).orders == old(self).orders,
            final(self).transfers == old(self).transfers,
            final(self).postings == old(self).postings,
            final(self).entries == old(self).entries,
            final(self).withdrawals == old(self).withdrawals,
            final(self).deposits == old(self).deposits,
            final(self).deposit_checkpoint == old(self).deposit_checkpoint,
            final(self).records == old(self).records,
            final(self).amendments == old(self).amendments,
    {
        proof {
            self.lemma_views();
        }
        let ghost before = self.sweeps@;
        self.sweeps.set(k, row);
        proof {
            self.lemma_views();
            assert forall|i: int, j: int|
                0 <= i < j < self.sweeps@.len() implies (#[trigger] self.sweeps@[i]).operation_id@
                != (#[trigger] self.sweeps@[j]).operation_id@ by {
                assert(before[i].operation_id@ != before[j].operation_id@);
            }
        }
    }

    /// The sweep with `id`, as the API hands sweeps out.
    pub fn fee_sweep(&self, id: &str) -> (r: Option<FeeSweep>)
        requires
            self.wf(),
        ensures
            match sweep_index(self.sweeps(), id@) {
                Some(k) => r matches Some(f) && sweep_of(f, self.sweeps()[k]),
                None => r is None,
            },
    {
        proof {
            self.lemma_views();
        }
        match find_sweep(&self.sweeps, id) {
            Some(k) => {
                proof {
                    lemma_sweep_index_at(self.sweeps@, k as int);
                }
                Some(to_fee_sweep(&self.sweeps[k]))
            },
            None => None,
        }
    }

    /// Starts sweep `id` over all pending fees, or opens a failed one again.
    pub fn begin_fee_sweep(&mut self, id: &str, now: u64) -> (r: Result<FeeSweep, FeeSweepError>)
        requires
            old(self).wf(),
        ensures
            final(self).wf(),
            begin_sweep_post(*old(self), id@, now, *final(self), r),
    {
        proof {
            self.lemma_views();
        }
        match find_sweep(&self.sweeps, id) {
            Some(k) => {
                proof {
                    lemma_sweep_index_at(self.sweeps@, k as int);
                }
                if self.sweeps[k].status == SweepStatus::Failed {
                    let s = &self.sweeps[k];
                    let row = SweepRow {
                        operation_id: s.operation_id.clone(),
                        amount_raw: s.amount_raw,
                        status: SweepStatus::Pending,
                        transaction_hash: opt_clone(&s.transaction_hash),
                        last_error: None,
                        created_at_unix_ms: s.created_at_unix_ms,
                        updated_at_unix_ms: now,
                    };
                    self.set_sweep(k, row);
                    proof {
                        self.lemma_views();
                    }
                }
                return Ok(to_fee_sweep(&self.sweeps[k]));
            },
            None => {},
        }
        if self.pending_fee_raw == 0 {
            return Err(FeeSweepError::NoPendingFees);
        }
        let ghost before = self.sweeps@;
        let row = SweepRow {
            operation_id: id.to_owned(),
            amount_raw: self.pending_fee_raw,
            status: SweepStatus::Pending,
            transaction_hash: None,
            last_error: None,
            created_at_unix_ms: now,
            updated_at_unix_ms: now,
        };
        let view = to_fee_sweep(&row);
        self.sweeps.push(row);
        proof {
            self.lemma_views();
            assert(self.sweeps@.drop_last() =~= before);
            assert forall|i: int, j: int|
                0 <= i < j < self.sweeps@.len() implies (#[trigger] self.sweeps@[i]).operation_id@
                != (#[trigger] self.sweeps@[j]).operation_id@ by {
                if j == self.sweeps@.len() - 1 {
                    assert(self.sweeps@[i] == before[i]);
                } else {
                    assert(self.sweeps@[i] == before[i] && self.sweeps@[j] == before[j]);
                }
            }
        }
        Ok(view)
    }

    /// Records the chain's confirmation `hash` of sweep `id`.
    pub fn confirm_fee_sweep(&mut self, id: &str, hash: &str, now: u64) -> (r: Result<FeeSweep, FeeSweepError>)
        requires
            old(self).wf(),
        ensures
            final(self).wf(),
            confirm_sweep_post(*old(self), id@, hash@, now, *final(self), r),
    {
        proof {
            self.lemma_views();
        }
        let k = match find_sweep(&self.sweeps, id) {
            Some(k) => k,
            None => return Err(FeeSweepError::Storage(String::from_str("fee sweep disappeared"))),
        };
        proof {
            lemma_sweep_index_at(self.sweeps@, k as int);
        }
        if self.sweeps[k].transaction_hash.is_none() {
            let s = &self.sweeps[k];
            let row = SweepRow {
                operation_id: s.operation_id.clone(),
                amount_raw: s.amount_raw,
                status: SweepStatus::ChainConfirmed,
                transaction_hash: Some(hash.to_owned()),
                last_error: None,
                created_at_unix_ms: s.created_at_unix_ms,
                updated_at_unix_ms: now,
            };
            self.set_sweep(k, row);
            proof {
                self.lemma_views();
            }
        }
        Ok(to_fee_sweep(&self.sweeps[k]))
    }

    /// Completes sweep `id` after the chain confirmed it; a completed sweep
    /// is answered as it stands.
    pub fn complete_fee_sweep(&mut self, id: &str, now: u64) -> (r: Result<FeeSweep, FeeSweepError>)
        requires
            old(self).wf(),
        ensures
            final(self).wf(),
            complete_sweep_post(*old(self), id@, now, *final(self), r),
    {
        proof {
            self.lemma_views();
        }
        let k = match find_sweep(&self.sweeps, id) {
            Some(k) => k,
            None => return Err(FeeSweepError::Storage(String::from_str("fee sweep does not exist"))),
        };
        proof {
            lemma_sweep_index_at(self.sweeps@, k as int);
        }
        if self.sweeps[k].status == SweepStatus::Completed {
            return Ok(to_fee_sweep(&self.sweeps[k]));
        }
        if self.sweeps[k].status != SweepStatus::ChainConfirmed {
            return Err(FeeSweepError::Storage(String::from_str("on-chain transfer is not confirmed")));
        }
        let amount = self.sweeps[k].amount_raw;
        if self.pending_fee_raw < amount {
            return Err(FeeSweepError::Storage(String::from_str("pending fee position is lower than confirmed sweep")));
        }
        let ghost before = *self;
        self.pending_fee_raw = self.pending_fee_raw - amount;
        let s = &self.sweeps[k];
        let row = SweepRow {
            operation_id: s.operation_id.clone(),
            amount_raw: s.amount_raw,
            status: SweepStatus::Completed,
            transaction_hash: opt_clone(&s.transaction_hash),
            last_error: opt_clone(&s.last_error),
            created_at_unix_ms: s.created_at_unix_ms,
            updated_at_unix_ms: now,
        };
        let view = to_fee_sweep(&row);
        self.set_sweep(k, row);
        self.entries.push(entry(id, "casp_fee_pending", "casp-fees", "debit", amount, now));
        proof {
            self.lemma_views();
            assert(self.entries@.drop_last() =~= before.entries@);
        }
        Ok(view)
    }

    /// Records that sweep `id` failed before any transaction was sent.
    pub fn fail_fee_sweep(&mut self, id: &str, error: &str, now: u64)
        requires
            old(self).wf(),
        ensures
            final(self).wf(),
            fail_sweep_post(*old(self), id@, error@, now, *final(self)),
    {
        proof {
            self.lemma_views();
        }
        let k = match find_sweep(&self.sweeps, id) {
            Some(k) => k,
            None => return,
        };
        proof {
            lemma_sweep_index_at(self.sweeps@, k as int);
        }
        if self.sweeps[k].transaction_hash.is_some() {
            return;
        }
        let s = &self.sweeps[k];
        let row = SweepRow {
            operation_id: s.operation_id.clone(),
            amount_raw: s.amount_raw,
            status: SweepStatus::Failed,
            transaction_hash: None,
            last_error: Some(error.to_owned()),
            created_at_unix_ms: s.created_at_unix_ms,
            updated_at_unix_ms: now,
        };
        self.set_sweep(k, row);
        proof {
            self.lemma_views();
        }
    }
}

} // verus!
