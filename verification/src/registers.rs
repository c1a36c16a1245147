//! The registers of the inventory bootstrap (one at most) and of inventory
//! replenishments: each keeps the progress of its purchases between steps.
use crate::application::{BootstrapError, COLD_TARGET_RAW, HOT_TARGET_RAW, PURCHASE_TOKEN_RAW, PURCHASE_USD_MINOR};
use crate::decimal::{decimal_nat, u64_to_string};
use crate::domain::{BootstrapOperation, BootstrapStatus};
use crate::inventory::{allocation, spec_allocation, InventoryError, InventoryOperation, InventoryStatus};
use crate::ledger::opt_text;
use crate::decimal::{decimal_int, i64_parse_error, i64_parse_error_text, i64_to_string, parse_i64, spec_parse_i64};
use crate::reconciliation::{
    snapshot_or_unavailable, spec_is_unavailable_snapshot, spec_reconciliation_error_text, ReconciliationError,
    ReconciliationSnapshot,
};
use crate::recency::{newest_first, newest_first_order};
use crate::text::str_eq;
use vstd::prelude::*;

verus! {

/// The largest amount the registers store (their integers are signed 64-bit).
pub const MAX_STORED: u64 = 0x7fff_ffff_ffff_ffff;

fn opt_clone(o: &Option<String>) -> (r: Option<String>)
    ensures
        r == *o,
{
    match o {
        Some(s) => Some(s.clone()),
        None => None,
    }
}

fn opt_owned(o: Option<&str>) -> (r: Option<String>)
    ensures
        opt_text(r) == match o {
            Some(s) => Some(s@),
            None => None,
        },
{
    match o {
        Some(s) => Some(s.to_owned()),
        None => None,
    }
}

/// A new hash when one is given, else the old one.
pub open spec fn kept_or(new: Option<&str>, old: Option<String>) -> Option<Seq<char>> {
    match new {
        Some(s) => Some(s@),
        None => opt_text(old),
    }
}

fn keep_or(new: Option<&str>, old: &Option<String>) -> (r: Option<String>)
    ensures
        opt_text(r) == kept_or(new, *old),
{
    match new {
        Some(s) => Some(s.to_owned()),
        None => opt_clone(old),
    }
}

/// Two bootstrap operations with the same fields.
pub open spec fn same_bootstrap(a: BootstrapOperation, b: BootstrapOperation) -> bool {
    &&& a.operation_id@ == b.operation_id@
    &&& a.status == b.status
    &&& a.amount_usd_minor@ == b.amount_usd_minor@
    &&& a.token_amount_raw@ == b.token_amount_raw@
    &&& a.corporate_address@ == b.corporate_address@
    &&& a.hot_address@ == b.hot_address@
    &&& a.cold_address@ == b.cold_address@
    &&& a.hot_target_raw@ == b.hot_target_raw@
    &&& a.cold_target_raw@ == b.cold_target_raw@
    &&& opt_text(a.issuer_transaction_hash) == opt_text(b.issuer_transaction_hash)
    &&& opt_text(a.cold_transaction_hash) == opt_text(b.cold_transaction_hash)
    &&& opt_text(a.hot_transaction_hash) == opt_text(b.hot_transaction_hash)
    &&& opt_text(a.last_error) == opt_text(b.last_error)
    &&& a.created_at_unix_ms == b.created_at_unix_ms
    &&& a.updated_at_unix_ms == b.updated_at_unix_ms
}

fn copy_bootstrap(o: &BootstrapOperation) -> (r: BootstrapOperation)
    ensures
        same_bootstrap(r, *o),
{
    BootstrapOperation {
        operation_id: o.operation_id.clone(),
        status: o.status,
        amount_usd_minor: o.amount_usd_minor.clone(),
        token_amount_raw: o.token_amount_raw.clone(),
        corporate_address: o.corporate_address.clone(),
        hot_address: o.hot_address.clone(),
        cold_address: o.cold_address.clone(),
        hot_target_raw: o.hot_target_raw.clone(),
        cold_target_raw: o.cold_target_raw.clone(),
        issuer_transaction_hash: opt_clone(&o.issuer_transaction_hash),
        cold_transaction_hash: opt_clone(&o.cold_transaction_hash),
        hot_transaction_hash: opt_clone(&o.hot_transaction_hash),
        last_error: opt_clone(&o.last_error),
        created_at_unix_ms: o.created_at_unix_ms,
        updated_at_unix_ms: o.updated_at_unix_ms,
    }
}

/// The register of the inventory bootstrap: the single purchase that
/// creates the CASP's first inventory.
#[derive(Debug)]
pub struct BootstrapRegister {
    operation: Option<BootstrapOperation>,
}

impl BootstrapRegister {
    /// The bootstrap, once started.
    pub closed spec fn current(&self) -> Option<BootstrapOperation> {
        self.operation
    }

    /// No bootstrap yet.
    pub fn new() -> (r: BootstrapRegister)
        ensures
            r.current() is None,
    {
        BootstrapRegister { operation: None }
    }

    /// The bootstrap, if it was started.
    pub fn get(&self) -> (r: Option<BootstrapOperation>)
        ensures
            match self.current() {
                Some(o) => r matches Some(x) && same_bootstrap(x, o),
                None => r is None,
            },
    {
        match &self.operation {
            Some(o) => Some(copy_bootstrap(o)),
            None => None,
        }
    }

    /// Starts the bootstrap under `id` for the given wallets at `now`; once
    /// started, the existing one is handed back unchanged.
    pub fn create(&mut self, id: &str, corporate: &str, hot: &str, cold: &str, now: u64) -> (r: BootstrapOperation)
        ensures
            match old(self).current() {
                Some(o) => final(self).current() == old(self).current() && same_bootstrap(r, o),
                None => final(self).current() matches Some(x) && same_bootstrap(r, x) && {
                    &&& x.operation_id@ == id@
                    &&& x.status == BootstrapStatus::Created
                    &&& x.amount_usd_minor@ == decimal_nat(PURCHASE_USD_MINOR as nat)
                    &&& x.token_amount_raw@ == decimal_nat(PURCHASE_TOKEN_RAW as nat)
                    &&& x.corporate_address@ == corporate@
                    &&& x.hot_address@ == hot@
                    &&& x.cold_address@ == cold@
                    &&& x.hot_target_raw@ == decimal_nat(HOT_TARGET_RAW as nat)
                    &&& x.cold_target_raw@ == decimal_nat(COLD_TARGET_RAW as nat)
                    &&& x.issuer_transaction_hash is None
                    &&& x.cold_transaction_hash is None
                    &&& x.hot_transaction_hash is None
                    &&& x.last_error is None
                    &&& x.created_at_unix_ms == now
                    &&& x.updated_at_unix_ms == now
                },
            },
    {
        match &self.operation {
            Some(o) => return copy_bootstrap(o),
            None => {},
        }
        let operation = BootstrapOperation {
            operation_id: id.to_owned(),
            status: BootstrapStatus::Created,
            amount_usd_minor: u64_to_string(PURCHASE_USD_MINOR),
            token_amount_raw: u64_to_string(PURCHASE_TOKEN_RAW),
            corporate_address: corporate.to_owned(),
            hot_address: hot.to_owned(),
            cold_address: cold.to_owned(),
            hot_target_raw: u64_to_string(HOT_TARGET_RAW),
            cold_target_raw: u64_to_string(COLD_TARGET_RAW),
            issuer_transaction_hash: None,
            cold_transaction_hash: None,
            hot_transaction_hash: None,
            last_error: None,
            created_at_unix_ms: now,
            updated_at_unix_ms: now,
        };
        let copy = copy_bootstrap(&operation);
        self.operation = Some(operation);
        copy
    }

    /// Moves the bootstrap to `status`, keeping each transaction hash that is
    /// not given anew and clearing the last error.
    pub fn advance(
        &mut self,
        status: BootstrapStatus,
        issuer: Option<&str>,
        cold: Option<&str>,
        hot: Option<&str>,
        now: u64,
    ) -> (r: Result<BootstrapOperation, BootstrapError>)
        ensures
            match old(self).current() {
                None => r matches Err(BootstrapError::NotStarted) && final(self).current() is None,
                Some(o) => final(self).current() matches Some(x) && r matches Ok(y) && same_bootstrap(y, x) && {
                    &&& x.operation_id == o.operation_id
                    &&& x.status == status
                    &&& x.amount_usd_minor == o.amount_usd_minor
                    &&& x.token_amount_raw == o.token_amount_raw
                    &&& x.corporate_address == o.corporate_address
                    &&& x.hot_address == o.hot_address
                    &&& x.cold_address == o.cold_address
                    &&& x.hot_target_raw == o.hot_target_raw
                    &&& x.cold_target_raw == o.cold_target_raw
                    &&& opt_text(x.issuer_transaction_hash) == kept_or(issuer, o.issuer_transaction_hash)
                    &&& opt_text(x.cold_transaction_hash) == kept_or(cold, o.cold_transaction_hash)
                    &&& opt_text(x.hot_transaction_hash) == kept_or(hot, o.hot_transaction_hash)
                    &&& x.last_error is None
                    &&& x.created_at_unix_ms == o.created_at_unix_ms
                    &&& x.updated_at_unix_ms == now
                },
            },
    {
        let o = match &self.operation {
            Some(o) => o,
            None => return Err(BootstrapError::NotStarted),
        };
        let next = BootstrapOperation {
            operation_id: o.operation_id.clone(),
            status,
            amount_usd_minor: o.amount_usd_minor.clone(),
            token_amount_raw: o.token_amount_raw.clone(),
            corporate_address: o.corporate_address.clone(),
            hot_address: o.hot_address.clone(),
            cold_address: o.cold_address.clone(),
            hot_target_raw: o.hot_target_raw.clone(),
            cold_target_raw: o.cold_target_raw.clone(),
            issuer_transaction_hash: keep_or(issuer, &o.issuer_transaction_hash),
            cold_transaction_hash: keep_or(cold, &o.cold_transaction_hash),
            hot_transaction_hash: keep_or(hot, &o.hot_transaction_hash),
            last_error: None,
            created_at_unix_ms: o.created_at_unix_ms,
            updated_at_unix_ms: now,
        };
        let copy = copy_bootstrap(&next);
        self.operation = Some(next);
        Ok(copy)
    }

    /// Records that the bootstrap failed with `message`; it starts over from
    /// the issuer order when resumed.
    pub fn fail(&mut self, message: &str, now: u64)
        ensures
            match old(self).current() {
                None => final(self).current() is None,
                Some(o) => final(self).current() matches Some(x) && {
                    &&& x.operation_id == o.operation_id
                    &&& x.status == BootstrapStatus::Failed
                    &&& x.amount_usd_minor == o.amount_usd_minor
                    &&& x.token_amount_raw == o.token_amount_raw
                    &&& x.corporate_address == o.corporate_address
                    &&& x.hot_address == o.hot_address
                    &&& x.cold_address == o.cold_address
                    &&& x.hot_target_raw == o.hot_target_raw
                    &&& x.cold_target_raw == o.cold_target_raw
                    &&& x.issuer_transaction_hash == o.issuer_transaction_hash
                    &&& x.cold_transaction_hash == o.cold_transaction_hash
                    &&& x.hot_transaction_hash == o.hot_transaction_hash
                    &&& opt_text(x.last_error) == Some(message@)
                    &&& x.created_at_unix_ms == o.created_at_unix_ms
                    &&& x.updated_at_unix_ms == now
                },
            },
    {
        let o = match &self.operation {
            Some(o) => o,
            None => return,
        };
        let next = BootstrapOperation {
            operation_id: o.operation_id.clone(),
            status: BootstrapStatus::Failed,
            amount_usd_minor: o.amount_usd_minor.clone(),
            token_amount_raw: o.token_amount_raw.clone(),
            corporate_address: o.corporate_address.clone(),
            hot_address: o.hot_address.clone(),
            cold_address: o.cold_address.clone(),
            hot_target_raw: o.hot_target_raw.clone(),
            cold_target_raw: o.cold_target_raw.clone(),
            issuer_transaction_hash: opt_clone(&o.issuer_transaction_hash),
            cold_transaction_hash: opt_clone(&o.cold_transaction_hash),
            hot_transaction_hash: opt_clone(&o.hot_transaction_hash),
            last_error: Some(message.to_owned()),
            created_at_unix_ms: o.created_at_unix_ms,
            updated_at_unix_ms: now,
        };
        self.operation = Some(next);
    }
}

/// Two replenishments with the same fields.
pub open spec fn same_replenishment(a: InventoryOperation, b: InventoryOperation) -> bool {
    &&& a.operation_id@ == b.operation_id@
    &&& a.status == b.status
    &&& a.amount_usd_minor@ == b.amount_usd_minor@
    &&& a.token_amount_raw@ == b.token_amount_raw@
    &&& a.hot_increment_raw@ == b.hot_increment_raw@
    &&& a.cold_increment_raw@ == b.cold_increment_raw@
    &&& opt_text(a.hot_target_raw) == opt_text(b.hot_target_raw)
    &&& opt_text(a.cold_target_raw) == opt_text(b.cold_target_raw)
    &&& opt_text(a.issuer_transaction_hash) == opt_text(b.issuer_transaction_hash)
    &&& opt_text(a.cold_transaction_hash) == opt_text(b.cold_transaction_hash)
    &&& opt_text(a.hot_transaction_hash) == opt_text(b.hot_transaction_hash)
    &&& opt_text(a.last_error) == opt_text(b.last_error)
    &&& a.created_at_unix_ms == b.created_at_unix_ms
    &&& a.updated_at_unix_ms == b.updated_at_unix_ms
}

fn copy_replenishment(o: &InventoryOperation) -> (r: InventoryOperation)
    ensures
        same_replenishment(r, *o),
{
    InventoryOperation {
        operation_id: o.operation_id.clone(),
        status: o.status,
        amount_usd_minor: o.amount_usd_minor.clone(),
        token_amount_raw: o.token_amount_raw.clone(),
        hot_increment_raw: o.hot_increment_raw.clone(),
        cold_increment_raw: o.cold_increment_raw.clone(),
        hot_target_raw: opt_clone(&o.hot_target_raw),
        cold_target_raw: opt_clone(&o.cold_target_raw),
        issuer_transaction_hash: opt_clone(&o.issuer_transaction_hash),
        cold_transaction_hash: opt_clone(&o.cold_transaction_hash),
        hot_transaction_hash: opt_clone(&o.hot_transaction_hash),
        last_error: opt_clone(&o.last_error),
        created_at_unix_ms: o.created_at_unix_ms,
        updated_at_unix_ms: o.updated_at_unix_ms,
    }
}

/// The replenishment with `id`, if any.
pub open spec fn replenishment_index(rows: Seq<InventoryOperation>, id: Seq<char>) -> Option<int> {
    if exists|i: int| 0 <= i < rows.len() && (#[trigger] rows[i]).operation_id@ == id {
        Some(choose|i: int| 0 <= i < rows.len() && (#[trigger] rows[i]).operation_id@ == id)
    } else {
        None
    }
}

fn find_replenishment(rows: &Vec<InventoryOperation>, id: &str) -> (r: Option<usize>)
    ensures
        match r {
            Some(k) => k < rows@.len() && rows@[k as int].operation_id@ == id@,
            None => forall|j: int| 0 <= j < rows@.len() ==> (#[trigger] rows@[j]).operation_id@ != id@,
        },
{
    let mut k: usize = 0;
    while k < rows.len()
        invariant
            k <= rows@.len(),
            forall|j: int| 0 <= j < k ==> (#[trigger] rows@[j]).operation_id@ != id@,
        decreases rows.len() - k,
    {
        if str_eq(rows[k].operation_id.as_str(), id) {
            return Some(k);
        }
        k = k + 1;
    }
    None
}

/// With unique IDs, the replenishment found for an ID is the one that holds it.
pub proof fn lemma_replenishment_index_at(rows: Seq<InventoryOperation>, k: int)
    requires
        0 <= k < rows.len(),
        forall|i: int, j: int|
            0 <= i < j < rows.len() ==> (#[trigger] rows[i]).operation_id@ != (#[trigger] rows[j]).operation_id@,
    ensures
        replenishment_index(rows, rows[k].operation_id@) == Some(k),
{
    let id = rows[k].operation_id@;
    let c = choose|i: int| 0 <= i < rows.len() && (#[trigger] rows[i]).operation_id@ == id;
    assert(rows[k].operation_id@ == id);
    if c < k {
        assert(rows[c].operation_id@ != rows[k].operation_id@);
    } else if c > k {
        assert(rows[k].operation_id@ != rows[c].operation_id@);
    }
}

/// The register of inventory replenishments.
#[derive(Debug)]
pub struct InventoryRegister {
    rows: Vec<InventoryOperation>,
}

/// `new` is replenishment `old` with the given status, targets, hashes and
/// error at `now`; its amounts and creation stay.
pub open spec fn updated_replenishment(
    old: InventoryOperation,
    new: InventoryOperation,
    status: InventoryStatus,
    hot_target: Option<Seq<char>>,
    cold_target: Option<Seq<char>>,
    issuer: Option<Seq<char>>,
    cold: Option<Seq<char>>,
    hot: Option<Seq<char>>,
    error: Option<Seq<char>>,
    now: u64,
) -> bool {
    &&& new.operation_id == old.operation_id
    &&& new.status == status
    &&& new.amount_usd_minor == old.amount_usd_minor
    &&& new.token_amount_raw == old.token_amount_raw
    &&& new.hot_increment_raw == old.hot_increment_raw
    &&& new.cold_increment_raw == old.cold_increment_raw
    &&& opt_text(new.hot_target_raw) == hot_target
    &&& opt_text(new.cold_target_raw) == cold_target
    &&& opt_text(new.issuer_transaction_hash) == issuer
    &&& opt_text(new.cold_transaction_hash) == cold
    &&& opt_text(new.hot_transaction_hash) == hot
    &&& opt_text(new.last_error) == error
    &&& new.created_at_unix_ms == old.created_at_unix_ms
    &&& new.updated_at_unix_ms == now
}

/// When each replenishment was created, in stored order.
pub open spec fn creation_times(rows: Seq<InventoryOperation>) -> Seq<u64> {
    rows.map_values(|o: InventoryOperation| o.created_at_unix_ms)
}

/// `new` differs from `old` in replenishment `k` alone.
pub open spec fn only_changed(old: Seq<InventoryOperation>, new: Seq<InventoryOperation>, k: int) -> bool {
    new.len() == old.len() && forall|i: int| 0 <= i < old.len() && i != k ==> new[i] == old[i]
}

impl InventoryRegister {
    /// The stored replenishments, in the order they were created.
    pub closed spec fn rows(&self) -> Seq<InventoryOperation> {
        self.rows@
    }

    /// Each replenishment is stored once.
    pub open spec fn wf(&self) -> bool {
        forall|i: int, j: int|
            0 <= i < j < self.rows().len() ==> (#[trigger] self.rows()[i]).operation_id@
                != (#[trigger] self.rows()[j]).operation_id@
    }

    /// No replenishment yet.
    pub fn new() -> (r: InventoryRegister)
        ensures
            r.wf(),
            r.rows().len() == 0,
    {
        InventoryRegister { rows: Vec::new() }
    }

    /// Creates replenishment `id` of `amount_minor` cents at `now`: the token
    /// amount is split 20/80 between hot and cold. A repeat with the same
    /// amount hands back the stored one; another amount is a conflict.
    pub fn create(&mut self, id: &str, amount_minor: u64, now: u64) -> (r: Result<InventoryOperation, InventoryError>)
        requires
            old(self).wf(),
        ensures
            final(self).wf(),
            match replenishment_index(old(self).rows(), id@) {
                Some(k) => final(self).rows() == old(self).rows() && if old(self).rows()[k].amount_usd_minor@
                    == decimal_nat(amount_minor as nat) {
                    r matches Ok(x) && same_replenishment(x, old(self).rows()[k])
                } else {
                    r matches Err(InventoryError::IdempotencyConflict)
                },
                None => match spec_allocation(amount_minor) {
                    None => r matches Err(InventoryError::Overflow) && final(self).rows() == old(self).rows(),
                    Some((total, hot, cold)) => if amount_minor > MAX_STORED || total > MAX_STORED {
                        r matches Err(InventoryError::Overflow) && final(self).rows() == old(self).rows()
                    } else {
                        let x = final(self).rows().last();
                        &&& final(self).rows().len() == old(self).rows().len() + 1
                        &&& final(self).rows().drop_last() == old(self).rows()
                        &&& x.operation_id@ == id@
                        &&& x.status == InventoryStatus::Created
                        &&& x.amount_usd_minor@ == decimal_nat(amount_minor as nat)
                        &&& x.token_amount_raw@ == decimal_nat(total as nat)
                        &&& x.hot_increment_raw@ == decimal_nat(hot as nat)
                        &&& x.cold_increment_raw@ == decimal_nat(cold as nat)
                        &&& x.hot_target_raw is None
                        &&& x.cold_target_raw is None
                        &&& x.issuer_transaction_hash is None
                        &&& x.cold_transaction_hash is None
                        &&& x.hot_transaction_hash is None
                        &&& x.last_error is None
                        &&& x.created_at_unix_ms == now
                        &&& x.updated_at_unix_ms == now
                        &&& r matches Ok(y) && same_replenishment(y, x)
                    },
                },
            },
    {
        proof {
            assert(self.rows() == self.rows@);
        }
        match find_replenishment(&self.rows, id) {
            Some(k) => {
                proof {
                    lemma_replenishment_index_at(self.rows@, k as int);
                }
                let amount = u64_to_string(amount_minor);
                if !str_eq(self.rows[k].amount_usd_minor.as_str(), amount.as_str()) {
                    return Err(InventoryError::IdempotencyConflict);
                }
                return Ok(copy_replenishment(&self.rows[k]));
            },
            None => {},
        }
        let (total, hot, cold) = allocation(amount_minor)?;
        if amount_minor > MAX_STORED || total > MAX_STORED {
            return Err(InventoryError::Overflow);
        }
        let ghost before = self.rows@;
        let row = InventoryOperation {
            operation_id: id.to_owned(),
            status: InventoryStatus::Created,
            amount_usd_minor: u64_to_string(amount_minor),
            token_amount_raw: u64_to_string(total),
            hot_increment_raw: u64_to_string(hot),
            cold_increment_raw: u64_to_string(cold),
            hot_target_raw: None,
            cold_target_raw: None,
            issuer_transaction_hash: None,
            cold_transaction_hash: None,
            hot_transaction_hash: None,
            last_error: None,
            created_at_unix_ms: now,
            updated_at_unix_ms: now,
        };
        let copy = copy_replenishment(&row);
        self.rows.push(row);
        proof {
            assert(self.rows@.drop_last() =~= before);
            assert forall|i: int, j: int|
                0 <= i < j < self.rows@.len() implies (#[trigger] self.rows@[i]).operation_id@
                != (#[trigger] self.rows@[j]).operation_id@ by {
                if j == self.rows@.len() - 1 {
                    assert(self.rows@[i] == before[i]);
                } else {
                    assert(self.rows@[i] == before[i] && self.rows@[j] == before[j]);
                }
            }
        }
        Ok(copy)
    }

    /// The replenishment with `id`, if any.
    pub fn get(&self, id: &str) -> (r: Option<InventoryOperation>)
        requires
            self.wf(),
        ensures
            match replenishment_index(self.rows(), id@) {
                Some(k) => r matches Some(x) && same_replenishment(x, self.rows()[k]),
                None => r is None,
            },
    {
        proof {
            assert(self.rows() == self.rows@);
        }
        match find_replenishment(&self.rows, id) {
            Some(k) => {
                proof {
                    lemma_replenishment_index_at(self.rows@, k as int);
                }
                Some(copy_replenishment(&self.rows[k]))
            },
            None => None,
        }
    }

    /// Every replenishment, newest first.
    pub fn list(&self) -> (r: Vec<InventoryOperation>)
        ensures
            r@.len() == self.rows().len(),
            exists|order: Seq<usize>|
                #[trigger] newest_first_order(creation_times(self.rows()), order)
                    && forall|i: int| 0 <= i < r@.len() ==> same_replenishment(#[trigger] r@[i], self.rows()[order[i] as int]),
    {
        let mut times: Vec<u64> = Vec::new();
        let mut k: usize = 0;
        while k < self.rows.len()
            invariant
                k <= self.rows@.len(),
                times@.len() == k,
                forall|x: int| 0 <= x < k ==> times@[x] == (#[trigger] self.rows@[x]).created_at_unix_ms,
            decreases self.rows.len() - k,
        {
            times.push(self.rows[k].created_at_unix_ms);
            k = k + 1;
        }
        proof {
            assert(times@ =~= creation_times(self.rows@));
        }
        let order = newest_first(&times);
        let mut out: Vec<InventoryOperation> = Vec::new();
        let mut i: usize = 0;
        while i < order.len()
            invariant
                i <= order@.len(),
                newest_first_order(times@, order@),
                times@.len() == self.rows@.len(),
                out@.len() == i,
                forall|x: int| 0 <= x < i ==> same_replenishment(#[trigger] out@[x], self.rows@[order@[x] as int]),
            decreases order.len() - i,
        {
            out.push(copy_replenishment(&self.rows[order[i]]));
            i = i + 1;
        }
        proof {
            assert(self.rows() == self.rows@);
        }
        out
    }

    fn update(
        &mut self,
        id: &str,
        status: Option<InventoryStatus>,
        targets: Option<(u64, u64)>,
        issuer: Option<&str>,
        cold: Option<&str>,
        hot: Option<&str>,
        error: Option<&str>,
        now: u64,
    ) -> (r: Option<usize>)
        requires
            old(self).wf(),
        ensures
            final(self).wf(),
            match replenishment_index(old(self).rows(), id@) {
                None => r is None && final(self).rows() == old(self).rows(),
                Some(k) => (r matches Some(j) && j == k) && only_changed(old(self).rows(), final(self).rows(), k)
                    && updated_replenishment(
                    old(self).rows()[k],
                    final(self).rows()[k],
                    match status {
                        Some(s) => s,
                        None => old(self).rows()[k].status,
                    },
                    match targets {
                        Some((h, _)) => Some(decimal_nat(h as nat)),
                        None => opt_text(old(self).rows()[k].hot_target_raw),
                    },
                    match targets {
                        Some((_, c)) => Some(decimal_nat(c as nat)),
                        None => opt_text(old(self).rows()[k].cold_target_raw),
                    },
                    kept_or(issuer, old(self).rows()[k].issuer_transaction_hash),
                    kept_or(cold, old(self).rows()[k].cold_transaction_hash),
                    kept_or(hot, old(self).rows()[k].hot_transaction_hash),
                    match error {
                        Some(e) => Some(e@),
                        None => None,
                    },
                    now,
                ),
            },
    {
        proof {
            assert(self.rows() == self.rows@);
        }
        let k = match find_replenishment(&self.rows, id) {
            Some(k) => k,
            None => return None,
        };
        proof {
            lemma_replenishment_index_at(self.rows@, k as int);
        }
        let o = &self.rows[k];
        let row = InventoryOperation {
            operation_id: o.operation_id.clone(),
            status: match status {
                Some(s) => s,
                None => o.status,
            },
            amount_usd_minor: o.amount_usd_minor.clone(),
            token_amount_raw: o.token_amount_raw.clone(),
            hot_increment_raw: o.hot_increment_raw.clone(),
            cold_increment_raw: o.cold_increment_raw.clone(),
            hot_target_raw: match targets {
                Some((h, _)) => Some(u64_to_string(h)),
                None => opt_clone(&o.hot_target_raw),
            },
            cold_target_raw: match targets {
                Some((_, c)) => Some(u64_to_string(c)),
                None => opt_clone(&o.cold_target_raw),
            },
            issuer_transaction_hash: keep_or(issuer, &o.issuer_transaction_hash),
            cold_transaction_hash: keep_or(cold, &o.cold_transaction_hash),
            hot_transaction_hash: keep_or(hot, &o.hot_transaction_hash),
            last_error: opt_owned(error),
            created_at_unix_ms: o.created_at_unix_ms,
            updated_at_unix_ms: now,
        };
        let ghost before = self.rows@;
        self.rows.set(k, row);
        proof {
            assert forall|i: int, j: int|
                0 <= i < j < self.rows@.len() implies (#[trigger] self.rows@[i]).operation_id@
                != (#[trigger] self.rows@[j]).operation_id@ by {
                assert(before[i].operation_id@ != before[j].operation_id@);
            }
        }
        Some(k)
    }

    /// Records the hot and cold targets that the distribution must reach.
    pub fn targets(&mut self, id: &str, hot: u64, cold: u64, now: u64) -> (r: Result<InventoryOperation, InventoryError>)
        requires
            old(self).wf(),
        ensures
            final(self).wf(),
            hot > MAX_STORED || cold > MAX_STORED ==> (r matches Err(InventoryError::Overflow) && final(self).rows()
                == old(self).rows()),
            hot <= MAX_STORED && cold <= MAX_STORED ==> match replenishment_index(old(self).rows(), id@) {
                None => r matches Err(InventoryError::Storage(m)) && m@ == "operation not found"@
                    && final(self).rows() == old(self).rows(),
                Some(k) => only_changed(old(self).rows(), final(self).rows(), k) && updated_replenishment(
                    old(self).rows()[k],
                    final(self).rows()[k],
                    InventoryStatus::TargetsRecorded,
                    Some(decimal_nat(hot as nat)),
                    Some(decimal_nat(cold as nat)),
                    opt_text(old(self).rows()[k].issuer_transaction_hash),
                    opt_text(old(self).rows()[k].cold_transaction_hash),
                    opt_text(old(self).rows()[k].hot_transaction_hash),
                    None,
                    now,
                ) && (r matches Ok(x) && same_replenishment(x, final(self).rows()[k])),
            },
    {
        if hot > MAX_STORED || cold > MAX_STORED {
            return Err(InventoryError::Overflow);
        }
        match self.update(id, Some(InventoryStatus::TargetsRecorded), Some((hot, cold)), None, None, None, None, now) {
            Some(k) => {
                let x = copy_replenishment(&self.rows[k]);
                proof {
                    assert(self.rows() == self.rows@);
                }
                Ok(x)
            },
            None => Err(InventoryError::Storage(String::from_str("operation not found"))),
        }
    }

    /// Moves replenishment `id` to `status`, keeping each transaction hash
    /// that is not given anew and clearing the last error.
    pub fn advance(
        &mut self,
        id: &str,
        status: InventoryStatus,
        issuer: Option<&str>,
        cold: Option<&str>,
        hot: Option<&str>,
        now: u64,
    ) -> (r: Result<InventoryOperation, InventoryError>)
        requires
            old(self).wf(),
        ensures
            final(self).wf(),
            match replenishment_index(old(self).rows(), id@) {
                None => r matches Err(InventoryError::Storage(m)) && m@ == "operation not found"@
                    && final(self).rows() == old(self).rows(),
                Some(k) => only_changed(old(self).rows(), final(self).rows(), k) && updated_replenishment(
                    old(self).rows()[k],
                    final(self).rows()[k],
                    status,
                    opt_text(old(self).rows()[k].hot_target_raw),
                    opt_text(old(self).rows()[k].cold_target_raw),
                    kept_or(issuer, old(self).rows()[k].issuer_transaction_hash),
                    kept_or(cold, old(self).rows()[k].cold_transaction_hash),
                    kept_or(hot, old(self).rows()[k].hot_transaction_hash),
                    None,
                    now,
                ) && (r matches Ok(x) && same_replenishment(x, final(self).rows()[k])),
            },
    {
        match self.update(id, Some(status), None, issuer, cold, hot, None, now) {
            Some(k) => {
                let x = copy_replenishment(&self.rows[k]);
                proof {
                    assert(self.rows() == self.rows@);
                }
                Ok(x)
            },
            None => Err(InventoryError::Storage(String::from_str("operation not found"))),
        }
    }

    /// Records the failure `message` of a step of replenishment `id`.
    pub fn fail(&mut self, id: &str, message: &str, now: u64)
        requires
            old(self).wf(),
        ensures
            final(self).wf(),
            match replenishment_index(old(self).rows(), id@) {
                None => final(self).rows() == old(self).rows(),
                Some(k) => only_changed(old(self).rows(), final(self).rows(), k) && updated_replenishment(
                    old(self).rows()[k],
                    final(self).rows()[k],
                    old(self).rows()[k].status,
                    opt_text(old(self).rows()[k].hot_target_raw),
                    opt_text(old(self).rows()[k].cold_target_raw),
                    opt_text(old(self).rows()[k].issuer_transaction_hash),
                    opt_text(old(self).rows()[k].cold_transaction_hash),
                    opt_text(old(self).rows()[k].hot_transaction_hash),
                    Some(message@),
                    now,
                ),
            },
    {
        self.update(id, None, None, None, None, None, Some(message), now);
    }
}

/// What a stored amount reads back as: the canonical text of the signed
/// 64-bit integer it spells.
pub open spec fn stored_amount(v: Option<String>) -> Option<Seq<char>> {
    match v {
        Some(s) => match spec_parse_i64(s@) {
            Some(n) => Some(decimal_int(n as int)),
            None => None,
        },
        None => None,
    }
}

/// The amount is absent or spells a signed 64-bit integer.
pub open spec fn amount_storable(v: Option<String>) -> bool {
    match v {
        Some(s) => spec_parse_i64(s@) is Some,
        None => true,
    }
}

/// Every amount of the snapshot can be stored.
pub open spec fn snapshot_storable(s: ReconciliationSnapshot) -> bool {
    &&& amount_storable(s.hot_raw)
    &&& amount_storable(s.cold_raw)
    &&& amount_storable(s.corporate_raw)
    &&& amount_storable(s.customer_available_raw)
    &&& amount_storable(s.customer_locked_raw)
    &&& amount_storable(s.inventory_available_raw)
    &&& amount_storable(s.pending_fee_raw)
    &&& amount_storable(s.custody_total_raw)
    &&& amount_storable(s.obligation_total_raw)
    &&& amount_storable(s.difference_raw)
}

/// Why an amount cannot be stored, if it cannot.
pub open spec fn amount_fault(v: Option<String>) -> Option<Seq<char>> {
    match v {
        Some(s) => if spec_parse_i64(s@) is Some {
            None
        } else {
            Some(i64_parse_error(s@))
        },
        None => None,
    }
}

/// Why the first amount of the snapshot that cannot be stored cannot, if
/// one cannot.
pub open spec fn snapshot_fault(s: ReconciliationSnapshot) -> Option<Seq<char>> {
    if amount_fault(s.hot_raw) is Some {
        amount_fault(s.hot_raw)
    } else if amount_fault(s.cold_raw) is Some {
        amount_fault(s.cold_raw)
    } else if amount_fault(s.corporate_raw) is Some {
        amount_fault(s.corporate_raw)
    } else if amount_fault(s.customer_available_raw) is Some {
        amount_fault(s.customer_available_raw)
    } else if amount_fault(s.customer_locked_raw) is Some {
        amount_fault(s.customer_locked_raw)
    } else if amount_fault(s.inventory_available_raw) is Some {
        amount_fault(s.inventory_available_raw)
    } else if amount_fault(s.pending_fee_raw) is Some {
        amount_fault(s.pending_fee_raw)
    } else if amount_fault(s.custody_total_raw) is Some {
        amount_fault(s.custody_total_raw)
    } else if amount_fault(s.obligation_total_raw) is Some {
        amount_fault(s.obligation_total_raw)
    } else if amount_fault(s.difference_raw) is Some {
        amount_fault(s.difference_raw)
    } else {
        None
    }
}

/// `r` is snapshot `s` as the register keeps it: amounts in canonical text,
/// everything else unchanged.
pub open spec fn stored_snapshot(r: ReconciliationSnapshot, s: ReconciliationSnapshot) -> bool {
    &&& r.status == s.status
    &&& opt_text(r.hot_raw) == stored_amount(s.hot_raw)
    &&& opt_text(r.cold_raw) == stored_amount(s.cold_raw)
    &&& opt_text(r.corporate_raw) == stored_amount(s.corporate_raw)
    &&& opt_text(r.customer_available_raw) == stored_amount(s.customer_available_raw)
    &&& opt_text(r.customer_locked_raw) == stored_amount(s.customer_locked_raw)
    &&& opt_text(r.inventory_available_raw) == stored_amount(s.inventory_available_raw)
    &&& opt_text(r.pending_fee_raw) == stored_amount(s.pending_fee_raw)
    &&& opt_text(r.custody_total_raw) == stored_amount(s.custody_total_raw)
    &&& opt_text(r.obligation_total_raw) == stored_amount(s.obligation_total_raw)
    &&& opt_text(r.difference_raw) == stored_amount(s.difference_raw)
    &&& r.evidence_block == s.evidence_block
    &&& r.reason@ == s.reason@
    &&& r.checked_at_unix_ms == s.checked_at_unix_ms
    &&& r.policy_version@ == s.policy_version@
}

/// Two snapshots with the same fields.
pub open spec fn same_snapshot(a: ReconciliationSnapshot, b: ReconciliationSnapshot) -> bool {
    &&& a.status == b.status
    &&& opt_text(a.hot_raw) == opt_text(b.hot_raw)
    &&& opt_text(a.cold_raw) == opt_text(b.cold_raw)
    &&& opt_text(a.corporate_raw) == opt_text(b.corporate_raw)
    &&& opt_text(a.customer_available_raw) == opt_text(b.customer_available_raw)
    &&& opt_text(a.customer_locked_raw) == opt_text(b.customer_locked_raw)
    &&& opt_text(a.inventory_available_raw) == opt_text(b.inventory_available_raw)
    &&& opt_text(a.pending_fee_raw) == opt_text(b.pending_fee_raw)
    &&& opt_text(a.custody_total_raw) == opt_text(b.custody_total_raw)
    &&& opt_text(a.obligation_total_raw) == opt_text(b.obligation_total_raw)
    &&& opt_text(a.difference_raw) == opt_text(b.difference_raw)
    &&& a.evidence_block == b.evidence_block
    &&& a.reason@ == b.reason@
    &&& a.checked_at_unix_ms == b.checked_at_unix_ms
    &&& a.policy_version@ == b.policy_version@
}

fn store_amount(v: &Option<String>) -> (r: Result<Option<String>, ReconciliationError>)
    ensures
        amount_storable(*v) ==> (r matches Ok(x) && opt_text(x) == stored_amount(*v)),
        !amount_storable(*v) ==> (r matches Err(ReconciliationError::Storage(m)) && Some(m@) == amount_fault(
            *v,
        )),
{
    match v {
        Some(s) => match parse_i64(s.as_str()) {
            Some(n) => Ok(Some(i64_to_string(n))),
            None => Err(ReconciliationError::Storage(i64_parse_error_text(s.as_str()))),
        },
        None => Ok(None),
    }
}

fn copy_snapshot(s: &ReconciliationSnapshot) -> (r: ReconciliationSnapshot)
    ensures
        same_snapshot(r, *s),
{
    ReconciliationSnapshot {
        status: s.status,
        hot_raw: opt_clone(&s.hot_raw),
        cold_raw: opt_clone(&s.cold_raw),
        corporate_raw: opt_clone(&s.corporate_raw),
        customer_available_raw: opt_clone(&s.customer_available_raw),
        customer_locked_raw: opt_clone(&s.customer_locked_raw),
        inventory_available_raw: opt_clone(&s.inventory_available_raw),
        pending_fee_raw: opt_clone(&s.pending_fee_raw),
        custody_total_raw: opt_clone(&s.custody_total_raw),
        obligation_total_raw: opt_clone(&s.obligation_total_raw),
        difference_raw: opt_clone(&s.difference_raw),
        evidence_block: s.evidence_block,
        reason: s.reason.clone(),
        checked_at_unix_ms: s.checked_at_unix_ms,
        policy_version: s.policy_version.clone(),
    }
}

/// What keeping the outcome `result` of a custody check does to the stored
/// snapshots `before`, leaving `after` and answering `r`.
pub open spec fn kept_check(
    before: Seq<ReconciliationSnapshot>,
    after: Seq<ReconciliationSnapshot>,
    result: Result<ReconciliationSnapshot, ReconciliationError>,
    r: Result<ReconciliationSnapshot, ReconciliationError>,
) -> bool {
    &&& match result {
        Ok(x) => (r is Ok <==> snapshot_storable(x)) && (r matches Ok(s) ==> s == x),
        Err(e) => r matches Ok(s) && spec_is_unavailable_snapshot(s, spec_reconciliation_error_text(e)),
    }
    &&& r matches Ok(s) ==> {
        &&& after.len() == before.len() + 1
        &&& after.drop_last() == before
        &&& stored_snapshot(after.last(), s)
    }
    &&& r is Err ==> after == before
}

/// `r` is the latest of the stored snapshots, as the register reads it back.
pub open spec fn latest_of(stored: Seq<ReconciliationSnapshot>, r: Option<ReconciliationSnapshot>) -> bool {
    &&& stored.len() == 0 ==> r is None
    &&& stored.len() > 0 ==> (r matches Some(x) && same_snapshot(x, stored.last()))
}

/// Law: every kept check appends one snapshot and keeps the earlier ones, and
/// the latest snapshot read back afterwards is the one just kept, with its
/// status, evidence block and reason, its amounts in canonical text; a later
/// check therefore replaces an earlier status as the current one.
pub proof fn lemma_latest_is_last_kept(
    before: Seq<ReconciliationSnapshot>,
    after: Seq<ReconciliationSnapshot>,
    result: Result<ReconciliationSnapshot, ReconciliationError>,
    kept: ReconciliationSnapshot,
    read: Option<ReconciliationSnapshot>,
)
    requires
        kept_check(before, after, result, Ok(kept)),
        latest_of(after, read),
    ensures
        after.len() == before.len() + 1,
        after.drop_last() == before,
        read matches Some(x) && stored_snapshot(x, kept),
        read matches Some(x) && x.status == kept.status && x.evidence_block == kept.evidence_block,
{
}

/// The register of custody reconciliation snapshots, oldest first.
#[derive(Debug)]
pub struct ReconciliationRegister {
    snapshots: Vec<ReconciliationSnapshot>,
}

impl ReconciliationRegister {
    /// The stored snapshots, in the order they were appended.
    pub closed spec fn stored(&self) -> Seq<ReconciliationSnapshot> {
        self.snapshots@
    }

    /// No snapshot yet.
    pub fn new() -> (r: ReconciliationRegister)
        ensures
            r.stored().len() == 0,
    {
        ReconciliationRegister { snapshots: Vec::new() }
    }

    /// Appends `value` with its amounts in canonical text; an amount that is
    /// not a signed 64-bit integer is refused and nothing is stored.
    pub fn append(&mut self, value: &ReconciliationSnapshot) -> (r: Result<(), ReconciliationError>)
        ensures
            snapshot_storable(*value) ==> {
                &&& r is Ok
                &&& final(self).stored().len() == old(self).stored().len() + 1
                &&& final(self).stored().drop_last() == old(self).stored()
                &&& stored_snapshot(final(self).stored().last(), *value)
            },
            !snapshot_storable(*value) ==> (r matches Err(ReconciliationError::Storage(m))
                && Some(m@) == snapshot_fault(*value) && final(self).stored() == old(self).stored()),
    {
        let hot_raw = store_amount(&value.hot_raw)?;
        let cold_raw = store_amount(&value.cold_raw)?;
        let corporate_raw = store_amount(&value.corporate_raw)?;
        let customer_available_raw = store_amount(&value.customer_available_raw)?;
        let customer_locked_raw = store_amount(&value.customer_locked_raw)?;
        let inventory_available_raw = store_amount(&value.inventory_available_raw)?;
        let pending_fee_raw = store_amount(&value.pending_fee_raw)?;
        let custody_total_raw = store_amount(&value.custody_total_raw)?;
        let obligation_total_raw = store_amount(&value.obligation_total_raw)?;
        let difference_raw = store_amount(&value.difference_raw)?;
        let ghost before = self.snapshots@;
        self.snapshots.push(
            ReconciliationSnapshot {
                status: value.status,
                hot_raw,
                cold_raw,
                corporate_raw,
                customer_available_raw,
                customer_locked_raw,
                inventory_available_raw,
                pending_fee_raw,
                custody_total_raw,
                obligation_total_raw,
                difference_raw,
                evidence_block: value.evidence_block,
                reason: value.reason.clone(),
                checked_at_unix_ms: value.checked_at_unix_ms,
                policy_version: value.policy_version.clone(),
            },
        );
        proof {
            assert(self.snapshots@.drop_last() =~= before);
        }
        Ok(())
    }

    /// Keeps the outcome of a custody check as the latest snapshot: the
    /// evaluation itself, or, when the figures could not be gathered, an
    /// unavailable snapshot carrying the failure's text. A failed check is
    /// kept as evidence, not passed on; only a snapshot that cannot be stored
    /// is refused.
    pub fn keep_check(&mut self, result: Result<ReconciliationSnapshot, ReconciliationError>) -> (r: Result<
        ReconciliationSnapshot,
        ReconciliationError,
    >)
        ensures
            kept_check(old(self).stored(), final(self).stored(), result, r),
    {
        let snapshot = snapshot_or_unavailable(result);
        match self.append(&snapshot) {
            Ok(()) => Ok(snapshot),
            Err(e) => Err(e),
        }
    }

    /// The snapshot appended last, if any.
    pub fn latest(&self) -> (r: Option<ReconciliationSnapshot>)
        ensures
            latest_of(self.stored(), r),
    {
        let n = self.snapshots.len();
        if n == 0 {
            None
        } else {
            Some(copy_snapshot(&self.snapshots[n - 1]))
        }
    }
}

} // verus!
