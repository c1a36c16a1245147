//! The register's book of external deposits: each deposit event is recorded
//! once, and a deposit whose reference names a client is credited to it once.
use super::records::{record_id_string, record_id_text, RecordRow};
use super::{
    entry, entry_is, find_position, one_record_added, position_index, same_records, RetailLedger,
    MAX_STORED,
};
use crate::decimal::{decimal_nat, u64_to_string};
use crate::external_deposits::{client_for_reference, reference_client, ExternalDepositError, ExternalDepositEvent};
use crate::text::str_eq;
use vstd::prelude::*;

verus! {

/// What became of a deposit.
#[derive(Debug, Clone, Copy, PartialEq, Eq, Structural)]
pub enum DepositStatus {
    Credited,
    UnknownReference,
}

/// One deposit event as the register keeps it.
#[derive(Debug)]
pub struct DepositRow {
    pub chain_id: u64,
    pub transaction_hash: String,
    pub log_index: u64,
    pub block_number: u64,
    pub sender_address: String,
    pub client_reference: Vec<u8>,
    pub client_id: Option<String>,
    pub amount_raw: u64,
    pub status: DepositStatus,
    pub credited_at_unix_ms: Option<u64>,
}

/// Two rows of the same event: the same log of the same transaction on the
/// same chain.
pub open spec fn same_deposit(a: DepositRow, b: DepositRow) -> bool {
    a.chain_id == b.chain_id && a.transaction_hash@ == b.transaction_hash@ && a.log_index == b.log_index
}

/// The row of event (`chain`, `hash`, `log`), if any.
pub open spec fn deposit_index(rows: Seq<DepositRow>, chain: u64, hash: Seq<char>, log: u64) -> Option<int> {
    if exists|i: int|
        0 <= i < rows.len() && (#[trigger] rows[i]).chain_id == chain && rows[i].transaction_hash@ == hash
            && rows[i].log_index == log {
        Some(
            choose|i: int|
                0 <= i < rows.len() && (#[trigger] rows[i]).chain_id == chain && rows[i].transaction_hash@
                    == hash && rows[i].log_index == log,
        )
    } else {
        None
    }
}

fn find_deposit(rows: &Vec<DepositRow>, chain: u64, hash: &str, log: u64) -> (r: bool)
    ensures
        r == (deposit_index(rows@, chain, hash@, log) is Some),
{
    let mut k: usize = 0;
    while k < rows.len()
        invariant
            k <= rows@.len(),
            forall|j: int|
                0 <= j < k ==> !((#[trigger] rows@[j]).chain_id == chain && rows@[j].transaction_hash@ == hash@
                    && rows@[j].log_index == log),
        decreases rows.len() - k,
    {
        if rows[k].chain_id == chain && rows[k].log_index == log && str_eq(
            rows[k].transaction_hash.as_str(),
            hash,
        ) {
            assert(rows@[k as int].chain_id == chain && rows@[k as int].transaction_hash@ == hash@
                && rows@[k as int].log_index == log);
            return true;
        }
        k = k + 1;
    }
    false
}

/// The journal operation ID of a deposit: `external:`, the transaction hash,
/// `:` and the log index.
pub open spec fn deposit_operation_id(hash: Seq<char>, log: u64) -> Seq<char> {
    "external:"@ + hash + ":"@ + decimal_nat(log as nat)
}

/// Everything but positions, the journal and the deposits is the same in
/// `a` and `b`.
pub open spec fn same_but_deposit_books(a: RetailLedger, b: RetailLedger) -> bool {
    &&& a.inventory() == b.inventory()
    &&& a.activated() == b.activated()
    &&& a.pending_fee() == b.pending_fee()
    &&& a.rate() == b.rate()
    &&& a.rate_updated_at() == b.rate_updated_at()
    &&& a.orders() == b.orders()
    &&& a.transfers() == b.transfers()
    &&& a.postings() == b.postings()
    &&& a.withdrawals() == b.withdrawals()
    &&& a.sweeps() == b.sweeps()
}

/// The record of deposit `event` credited to `client`, written as record
/// number `n`; the chain observer writes it without execution details.
pub open spec fn deposit_record_is(row: RecordRow, n: nat, chain: u64, event: ExternalDepositEvent, client: Seq<char>, now: u64) -> bool {
    &&& row.record_id@ == record_id_text(n)
    &&& row.operation_id@ == deposit_operation_id(event.transaction_hash@, event.log_index)
    &&& row.client_id@ == client
    &&& row.service_type@ == "transfer_service"@
    &&& row.order_type@ == "external_deposit"@
    &&& row.contract_address@ == "deposit-router"@
    &&& row.chain_id == chain
    &&& row.quantity_raw == event.amount_raw
    &&& row.gross_fiat_minor == 0
    &&& row.status@ == "completed"@
    &&& super::opt_text(row.source_account) == Some(event.sender@)
    &&& super::opt_text(row.destination_account) == Some(client)
    &&& super::opt_text(row.blockchain_transaction_hash) == Some(event.transaction_hash@)
    &&& row.decision_actor@ == "casp-chain-observer"@
    &&& row.created_at_unix_ms == now
    &&& row.details is None
}

/// What applying deposit `event` on `chain` for `client` (the client its
/// reference names, if any) does at `now`.
pub open spec fn apply_deposit_post(
    old: RetailLedger,
    chain: u64,
    event: ExternalDepositEvent,
    client: Option<Seq<char>>,
    now: u64,
    new: RetailLedger,
    r: Result<(), ExternalDepositError>,
) -> bool {
    let amount = event.amount_raw;
    if amount > MAX_STORED {
        r matches Err(ExternalDepositError::AmountOverflow) && new == old
    } else if deposit_index(old.deposits(), chain, event.transaction_hash@, event.log_index) is Some {
        r is Ok && new == old
    } else if client matches Some(c) && match position_index(old.positions(), c) {
        Some(p) => old.positions()[p].available_raw + amount > MAX_STORED,
        None => false,
    } {
        r matches Err(ExternalDepositError::Storage(_)) && new == old
    } else {
        let row = new.deposits().last();
        &&& r is Ok
        &&& same_but_deposit_books(old, new)
        &&& new.checkpoint() == old.checkpoint()
        &&& new.deposits().len() == old.deposits().len() + 1
        &&& new.deposits().drop_last() == old.deposits()
        &&& row.chain_id == chain
        &&& row.transaction_hash@ == event.transaction_hash@
        &&& row.log_index == event.log_index
        &&& row.block_number == event.block_number
        &&& row.sender_address@ == event.sender@
        &&& row.client_reference@ == event.client_reference@
        &&& row.amount_raw == amount
        &&& match client {
            Some(c) => {
                &&& one_record_added(old, new)
                &&& deposit_record_is(new.record_rows().last(), old.record_rows().len(), chain, event, c, now)
                &&& super::opt_text(row.client_id) == Some(c)
                &&& row.status == DepositStatus::Credited
                &&& row.credited_at_unix_ms == Some(now)
                &&& new.positions() == super::credit_available(old.positions(), c, amount as int)
                &&& new.entries().len() == old.entries().len() + 1
                &&& new.entries().drop_last() == old.entries()
                &&& entry_is(
                    new.entries().last(),
                    deposit_operation_id(event.transaction_hash@, event.log_index),
                    "client"@,
                    c,
                    "credit"@,
                    amount,
                    now,
                )
            },
            None => {
                &&& same_records(old, new)
                &&& row.client_id is None
                &&& row.status == DepositStatus::UnknownReference
                &&& row.credited_at_unix_ms is None
                &&& new.positions() == old.positions()
                &&& new.entries() == old.entries()
            },
        }
    }
}

fn opt_owned(o: Option<&str>) -> (r: Option<String>)
    ensures
        match o {
            Some(s) => r matches Some(x) && x@ == s@,
            None => r is None,
        },
{
    match o {
        Some(s) => Some(s.to_owned()),
        None => None,
    }
}

/// The stored name of a deposit status.
pub open spec fn deposit_status_text(s: DepositStatus) -> Seq<char> {
    match s {
        DepositStatus::Credited => "credited"@,
        DepositStatus::UnknownReference => "unknown_reference"@,
    }
}

impl RetailLedger {
    /// What became of the deposit event (`chain`, `hash`, `log`), if it was applied.
    pub fn deposit_status(&self, chain: u64, hash: &str, log: u64) -> (r: Option<&'static str>)
        requires
            self.wf(),
        ensures
            match deposit_index(self.deposits(), chain, hash@, log) {
                Some(k) => r matches Some(t) && t@ == deposit_status_text(self.deposits()[k].status),
                None => r is None,
            },
    {
        proof {
            self.lemma_views();
        }
        let mut k: usize = 0;
        while k < self.deposits.len()
            invariant
                self.wf(),
                k <= self.deposits@.len(),
                forall|j: int|
                    0 <= j < k ==> !((#[trigger] self.deposits@[j]).chain_id == chain
                        && self.deposits@[j].transaction_hash@ == hash@ && self.deposits@[j].log_index == log),
            decreases self.deposits.len() - k,
        {
            let d = &self.deposits[k];
            if d.chain_id == chain && d.log_index == log && str_eq(d.transaction_hash.as_str(), hash) {
                proof {
                    let ds = self.deposits@;
                    assert(self.deposits() == ds);
                    assert(ds[k as int].chain_id == chain && ds[k as int].transaction_hash@ == hash@
                        && ds[k as int].log_index == log);
                    let c = choose|i: int|
                        0 <= i < ds.len() && (#[trigger] ds[i]).chain_id == chain && ds[i].transaction_hash@ == hash@
                            && ds[i].log_index == log;
                    assert(ds[k as int].chain_id == chain && ds[k as int].transaction_hash@ == hash@
                        && ds[k as int].log_index == log);
                    if c != k {
                        if c < k {
                            assert(!same_deposit(ds[c], ds[k as int]));
                        } else {
                            assert(!same_deposit(ds[k as int], ds[c]));
                        }
                    }
                }
                return match d.status {
                    DepositStatus::Credited => Some("credited"),
                    DepositStatus::UnknownReference => Some("unknown_reference"),
                };
            }
            k = k + 1;
        }
        None
    }

    /// The last block whose deposits have been applied.
    pub fn deposit_checkpoint(&self) -> (r: u64)
        ensures
            r == self.checkpoint(),
    {
        self.deposit_checkpoint
    }

    /// Records that deposits up to `block` have been applied; the checkpoint
    /// never moves back.
    pub fn advance_deposits(&mut self, block: u64)
        requires
            old(self).wf(),
        ensures
            final(self).wf(),
            final(self).checkpoint() == if block > old(self).checkpoint() {
                block
            } else {
                old(self).checkpoint()
            },
            final(self).positions() == old(self).positions(),
            final(self).entries() == old(self).entries(),
            final(self).deposits() == old(self).deposits(),
            same_but_deposit_books(*old(self), *final(self)),
            same_records(*old(self), *final(self)),
    {
        proof {
            self.lemma_views();
        }
        if block > self.deposit_checkpoint {
            self.deposit_checkpoint = block;
        }
        proof {
            self.lemma_views();
        }
    }

    /// Starts reading deposits from the first block again, for a chain that
    /// was started afresh.
    pub fn reset_deposit_checkpoint(&mut self)
        requires
            old(self).wf(),
        ensures
            final(self).wf(),
            final(self).checkpoint() == 0,
            final(self).positions() == old(self).positions(),
            final(self).entries() == old(self).entries(),
            final(self).deposits() == old(self).deposits(),
            same_but_deposit_books(*old(self), *final(self)),
            same_records(*old(self), *final(self)),
    {
        proof {
            self.lemma_views();
        }
        self.deposit_checkpoint = 0;
        proof {
            self.lemma_views();
        }
    }

    /// Records deposit `event` once and credits it to `client` when its
    /// reference names one.
    pub fn apply_deposit(&mut self, chain: u64, event: &ExternalDepositEvent, client: Option<&str>, now: u64) -> (r: Result<
        (),
        ExternalDepositError,
    >)
        requires
            old(self).wf(),
        ensures
            final(self).wf(),
            apply_deposit_post(
                *old(self),
                chain,
                *event,
                match client {
                    Some(c) => Some(c@),
                    None => None,
                },
                now,
                *final(self),
                r,
            ),
    {
        proof {
            self.lemma_views();
        }
        let amount = event.amount_raw;
        if amount > MAX_STORED {
            return Err(ExternalDepositError::AmountOverflow);
        }
        if find_deposit(&self.deposits, chain, event.transaction_hash.as_str(), event.log_index) {
            return Ok(());
        }
        let position = match client {
            Some(c) => find_position(&self.positions, c),
            None => None,
        };
        match position {
            Some(p) => {
                if self.positions[p].available_raw > MAX_STORED - amount {
                    return Err(ExternalDepositError::Storage(String::from_str("integer overflow")));
                }
            },
            None => {},
        }
        let ghost before = *self;
        let credited = client.is_some();
        let row = DepositRow {
            chain_id: chain,
            transaction_hash: event.transaction_hash.clone(),
            log_index: event.log_index,
            block_number: event.block_number,
            sender_address: event.sender.clone(),
            client_reference: event.client_reference.clone(),
            client_id: opt_owned(client),
            amount_raw: amount,
            status: if credited {
                DepositStatus::Credited
            } else {
                DepositStatus::UnknownReference
            },
            credited_at_unix_ms: if credited {
                Some(now)
            } else {
                None
            },
        };
        self.deposits.push(row);
        match client {
            Some(c) => {
                match position {
                    Some(p) => {
                        let available = self.positions[p].available_raw + amount;
                        let locked = self.positions[p].locked_raw;
                        self.set_balances(p, available, locked);
                    },
                    None => {},
                }
                let operation = String::from_str("external:").concat(event.transaction_hash.as_str()).concat(
                    ":",
                ).concat(u64_to_string(event.log_index).as_str());
                self.entries.push(entry(operation.as_str(), "client", c, "credit", amount, now));
                let record = RecordRow {
                    record_id: record_id_string("record-", self.records.len()),
                    operation_id: operation,
                    client_id: c.to_owned(),
                    service_type: String::from_str("transfer_service"),
                    order_type: String::from_str("external_deposit"),
                    contract_address: String::from_str("deposit-router"),
                    chain_id: chain,
                    quantity_raw: amount,
                    gross_fiat_minor: 0,
                    status: String::from_str("completed"),
                    source_account: Some(event.sender.clone()),
                    destination_account: Some(c.to_owned()),
                    blockchain_transaction_hash: Some(event.transaction_hash.clone()),
                    decision_actor: String::from_str("casp-chain-observer"),
                    created_at_unix_ms: now,
                    details: None,
                };
                self.records.push(record);
            },
            None => {},
        }
        proof {
            self.lemma_views();
            assert(self.deposits@.drop_last() =~= before.deposits@);
            assert(self.entries@.drop_last() =~= before.entries@ || self.entries@ == before.entries@);
            assert(self.records@.drop_last() =~= before.records@ || self.records@ == before.records@);
            assert forall|i: int, j: int|
                0 <= i < j < self.positions@.len() implies (#[trigger] self.positions@[i]).client_id@
                != (#[trigger] self.positions@[j]).client_id@ by {
                assert(before.positions@[i].client_id@ != before.positions@[j].client_id@);
            }
            assert forall|i: int, j: int|
                0 <= i < j < self.deposits@.len() implies !same_deposit(
                #[trigger] self.deposits@[i],
                #[trigger] self.deposits@[j],
            ) by {
                if j == self.deposits@.len() - 1 {
                    assert(self.deposits@[i] == before.deposits@[i]);
                } else {
                    assert(self.deposits@[i] == before.deposits@[i] && self.deposits@[j] == before.deposits@[j]);
                }
            }
        }
        Ok(())
    }
}

/// `states` are the register before each of `events` and after the last,
/// each event applied in turn for the client its reference names.
pub open spec fn applied_in_turn(
    states: Seq<RetailLedger>,
    chain: u64,
    events: Seq<ExternalDepositEvent>,
    now: u64,
) -> bool {
    &&& states.len() == events.len() + 1
    &&& forall|i: int|
        0 <= i < events.len() ==> #[trigger] apply_deposit_post(
            states[i],
            chain,
            events[i],
            reference_client(events[i].client_reference@),
            now,
            states[i + 1],
            Ok(()),
        )
}

/// `b` is `a` with its checkpoint moved forward to `block`.
pub open spec fn advanced(a: RetailLedger, block: u64, b: RetailLedger) -> bool {
    &&& b.checkpoint() == if block > a.checkpoint() {
        block
    } else {
        a.checkpoint()
    }
    &&& b.positions() == a.positions()
    &&& b.entries() == a.entries()
    &&& b.deposits() == a.deposits()
    &&& same_but_deposit_books(a, b)
    &&& same_records(a, b)
}

impl RetailLedger {
    /// Applies the deposit events read up to block `to`, in order, each for
    /// the client its reference names, and then moves the checkpoint to
    /// `to`. The first event that cannot be applied stops the batch: the
    /// events before it stay applied and the checkpoint stays where it was.
    pub fn apply_deposits(&mut self, chain: u64, events: &Vec<ExternalDepositEvent>, to: u64, now: u64) -> (r: Result<
        (),
        ExternalDepositError,
    >)
        requires
            old(self).wf(),
        ensures
            final(self).wf(),
            r is Ok ==> exists|states: Seq<RetailLedger>|
                #[trigger] applied_in_turn(states, chain, events@, now) && states[0] == *old(self)
                    && advanced(states.last(), to, *final(self)),
            r is Err ==> exists|states: Seq<RetailLedger>|
                #[trigger] applied_in_turn(states, chain, events@.take(states.len() - 1), now) && states[0]
                    == *old(self) && states.len() <= events@.len() && apply_deposit_post(
                    states.last(),
                    chain,
                    events@[states.len() - 1],
                    reference_client(events@[states.len() - 1].client_reference@),
                    now,
                    *final(self),
                    r,
                ),
    {
        let ghost mut states: Seq<RetailLedger> = seq![*self];
        let mut i: usize = 0;
        while i < events.len()
            invariant
                i <= events@.len(),
                self.wf(),
                states.len() == i + 1,
                states[0] == *old(self),
                states.last() == *self,
                applied_in_turn(states, chain, events@.take(i as int), now),
            decreases events.len() - i,
        {
            let event = &events[i];
            let client = client_for_reference(event.client_reference.as_slice());
            let ghost before = *self;
            let applied = self.apply_deposit(chain, event, client, now);
            match applied {
                Ok(()) => {},
                Err(e) => {
                    proof {
                        assert(events@.take(i as int).len() == i);
                        assert(events@.take(states.len() - 1) =~= events@.take(i as int));
                        assert(applied_in_turn(states, chain, events@.take(states.len() - 1), now));
                    }
                    return Err(e);
                },
            }
            proof {
                let next = states.push(*self);
                assert forall|x: int| 0 <= x < i + 1 implies #[trigger] apply_deposit_post(
                    next[x],
                    chain,
                    events@.take(i + 1)[x],
                    reference_client(events@.take(i + 1)[x].client_reference@),
                    now,
                    next[x + 1],
                    Ok(()),
                ) by {
                    if x < i {
                        assert(events@.take(i + 1)[x] == events@.take(i as int)[x]);
                        assert(next[x] == states[x] && next[x + 1] == states[x + 1]);
                    } else {
                        assert(events@.take(i + 1)[x] == events@[i as int]);
                        assert(next[x] == before);
                    }
                }
                states = next;
            }
            i = i + 1;
        }
        let ghost last = *self;
        self.advance_deposits(to);
        proof {
            assert(events@.take(i as int) =~= events@);
            assert(applied_in_turn(states, chain, events@, now));
        }
        Ok(())
    }
}
} // verus!
