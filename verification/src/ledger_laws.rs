//! What the register promises across its operations: client money is neither
//! created nor lost by purchases, sales, transfers and redemptions, and a
//! retried request is answered as the first one was without changing anything.
use crate::domain::retail::{InternalTransfer, RetailOrder};
use crate::external_deposits::{ExternalDepositError, ExternalDepositEvent};
use crate::external_withdrawals::{ExternalWithdrawal, ExternalWithdrawalError};
use crate::fee_sweep::{FeeSweep, FeeSweepError};
use crate::ledger::deposits::{apply_deposit_post, deposit_index};
use crate::ledger::sweeps::{complete_sweep_post, sweep_index, SweepStatus};
use crate::ledger::withdrawals::{
    begin_withdrawal_post, complete_withdrawal_post, fail_withdrawal_post, lemma_withdrawal_index_at,
    withdrawal_index, WithdrawalStatus,
};
use crate::ledger::{
    add_once_post, begin_redemption_post, complete_redemption_post, debit_available,
    fail_redemption_post, lemma_order_index_at, lemma_position_sum_update, lemma_posting_index_at,
    lemma_position_index_at, lemma_transfer_index_at, obligations, opt_text, order_index, position_index, position_sum,
    posting_index, purchase_post, purchase_quantity, sale_cents, sale_post, transfer_fee, transfer_index,
    transfer_post, with_balances, ClientPosition, OrderStatus, RetailLedger,
};
use crate::retail_application::RetailError;
use vstd::prelude::*;

verus! {

/// Two order views that show the same order.
pub open spec fn same_order_view(a: RetailOrder, b: RetailOrder) -> bool {
    &&& a.operation_id@ == b.operation_id@
    &&& a.client_id@ == b.client_id@
    &&& a.order_type@ == b.order_type@
    &&& a.quantity_raw@ == b.quantity_raw@
    &&& a.fiat_currency@ == b.fiat_currency@
    &&& a.fiat_amount_minor@ == b.fiat_amount_minor@
    &&& a.status@ == b.status@
    &&& opt_text(a.issuer_operation_id) == opt_text(b.issuer_operation_id)
    &&& opt_text(a.blockchain_transaction_hash) == opt_text(b.blockchain_transaction_hash)
    &&& opt_text(a.last_error) == opt_text(b.last_error)
    &&& a.created_at_unix_ms == b.created_at_unix_ms
    &&& a.updated_at_unix_ms == b.updated_at_unix_ms
}

/// Two transfer views that show the same transfer.
pub open spec fn same_transfer_view(a: InternalTransfer, b: InternalTransfer) -> bool {
    &&& a.operation_id@ == b.operation_id@
    &&& a.sender_client_id@ == b.sender_client_id@
    &&& a.recipient_client_id@ == b.recipient_client_id@
    &&& a.gross_raw@ == b.gross_raw@
    &&& a.fee_raw@ == b.fee_raw@
    &&& a.net_raw@ == b.net_raw@
    &&& a.purpose_classification@ == b.purpose_classification@
    &&& a.status@ == b.status@
    &&& a.created_at_unix_ms == b.created_at_unix_ms
}

proof fn lemma_move_available(ps: Seq<ClientPosition>, k: int, available: u64)
    requires
        0 <= k < ps.len(),
    ensures
        position_sum(ps.update(k, with_balances(ps[k], available, ps[k].locked_raw)), false)
            == position_sum(ps, false) - ps[k].available_raw + available,
        position_sum(ps.update(k, with_balances(ps[k], available, ps[k].locked_raw)), true)
            == position_sum(ps, true),
{
    lemma_position_sum_update(ps, k, with_balances(ps[k], available, ps[k].locked_raw), false);
    lemma_position_sum_update(ps, k, with_balances(ps[k], available, ps[k].locked_raw), true);
}

/// A purchase by a client the register knows moves rUSD from the unallocated
/// inventory to the client: what the CASP owes in total does not change.
pub proof fn lemma_purchase_conserves(
    old: RetailLedger,
    id: Seq<char>,
    client: Seq<char>,
    cents: u64,
    contract: Seq<char>,
    chain: u64,
    now: u64,
    new: RetailLedger,
    r: Result<RetailOrder, RetailError>,
)
    requires
        old.wf(),
        position_index(old.positions(), client) is Some,
        purchase_post(old, id, client, cents, contract, chain, now, new, r),
    ensures
        obligations(new) == obligations(old),
{
    if new != old {
        let raw = purchase_quantity(cents, old.rate())->Some_0;
        let k = position_index(old.positions(), client)->Some_0;
        let ps = old.positions();
        lemma_move_available(ps, k, (ps[k].available_raw + raw) as u64);
    }
}

/// A sale moves rUSD from the client back to the unallocated inventory: what
/// the CASP owes in total does not change.
pub proof fn lemma_sale_conserves(
    old: RetailLedger,
    id: Seq<char>,
    client: Seq<char>,
    raw: u64,
    contract: Seq<char>,
    chain: u64,
    now: u64,
    new: RetailLedger,
    r: Result<RetailOrder, RetailError>,
)
    requires
        old.wf(),
        sale_post(old, id, client, raw, contract, chain, now, new, r),
    ensures
        obligations(new) == obligations(old),
{
    if new != old {
        let k = position_index(old.positions(), client)->Some_0;
        let ps = old.positions();
        lemma_move_available(ps, k, (ps[k].available_raw - raw) as u64);
    }
}

/// Starting a redemption only moves the amount from the client's available
/// to its locked position: what the CASP owes in total does not change.
pub proof fn lemma_begin_redemption_conserves(
    old: RetailLedger,
    id: Seq<char>,
    client: Seq<char>,
    raw: u64,
    contract: Seq<char>,
    chain: u64,
    hot: Seq<char>,
    now: u64,
    new: RetailLedger,
    r: Result<RetailOrder, RetailError>,
)
    requires
        old.wf(),
        begin_redemption_post(old, id, client, raw, contract, chain, hot, now, new, r),
    ensures
        obligations(new) == obligations(old),
{
    if new != old {
        let k = position_index(old.positions(), client)->Some_0;
        let ps = old.positions();
        let p = with_balances(ps[k], (ps[k].available_raw - raw) as u64, (ps[k].locked_raw + raw) as u64);
        lemma_position_sum_update(ps, k, p, false);
        lemma_position_sum_update(ps, k, p, true);
    }
}

/// A transfer between two clients the register knows moves the gross amount
/// from the sender to the recipient and the fee: what the CASP owes in total
/// does not change.
pub proof fn lemma_transfer_conserves(
    old: RetailLedger,
    id: Seq<char>,
    sender: Seq<char>,
    recipient: Seq<char>,
    gross: u64,
    purpose: Seq<char>,
    contract: Seq<char>,
    chain: u64,
    now: u64,
    new: RetailLedger,
    r: Result<InternalTransfer, RetailError>,
)
    requires
        old.wf(),
        position_index(old.positions(), recipient) is Some,
        transfer_post(old, id, sender, recipient, gross, purpose, contract, chain, now, new, r),
    ensures
        obligations(new) == obligations(old),
{
    if new != old {
        let ps = old.positions();
        let ks = position_index(ps, sender)->Some_0;
        let kr = position_index(ps, recipient)->Some_0;
        let fee = transfer_fee(gross);
        let net = (gross - fee) as u64;
        let mid = debit_available(ps, ks, gross as int);
        lemma_move_available(ps, ks, (ps[ks].available_raw - gross) as u64);
        lemma_move_available(mid, kr, (mid[kr].available_raw + net) as u64);
    }
}

/// Recording an issuer failure changes no balance.
pub proof fn lemma_fail_redemption_conserves(
    old: RetailLedger,
    id: Seq<char>,
    message: Seq<char>,
    now: u64,
    new: RetailLedger,
)
    requires
        fail_redemption_post(old, id, message, now, new),
    ensures
        obligations(new) == obligations(old),
{
}

/// A completed redemption whose amount was still locked takes exactly that
/// amount out of what the CASP owes: the issuer has burned it.
pub proof fn lemma_complete_redemption_settles(
    old: RetailLedger,
    id: Seq<char>,
    hash: Option<String>,
    now: u64,
    new: RetailLedger,
    o: RetailOrder,
)
    requires
        old.wf(),
        complete_redemption_post(old, id, hash, now, new, Ok(o)),
    ensures
        ({
            let o = old.orders()[order_index(old.orders(), id)->Some_0];
            let released = o.status != OrderStatus::Completed && match position_index(
                old.positions(),
                o.client_id@,
            ) {
                Some(k) => old.positions()[k].locked_raw >= o.quantity_raw,
                None => false,
            };
            obligations(new) == obligations(old) - if released {
                o.quantity_raw as int
            } else {
                0
            }
        }),
{
    let o = old.orders()[order_index(old.orders(), id)->Some_0];
    if o.status != OrderStatus::Completed {
        match position_index(old.positions(), o.client_id@) {
            Some(k) => {
                if old.positions()[k].locked_raw >= o.quantity_raw {
                    let ps = old.positions();
                    let p = with_balances(ps[k], ps[k].available_raw, (ps[k].locked_raw - o.quantity_raw) as u64);
                    lemma_position_sum_update(ps, k, p, false);
                    lemma_position_sum_update(ps, k, p, true);
                }
            },
            None => {},
        }
    }
}

/// A purchase retried after it succeeded gets the same order back and
/// changes nothing.
pub proof fn lemma_purchase_retry(
    l0: RetailLedger,
    id: Seq<char>,
    client: Seq<char>,
    cents: u64,
    contract: Seq<char>,
    chain: u64,
    t1: u64,
    l1: RetailLedger,
    o1: RetailOrder,
    t2: u64,
    l2: RetailLedger,
    r2: Result<RetailOrder, RetailError>,
)
    requires
        l0.wf(),
        l1.wf(),
        purchase_post(l0, id, client, cents, contract, chain, t1, l1, Ok(o1)),
        purchase_post(l1, id, client, cents, contract, chain, t2, l2, r2),
    ensures
        l2 == l1,
        r2 matches Ok(o2) && same_order_view(o1, o2),
{
    if order_index(l0.orders(), id) is None {
        lemma_order_index_at(l1.orders(), l1.orders().len() - 1);
    }
}

/// A sale retried after it succeeded gets the same order back and changes
/// nothing.
pub proof fn lemma_sale_retry(
    l0: RetailLedger,
    id: Seq<char>,
    client: Seq<char>,
    raw: u64,
    contract: Seq<char>,
    chain: u64,
    t1: u64,
    l1: RetailLedger,
    o1: RetailOrder,
    t2: u64,
    l2: RetailLedger,
    r2: Result<RetailOrder, RetailError>,
)
    requires
        l0.wf(),
        l1.wf(),
        sale_post(l0, id, client, raw, contract, chain, t1, l1, Ok(o1)),
        sale_post(l1, id, client, raw, contract, chain, t2, l2, r2),
    ensures
        l2 == l1,
        r2 matches Ok(o2) && same_order_view(o1, o2),
{
    if order_index(l0.orders(), id) is None {
        lemma_order_index_at(l1.orders(), l1.orders().len() - 1);
    }
}

/// A redemption request retried after it was accepted gets the same order
/// back and changes nothing.
pub proof fn lemma_begin_redemption_retry(
    l0: RetailLedger,
    id: Seq<char>,
    client: Seq<char>,
    raw: u64,
    contract: Seq<char>,
    chain: u64,
    hot: Seq<char>,
    t1: u64,
    l1: RetailLedger,
    o1: RetailOrder,
    t2: u64,
    l2: RetailLedger,
    r2: Result<RetailOrder, RetailError>,
)
    requires
        l0.wf(),
        l1.wf(),
        begin_redemption_post(l0, id, client, raw, contract, chain, hot, t1, l1, Ok(o1)),
        begin_redemption_post(l1, id, client, raw, contract, chain, hot, t2, l2, r2),
    ensures
        l2 == l1,
        r2 matches Ok(o2) && same_order_view(o1, o2),
{
    if order_index(l0.orders(), id) is None {
        lemma_order_index_at(l1.orders(), l1.orders().len() - 1);
    }
}

/// Completing a redemption again after it completed gets the same order back
/// and changes nothing.
pub proof fn lemma_complete_redemption_retry(
    l0: RetailLedger,
    id: Seq<char>,
    hash: Option<String>,
    t1: u64,
    l1: RetailLedger,
    o1: RetailOrder,
    hash2: Option<String>,
    t2: u64,
    l2: RetailLedger,
    r2: Result<RetailOrder, RetailError>,
)
    requires
        l0.wf(),
        l1.wf(),
        complete_redemption_post(l0, id, hash, t1, l1, Ok(o1)),
        complete_redemption_post(l1, id, hash2, t2, l2, r2),
    ensures
        l2 == l1,
        r2 matches Ok(o2) && same_order_view(o1, o2),
{
    let k = order_index(l0.orders(), id)->Some_0;
    assert(l1.orders().len() == l0.orders().len());
    if l0.orders()[k].status != OrderStatus::Completed {
        assert(l1.orders()[k].operation_id@ == id);
        lemma_order_index_at(l1.orders(), k);
    }
}

/// A transfer retried after it succeeded gets the same transfer back and
/// changes nothing.
pub proof fn lemma_transfer_retry(
    l0: RetailLedger,
    id: Seq<char>,
    sender: Seq<char>,
    recipient: Seq<char>,
    gross: u64,
    purpose: Seq<char>,
    contract: Seq<char>,
    chain: u64,
    t1: u64,
    l1: RetailLedger,
    x1: InternalTransfer,
    t2: u64,
    l2: RetailLedger,
    r2: Result<InternalTransfer, RetailError>,
)
    requires
        l0.wf(),
        l1.wf(),
        transfer_post(l0, id, sender, recipient, gross, purpose, contract, chain, t1, l1, Ok(x1)),
        transfer_post(l1, id, sender, recipient, gross, purpose, contract, chain, t2, l2, r2),
    ensures
        l2 == l1,
        r2 matches Ok(x2) && same_transfer_view(x1, x2),
{
    if transfer_index(l0.transfers(), id) is None {
        lemma_transfer_index_at(l1.transfers(), l1.transfers().len() - 1);
    }
}

/// A replenishment posting is applied once: posting the same amount again
/// succeeds and changes nothing.
pub proof fn lemma_add_inventory_once_retry(
    l0: RetailLedger,
    operation: Seq<char>,
    wallet: Seq<char>,
    amount: u64,
    l1: RetailLedger,
    l2: RetailLedger,
    r2: Result<(), RetailError>,
)
    requires
        l0.wf(),
        l1.wf(),
        add_once_post(l0, operation, wallet, amount, l1, Ok(())),
        add_once_post(l1, operation, wallet, amount, l2, r2),
    ensures
        l2 == l1,
        r2 is Ok,
{
    if posting_index(l0.postings(), operation, wallet) is None {
        lemma_posting_index_at(l1.postings(), l1.postings().len() - 1);
    }
}

/// The transfer fee is a tenth of a percent of the gross amount, rounded
/// down, and the recipient receives the rest.
pub proof fn lemma_transfer_fee(
    old: RetailLedger,
    id: Seq<char>,
    sender: Seq<char>,
    recipient: Seq<char>,
    gross: u64,
    purpose: Seq<char>,
    contract: Seq<char>,
    chain: u64,
    now: u64,
    new: RetailLedger,
    x: InternalTransfer,
)
    requires
        transfer_index(old.transfers(), id) is None,
        transfer_post(old, id, sender, recipient, gross, purpose, contract, chain, now, new, Ok(x)),
    ensures
        new.transfers().last().fee_raw * 1000 <= gross < (new.transfers().last().fee_raw + 1) * 1000,
        new.transfers().last().fee_raw + new.transfers().last().net_raw == gross,
        new.pending_fee() == old.pending_fee() + new.transfers().last().fee_raw,
{
}

/// Two withdrawal views that show the same withdrawal.
pub open spec fn same_withdrawal_view(a: ExternalWithdrawal, b: ExternalWithdrawal) -> bool {
    &&& a.operation_id@ == b.operation_id@
    &&& a.client_id@ == b.client_id@
    &&& a.destination_address@ == b.destination_address@
    &&& a.amount_raw@ == b.amount_raw@
    &&& a.fee_raw@ == b.fee_raw@
    &&& a.total_debit_raw@ == b.total_debit_raw@
    &&& a.status@ == b.status@
    &&& opt_text(a.transaction_hash) == opt_text(b.transaction_hash)
    &&& opt_text(a.last_error) == opt_text(b.last_error)
    &&& a.created_at_unix_ms == b.created_at_unix_ms
    &&& a.updated_at_unix_ms == b.updated_at_unix_ms
}

/// Starting a withdrawal only locks the amount and its fee: what the CASP
/// owes in total does not change.
pub proof fn lemma_begin_withdrawal_conserves(
    old: RetailLedger,
    id: Seq<char>,
    client: Seq<char>,
    destination: Seq<char>,
    amount: u64,
    fee: u64,
    now: u64,
    new: RetailLedger,
    r: Result<ExternalWithdrawal, ExternalWithdrawalError>,
)
    requires
        begin_withdrawal_post(old, id, client, destination, amount, fee, now, new, r),
    ensures
        obligations(new) == obligations(old),
{
    if new != old {
        let p = position_index(old.positions(), client)->Some_0;
        let ps = old.positions();
        let total = (amount + fee) as u64;
        let q = with_balances(ps[p], (ps[p].available_raw - total) as u64, (ps[p].locked_raw + total) as u64);
        lemma_position_sum_update(ps, p, q, false);
        lemma_position_sum_update(ps, p, q, true);
    }
}

/// Completing a confirmed withdrawal whose total is still locked takes the
/// withdrawn amount out of what the CASP owes; the fee stays, now as a
/// pending CASP fee.
pub proof fn lemma_complete_withdrawal_settles(
    old: RetailLedger,
    id: Seq<char>,
    contract: Seq<char>,
    chain: u64,
    now: u64,
    new: RetailLedger,
    r: Result<ExternalWithdrawal, ExternalWithdrawalError>,
)
    requires
        old.wf(),
        complete_withdrawal_post(old, id, contract, chain, now, new, r),
        r is Ok,
        withdrawal_index(old.withdrawals(), id) is Some,
        old.withdrawals()[withdrawal_index(old.withdrawals(), id)->Some_0].status
            == WithdrawalStatus::ChainConfirmed,
        ({
            let w = old.withdrawals()[withdrawal_index(old.withdrawals(), id)->Some_0];
            match position_index(old.positions(), w.client_id@) {
                Some(p) => old.positions()[p].locked_raw >= w.total_debit_raw,
                None => false,
            }
        }),
    ensures
        obligations(new) == obligations(old) - old.withdrawals()[withdrawal_index(old.withdrawals(), id)->Some_0].amount_raw,
{
    let w = old.withdrawals()[withdrawal_index(old.withdrawals(), id)->Some_0];
    let ps = old.positions();
    let p = position_index(ps, w.client_id@)->Some_0;
    let q = with_balances(ps[p], ps[p].available_raw, (ps[p].locked_raw - w.total_debit_raw) as u64);
    lemma_position_sum_update(ps, p, q, false);
    lemma_position_sum_update(ps, p, q, true);
}

/// Completing a withdrawal again after it completed gets the same
/// withdrawal back and changes nothing: the amount and fee leave once.
pub proof fn lemma_complete_withdrawal_retry(
    l0: RetailLedger,
    id: Seq<char>,
    contract: Seq<char>,
    chain: u64,
    t1: u64,
    l1: RetailLedger,
    w1: ExternalWithdrawal,
    t2: u64,
    l2: RetailLedger,
    r2: Result<ExternalWithdrawal, ExternalWithdrawalError>,
)
    requires
        l0.wf(),
        l1.wf(),
        complete_withdrawal_post(l0, id, contract, chain, t1, l1, Ok(w1)),
        complete_withdrawal_post(l1, id, contract, chain, t2, l2, r2),
    ensures
        l2 == l1,
        r2 matches Ok(w2) && same_withdrawal_view(w1, w2),
{
    let k = withdrawal_index(l0.withdrawals(), id)->Some_0;
    if l0.withdrawals()[k].status != WithdrawalStatus::Completed {
        assert(l1.withdrawals()[k].operation_id@ == id);
        lemma_withdrawal_index_at(l1.withdrawals(), k);
    }
}

/// A withdrawal that definitely failed before the chain confirmed it gives
/// the client back exactly what it locked: the positions are those before
/// the withdrawal started.
pub proof fn lemma_failed_withdrawal_releases(
    l0: RetailLedger,
    id: Seq<char>,
    client: Seq<char>,
    destination: Seq<char>,
    amount: u64,
    fee: u64,
    t1: u64,
    l1: RetailLedger,
    w: ExternalWithdrawal,
    message: Seq<char>,
    t2: u64,
    l2: RetailLedger,
)
    requires
        l0.wf(),
        l1.wf(),
        withdrawal_index(l0.withdrawals(), id) is None,
        begin_withdrawal_post(l0, id, client, destination, amount, fee, t1, l1, Ok(w)),
        fail_withdrawal_post(l1, id, message, t2, l2, Ok(())),
    ensures
        l2.positions() == l0.positions(),
        l2.pending_fee() == l0.pending_fee(),
{
    let k = l1.withdrawals().len() - 1;
    lemma_withdrawal_index_at(l1.withdrawals(), k);
    let ps = l0.positions();
    let p = position_index(ps, client)->Some_0;
    let total = (amount + fee) as u64;
    assert(l1.positions()[p].client_id@ == client);
    lemma_position_index_at(l1.positions(), p);
    assert(l2.positions() =~= ps);
}

/// Completing a sweep removes exactly its amount from the pending fees.
pub proof fn lemma_complete_sweep_exact(
    old: RetailLedger,
    id: Seq<char>,
    now: u64,
    new: RetailLedger,
    f: FeeSweep,
)
    requires
        complete_sweep_post(old, id, now, new, Ok(f)),
        old.sweeps()[sweep_index(old.sweeps(), id)->Some_0].status != SweepStatus::Completed,
    ensures
        new.pending_fee() == old.pending_fee() - old.sweeps()[sweep_index(old.sweeps(), id)->Some_0].amount_raw,
        obligations(new) == obligations(old) - old.sweeps()[sweep_index(old.sweeps(), id)->Some_0].amount_raw,
{
}

/// Completing a sweep again after it completed gets the same sweep back and
/// changes nothing: the pending fees move once.
pub proof fn lemma_complete_sweep_retry(
    l0: RetailLedger,
    id: Seq<char>,
    t1: u64,
    l1: RetailLedger,
    f1: FeeSweep,
    t2: u64,
    l2: RetailLedger,
    r2: Result<FeeSweep, FeeSweepError>,
)
    requires
        l0.wf(),
        l1.wf(),
        complete_sweep_post(l0, id, t1, l1, Ok(f1)),
        complete_sweep_post(l1, id, t2, l2, r2),
    ensures
        l2 == l1,
        r2 matches Ok(f2) && f2.amount_raw@ == f1.amount_raw@ && f2.status@ == f1.status@
            && f2.updated_at_unix_ms == f1.updated_at_unix_ms,
{
    let k = sweep_index(l0.sweeps(), id)->Some_0;
    if l0.sweeps()[k].status != SweepStatus::Completed {
        assert(l1.sweeps()[k].operation_id@ == id);
        crate::ledger::sweeps::lemma_sweep_index_at(l1.sweeps(), k);
    }
}

/// A deposit event is credited once: applying it again succeeds and changes
/// nothing.
pub proof fn lemma_deposit_once(
    l0: RetailLedger,
    chain: u64,
    event: ExternalDepositEvent,
    client: Option<Seq<char>>,
    t1: u64,
    l1: RetailLedger,
    t2: u64,
    l2: RetailLedger,
    r2: Result<(), ExternalDepositError>,
)
    requires
        apply_deposit_post(l0, chain, event, client, t1, l1, Ok(())),
        apply_deposit_post(l1, chain, event, client, t2, l2, r2),
    ensures
        l2 == l1,
        r2 is Ok,
{
    if deposit_index(l0.deposits(), chain, event.transaction_hash@, event.log_index) is None {
        let k = l1.deposits().len() - 1;
        assert(l1.deposits()[k].chain_id == chain && l1.deposits()[k].transaction_hash@
            == event.transaction_hash@ && l1.deposits()[k].log_index == event.log_index);
    }
}

/// A deposit credited to a client the register knows adds its amount to what
/// the CASP owes; one whose reference names no client changes no balance.
pub proof fn lemma_deposit_credits(
    old: RetailLedger,
    chain: u64,
    event: ExternalDepositEvent,
    client: Option<Seq<char>>,
    now: u64,
    new: RetailLedger,
)
    requires
        old.wf(),
        apply_deposit_post(old, chain, event, client, now, new, Ok(())),
        deposit_index(old.deposits(), chain, event.transaction_hash@, event.log_index) is None,
        client matches Some(c) ==> position_index(old.positions(), c) is Some,
    ensures
        obligations(new) == obligations(old) + if client is Some {
            event.amount_raw as int
        } else {
            0
        },
{
    match client {
        Some(c) => {
            let ps = old.positions();
            let p = position_index(ps, c)->Some_0;
            lemma_move_available(ps, p, (ps[p].available_raw + event.amount_raw) as u64);
        },
        None => {},
    }
}

/// Law: a purchase of `cents` at a price of `rate` cents per rUSD buys the
/// largest number of raw units (a millionth of an rUSD each) whose price does
/// not exceed the amount paid; it can be priced exactly when the price is
/// positive and the amount in millionths of a cent fits in 64 bits.
pub proof fn lemma_purchase_quantity_at_price(cents: u64, rate: u64)
    ensures
        purchase_quantity(cents, rate) is Some <==> rate > 0 && cents * 1_000_000 <= u64::MAX,
        purchase_quantity(cents, rate) matches Some(q) ==> q * rate <= cents * 1_000_000 < (q + 1) * rate,
{
    if rate > 0 && cents * 1_000_000 <= u64::MAX {
        let paid = cents * 1_000_000;
        let q = purchase_quantity(cents, rate)->Some_0;
        assert(q == paid / (rate as int));
        assert(q * rate <= paid < (q + 1) * rate) by (nonlinear_arith)
            requires
                rate > 0,
                paid >= 0,
                q == paid / (rate as int),
        ;
    }
}

/// Law: a sale of `raw` units at a price of `rate` cents per rUSD fetches the
/// largest number of whole cents not exceeding the units' worth; it can be
/// priced when the product of units and price fits in 64 bits.
pub proof fn lemma_sale_cents_at_price(raw: u64, rate: u64)
    ensures
        sale_cents(raw, rate) is Some <==> raw * rate <= u64::MAX,
        sale_cents(raw, rate) matches Some(c) ==> c * 1_000_000 <= raw * rate < (c + 1) * 1_000_000,
{
    if raw * rate <= u64::MAX {
        let worth = raw * rate;
        let c = sale_cents(raw, rate)->Some_0;
        assert(c == worth / 1_000_000);
        assert(c * 1_000_000 <= worth < (c + 1) * 1_000_000) by (nonlinear_arith)
            requires
                worth >= 0,
                c == worth / 1_000_000,
        ;
    }
}
} // verus!
