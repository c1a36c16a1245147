//! What the journal shows of each client: each operation on the clients'
//! accounts changes a client's available balance in the journal (its
//! credits less its debits) exactly as it changes the client's available
//! position, so the gap between the two never moves.
use crate::domain::retail::{InternalTransfer, RetailOrder};
use crate::external_deposits::{ExternalDepositError, ExternalDepositEvent};
use crate::external_withdrawals::{ExternalWithdrawal, ExternalWithdrawalError};
use crate::ledger::deposits::apply_deposit_post;
use crate::ledger::statement_source::available_change;
use crate::ledger::withdrawals::{
    begin_withdrawal_post, complete_withdrawal_post, fail_withdrawal_post, unlock_to_available,
    withdrawal_index, WithdrawalStatus,
};
use crate::ledger::{
    begin_redemption_post, complete_redemption_post, credit_available, debit_available,
    lemma_position_index_at, position_index, purchase_post, release_locked, sale_post,
    transfer_positions, transfer_post, with_balances, ClientPosition, LedgerEntry, RetailLedger,
};
use crate::retail_application::RetailError;
use vstd::prelude::*;

verus! {

/// `client`'s available balance as the journal shows it: its credits less
/// its debits on its own account.
pub open spec fn journal_available(entries: Seq<LedgerEntry>, client: Seq<char>) -> int
    decreases entries.len(),
{
    if entries.len() == 0 {
        0
    } else {
        journal_available(entries.drop_last(), client) + entry_effect(entries.last(), client)
    }
}

/// How one entry changes `client`'s available balance in the journal.
pub open spec fn entry_effect(e: LedgerEntry, client: Seq<char>) -> int {
    if e.account@ == client {
        available_change(e)
    } else {
        0
    }
}

/// `client`'s available position; none is nothing.
pub open spec fn available_of(positions: Seq<ClientPosition>, client: Seq<char>) -> int {
    match position_index(positions, client) {
        Some(k) => positions[k].available_raw as int,
        None => 0,
    }
}

/// By how much the journal and the positions disagree on `client`'s
/// available balance.
pub open spec fn available_gap(l: RetailLedger, client: Seq<char>) -> int {
    journal_available(l.entries(), client) - available_of(l.positions(), client)
}

/// No two positions belong to the same client.
pub open spec fn unique_clients(ps: Seq<ClientPosition>) -> bool {
    forall|i: int, j: int| 0 <= i < j < ps.len() ==> (#[trigger] ps[i]).client_id@ != (#[trigger] ps[j]).client_id@
}

proof fn lemma_strings_differ()
    ensures
        "client"@ != "client_locked"@,
        "client"@ != "inventory"@,
        "client"@ != "casp_fee_pending"@,
        "credit"@ != "debit"@,
        "lock"@ != "credit"@,
        "lock"@ != "debit"@,
        "release"@ != "credit"@,
        "release"@ != "debit"@,
{
    reveal_strlit("client");
    reveal_strlit("client_locked");
    reveal_strlit("inventory");
    reveal_strlit("casp_fee_pending");
    reveal_strlit("credit");
    reveal_strlit("debit");
    reveal_strlit("lock");
    reveal_strlit("release");
    assert("client"@.len() != "client_locked"@.len());
    assert("client"@.len() != "inventory"@.len());
    assert("client"@.len() != "casp_fee_pending"@.len());
    assert("credit"@[0] != "debit"@[0]);
    assert("lock"@.len() != "credit"@.len());
    assert("lock"@.len() != "debit"@.len());
    assert("release"@.len() != "credit"@.len());
    assert("release"@.len() != "debit"@.len());
}

/// A position found for `c` names `c`.
proof fn lemma_position_index_names(ps: Seq<ClientPosition>, c: Seq<char>)
    ensures
        position_index(ps, c) matches Some(j) ==> 0 <= j < ps.len() && ps[j].client_id@ == c,
        position_index(ps, c) is None ==> forall|i: int| 0 <= i < ps.len() ==> (#[trigger] ps[i]).client_id@ != c,
{
}

/// Replacing position `k` by one of the same client changes only that
/// client's available position.
proof fn lemma_available_after_update(ps: Seq<ClientPosition>, k: int, p: ClientPosition, c: Seq<char>)
    requires
        0 <= k < ps.len(),
        p.client_id@ == ps[k].client_id@,
        unique_clients(ps),
    ensures
        unique_clients(ps.update(k, p)),
        available_of(ps.update(k, p), c) == if ps[k].client_id@ == c {
            p.available_raw as int
        } else {
            available_of(ps, c)
        },
{
    let qs = ps.update(k, p);
    assert forall|i: int, j: int| 0 <= i < j < qs.len() implies (#[trigger] qs[i]).client_id@
        != (#[trigger] qs[j]).client_id@ by {
        assert(ps[i].client_id@ != ps[j].client_id@);
    }
    lemma_position_index_names(ps, c);
    lemma_position_index_names(qs, c);
    if ps[k].client_id@ == c {
        lemma_position_index_at(qs, k);
    } else {
        match position_index(ps, c) {
            Some(j) => {
                assert(qs[j] == ps[j]);
                lemma_position_index_at(qs, j);
                lemma_position_index_at(ps, j);
            },
            None => {
                if position_index(qs, c) is Some {
                    let j = position_index(qs, c)->Some_0;
                    assert(qs[j].client_id@ == ps[j].client_id@);
                }
            },
        }
    }
}


proof fn lemma_journal_one(es: Seq<LedgerEntry>, old: Seq<LedgerEntry>, c: Seq<char>)
    requires
        es.len() == old.len() + 1,
        es.drop_last() == old,
    ensures
        journal_available(es, c) == journal_available(old, c) + entry_effect(es[old.len() as int], c),
{
    assert(es.last() == es[old.len() as int]);
}

proof fn lemma_journal_two(es: Seq<LedgerEntry>, old: Seq<LedgerEntry>, c: Seq<char>)
    requires
        es.len() == old.len() + 2,
        es.take(old.len() as int) == old,
    ensures
        journal_available(es, c) == journal_available(old, c) + entry_effect(es[old.len() as int], c)
            + entry_effect(es[old.len() as int + 1], c),
{
    let n = old.len() as int;
    assert(es.drop_last().drop_last() =~= old);
    assert(es.drop_last().last() == es[n]);
    assert(es.last() == es[n + 1]);
    assert(journal_available(es.drop_last(), c) == journal_available(old, c) + entry_effect(es[n], c));
}

proof fn lemma_journal_three(es: Seq<LedgerEntry>, old: Seq<LedgerEntry>, c: Seq<char>)
    requires
        es.len() == old.len() + 3,
        es.take(old.len() as int) == old,
    ensures
        journal_available(es, c) == journal_available(old, c) + entry_effect(es[old.len() as int], c)
            + entry_effect(es[old.len() as int + 1], c) + entry_effect(es[old.len() as int + 2], c),
{
    let n = old.len() as int;
    assert(es.drop_last().take(n) =~= old);
    lemma_journal_two(es.drop_last(), old, c);
    assert(es.last() == es[n + 2]);
    assert(es.drop_last()[n] == es[n] && es.drop_last()[n + 1] == es[n + 1]);
}

/// Replacing position `k` by one of the same client with the same available
/// balance changes no available position.
proof fn lemma_available_kept(ps: Seq<ClientPosition>, k: int, p: ClientPosition, c: Seq<char>)
    requires
        0 <= k < ps.len(),
        p.client_id@ == ps[k].client_id@,
        p.available_raw == ps[k].available_raw,
        unique_clients(ps),
    ensures
        unique_clients(ps.update(k, p)),
        available_of(ps.update(k, p), c) == available_of(ps, c),
{
    lemma_available_after_update(ps, k, p, c);
    if ps[k].client_id@ == c {
        lemma_position_index_at(ps, k);
    }
}

/// Law: a purchase by a client the register knows credits the client in the
/// journal exactly as it credits the client's available position.
pub proof fn lemma_purchase_keeps_journal(
    old: RetailLedger,
    id: Seq<char>,
    client: Seq<char>,
    cents: u64,
    contract: Seq<char>,
    chain: u64,
    now: u64,
    new: RetailLedger,
    r: Result<RetailOrder, RetailError>,
    c: Seq<char>,
)
    requires
        old.wf(),
        position_index(old.positions(), client) is Some,
        purchase_post(old, id, client, cents, contract, chain, now, new, r),
    ensures
        available_gap(new, c) == available_gap(old, c),
{
    if new != old {
        lemma_strings_differ();
        let ps = old.positions();
        let k = position_index(ps, client)->Some_0;
        lemma_position_index_names(ps, client);
        let es = new.entries();
        let n = old.entries().len() as int;
        let raw = es[n + 1].amount_raw;
        lemma_journal_two(es, old.entries(), c);
        lemma_available_after_update(ps, k, with_balances(ps[k], (ps[k].available_raw + raw) as u64, ps[k].locked_raw), c);
    }
}

/// Law: a sale debits the client in the journal exactly as it debits the
/// client's available position.
pub proof fn lemma_sale_keeps_journal(
    old: RetailLedger,
    id: Seq<char>,
    client: Seq<char>,
    raw: u64,
    contract: Seq<char>,
    chain: u64,
    now: u64,
    new: RetailLedger,
    r: Result<RetailOrder, RetailError>,
    c: Seq<char>,
)
    requires
        old.wf(),
        sale_post(old, id, client, raw, contract, chain, now, new, r),
    ensures
        available_gap(new, c) == available_gap(old, c),
{
    if new != old {
        lemma_strings_differ();
        let ps = old.positions();
        let k = position_index(ps, client)->Some_0;
        lemma_position_index_names(ps, client);
        lemma_journal_two(new.entries(), old.entries(), c);
        lemma_available_after_update(ps, k, with_balances(ps[k], (ps[k].available_raw - raw) as u64, ps[k].locked_raw), c);
    }
}

/// Law: starting a redemption debits the client in the journal exactly as
/// it takes the amount out of the client's available position.
pub proof fn lemma_begin_redemption_keeps_journal(
    old: RetailLedger,
    id: Seq<char>,
    client: Seq<char>,
    raw: u64,
    contract: Seq<char>,
    chain: u64,
    hot: Seq<char>,
    now: u64,
    new: RetailLedger,
    r: Result<RetailOrder, RetailError>,
    c: Seq<char>,
)
    requires
        old.wf(),
        begin_redemption_post(old, id, client, raw, contract, chain, hot, now, new, r),
    ensures
        available_gap(new, c) == available_gap(old, c),
{
    if new != old {
        lemma_strings_differ();
        let ps = old.positions();
        let k = position_index(ps, client)->Some_0;
        lemma_position_index_names(ps, client);
        lemma_journal_two(new.entries(), old.entries(), c);
        lemma_available_after_update(
            ps,
            k,
            with_balances(ps[k], (ps[k].available_raw - raw) as u64, (ps[k].locked_raw + raw) as u64),
            c,
        );
    }
}

/// Law: completing a redemption touches neither side of any client's
/// available balance.
pub proof fn lemma_complete_redemption_keeps_journal(
    old: RetailLedger,
    id: Seq<char>,
    hash: Option<String>,
    now: u64,
    new: RetailLedger,
    r: Result<RetailOrder, RetailError>,
    c: Seq<char>,
)
    requires
        old.wf(),
        complete_redemption_post(old, id, hash, now, new, r),
    ensures
        available_gap(new, c) == available_gap(old, c),
{
    if new != old {
        lemma_strings_differ();
        let ps = old.positions();
        lemma_journal_one(new.entries(), old.entries(), c);
        let k = crate::ledger::order_index(old.orders(), id)->Some_0;
        let o = old.orders()[k];
        match position_index(ps, o.client_id@) {
            Some(p) => {
                lemma_position_index_names(ps, o.client_id@);
                if ps[p].locked_raw >= o.quantity_raw {
                    lemma_available_kept(ps, p, with_balances(ps[p], ps[p].available_raw, (ps[p].locked_raw - o.quantity_raw) as u64), c);
                }
            },
            None => {},
        }
    }
}

/// Law: a transfer between clients the register knows debits the sender
/// and credits the recipient in the journal exactly as it changes their
/// available positions; the fee goes to the CASP's own account.
pub proof fn lemma_transfer_keeps_journal(
    old: RetailLedger,
    id: Seq<char>,
    sender: Seq<char>,
    recipient: Seq<char>,
    gross: u64,
    purpose: Seq<char>,
    contract: Seq<char>,
    chain: u64,
    now: u64,
    new: RetailLedger,
    r: Result<InternalTransfer, RetailError>,
    c: Seq<char>,
)
    requires
        old.wf(),
        position_index(old.positions(), recipient) is Some,
        transfer_post(old, id, sender, recipient, gross, purpose, contract, chain, now, new, r),
    ensures
        available_gap(new, c) == available_gap(old, c),
{
    if new != old {
        lemma_strings_differ();
        let ps = old.positions();
        let ks = position_index(ps, sender)->Some_0;
        let kr = position_index(ps, recipient)->Some_0;
        lemma_position_index_names(ps, sender);
        lemma_position_index_names(ps, recipient);
        let fee = crate::ledger::transfer_fee(gross);
        let net = (gross - fee) as u64;
        let mid = debit_available(ps, ks, gross as int);
        lemma_journal_three(new.entries(), old.entries(), c);
        lemma_available_after_update(ps, ks, with_balances(ps[ks], (ps[ks].available_raw - gross) as u64, ps[ks].locked_raw), c);
        lemma_available_after_update(mid, kr, with_balances(mid[kr], (mid[kr].available_raw + net) as u64, mid[kr].locked_raw), c);
    }
}

/// Law: starting a withdrawal debits the client in the journal exactly as
/// it locks the amount and fee out of the client's available position.
pub proof fn lemma_begin_withdrawal_keeps_journal(
    old: RetailLedger,
    id: Seq<char>,
    client: Seq<char>,
    destination: Seq<char>,
    amount: u64,
    fee: u64,
    now: u64,
    new: RetailLedger,
    r: Result<ExternalWithdrawal, ExternalWithdrawalError>,
    c: Seq<char>,
)
    requires
        old.wf(),
        begin_withdrawal_post(old, id, client, destination, amount, fee, now, new, r),
    ensures
        available_gap(new, c) == available_gap(old, c),
{
    if new != old {
        lemma_strings_differ();
        let ps = old.positions();
        let total = (amount + fee) as u64;
        let p = position_index(ps, client)->Some_0;
        lemma_position_index_names(ps, client);
        lemma_journal_two(new.entries(), old.entries(), c);
        lemma_available_after_update(
            ps,
            p,
            with_balances(ps[p], (ps[p].available_raw - total) as u64, (ps[p].locked_raw + total) as u64),
            c,
        );
    }
}

/// Law: completing a withdrawal touches neither side of any client's
/// available balance.
pub proof fn lemma_complete_withdrawal_keeps_journal(
    old: RetailLedger,
    id: Seq<char>,
    contract: Seq<char>,
    chain: u64,
    now: u64,
    new: RetailLedger,
    r: Result<ExternalWithdrawal, ExternalWithdrawalError>,
    c: Seq<char>,
)
    requires
        old.wf(),
        complete_withdrawal_post(old, id, contract, chain, now, new, r),
    ensures
        available_gap(new, c) == available_gap(old, c),
{
    if new != old {
        lemma_strings_differ();
        let ps = old.positions();
        let k = withdrawal_index(old.withdrawals(), id)->Some_0;
        let w = old.withdrawals()[k];
        lemma_journal_two(new.entries(), old.entries(), c);
        match position_index(ps, w.client_id@) {
            Some(p) => {
                lemma_position_index_names(ps, w.client_id@);
                if ps[p].locked_raw >= w.total_debit_raw {
                    lemma_available_kept(ps, p, with_balances(ps[p], ps[p].available_raw, (ps[p].locked_raw - w.total_debit_raw) as u64), c);
                }
            },
            None => {},
        }
    }
}

/// Law: a withdrawal of a client the register knows that definitely failed
/// credits the client in the journal exactly as it returns the locked total
/// to the client's available position.
pub proof fn lemma_failed_withdrawal_keeps_journal(
    old: RetailLedger,
    id: Seq<char>,
    message: Seq<char>,
    now: u64,
    new: RetailLedger,
    r: Result<(), ExternalWithdrawalError>,
    c: Seq<char>,
)
    requires
        old.wf(),
        withdrawal_index(old.withdrawals(), id) matches Some(k) ==> position_index(
            old.positions(),
            old.withdrawals()[k].client_id@,
        ) is Some,
        fail_withdrawal_post(old, id, message, now, new, r),
    ensures
        available_gap(new, c) == available_gap(old, c),
{
    if new != old {
        lemma_strings_differ();
        let ps = old.positions();
        let k = withdrawal_index(old.withdrawals(), id)->Some_0;
        let w = old.withdrawals()[k];
        if w.status == WithdrawalStatus::PendingChain {
            lemma_journal_two(new.entries(), old.entries(), c);
            let p = position_index(ps, w.client_id@)->Some_0;
            lemma_position_index_names(ps, w.client_id@);
            lemma_available_after_update(
                ps,
                p,
                with_balances(ps[p], (ps[p].available_raw + w.total_debit_raw) as u64, (ps[p].locked_raw - w.total_debit_raw) as u64),
                c,
            );
        }
    }
}

/// Law: a deposit credited to a client the register knows credits it in the
/// journal exactly as in its available position; one for no client changes
/// neither.
pub proof fn lemma_deposit_keeps_journal(
    old: RetailLedger,
    chain: u64,
    event: ExternalDepositEvent,
    client: Option<Seq<char>>,
    now: u64,
    new: RetailLedger,
    r: Result<(), ExternalDepositError>,
    c: Seq<char>,
)
    requires
        old.wf(),
        client matches Some(d) ==> position_index(old.positions(), d) is Some,
        apply_deposit_post(old, chain, event, client, now, new, r),
    ensures
        available_gap(new, c) == available_gap(old, c),
{
    if new.entries() != old.entries() {
        lemma_strings_differ();
        let ps = old.positions();
        let d = client->Some_0;
        let p = position_index(ps, d)->Some_0;
        lemma_position_index_names(ps, d);
        lemma_journal_one(new.entries(), old.entries(), c);
        lemma_available_after_update(
            ps,
            p,
            with_balances(ps[p], (ps[p].available_raw + event.amount_raw) as u64, ps[p].locked_raw),
            c,
        );
    }
}

} // verus!
