//! What the register hands to client statements: the client's balances
//! before and at the end of a range of UTC days, computed from the journal,
//! and one movement per operation that changed them within the range.
use super::reports::within;
use super::{
    kind_str, kind_text, opt_text, status_str, status_text, LedgerEntry, LedgerOrder, LedgerTransfer,
    OrderKind, RetailLedger,
};
use crate::calendar::{spec_utc_date, utc_date};
use crate::decimal::{decimal_int, decimal_nat, i64_to_string, u64_to_string};
use crate::recency::lists;
use crate::reporting::{lemma_text_lt_total, lemma_text_lt_transitive, str_lt, text_lt};
use crate::statements::{StatementError, StatementMovement, StatementSource, StatementStore};
use crate::text::str_eq;
use vstd::prelude::*;

verus! {

/// How an entry changes its account's available balance.
pub open spec fn available_change(e: LedgerEntry) -> int {
    if e.account_type@ == "client"@ && e.direction@ == "credit"@ {
        e.amount_raw as int
    } else if e.account_type@ == "client"@ && e.direction@ == "debit"@ {
        -(e.amount_raw as int)
    } else {
        0
    }
}

/// How an entry changes its account's locked balance.
pub open spec fn locked_change(e: LedgerEntry) -> int {
    if e.account_type@ == "client_locked"@ && e.direction@ == "lock"@ {
        e.amount_raw as int
    } else if e.account_type@ == "client_locked"@ && e.direction@ == "debit"@ {
        -(e.amount_raw as int)
    } else {
        0
    }
}

pub open spec fn change(e: LedgerEntry, locked: bool) -> int {
    if locked {
        locked_change(e)
    } else {
        available_change(e)
    }
}

/// A signed 64-bit integer can hold `v`.
pub open spec fn fits_i64(v: int) -> bool {
    i64::MIN <= v <= i64::MAX
}

/// The entry was written on a UTC day that `keep` accepts.
pub open spec fn on_kept_day(e: LedgerEntry, keep: spec_fn(Seq<char>) -> bool) -> bool {
    match spec_utc_date(e.created_at_unix_ms) {
        Some(day) => keep(day),
        None => false,
    }
}

/// Days before `from`.
pub open spec fn before_day(from: Seq<char>) -> spec_fn(Seq<char>) -> bool {
    |day: Seq<char>| text_lt(day, from)
}

/// Days up to and including `to`.
pub open spec fn through_day(to: Seq<char>) -> spec_fn(Seq<char>) -> bool {
    |day: Seq<char>| !text_lt(to, day)
}

/// `client`'s balance (available, or locked) summed in journal order over
/// the entries on kept days; none once a partial sum leaves the signed
/// 64-bit range, where the store's integer sum fails.
pub open spec fn balance_sum(
    entries: Seq<LedgerEntry>,
    client: Seq<char>,
    keep: spec_fn(Seq<char>) -> bool,
    locked: bool,
) -> Option<int>
    decreases entries.len(),
{
    if entries.len() == 0 {
        Some(0)
    } else {
        let e = entries.last();
        match balance_sum(entries.drop_last(), client, keep, locked) {
            None => None,
            Some(s) => {
                let t = if e.account@ == client && on_kept_day(e, keep) {
                    s + change(e, locked)
                } else {
                    s
                };
                if fits_i64(t) {
                    Some(t)
                } else {
                    None
                }
            },
        }
    }
}

/// The entry moves `client`'s own balances on a day in `from..=to`.
pub open spec fn moves(e: LedgerEntry, client: Seq<char>, from: Seq<char>, to: Seq<char>) -> bool {
    &&& e.account@ == client
    &&& e.account_type@ == "client"@ || e.account_type@ == "client_locked"@
    &&& match spec_utc_date(e.created_at_unix_ms) {
        Some(day) => within(day, from, to),
        None => false,
    }
}

/// The earliest time of the entries of operation `id` that move the client's
/// balances in the range; none when it has no such entry.
pub open spec fn op_first(
    entries: Seq<LedgerEntry>,
    client: Seq<char>,
    from: Seq<char>,
    to: Seq<char>,
    id: Seq<char>,
) -> Option<u64>
    decreases entries.len(),
{
    if entries.len() == 0 {
        None
    } else {
        let e = entries.last();
        let rest = op_first(entries.drop_last(), client, from, to, id);
        if moves(e, client, from, to) && e.operation_id@ == id {
            match rest {
                None => Some(e.created_at_unix_ms),
                Some(t) => Some(
                    if e.created_at_unix_ms < t {
                        e.created_at_unix_ms
                    } else {
                        t
                    },
                ),
            }
        } else {
            rest
        }
    }
}

/// The change of the client's balance (available, or locked) by operation
/// `id` in the range, summed in journal order; none once a partial sum
/// leaves the signed 64-bit range.
pub open spec fn op_sum(
    entries: Seq<LedgerEntry>,
    client: Seq<char>,
    from: Seq<char>,
    to: Seq<char>,
    id: Seq<char>,
    locked: bool,
) -> Option<int>
    decreases entries.len(),
{
    if entries.len() == 0 {
        Some(0)
    } else {
        let e = entries.last();
        match op_sum(entries.drop_last(), client, from, to, id, locked) {
            None => None,
            Some(s) => if moves(e, client, from, to) && e.operation_id@ == id {
                let t = s + change(e, locked);
                if fits_i64(t) {
                    Some(t)
                } else {
                    None
                }
            } else {
                Some(s)
            },
        }
    }
}

/// Operation `id` moved the client's balances in the range.
pub open spec fn moved(entries: Seq<LedgerEntry>, client: Seq<char>, from: Seq<char>, to: Seq<char>, id: Seq<char>) -> bool {
    op_first(entries, client, from, to, id) is Some
}

/// Transfer `k` is the first with identifier `id`.
pub open spec fn is_first_transfer(transfers: Seq<LedgerTransfer>, id: Seq<char>, k: int) -> bool {
    &&& 0 <= k < transfers.len()
    &&& transfers[k].operation_id@ == id
    &&& forall|j: int| 0 <= j < k ==> (#[trigger] transfers[j]).operation_id@ != id
}

/// The first transfer with identifier `id`, if any (the only one in a
/// well-formed register).
pub open spec fn first_transfer(transfers: Seq<LedgerTransfer>, id: Seq<char>) -> Option<int> {
    if exists|k: int| #[trigger] is_first_transfer(transfers, id, k) {
        Some(choose|k: int| #[trigger] is_first_transfer(transfers, id, k))
    } else {
        None
    }
}

/// Order `k` is the first with identifier `id`.
pub open spec fn is_first_order(orders: Seq<LedgerOrder>, id: Seq<char>, k: int) -> bool {
    &&& 0 <= k < orders.len()
    &&& orders[k].operation_id@ == id
    &&& forall|j: int| 0 <= j < k ==> (#[trigger] orders[j]).operation_id@ != id
}

/// The first order with identifier `id`, if any (the only one in a
/// well-formed register).
pub open spec fn first_order(orders: Seq<LedgerOrder>, id: Seq<char>) -> Option<int> {
    if exists|k: int| #[trigger] is_first_order(orders, id, k) {
        Some(choose|k: int| #[trigger] is_first_order(orders, id, k))
    } else {
        None
    }
}

fn find_first_transfer(transfers: &Vec<LedgerTransfer>, id: &str) -> (r: Option<usize>)
    ensures
        match r {
            Some(k) => first_transfer(transfers@, id@) == Some(k as int),
            None => first_transfer(transfers@, id@) is None,
        },
{
    let mut k: usize = 0;
    while k < transfers.len()
        invariant
            k <= transfers@.len(),
            forall|j: int| 0 <= j < k ==> (#[trigger] transfers@[j]).operation_id@ != id@,
        decreases transfers.len() - k,
    {
        if str_eq(transfers[k].operation_id.as_str(), id) {
            proof {
                assert(is_first_transfer(transfers@, id@, k as int));
                let c = choose|c: int| #[trigger] is_first_transfer(transfers@, id@, c);
                if c < k {
                    assert(transfers@[c].operation_id@ != id@);
                } else if c > k {
                    assert(transfers@[k as int].operation_id@ != id@);
                }
            }
            return Some(k);
        }
        k = k + 1;
    }
    proof {
        assert forall|c: int| !#[trigger] is_first_transfer(transfers@, id@, c) by {
            if 0 <= c < transfers@.len() {
                assert(transfers@[c].operation_id@ != id@);
            }
        }
    }
    None
}

fn find_first_order(orders: &Vec<LedgerOrder>, id: &str) -> (r: Option<usize>)
    ensures
        match r {
            Some(k) => first_order(orders@, id@) == Some(k as int),
            None => first_order(orders@, id@) is None,
        },
{
    let mut k: usize = 0;
    while k < orders.len()
        invariant
            k <= orders@.len(),
            forall|j: int| 0 <= j < k ==> (#[trigger] orders@[j]).operation_id@ != id@,
        decreases orders.len() - k,
    {
        if str_eq(orders[k].operation_id.as_str(), id) {
            proof {
                assert(is_first_order(orders@, id@, k as int));
                let c = choose|c: int| #[trigger] is_first_order(orders@, id@, c);
                if c < k {
                    assert(orders@[c].operation_id@ != id@);
                } else if c > k {
                    assert(orders@[k as int].operation_id@ != id@);
                }
            }
            return Some(k);
        }
        k = k + 1;
    }
    proof {
        assert forall|c: int| !#[trigger] is_first_order(orders@, id@, c) by {
            if 0 <= c < orders@.len() {
                assert(orders@[c].operation_id@ != id@);
            }
        }
    }
    None
}

/// The movement shows a transfer as seen by `client`.
pub open spec fn transfer_movement(m: StatementMovement, t: LedgerTransfer, client: Seq<char>) -> bool {
    let sent = t.sender_client_id@ == client;
    &&& m.operation_type@ == (if sent {
        "internal_transfer_sent"@
    } else {
        "internal_transfer_received"@
    })
    &&& m.status@ == "completed"@
    &&& m.gross_raw@ == decimal_nat(t.gross_raw as nat)
    &&& m.net_raw@ == decimal_nat(t.net_raw as nat)
    &&& m.fee_raw@ == decimal_nat(
        if sent {
            t.fee_raw as nat
        } else {
            0
        },
    )
    &&& opt_text(m.counterparty) == Some(
        if sent {
            t.recipient_client_id@
        } else {
            t.sender_client_id@
        },
    )
}

/// The movement shows an order: the CASP's inventory is the counterparty of
/// purchases and sales, the issuer that of redemptions.
pub open spec fn order_movement(m: StatementMovement, o: LedgerOrder) -> bool {
    &&& m.operation_type@ == kind_text(o.kind)
    &&& m.status@ == status_text(o.status)
    &&& m.gross_raw@ == decimal_nat(o.quantity_raw as nat)
    &&& m.net_raw@ == decimal_nat(o.quantity_raw as nat)
    &&& m.fee_raw@ == decimal_nat(0)
    &&& opt_text(m.counterparty) == Some(
        if o.kind == OrderKind::Redemption {
            "issuer"@
        } else {
            "casp-inventory"@
        },
    )
}

/// The movement shows operation `m.operation_id` of the register for `client`
/// in the range: its earliest time, its changes of the two balances and what
/// the transfer (or else the order) with that identifier says of it.
pub open spec fn movement_is(m: StatementMovement, l: RetailLedger, client: Seq<char>, from: Seq<char>, to: Seq<char>) -> bool {
    let id = m.operation_id@;
    let es = l.entries();
    &&& op_first(es, client, from, to, id) == Some(m.occurred_at_unix_ms)
    &&& (op_sum(es, client, from, to, id, false) matches Some(a) && m.available_delta_raw@ == decimal_int(a))
    &&& (op_sum(es, client, from, to, id, true) matches Some(b) && m.locked_delta_raw@ == decimal_int(b))
    &&& match first_transfer(l.transfers(), id) {
        Some(k) => transfer_movement(m, l.transfers()[k], client),
        None => match first_order(l.orders(), id) {
            Some(k) => order_movement(m, l.orders()[k]),
            None => false,
        },
    }
}

/// Key `(t1, n1)` comes before `(t2, n2)`: an earlier time, or the same time
/// and a smaller name.
pub open spec fn key_before(t1: u64, n1: Seq<char>, t2: u64, n2: Seq<char>) -> bool {
    t1 < t2 || (t1 == t2 && text_lt(n1, n2))
}

/// Movement `a` comes before movement `b`.
pub open spec fn movement_before(a: StatementMovement, b: StatementMovement) -> bool {
    key_before(a.occurred_at_unix_ms, a.operation_id@, b.occurred_at_unix_ms, b.operation_id@)
}

/// Law: `key_before` is a strict total order.
pub proof fn lemma_key_before(t1: u64, n1: Seq<char>, t2: u64, n2: Seq<char>, t3: u64, n3: Seq<char>)
    ensures
        !key_before(t1, n1, t1, n1),
        key_before(t1, n1, t2, n2) && key_before(t2, n2, t3, n3) ==> key_before(t1, n1, t3, n3),
        !key_before(t1, n1, t2, n2) && !key_before(t2, n2, t1, n1) ==> t1 == t2 && n1 == n2,
{
    lemma_text_lt_total(n1, n1);
    lemma_text_lt_total(n1, n2);
    if key_before(t1, n1, t2, n2) && key_before(t2, n2, t3, n3) && t1 == t2 && t2 == t3 {
        lemma_text_lt_transitive(n1, n2, n3);
    }
}

/// One of the four balances at the edges of the range does not fit in 64 bits.
pub open spec fn edge_fault(es: Seq<LedgerEntry>, client: Seq<char>, from: Seq<char>, to: Seq<char>) -> bool {
    ||| balance_sum(es, client, before_day(from), false) is None
    ||| balance_sum(es, client, before_day(from), true) is None
    ||| balance_sum(es, client, through_day(to), false) is None
    ||| balance_sum(es, client, through_day(to), true) is None
}

/// Something keeps the store from answering for `client` over `from..=to`:
/// a balance or an operation's change leaves the signed 64-bit range, or an
/// operation in the range is neither a transfer nor an order.
pub open spec fn statement_fault(l: RetailLedger, client: Seq<char>, from: Seq<char>, to: Seq<char>) -> bool {
    let es = l.entries();
    ||| balance_sum(es, client, before_day(from), false) is None
    ||| balance_sum(es, client, before_day(from), true) is None
    ||| balance_sum(es, client, through_day(to), false) is None
    ||| balance_sum(es, client, through_day(to), true) is None
    ||| exists|id: Seq<char>|
        #[trigger] moved(es, client, from, to, id) && (op_sum(es, client, from, to, id, false) is None
            || op_sum(es, client, from, to, id, true) is None || (first_transfer(l.transfers(), id) is None
            && first_order(l.orders(), id) is None))
}

/// Law: a sum that failed on a prefix of the journal fails on all of it.
pub proof fn lemma_balance_sum_stays_none(
    entries: Seq<LedgerEntry>,
    n: int,
    client: Seq<char>,
    keep: spec_fn(Seq<char>) -> bool,
    locked: bool,
)
    requires
        0 <= n <= entries.len(),
        balance_sum(entries.take(n), client, keep, locked) is None,
    ensures
        balance_sum(entries, client, keep, locked) is None,
    decreases entries.len(),
{
    if n < entries.len() {
        assert(entries.drop_last().take(n) =~= entries.take(n));
        lemma_balance_sum_stays_none(entries.drop_last(), n, client, keep, locked);
    } else {
        assert(entries.take(n) =~= entries);
    }
}

/// Law: an operation's sum that failed on a prefix of the journal fails on all of it.
pub proof fn lemma_op_sum_stays_none(
    entries: Seq<LedgerEntry>,
    n: int,
    client: Seq<char>,
    from: Seq<char>,
    to: Seq<char>,
    id: Seq<char>,
    locked: bool,
)
    requires
        0 <= n <= entries.len(),
        op_sum(entries.take(n), client, from, to, id, locked) is None,
    ensures
        op_sum(entries, client, from, to, id, locked) is None,
    decreases entries.len(),
{
    if n < entries.len() {
        assert(entries.drop_last().take(n) =~= entries.take(n));
        lemma_op_sum_stays_none(entries.drop_last(), n, client, from, to, id, locked);
    } else {
        assert(entries.take(n) =~= entries);
    }
}

/// Law: an operation with no entry in the range changes nothing.
pub proof fn lemma_unmoved_sum(
    entries: Seq<LedgerEntry>,
    client: Seq<char>,
    from: Seq<char>,
    to: Seq<char>,
    id: Seq<char>,
    locked: bool,
)
    requires
        op_first(entries, client, from, to, id) is None,
    ensures
        op_sum(entries, client, from, to, id, locked) == Some(0int),
    decreases entries.len(),
{
    if entries.len() > 0 {
        lemma_unmoved_sum(entries.drop_last(), client, from, to, id, locked);
    }
}

fn change_of(e: &LedgerEntry, locked: bool) -> (r: i128)
    ensures
        r == change(*e, locked),
{
    proof {
        reveal_strlit("client");
        reveal_strlit("credit");
        reveal_strlit("debit");
        reveal_strlit("client_locked");
        reveal_strlit("lock");
    }
    let t = e.account_type.as_str();
    let d = e.direction.as_str();
    if !locked {
        if str_eq(t, "client") && str_eq(d, "credit") {
            e.amount_raw as i128
        } else if str_eq(t, "client") && str_eq(d, "debit") {
            -(e.amount_raw as i128)
        } else {
            0
        }
    } else {
        if str_eq(t, "client_locked") && str_eq(d, "lock") {
            e.amount_raw as i128
        } else if str_eq(t, "client_locked") && str_eq(d, "debit") {
            -(e.amount_raw as i128)
        } else {
            0
        }
    }
}

fn add_checked(s: i64, d: i128) -> (r: Option<i64>)
    requires
        -0x1_0000_0000_0000_0000 <= d <= 0x1_0000_0000_0000_0000,
    ensures
        match r {
            Some(t) => fits_i64(s + d) && t == s + d,
            None => !fits_i64(s + d),
        },
{
    let t: i128 = s as i128 + d;
    if t < i64::MIN as i128 || t > i64::MAX as i128 {
        None
    } else {
        Some(t as i64)
    }
}

/// Law: an operation that moved the client's balances on a prefix of the
/// journal moved them on all of it.
pub proof fn lemma_op_first_stays_some(
    entries: Seq<LedgerEntry>,
    n: int,
    client: Seq<char>,
    from: Seq<char>,
    to: Seq<char>,
    id: Seq<char>,
)
    requires
        0 <= n <= entries.len(),
        op_first(entries.take(n), client, from, to, id) is Some,
    ensures
        op_first(entries, client, from, to, id) is Some,
    decreases entries.len(),
{
    if n < entries.len() {
        assert(entries.drop_last().take(n) =~= entries.take(n));
        lemma_op_first_stays_some(entries.drop_last(), n, client, from, to, id);
    } else {
        assert(entries.take(n) =~= entries);
    }
}

/// Some name of `names` is `id`.
pub open spec fn has_name(names: Seq<String>, id: Seq<char>) -> bool {
    exists|q: int| 0 <= q < names.len() && (#[trigger] names[q])@ == id
}

/// The four balances of `client` (available and locked before `from`,
/// available and locked through `to`), or none when one of their sums fails.
fn edge_balances(entries: &Vec<LedgerEntry>, client: &str, from: &str, to: &str) -> (r: Option<(i64, i64, i64, i64)>)
    ensures
        match r {
            Some((oa, ol, ca, cl)) => {
                &&& balance_sum(entries@, client@, before_day(from@), false) == Some(oa as int)
                &&& balance_sum(entries@, client@, before_day(from@), true) == Some(ol as int)
                &&& balance_sum(entries@, client@, through_day(to@), false) == Some(ca as int)
                &&& balance_sum(entries@, client@, through_day(to@), true) == Some(cl as int)
            },
            None => {
                ||| balance_sum(entries@, client@, before_day(from@), false) is None
                ||| balance_sum(entries@, client@, before_day(from@), true) is None
                ||| balance_sum(entries@, client@, through_day(to@), false) is None
                ||| balance_sum(entries@, client@, through_day(to@), true) is None
            },
        },
{
    let ghost es = entries@;
    let ghost opening = before_day(from@);
    let ghost closing = through_day(to@);
    let mut oa: i64 = 0;
    let mut ol: i64 = 0;
    let mut ca: i64 = 0;
    let mut cl: i64 = 0;
    let mut i: usize = 0;
    proof {
        assert(es.take(0) =~= Seq::<LedgerEntry>::empty());
    }
    while i < entries.len()
        invariant
            es == entries@,
            opening == before_day(from@),
            closing == through_day(to@),
            i <= es.len(),
            balance_sum(es.take(i as int), client@, opening, false) == Some(oa as int),
            balance_sum(es.take(i as int), client@, opening, true) == Some(ol as int),
            balance_sum(es.take(i as int), client@, closing, false) == Some(ca as int),
            balance_sum(es.take(i as int), client@, closing, true) == Some(cl as int),
        decreases entries.len() - i,
    {
        let e = &entries[i];
        let ghost next = es.take(i as int + 1);
        proof {
            assert(next.drop_last() =~= es.take(i as int));
            assert(next.last() == *e);
        }
        if str_eq(e.account.as_str(), client) {
            match utc_date(e.created_at_unix_ms) {
                Some(day) => {
                    if str_lt(day.as_str(), from) {
                        match add_checked(oa, change_of(e, false)) {
                            Some(t) => oa = t,
                            None => {
                                proof {
                                    lemma_balance_sum_stays_none(es, i as int + 1, client@, opening, false);
                                }
                                return None;
                            },
                        }
                        match add_checked(ol, change_of(e, true)) {
                            Some(t) => ol = t,
                            None => {
                                proof {
                                    lemma_balance_sum_stays_none(es, i as int + 1, client@, opening, true);
                                }
                                return None;
                            },
                        }
                    }
                    if !str_lt(to, day.as_str()) {
                        match add_checked(ca, change_of(e, false)) {
                            Some(t) => ca = t,
                            None => {
                                proof {
                                    lemma_balance_sum_stays_none(es, i as int + 1, client@, closing, false);
                                }
                                return None;
                            },
                        }
                        match add_checked(cl, change_of(e, true)) {
                            Some(t) => cl = t,
                            None => {
                                proof {
                                    lemma_balance_sum_stays_none(es, i as int + 1, client@, closing, true);
                                }
                                return None;
                            },
                        }
                    }
                },
                None => {},
            }
        }
        i = i + 1;
    }
    proof {
        assert(es.take(es.len() as int) =~= es);
    }
    Some((oa, ol, ca, cl))
}


/// The operations that moved `client`'s balances in the range, in the
/// order their first entries were written.
pub struct Groups {
    pub ids: Vec<String>,
    pub firsts: Vec<u64>,
    pub available: Vec<i64>,
    pub locked: Vec<i64>,
}

/// `g` lists each operation that moved the client's balances over `entries`
/// once, with its earliest time and its two changes.
pub open spec fn groups_of(g: Groups, entries: Seq<LedgerEntry>, client: Seq<char>, from: Seq<char>, to: Seq<char>) -> bool {
    &&& g.firsts@.len() == g.ids@.len()
    &&& g.available@.len() == g.ids@.len()
    &&& g.locked@.len() == g.ids@.len()
    &&& forall|a: int, b: int| 0 <= a < b < g.ids@.len() ==> (#[trigger] g.ids@[a])@ != (#[trigger] g.ids@[b])@
    &&& forall|q: int|
        0 <= q < g.ids@.len() ==> {
            &&& op_first(entries, client, from, to, (#[trigger] g.ids@[q])@) == Some(g.firsts@[q])
            &&& op_sum(entries, client, from, to, g.ids@[q]@, false) == Some(g.available@[q] as int)
            &&& op_sum(entries, client, from, to, g.ids@[q]@, true) == Some(g.locked@[q] as int)
        }
    &&& forall|id: Seq<char>| #[trigger] moved(entries, client, from, to, id) ==> has_name(g.ids@, id)
}

fn entry_moves(e: &LedgerEntry, client: &str, from: &str, to: &str) -> (r: bool)
    ensures
        r == moves(*e, client@, from@, to@),
{
    proof {
        reveal_strlit("client");
        reveal_strlit("client_locked");
    }
    if !str_eq(e.account.as_str(), client) {
        return false;
    }
    if !str_eq(e.account_type.as_str(), "client") && !str_eq(e.account_type.as_str(), "client_locked") {
        return false;
    }
    match utc_date(e.created_at_unix_ms) {
        Some(day) => !str_lt(day.as_str(), from) && !str_lt(to, day.as_str()),
        None => false,
    }
}

fn find_name(names: &Vec<String>, id: &str) -> (r: Option<usize>)
    ensures
        match r {
            Some(q) => q < names@.len() && names@[q as int]@ == id@,
            None => !has_name(names@, id@),
        },
{
    let mut q: usize = 0;
    while q < names.len()
        invariant
            q <= names@.len(),
            forall|j: int| 0 <= j < q ==> (#[trigger] names@[j])@ != id@,
        decreases names.len() - q,
    {
        if str_eq(names[q].as_str(), id) {
            return Some(q);
        }
        q = q + 1;
    }
    None
}

/// The operations that moved `client`'s balances in the range, or `None`
/// when the change of one of them leaves the signed 64-bit range.
fn operation_groups(entries: &Vec<LedgerEntry>, client: &str, from: &str, to: &str) -> (r: Option<Groups>)
    ensures
        match r {
            Some(g) => groups_of(g, entries@, client@, from@, to@),
            None => exists|id: Seq<char>|
                #[trigger] moved(entries@, client@, from@, to@, id) && (op_sum(entries@, client@, from@, to@, id, false) is None
                    || op_sum(entries@, client@, from@, to@, id, true) is None),
        },
{
    let ghost es = entries@;
    let mut g = Groups { ids: Vec::new(), firsts: Vec::new(), available: Vec::new(), locked: Vec::new() };
    let mut i: usize = 0;
    proof {
        assert(es.take(0) =~= Seq::<LedgerEntry>::empty());
    }
    while i < entries.len()
        invariant
            es == entries@,
            i <= es.len(),
            groups_of(g, es.take(i as int), client@, from@, to@),
        decreases entries.len() - i,
    {
        let e = &entries[i];
        let ghost prev = es.take(i as int);
        let ghost next = es.take(i as int + 1);
        let ghost id = e.operation_id@;
        proof {
            assert(next.drop_last() =~= prev);
            assert(next.last() == *e);
        }
        if entry_moves(e, client, from, to) {
            let da = change_of(e, false);
            let dl = change_of(e, true);
            match find_name(&g.ids, e.operation_id.as_str()) {
                Some(q) => {
                    let ghost before = g.ids@;
                    let a = match add_checked(g.available[q], da) {
                        Some(t) => t,
                        None => {
                            proof {
                                lemma_op_sum_stays_none(es, i as int + 1, client@, from@, to@, id, false);
                                lemma_op_first_stays_some(es, i as int + 1, client@, from@, to@, id);
                                assert(moved(es, client@, from@, to@, id));
                            }
                            return None;
                        },
                    };
                    let l = match add_checked(g.locked[q], dl) {
                        Some(t) => t,
                        None => {
                            proof {
                                lemma_op_sum_stays_none(es, i as int + 1, client@, from@, to@, id, true);
                                lemma_op_first_stays_some(es, i as int + 1, client@, from@, to@, id);
                                assert(moved(es, client@, from@, to@, id));
                            }
                            return None;
                        },
                    };
                    let f = if e.created_at_unix_ms < g.firsts[q] {
                        e.created_at_unix_ms
                    } else {
                        g.firsts[q]
                    };
                    g.available.set(q, a);
                    g.locked.set(q, l);
                    g.firsts.set(q, f);
                    proof {
                        assert forall|p: int| 0 <= p < g.ids@.len() implies {
                            &&& op_first(next, client@, from@, to@, (#[trigger] g.ids@[p])@) == Some(g.firsts@[p])
                            &&& op_sum(next, client@, from@, to@, g.ids@[p]@, false) == Some(g.available@[p] as int)
                            &&& op_sum(next, client@, from@, to@, g.ids@[p]@, true) == Some(g.locked@[p] as int)
                        } by {
                            if p != q {
                                assert(g.ids@[p]@ != g.ids@[q as int]@);
                            }
                        }
                        assert forall|x: Seq<char>| #[trigger] moved(next, client@, from@, to@, x) implies has_name(
                            g.ids@,
                            x,
                        ) by {
                            if x != id {
                                assert(moved(prev, client@, from@, to@, x));
                            } else {
                                assert(g.ids@[q as int]@ == x);
                            }
                        }
                    }
                },
                None => {
                    proof {
                        if moved(prev, client@, from@, to@, id) {
                            assert(has_name(g.ids@, id));
                        }
                        lemma_unmoved_sum(prev, client@, from@, to@, id, false);
                        lemma_unmoved_sum(prev, client@, from@, to@, id, true);
                    }
                    let a = match add_checked(0, da) {
                        Some(t) => t,
                        None => {
                            proof {
                                lemma_op_sum_stays_none(es, i as int + 1, client@, from@, to@, id, false);
                                lemma_op_first_stays_some(es, i as int + 1, client@, from@, to@, id);
                                assert(moved(es, client@, from@, to@, id));
                            }
                            return None;
                        },
                    };
                    let l = match add_checked(0, dl) {
                        Some(t) => t,
                        None => {
                            proof {
                                lemma_op_sum_stays_none(es, i as int + 1, client@, from@, to@, id, true);
                                lemma_op_first_stays_some(es, i as int + 1, client@, from@, to@, id);
                                assert(moved(es, client@, from@, to@, id));
                            }
                            return None;
                        },
                    };
                    let ghost before = g.ids@;
                    g.ids.push(e.operation_id.clone());
                    g.firsts.push(e.created_at_unix_ms);
                    g.available.push(a);
                    g.locked.push(l);
                    proof {
                        let n = before.len() as int;
                        assert(g.ids@[n]@ == id);
                        assert forall|x: int, y: int| 0 <= x < y < g.ids@.len() implies (#[trigger] g.ids@[x])@
                            != (#[trigger] g.ids@[y])@ by {
                            if y == n {
                                assert(g.ids@[x] == before[x]);
                            } else {
                                assert(g.ids@[x] == before[x] && g.ids@[y] == before[y]);
                            }
                        }
                        assert forall|p: int| 0 <= p < g.ids@.len() implies {
                            &&& op_first(next, client@, from@, to@, (#[trigger] g.ids@[p])@) == Some(g.firsts@[p])
                            &&& op_sum(next, client@, from@, to@, g.ids@[p]@, false) == Some(g.available@[p] as int)
                            &&& op_sum(next, client@, from@, to@, g.ids@[p]@, true) == Some(g.locked@[p] as int)
                        } by {
                            if p < n {
                                assert(g.ids@[p] == before[p]);
                                assert(before[p]@ != id);
                            }
                        }
                        assert forall|x: Seq<char>| #[trigger] moved(next, client@, from@, to@, x) implies has_name(
                            g.ids@,
                            x,
                        ) by {
                            if x != id {
                                assert(moved(prev, client@, from@, to@, x));
                                let w = choose|w: int| 0 <= w < before.len() && (#[trigger] before[w])@ == x;
                                assert(g.ids@[w] == before[w]);
                            } else {
                                assert(g.ids@[n]@ == x);
                            }
                        }
                    }
                },
            }
        } else {
            proof {
                assert forall|x: Seq<char>| #[trigger] moved(next, client@, from@, to@, x) implies has_name(
                    g.ids@,
                    x,
                ) by {
                    assert(moved(prev, client@, from@, to@, x));
                }
            }
        }
        i = i + 1;
    }
    proof {
        assert(es.take(es.len() as int) =~= es);
    }
    Some(g)
}

fn key_precedes(times: &Vec<u64>, names: &Vec<String>, a: usize, b: usize) -> (r: bool)
    requires
        a < times@.len(),
        b < times@.len(),
        times@.len() == names@.len(),
    ensures
        r == key_before(times@[a as int], names@[a as int]@, times@[b as int], names@[b as int]@),
{
    times[a] < times[b] || (times[a] == times[b] && str_lt(names[a].as_str(), names[b].as_str()))
}

/// `order` lists every position once, by time and then name.
pub open spec fn earliest_first_order(times: Seq<u64>, names: Seq<String>, order: Seq<usize>) -> bool {
    &&& order.len() == times.len()
    &&& forall|j: int| 0 <= j < times.len() ==> #[trigger] lists(order, j)
    &&& forall|i: int| 0 <= i < order.len() ==> (#[trigger] order[i]) < times.len()
    &&& forall|i: int, j: int| 0 <= i < j < order.len() ==> (#[trigger] order[i]) != (#[trigger] order[j])
    &&& forall|i: int, j: int|
        0 <= i < j < order.len() ==> !key_before(
            times[(#[trigger] order[j]) as int],
            names[order[j] as int]@,
            times[(#[trigger] order[i]) as int],
            names[order[i] as int]@,
        )
}

/// The positions of `times` (with `names` alongside) ordered by time and then name.
fn earliest_first(times: &Vec<u64>, names: &Vec<String>) -> (order: Vec<usize>)
    requires
        times@.len() == names@.len(),
    ensures
        earliest_first_order(times@, names@, order@),
{
    let mut order: Vec<usize> = Vec::new();
    let mut k: usize = 0;
    while k < times.len()
        invariant
            times@.len() == names@.len(),
            k <= times@.len(),
            order@.len() == k,
            forall|j: int| 0 <= j < k ==> #[trigger] lists(order@, j),
            forall|i: int| 0 <= i < order@.len() ==> (#[trigger] order@[i]) < k,
            forall|i: int, j: int|
                0 <= i < j < order@.len() ==> (#[trigger] order@[i]) != (#[trigger] order@[j]),
            forall|i: int, j: int|
                0 <= i < j < order@.len() ==> !key_before(
                    times@[(#[trigger] order@[j]) as int],
                    names@[order@[j] as int]@,
                    times@[(#[trigger] order@[i]) as int],
                    names@[order@[i] as int]@,
                ),
        decreases times.len() - k,
    {
        let mut p: usize = 0;
        while p < order.len() && !key_precedes(times, names, k, order[p])
            invariant
                times@.len() == names@.len(),
                p <= order@.len(),
                order@.len() == k,
                k < times@.len(),
                forall|i: int| 0 <= i < order@.len() ==> (#[trigger] order@[i]) < k,
                forall|i: int|
                    0 <= i < p ==> !key_before(
                        times@[k as int],
                        names@[k as int]@,
                        times@[(#[trigger] order@[i]) as int],
                        names@[order@[i] as int]@,
                    ),
            decreases order.len() - p,
        {
            p = p + 1;
        }
        let ghost before = order@;
        let ghost tk = times@[k as int];
        let ghost nk = names@[k as int]@;
        order.insert(p, k);
        proof {
            assert forall|j: int| 0 <= j < k + 1 implies #[trigger] lists(order@, j) by {
                if j == k {
                    assert(order@[p as int] == k);
                } else {
                    assert(lists(before, j));
                    let i = choose|i: int| 0 <= i < before.len() && before[i] == j;
                    if i < p {
                        assert(order@[i] == j);
                    } else {
                        assert(order@[i + 1] == j);
                    }
                }
            }
            assert forall|i: int| 0 <= i < order@.len() implies (#[trigger] order@[i]) < k + 1 by {
                if i < p {
                    assert(order@[i] == before[i]);
                } else if i > p {
                    assert(order@[i] == before[i - 1]);
                }
            }
            assert forall|i: int, j: int|
                0 <= i < j < order@.len() implies (#[trigger] order@[i]) != (#[trigger] order@[j]) by {
                if i < p && j < p {
                    assert(order@[i] == before[i] && order@[j] == before[j]);
                } else if i < p && j == p {
                    assert(order@[i] == before[i]);
                } else if i < p && j > p {
                    assert(order@[i] == before[i] && order@[j] == before[j - 1]);
                } else if i == p {
                    assert(order@[j] == before[j - 1]);
                } else {
                    assert(order@[i] == before[i - 1] && order@[j] == before[j - 1]);
                }
            }
            assert forall|i: int, j: int|
                0 <= i < j < order@.len() implies !key_before(
                    times@[(#[trigger] order@[j]) as int],
                    names@[order@[j] as int]@,
                    times@[(#[trigger] order@[i]) as int],
                    names@[order@[i] as int]@,
                ) by {
                if i < p && j < p {
                    assert(order@[i] == before[i] && order@[j] == before[j]);
                } else if i < p && j == p {
                    assert(order@[i] == before[i]);
                } else if i < p && j > p {
                    assert(order@[i] == before[i] && order@[j] == before[j - 1]);
                } else if i == p {
                    let b = before[j - 1] as int;
                    let c = before[p as int] as int;
                    assert(order@[j] == before[j - 1]);
                    assert(key_before(tk, nk, times@[c], names@[c]@));
                    lemma_key_before(times@[b], names@[b]@, tk, nk, times@[c], names@[c]@);
                } else {
                    assert(order@[i] == before[i - 1] && order@[j] == before[j - 1]);
                }
            }
        }
        k = k + 1;
    }
    order
}

/// `s` is what the register holds for `client` over `from..=to`: the four
/// balances, one movement for each operation that moved the client's
/// balances in the range (and no other), ordered by time and then operation.
pub open spec fn statement_source_is(s: StatementSource, l: RetailLedger, client: Seq<char>, from: Seq<char>, to: Seq<char>) -> bool {
    let es = l.entries();
    let ms = s.movements@;
    &&& balance_sum(es, client, before_day(from), false) == Some(s.opening_available_raw as int)
    &&& balance_sum(es, client, before_day(from), true) == Some(s.opening_locked_raw as int)
    &&& balance_sum(es, client, through_day(to), false) == Some(s.closing_available_raw as int)
    &&& balance_sum(es, client, through_day(to), true) == Some(s.closing_locked_raw as int)
    &&& forall|i: int| 0 <= i < ms.len() ==> movement_is(#[trigger] ms[i], l, client, from, to)
    &&& forall|i: int, j: int| 0 <= i < j < ms.len() ==> movement_before(#[trigger] ms[i], #[trigger] ms[j])
    &&& forall|id: Seq<char>|
        #[trigger] moved(es, client, from, to, id) ==> exists|i: int| 0 <= i < ms.len() && (#[trigger] ms[i]).operation_id@ == id
}

fn overflow() -> (e: StatementError)
    ensures
        e matches StatementError::Storage(m) && m@ == "integer overflow"@,
{
    StatementError::Storage(String::from_str("integer overflow"))
}

impl RetailLedger {
    /// `client`'s balances before `from` and through `to`, and its movements
    /// in `from..=to`, from the journal. Fails when a sum leaves the signed
    /// 64-bit range or an operation in the range is neither a transfer nor an
    /// order.
    pub fn statement_source(&self, client: &str, from: &str, to: &str) -> (r: Result<StatementSource, StatementError>)
        ensures
            r is Err <==> statement_fault(*self, client@, from@, to@),
            r is Err ==> (r matches Err(StatementError::Storage(m)) && (m@ == "integer overflow"@ || m@
                == "operation without a recorded type"@)),
            edge_fault(self.entries(), client@, from@, to@) ==> (r matches Err(StatementError::Storage(m)) && m@
                == "integer overflow"@),
            r matches Ok(s) ==> statement_source_is(s, *self, client@, from@, to@),
    {
        proof {
            self.lemma_views();
        }
        let ghost es = self.entries@;
        let (oa, ol, ca, cl) = match edge_balances(&self.entries, client, from, to) {
            Some(b) => b,
            None => return Err(overflow()),
        };
        let g = match operation_groups(&self.entries, client, from, to) {
            Some(g) => g,
            None => {
                proof {
                    let id = choose|id: Seq<char>|
                        #[trigger] moved(es, client@, from@, to@, id) && (op_sum(es, client@, from@, to@, id, false) is None
                            || op_sum(es, client@, from@, to@, id, true) is None);
                    assert(moved(self.entries(), client@, from@, to@, id));
                }
                return Err(overflow());
            },
        };
        let order = earliest_first(&g.firsts, &g.ids);
        let mut movements: Vec<StatementMovement> = Vec::new();
        let mut q: usize = 0;
        while q < order.len()
            invariant
                es == self.entries(),
                !edge_fault(es, client@, from@, to@),
                self.transfers() == self.transfers@,
                self.orders() == self.orders@,
                groups_of(g, es, client@, from@, to@),
                earliest_first_order(g.firsts@, g.ids@, order@),
                q <= order@.len(),
                movements@.len() == q,
                forall|i: int|
                    0 <= i < q ==> {
                        &&& (#[trigger] movements@[i]).operation_id@ == g.ids@[order@[i] as int]@
                        &&& movements@[i].occurred_at_unix_ms == g.firsts@[order@[i] as int]
                        &&& movement_is(movements@[i], *self, client@, from@, to@)
                    },
            decreases order.len() - q,
        {
            let p = order[q];
            let ghost id = g.ids@[p as int]@;
            proof {
                assert(op_first(es, client@, from@, to@, g.ids@[p as int]@) == Some(g.firsts@[p as int]));
                assert(moved(es, client@, from@, to@, id));
            }
            let m = match find_first_transfer(&self.transfers, g.ids[p].as_str()) {
                Some(k) => {
                    let t = &self.transfers[k];
                    let sent = str_eq(t.sender_client_id.as_str(), client);
                    proof {
                        reveal_strlit("internal_transfer_sent");
                        reveal_strlit("internal_transfer_received");
                        reveal_strlit("completed");
                    }
                    StatementMovement {
                        operation_id: g.ids[p].clone(),
                        occurred_at_unix_ms: g.firsts[p],
                        operation_type: String::from_str(
                            if sent {
                                "internal_transfer_sent"
                            } else {
                                "internal_transfer_received"
                            },
                        ),
                        status: String::from_str("completed"),
                        available_delta_raw: i64_to_string(g.available[p]),
                        locked_delta_raw: i64_to_string(g.locked[p]),
                        gross_raw: u64_to_string(t.gross_raw),
                        net_raw: u64_to_string(t.net_raw),
                        fee_raw: u64_to_string(
                            if sent {
                                t.fee_raw
                            } else {
                                0
                            },
                        ),
                        counterparty: Some(
                            if sent {
                                t.recipient_client_id.clone()
                            } else {
                                t.sender_client_id.clone()
                            },
                        ),
                    }
                },
                None => match find_first_order(&self.orders, g.ids[p].as_str()) {
                    Some(k) => {
                        let o = &self.orders[k];
                        proof {
                            reveal_strlit("issuer");
                            reveal_strlit("casp-inventory");
                        }
                        StatementMovement {
                            operation_id: g.ids[p].clone(),
                            occurred_at_unix_ms: g.firsts[p],
                            operation_type: String::from_str(kind_str(o.kind)),
                            status: String::from_str(status_str(o.status)),
                            available_delta_raw: i64_to_string(g.available[p]),
                            locked_delta_raw: i64_to_string(g.locked[p]),
                            gross_raw: u64_to_string(o.quantity_raw),
                            net_raw: u64_to_string(o.quantity_raw),
                            fee_raw: u64_to_string(0),
                            counterparty: Some(
                                String::from_str(
                                    if o.kind == OrderKind::Redemption {
                                        "issuer"
                                    } else {
                                        "casp-inventory"
                                    },
                                ),
                            ),
                        }
                    },
                    None => {
                        return Err(StatementError::Storage(String::from_str("operation without a recorded type")));
                    },
                },
            };
            movements.push(m);
            q = q + 1;
        }
        let ghost ms = movements@;
        proof {
            assert forall|i: int, j: int| 0 <= i < j < ms.len() implies movement_before(
                #[trigger] ms[i],
                #[trigger] ms[j],
            ) by {
                let a = order@[i] as int;
                let b = order@[j] as int;
                assert(a != b);
                if a < b {
                    assert(g.ids@[a]@ != g.ids@[b]@);
                } else {
                    assert(g.ids@[b]@ != g.ids@[a]@);
                }
                lemma_key_before(g.firsts@[a], g.ids@[a]@, g.firsts@[b], g.ids@[b]@, g.firsts@[a], g.ids@[a]@);
            }
            assert forall|id: Seq<char>| #[trigger] moved(es, client@, from@, to@, id) implies exists|i: int|
                0 <= i < ms.len() && (#[trigger] ms[i]).operation_id@ == id by {
                assert(has_name(g.ids@, id));
                let w = choose|w: int| 0 <= w < g.ids@.len() && (#[trigger] g.ids@[w])@ == id;
                assert(lists(order@, w));
                let i = choose|i: int| 0 <= i < order@.len() && order@[i] == w;
                assert(ms[i].operation_id@ == id);
            }
            assert forall|id: Seq<char>| #[trigger] moved(es, client@, from@, to@, id) implies !(op_sum(
                es,
                client@,
                from@,
                to@,
                id,
                false,
            ) is None || op_sum(es, client@, from@, to@, id, true) is None || (first_transfer(
                self.transfers(),
                id,
            ) is None && first_order(self.orders(), id) is None)) by {
                assert(has_name(g.ids@, id));
                let w = choose|w: int| 0 <= w < g.ids@.len() && (#[trigger] g.ids@[w])@ == id;
                assert(lists(order@, w));
                let i = choose|i: int| 0 <= i < order@.len() && order@[i] == w;
                assert(movement_is(ms[i], *self, client@, from@, to@));
                assert(op_sum(es, client@, from@, to@, g.ids@[w]@, false) is Some);
                assert(op_sum(es, client@, from@, to@, g.ids@[w]@, true) is Some);
            }
        }
        let src = StatementSource {
            opening_available_raw: oa,
            opening_locked_raw: ol,
            closing_available_raw: ca,
            closing_locked_raw: cl,
            movements,
        };
        proof {
            assert(src.movements@ == ms);
            assert(balance_sum(es, client@, before_day(from@), false) == Some(src.opening_available_raw as int));
            assert(balance_sum(es, client@, through_day(to@), true) == Some(src.closing_locked_raw as int));
            assert(forall|i: int| 0 <= i < ms.len() ==> movement_is(#[trigger] ms[i], *self, client@, from@, to@));
        }
        Ok(src)
    }
}

impl StatementStore for RetailLedger {
    /// The register answers with `client`'s balances at the edges of the
    /// range and its movements in it, failing exactly when a sum leaves the
    /// signed 64-bit range or a movement has no recorded type.
    open spec fn answers_source(
        &self,
        client: Seq<char>,
        from: Seq<char>,
        to: Seq<char>,
        answer: Result<StatementSource, StatementError>,
    ) -> bool {
        &&& answer is Err <==> statement_fault(*self, client, from, to)
        &&& answer is Err ==> (answer matches Err(StatementError::Storage(m)) && (m@ == "integer overflow"@
            || m@ == "operation without a recorded type"@))
        &&& edge_fault(self.entries(), client, from, to) ==> (answer matches Err(StatementError::Storage(m))
            && m@ == "integer overflow"@)
        &&& answer matches Ok(s) ==> statement_source_is(s, *self, client, from, to)
    }

    /// `client`'s balances and movements over `from..=to`, as
    /// `statement_source` gives them.
    fn source(&self, client: &str, from: &str, to: &str) -> (r: Result<StatementSource, StatementError>)
        ensures
            r is Err <==> statement_fault(*self, client@, from@, to@),
            r is Err ==> (r matches Err(StatementError::Storage(m)) && (m@ == "integer overflow"@ || m@
                == "operation without a recorded type"@)),
            edge_fault(self.entries(), client@, from@, to@) ==> (r matches Err(StatementError::Storage(m)) && m@
                == "integer overflow"@),
            r matches Ok(s) ==> statement_source_is(s, *self, client@, from@, to@),
    {
        self.statement_source(client, from, to)
    }
}

/// The changes that the movements show, summed (an operation whose sum
/// failed counts nothing).
pub open spec fn movement_changes(
    ms: Seq<StatementMovement>,
    entries: Seq<LedgerEntry>,
    client: Seq<char>,
    from: Seq<char>,
    to: Seq<char>,
    locked: bool,
) -> int
    decreases ms.len(),
{
    if ms.len() == 0 {
        0
    } else {
        movement_changes(ms.drop_last(), entries, client, from, to, locked) + match op_sum(
            entries,
            client,
            from,
            to,
            ms.last().operation_id@,
            locked,
        ) {
            Some(v) => v,
            None => 0,
        }
    }
}

/// `client`'s changes over the entries on kept days, summed without bounds.
pub open spec fn kept_total(entries: Seq<LedgerEntry>, client: Seq<char>, keep: spec_fn(Seq<char>) -> bool, locked: bool) -> int
    decreases entries.len(),
{
    if entries.len() == 0 {
        0
    } else {
        let e = entries.last();
        kept_total(entries.drop_last(), client, keep, locked) + if e.account@ == client && on_kept_day(e, keep) {
            change(e, locked)
        } else {
            0
        }
    }
}

/// The changes of the entries that move the client's balances in the range.
pub open spec fn moving_total(entries: Seq<LedgerEntry>, client: Seq<char>, from: Seq<char>, to: Seq<char>, locked: bool) -> int
    decreases entries.len(),
{
    if entries.len() == 0 {
        0
    } else {
        let e = entries.last();
        moving_total(entries.drop_last(), client, from, to, locked) + if moves(e, client, from, to) {
            change(e, locked)
        } else {
            0
        }
    }
}

/// The changes of operation `id` in the range, summed without bounds.
pub open spec fn op_total(entries: Seq<LedgerEntry>, client: Seq<char>, from: Seq<char>, to: Seq<char>, id: Seq<char>, locked: bool) -> int
    decreases entries.len(),
{
    if entries.len() == 0 {
        0
    } else {
        let e = entries.last();
        op_total(entries.drop_last(), client, from, to, id, locked) + if moves(e, client, from, to)
            && e.operation_id@ == id {
            change(e, locked)
        } else {
            0
        }
    }
}

/// The unbounded changes of the movements' operations, summed.
pub open spec fn listed_total(ms: Seq<StatementMovement>, entries: Seq<LedgerEntry>, client: Seq<char>, from: Seq<char>, to: Seq<char>, locked: bool) -> int
    decreases ms.len(),
{
    if ms.len() == 0 {
        0
    } else {
        listed_total(ms.drop_last(), entries, client, from, to, locked) + op_total(
            entries,
            client,
            from,
            to,
            ms.last().operation_id@,
            locked,
        )
    }
}

/// Some movement is of operation `id`.
pub open spec fn lists_operation(ms: Seq<StatementMovement>, id: Seq<char>) -> bool {
    exists|i: int| 0 <= i < ms.len() && (#[trigger] ms[i]).operation_id@ == id
}

/// No operation is listed twice.
pub open spec fn operations_distinct(ms: Seq<StatementMovement>) -> bool {
    forall|i: int, j: int| 0 <= i < j < ms.len() ==> (#[trigger] ms[i]).operation_id@ != (#[trigger] ms[j]).operation_id@
}

proof fn lemma_balance_sum_total(entries: Seq<LedgerEntry>, client: Seq<char>, keep: spec_fn(Seq<char>) -> bool, locked: bool)
    requires
        balance_sum(entries, client, keep, locked) is Some,
    ensures
        balance_sum(entries, client, keep, locked) == Some(kept_total(entries, client, keep, locked)),
    decreases entries.len(),
{
    if entries.len() > 0 {
        lemma_balance_sum_total(entries.drop_last(), client, keep, locked);
    }
}

proof fn lemma_op_sum_total(entries: Seq<LedgerEntry>, client: Seq<char>, from: Seq<char>, to: Seq<char>, id: Seq<char>, locked: bool)
    requires
        op_sum(entries, client, from, to, id, locked) is Some,
    ensures
        op_sum(entries, client, from, to, id, locked) == Some(op_total(entries, client, from, to, id, locked)),
    decreases entries.len(),
{
    if entries.len() > 0 {
        lemma_op_sum_total(entries.drop_last(), client, from, to, id, locked);
    }
}

/// Over a range that is not reversed, the days up to `to` are those before
/// `from` and those in the range; only the client's own entries change its
/// balances.
proof fn lemma_range_split(entries: Seq<LedgerEntry>, client: Seq<char>, from: Seq<char>, to: Seq<char>, locked: bool)
    requires
        !text_lt(to, from),
    ensures
        kept_total(entries, client, through_day(to), locked) - kept_total(entries, client, before_day(from), locked)
            == moving_total(entries, client, from, to, locked),
    decreases entries.len(),
{
    if entries.len() > 0 {
        lemma_range_split(entries.drop_last(), client, from, to, locked);
        let e = entries.last();
        match spec_utc_date(e.created_at_unix_ms) {
            Some(day) => {
                if text_lt(day, from) && text_lt(to, day) {
                    lemma_text_lt_transitive(to, day, from);
                }
            },
            None => {},
        }
    }
}

proof fn lemma_listed_empty(ms: Seq<StatementMovement>, entries: Seq<LedgerEntry>, client: Seq<char>, from: Seq<char>, to: Seq<char>, locked: bool)
    requires
        entries.len() == 0,
    ensures
        listed_total(ms, entries, client, from, to, locked) == 0,
    decreases ms.len(),
{
    if ms.len() > 0 {
        lemma_listed_empty(ms.drop_last(), entries, client, from, to, locked);
    }
}

proof fn lemma_listed_step(ms: Seq<StatementMovement>, entries: Seq<LedgerEntry>, client: Seq<char>, from: Seq<char>, to: Seq<char>, locked: bool)
    requires
        entries.len() > 0,
        operations_distinct(ms),
    ensures
        listed_total(ms, entries, client, from, to, locked) == listed_total(
            ms,
            entries.drop_last(),
            client,
            from,
            to,
            locked,
        ) + if moves(entries.last(), client, from, to) && lists_operation(ms, entries.last().operation_id@) {
            change(entries.last(), locked)
        } else {
            0
        },
    decreases ms.len(),
{
    let e = entries.last();
    if ms.len() > 0 {
        let rest = ms.drop_last();
        assert(operations_distinct(rest)) by {
            assert forall|i: int, j: int| 0 <= i < j < rest.len() implies (#[trigger] rest[i]).operation_id@
                != (#[trigger] rest[j]).operation_id@ by {
                assert(rest[i] == ms[i] && rest[j] == ms[j]);
            }
        }
        lemma_listed_step(rest, entries, client, from, to, locked);
        let id = e.operation_id@;
        if lists_operation(rest, id) {
            let w = choose|w: int| 0 <= w < rest.len() && (#[trigger] rest[w]).operation_id@ == id;
            assert(ms[w] == rest[w]);
            assert(lists_operation(ms, id));
            assert(ms.last().operation_id@ != id) by {
                assert(ms[w].operation_id@ != ms[ms.len() - 1].operation_id@);
            }
        } else if lists_operation(ms, id) {
            let w = choose|w: int| 0 <= w < ms.len() && (#[trigger] ms[w]).operation_id@ == id;
            if w < ms.len() - 1 {
                assert(rest[w] == ms[w]);
                assert(lists_operation(rest, id));
            }
        }
    }
}

/// Law: when the movements list each operation once and every operation
/// that moved the balances, their changes add up to the changes of the
/// entries.
proof fn lemma_listed_regroup(ms: Seq<StatementMovement>, entries: Seq<LedgerEntry>, client: Seq<char>, from: Seq<char>, to: Seq<char>, locked: bool)
    requires
        operations_distinct(ms),
        forall|k: int|
            0 <= k < entries.len() && moves(#[trigger] entries[k], client, from, to) ==> lists_operation(
                ms,
                entries[k].operation_id@,
            ),
    ensures
        listed_total(ms, entries, client, from, to, locked) == moving_total(entries, client, from, to, locked),
    decreases entries.len(),
{
    if entries.len() == 0 {
        lemma_listed_empty(ms, entries, client, from, to, locked);
    } else {
        let rest = entries.drop_last();
        assert forall|k: int| 0 <= k < rest.len() && moves(#[trigger] rest[k], client, from, to) implies lists_operation(
            ms,
            rest[k].operation_id@,
        ) by {
            assert(rest[k] == entries[k]);
        }
        lemma_listed_regroup(ms, rest, client, from, to, locked);
        lemma_listed_step(ms, entries, client, from, to, locked);
        if moves(entries.last(), client, from, to) {
            assert(entries[entries.len() - 1] == entries.last());
        }
    }
}

proof fn lemma_changes_listed(ms: Seq<StatementMovement>, entries: Seq<LedgerEntry>, client: Seq<char>, from: Seq<char>, to: Seq<char>, locked: bool)
    requires
        forall|i: int| 0 <= i < ms.len() ==> op_sum(entries, client, from, to, (#[trigger] ms[i]).operation_id@, locked) is Some,
    ensures
        movement_changes(ms, entries, client, from, to, locked) == listed_total(ms, entries, client, from, to, locked),
    decreases ms.len(),
{
    if ms.len() > 0 {
        let rest = ms.drop_last();
        assert forall|i: int| 0 <= i < rest.len() implies op_sum(entries, client, from, to, (#[trigger] rest[i]).operation_id@, locked) is Some by {
            assert(rest[i] == ms[i]);
        }
        lemma_changes_listed(rest, entries, client, from, to, locked);
        assert(ms[ms.len() - 1] == ms.last());
        lemma_op_sum_total(entries, client, from, to, ms.last().operation_id@, locked);
    }
}

/// Law: over a range that is not reversed, a statement's closing balances
/// are its opening balances plus the changes of the movements it lists,
/// for the available and for the locked balance.
pub proof fn lemma_statement_balances_match_movements(
    s: StatementSource,
    l: RetailLedger,
    client: Seq<char>,
    from: Seq<char>,
    to: Seq<char>,
)
    requires
        statement_source_is(s, l, client, from, to),
        !text_lt(to, from),
    ensures
        s.closing_available_raw - s.opening_available_raw == movement_changes(s.movements@, l.entries(), client, from, to, false),
        s.closing_locked_raw - s.opening_locked_raw == movement_changes(s.movements@, l.entries(), client, from, to, true),
{
    let es = l.entries();
    let ms = s.movements@;
    assert(operations_distinct(ms)) by {
        assert forall|i: int, j: int| 0 <= i < j < ms.len() implies (#[trigger] ms[i]).operation_id@
            != (#[trigger] ms[j]).operation_id@ by {
            assert(movement_before(ms[i], ms[j]));
            assert(movement_is(ms[i], l, client, from, to));
            assert(movement_is(ms[j], l, client, from, to));
            lemma_key_before(
                ms[i].occurred_at_unix_ms,
                ms[i].operation_id@,
                ms[i].occurred_at_unix_ms,
                ms[i].operation_id@,
                ms[i].occurred_at_unix_ms,
                ms[i].operation_id@,
            );
        }
    }
    assert forall|k: int| 0 <= k < es.len() && moves(#[trigger] es[k], client, from, to) implies lists_operation(
        ms,
        es[k].operation_id@,
    ) by {
        let id = es[k].operation_id@;
        let n = k + 1;
        let prefix = es.take(n);
        assert(prefix.last() == es[k]);
        assert(op_first(prefix, client, from, to, id) is Some);
        lemma_op_first_stays_some(es, n, client, from, to, id);
        assert(moved(es, client, from, to, id));
    }
    assert forall|i: int| 0 <= i < ms.len() implies op_sum(es, client, from, to, (#[trigger] ms[i]).operation_id@, false) is Some by {
        assert(movement_is(ms[i], l, client, from, to));
    }
    assert forall|i: int| 0 <= i < ms.len() implies op_sum(es, client, from, to, (#[trigger] ms[i]).operation_id@, true) is Some by {
        assert(movement_is(ms[i], l, client, from, to));
    }
    lemma_changes_listed(ms, es, client, from, to, false);
    lemma_changes_listed(ms, es, client, from, to, true);
    lemma_listed_regroup(ms, es, client, from, to, false);
    lemma_listed_regroup(ms, es, client, from, to, true);
    lemma_balance_sum_total(es, client, before_day(from), false);
    lemma_balance_sum_total(es, client, before_day(from), true);
    lemma_balance_sum_total(es, client, through_day(to), false);
    lemma_balance_sum_total(es, client, through_day(to), true);
    lemma_range_split(es, client, from, to, false);
    lemma_range_split(es, client, from, to, true);
}

} // verus!
