//! The CASP register of client entitlements: positions, unallocated
//! inventory, pending fees, orders, internal transfers, inventory postings and
//! the journal of ledger entries. Every operation either applies completely
//! or leaves the register unchanged.
use crate::decimal::{decimal_nat, u64_to_string};
use crate::domain::retail::{
    ClientAccount, ExchangeRate, FeePosition, InternalTransfer, RetailOrder, ServiceRecordAmendment,
};
use crate::retail_application::{RetailError, TransferPosting};
use crate::text::str_eq;
use vstd::prelude::*;

pub mod deposits;
pub mod records;
pub mod reports;
pub mod statement_source;
pub mod sweeps;
pub mod withdrawals;

use self::deposits::{same_deposit, DepositRow};
use self::records::{
    earliest_record, fail_latest_record, has_record_for, is_earliest, records_failed,
    retail_record, retail_record_is, RecordRow,
};
use self::sweeps::SweepRow;
use self::withdrawals::WithdrawalRow;

verus! {

/// The largest amount the register stores (its integers are signed 64-bit).
pub const MAX_STORED: u64 = 0x7fff_ffff_ffff_ffff;

/// Raw token units in one rUSD.
pub const RAW_PER_TOKEN: u64 = 1_000_000;

/// One client's entitlement.
#[derive(Debug)]
pub struct ClientPosition {
    pub client_id: String,
    pub wallet_address: String,
    pub available_raw: u64,
    pub locked_raw: u64,
}

/// Kinds of client orders.
#[derive(Debug, Clone, Copy, PartialEq, Eq, Structural)]
pub enum OrderKind {
    Purchase,
    Sale,
    Redemption,
}

/// Where an order stands.
#[derive(Debug, Clone, Copy, PartialEq, Eq, Structural)]
pub enum OrderStatus {
    Completed,
    PendingIssuer,
    IssuerRetryRequired,
}

/// A client order as the register keeps it.
#[derive(Debug)]
pub struct LedgerOrder {
    pub operation_id: String,
    pub client_id: String,
    pub kind: OrderKind,
    pub quantity_raw: u64,
    pub fiat_amount_minor: u64,
    pub status: OrderStatus,
    pub issuer_operation_id: Option<String>,
    pub blockchain_transaction_hash: Option<String>,
    pub last_error: Option<String>,
    pub created_at_unix_ms: u64,
    pub updated_at_unix_ms: u64,
}

/// A completed transfer between two clients.
#[derive(Debug)]
pub struct LedgerTransfer {
    pub operation_id: String,
    pub sender_client_id: String,
    pub recipient_client_id: String,
    pub gross_raw: u64,
    pub fee_raw: u64,
    pub net_raw: u64,
    pub purpose_classification: String,
    pub created_at_unix_ms: u64,
}

/// An inventory increase already applied for one wallet of one replenishment.
#[derive(Debug)]
pub struct ReplenishmentPosting {
    pub operation_id: String,
    pub wallet_role: String,
    pub amount_raw: u64,
}

/// One line of the journal.
#[derive(Debug)]
pub struct LedgerEntry {
    pub operation_id: String,
    pub account_type: String,
    pub account: String,
    pub direction: String,
    pub amount_raw: u64,
    pub created_at_unix_ms: u64,
}

/// The register.
#[derive(Debug)]
pub struct RetailLedger {
    positions: Vec<ClientPosition>,
    inventory_raw: u64,
    inventory_activated: bool,
    pending_fee_raw: u64,
    usd_minor_per_rusd: u64,
    rate_updated_at_unix_ms: u64,
    orders: Vec<LedgerOrder>,
    transfers: Vec<LedgerTransfer>,
    postings: Vec<ReplenishmentPosting>,
    entries: Vec<LedgerEntry>,
    withdrawals: Vec<WithdrawalRow>,
    sweeps: Vec<SweepRow>,
    deposits: Vec<DepositRow>,
    deposit_checkpoint: u64,
    records: Vec<RecordRow>,
    amendments: Vec<ServiceRecordAmendment>,
}

impl RetailLedger {
    pub closed spec fn positions(&self) -> Seq<ClientPosition> {
        self.positions@
    }

    proof fn lemma_views(&self)
        ensures
            self.positions() == self.positions@,
            self.orders() == self.orders@,
            self.transfers() == self.transfers@,
            self.postings() == self.postings@,
            self.entries() == self.entries@,
            self.inventory() == self.inventory_raw,
            self.activated() == self.inventory_activated,
            self.pending_fee() == self.pending_fee_raw,
            self.rate() == self.usd_minor_per_rusd,
            self.rate_updated_at() == self.rate_updated_at_unix_ms,
            self.withdrawals() == self.withdrawals@,
            self.sweeps() == self.sweeps@,
            self.deposits() == self.deposits@,
            self.checkpoint() == self.deposit_checkpoint,
            self.record_rows() == self.records@,
            self.amendment_rows() == self.amendments@,
    {
    }

    pub closed spec fn inventory(&self) -> u64 {
        self.inventory_raw
    }

    pub closed spec fn activated(&self) -> bool {
        self.inventory_activated
    }

    pub closed spec fn pending_fee(&self) -> u64 {
        self.pending_fee_raw
    }

    pub closed spec fn rate(&self) -> u64 {
        self.usd_minor_per_rusd
    }

    pub closed spec fn rate_updated_at(&self) -> u64 {
        self.rate_updated_at_unix_ms
    }

    pub closed spec fn orders(&self) -> Seq<LedgerOrder> {
        self.orders@
    }

    pub closed spec fn transfers(&self) -> Seq<LedgerTransfer> {
        self.transfers@
    }

    pub closed spec fn postings(&self) -> Seq<ReplenishmentPosting> {
        self.postings@
    }

    pub closed spec fn entries(&self) -> Seq<LedgerEntry> {
        self.entries@
    }

    pub closed spec fn withdrawals(&self) -> Seq<WithdrawalRow> {
        self.withdrawals@
    }

    pub closed spec fn sweeps(&self) -> Seq<SweepRow> {
        self.sweeps@
    }

    pub closed spec fn deposits(&self) -> Seq<DepositRow> {
        self.deposits@
    }

    /// The last block whose deposits have been applied.
    pub closed spec fn checkpoint(&self) -> u64 {
        self.deposit_checkpoint
    }

    /// The records of services rendered, in the order they were written.
    pub closed spec fn record_rows(&self) -> Seq<RecordRow> {
        self.records@
    }

    /// The amendments of records, in the order they were written.
    pub closed spec fn amendment_rows(&self) -> Seq<ServiceRecordAmendment> {
        self.amendments@
    }

    /// The register's invariant: every stored amount fits the store, the
    /// rate is positive, a withdrawal's total is its amount and fee, and
    /// clients, orders, transfers, postings, withdrawals, sweeps and deposits
    /// are each identified uniquely.
    pub open spec fn wf(&self) -> bool {
        &&& self.rate() > 0
        &&& self.rate() <= MAX_STORED
        &&& self.inventory() <= MAX_STORED
        &&& self.pending_fee() <= MAX_STORED
        &&& forall|i: int|
            0 <= i < self.positions().len() ==> (#[trigger] self.positions()[i]).available_raw
                <= MAX_STORED && self.positions()[i].locked_raw <= MAX_STORED
        &&& forall|i: int, j: int|
            0 <= i < j < self.positions().len() ==> (#[trigger] self.positions()[i]).client_id@
                != (#[trigger] self.positions()[j]).client_id@
        &&& forall|i: int, j: int|
            0 <= i < j < self.orders().len() ==> (#[trigger] self.orders()[i]).operation_id@
                != (#[trigger] self.orders()[j]).operation_id@
        &&& forall|i: int, j: int|
            0 <= i < j < self.transfers().len() ==> (#[trigger] self.transfers()[i]).operation_id@
                != (#[trigger] self.transfers()[j]).operation_id@
        &&& forall|i: int, j: int|
            0 <= i < j < self.postings().len() ==> !same_posting(
                #[trigger] self.postings()[i],
                #[trigger] self.postings()[j],
            )
        &&& forall|i: int|
            0 <= i < self.withdrawals().len() ==> (#[trigger] self.withdrawals()[i]).total_debit_raw
                == self.withdrawals()[i].amount_raw + self.withdrawals()[i].fee_raw
        &&& forall|i: int, j: int|
            0 <= i < j < self.withdrawals().len() ==> (#[trigger] self.withdrawals()[i]).operation_id@
                != (#[trigger] self.withdrawals()[j]).operation_id@
        &&& forall|i: int, j: int|
            0 <= i < j < self.sweeps().len() ==> (#[trigger] self.sweeps()[i]).operation_id@
                != (#[trigger] self.sweeps()[j]).operation_id@
        &&& forall|i: int, j: int|
            0 <= i < j < self.deposits().len() ==> !same_deposit(
                #[trigger] self.deposits()[i],
                #[trigger] self.deposits()[j],
            )
    }
}

/// Two postings for the same wallet of the same replenishment.
pub open spec fn same_posting(a: ReplenishmentPosting, b: ReplenishmentPosting) -> bool {
    a.operation_id@ == b.operation_id@ && a.wallet_role@ == b.wallet_role@
}

/// Sum of the available (or locked) positions.
pub open spec fn position_sum(positions: Seq<ClientPosition>, locked: bool) -> int
    decreases positions.len(),
{
    if positions.len() == 0 {
        0
    } else {
        position_sum(positions.drop_last(), locked) + if locked {
            positions.last().locked_raw as int
        } else {
            positions.last().available_raw as int
        }
    }
}

/// Everything the CASP owes: client positions, unallocated inventory and
/// pending fees. Custody must equal this.
pub open spec fn obligations(l: RetailLedger) -> int {
    position_sum(l.positions(), false) + position_sum(l.positions(), true) + l.inventory()
        + l.pending_fee()
}

/// The position of `client`, if the register has one.
pub open spec fn position_index(positions: Seq<ClientPosition>, client: Seq<char>) -> Option<int> {
    if exists|i: int| 0 <= i < positions.len() && (#[trigger] positions[i]).client_id@ == client {
        Some(choose|i: int| 0 <= i < positions.len() && (#[trigger] positions[i]).client_id@ == client)
    } else {
        None
    }
}

/// Position `k` is the first whose wallet has address `wallet`.
pub open spec fn first_holder(positions: Seq<ClientPosition>, wallet: Seq<char>, k: int) -> bool {
    &&& 0 <= k < positions.len()
    &&& positions[k].wallet_address@ == wallet
    &&& forall|j: int| 0 <= j < k ==> (#[trigger] positions[j]).wallet_address@ != wallet
}

/// The first position whose wallet has address `wallet`, if any.
pub open spec fn wallet_owner(positions: Seq<ClientPosition>, wallet: Seq<char>) -> Option<int> {
    if exists|k: int| #[trigger] first_holder(positions, wallet, k) {
        Some(choose|k: int| #[trigger] first_holder(positions, wallet, k))
    } else {
        None
    }
}

/// The order with `id`, if any.
pub open spec fn order_index(orders: Seq<LedgerOrder>, id: Seq<char>) -> Option<int> {
    if exists|i: int| 0 <= i < orders.len() && (#[trigger] orders[i]).operation_id@ == id {
        Some(choose|i: int| 0 <= i < orders.len() && (#[trigger] orders[i]).operation_id@ == id)
    } else {
        None
    }
}

/// The transfer with `id`, if any.
pub open spec fn transfer_index(transfers: Seq<LedgerTransfer>, id: Seq<char>) -> Option<int> {
    if exists|i: int| 0 <= i < transfers.len() && (#[trigger] transfers[i]).operation_id@ == id {
        Some(choose|i: int| 0 <= i < transfers.len() && (#[trigger] transfers[i]).operation_id@ == id)
    } else {
        None
    }
}

/// The posting for `wallet` of replenishment `operation`, if any.
pub open spec fn posting_index(
    postings: Seq<ReplenishmentPosting>,
    operation: Seq<char>,
    wallet: Seq<char>,
) -> Option<int> {
    if exists|i: int|
        0 <= i < postings.len() && (#[trigger] postings[i]).operation_id@ == operation
            && postings[i].wallet_role@ == wallet {
        Some(
            choose|i: int|
                0 <= i < postings.len() && (#[trigger] postings[i]).operation_id@ == operation
                    && postings[i].wallet_role@ == wallet,
        )
    } else {
        None
    }
}

fn find_position(positions: &Vec<ClientPosition>, client: &str) -> (r: Option<usize>)
    requires
        forall|i: int, j: int|
            0 <= i < j < positions@.len() ==> (#[trigger] positions@[i]).client_id@
                != (#[trigger] positions@[j]).client_id@,
    ensures
        match r {
            Some(k) => position_index(positions@, client@) == Some(k as int),
            None => position_index(positions@, client@) is None,
        },
{
    let mut k: usize = 0;
    while k < positions.len()
        invariant
            k <= positions@.len(),
            forall|i: int, j: int|
                0 <= i < j < positions@.len() ==> (#[trigger] positions@[i]).client_id@
                    != (#[trigger] positions@[j]).client_id@,
            forall|j: int| 0 <= j < k ==> (#[trigger] positions@[j]).client_id@ != client@,
        decreases positions.len() - k,
    {
        if str_eq(positions[k].client_id.as_str(), client) {
            assert(positions@[k as int].client_id@ == client@);
            let ghost c = choose|i: int|
                0 <= i < positions@.len() && (#[trigger] positions@[i]).client_id@ == client@;
            assert(c == k) by {
                if c < k {
                } else if c > k {
                    assert(positions@[k as int].client_id@ != positions@[c].client_id@);
                }
            }
            return Some(k);
        }
        k = k + 1;
    }
    None
}

fn find_order(orders: &Vec<LedgerOrder>, id: &str) -> (r: Option<usize>)
    requires
        forall|i: int, j: int|
            0 <= i < j < orders@.len() ==> (#[trigger] orders@[i]).operation_id@
                != (#[trigger] orders@[j]).operation_id@,
    ensures
        match r {
            Some(k) => order_index(orders@, id@) == Some(k as int),
            None => order_index(orders@, id@) is None,
        },
{
    let mut k: usize = 0;
    while k < orders.len()
        invariant
            k <= orders@.len(),
            forall|i: int, j: int|
                0 <= i < j < orders@.len() ==> (#[trigger] orders@[i]).operation_id@
                    != (#[trigger] orders@[j]).operation_id@,
            forall|j: int| 0 <= j < k ==> (#[trigger] orders@[j]).operation_id@ != id@,
        decreases orders.len() - k,
    {
        if str_eq(orders[k].operation_id.as_str(), id) {
            assert(orders@[k as int].operation_id@ == id@);
            let ghost c = choose|i: int|
                0 <= i < orders@.len() && (#[trigger] orders@[i]).operation_id@ == id@;
            assert(c == k) by {
                if c > k {
                    assert(orders@[k as int].operation_id@ != orders@[c].operation_id@);
                }
            }
            return Some(k);
        }
        k = k + 1;
    }
    None
}

fn find_transfer(transfers: &Vec<LedgerTransfer>, id: &str) -> (r: Option<usize>)
    requires
        forall|i: int, j: int|
            0 <= i < j < transfers@.len() ==> (#[trigger] transfers@[i]).operation_id@
                != (#[trigger] transfers@[j]).operation_id@,
    ensures
        match r {
            Some(k) => transfer_index(transfers@, id@) == Some(k as int),
            None => transfer_index(transfers@, id@) is None,
        },
{
    let mut k: usize = 0;
    while k < transfers.len()
        invariant
            k <= transfers@.len(),
            forall|i: int, j: int|
                0 <= i < j < transfers@.len() ==> (#[trigger] transfers@[i]).operation_id@
                    != (#[trigger] transfers@[j]).operation_id@,
            forall|j: int| 0 <= j < k ==> (#[trigger] transfers@[j]).operation_id@ != id@,
        decreases transfers.len() - k,
    {
        if str_eq(transfers[k].operation_id.as_str(), id) {
            assert(transfers@[k as int].operation_id@ == id@);
            let ghost c = choose|i: int|
                0 <= i < transfers@.len() && (#[trigger] transfers@[i]).operation_id@ == id@;
            assert(c == k) by {
                if c > k {
                    assert(transfers@[k as int].operation_id@ != transfers@[c].operation_id@);
                }
            }
            return Some(k);
        }
        k = k + 1;
    }
    None
}

fn find_posting(postings: &Vec<ReplenishmentPosting>, operation: &str, wallet: &str) -> (r: Option<
    usize,
>)
    requires
        forall|i: int, j: int|
            0 <= i < j < postings@.len() ==> !same_posting(
                #[trigger] postings@[i],
                #[trigger] postings@[j],
            ),
    ensures
        match r {
            Some(k) => posting_index(postings@, operation@, wallet@) == Some(k as int),
            None => posting_index(postings@, operation@, wallet@) is None,
        },
{
    let mut k: usize = 0;
    while k < postings.len()
        invariant
            k <= postings@.len(),
            forall|i: int, j: int|
                0 <= i < j < postings@.len() ==> !same_posting(
                    #[trigger] postings@[i],
                    #[trigger] postings@[j],
                ),
            forall|j: int|
                0 <= j < k ==> !((#[trigger] postings@[j]).operation_id@ == operation@
                    && postings@[j].wallet_role@ == wallet@),
        decreases postings.len() - k,
    {
        if str_eq(postings[k].operation_id.as_str(), operation) && str_eq(
            postings[k].wallet_role.as_str(),
            wallet,
        ) {
            let ghost c = choose|i: int|
                0 <= i < postings@.len() && (#[trigger] postings@[i]).operation_id@ == operation@
                    && postings@[i].wallet_role@ == wallet@;
            assert(c == k) by {
                if c > k {
                    assert(!same_posting(postings@[k as int], postings@[c]));
                }
            }
            return Some(k);
        }
        k = k + 1;
    }
    None
}


/// The view of an optional text.
pub open spec fn opt_text(o: Option<String>) -> Option<Seq<char>> {
    match o {
        Some(s) => Some(s@),
        None => None,
    }
}

fn clone_text(o: &Option<String>) -> (r: Option<String>)
    ensures
        r == *o,
{
    match o {
        Some(s) => Some(s.clone()),
        None => None,
    }
}

/// The stored name of an order kind.
pub open spec fn kind_text(k: OrderKind) -> Seq<char> {
    match k {
        OrderKind::Purchase => "purchase"@,
        OrderKind::Sale => "sale"@,
        OrderKind::Redemption => "redemption"@,
    }
}

/// The stored name of an order status.
pub open spec fn status_text(s: OrderStatus) -> Seq<char> {
    match s {
        OrderStatus::Completed => "completed"@,
        OrderStatus::PendingIssuer => "pending_issuer"@,
        OrderStatus::IssuerRetryRequired => "issuer_retry_required"@,
    }
}

fn kind_str(k: OrderKind) -> (r: &'static str)
    ensures
        r@ == kind_text(k),
{
    match k {
        OrderKind::Purchase => "purchase",
        OrderKind::Sale => "sale",
        OrderKind::Redemption => "redemption",
    }
}

fn status_str(s: OrderStatus) -> (r: &'static str)
    ensures
        r@ == status_text(s),
{
    match s {
        OrderStatus::Completed => "completed",
        OrderStatus::PendingIssuer => "pending_issuer",
        OrderStatus::IssuerRetryRequired => "issuer_retry_required",
    }
}

/// `r` shows order `o` as the API hands orders out.
pub open spec fn retail_order_of(r: RetailOrder, o: LedgerOrder) -> bool {
    &&& r.operation_id@ == o.operation_id@
    &&& r.client_id@ == o.client_id@
    &&& r.order_type@ == kind_text(o.kind)
    &&& r.quantity_raw@ == decimal_nat(o.quantity_raw as nat)
    &&& r.fiat_currency@ == "USD"@
    &&& r.fiat_amount_minor@ == decimal_nat(o.fiat_amount_minor as nat)
    &&& r.status@ == status_text(o.status)
    &&& opt_text(r.issuer_operation_id) == opt_text(o.issuer_operation_id)
    &&& opt_text(r.blockchain_transaction_hash) == opt_text(o.blockchain_transaction_hash)
    &&& opt_text(r.last_error) == opt_text(o.last_error)
    &&& r.created_at_unix_ms == o.created_at_unix_ms
    &&& r.updated_at_unix_ms == o.updated_at_unix_ms
}

/// Shows an order as the API hands orders out.
pub fn to_retail_order(o: &LedgerOrder) -> (r: RetailOrder)
    ensures
        retail_order_of(r, *o),
{
    proof {
        reveal_strlit("USD");
    }
    RetailOrder {
        operation_id: o.operation_id.clone(),
        client_id: o.client_id.clone(),
        order_type: String::from_str(kind_str(o.kind)),
        quantity_raw: u64_to_string(o.quantity_raw),
        fiat_currency: String::from_str("USD"),
        fiat_amount_minor: u64_to_string(o.fiat_amount_minor),
        status: String::from_str(status_str(o.status)),
        issuer_operation_id: clone_text(&o.issuer_operation_id),
        blockchain_transaction_hash: clone_text(&o.blockchain_transaction_hash),
        last_error: clone_text(&o.last_error),
        created_at_unix_ms: o.created_at_unix_ms,
        updated_at_unix_ms: o.updated_at_unix_ms,
    }
}

/// `r` shows transfer `t` as the API hands transfers out.
pub open spec fn internal_transfer_of(r: InternalTransfer, t: LedgerTransfer) -> bool {
    &&& r.operation_id@ == t.operation_id@
    &&& r.sender_client_id@ == t.sender_client_id@
    &&& r.recipient_client_id@ == t.recipient_client_id@
    &&& r.gross_raw@ == decimal_nat(t.gross_raw as nat)
    &&& r.fee_raw@ == decimal_nat(t.fee_raw as nat)
    &&& r.net_raw@ == decimal_nat(t.net_raw as nat)
    &&& r.purpose_classification@ == t.purpose_classification@
    &&& r.status@ == "completed"@
    &&& r.created_at_unix_ms == t.created_at_unix_ms
}

/// Shows a transfer as the API hands transfers out.
pub fn to_internal_transfer(t: &LedgerTransfer) -> (r: InternalTransfer)
    ensures
        internal_transfer_of(r, *t),
{
    InternalTransfer {
        operation_id: t.operation_id.clone(),
        sender_client_id: t.sender_client_id.clone(),
        recipient_client_id: t.recipient_client_id.clone(),
        gross_raw: u64_to_string(t.gross_raw),
        fee_raw: u64_to_string(t.fee_raw),
        net_raw: u64_to_string(t.net_raw),
        purpose_classification: t.purpose_classification.clone(),
        status: String::from_str("completed"),
        created_at_unix_ms: t.created_at_unix_ms,
    }
}

/// A journal line with the given fields.
pub open spec fn entry_is(
    e: LedgerEntry,
    id: Seq<char>,
    account_type: Seq<char>,
    account: Seq<char>,
    direction: Seq<char>,
    amount: u64,
    now: u64,
) -> bool {
    &&& e.operation_id@ == id
    &&& e.account_type@ == account_type
    &&& e.account@ == account
    &&& e.direction@ == direction
    &&& e.amount_raw == amount
    &&& e.created_at_unix_ms == now
}

fn entry(id: &str, account_type: &str, account: &str, direction: &str, amount: u64, now: u64) -> (r:
    LedgerEntry)
    ensures
        entry_is(r, id@, account_type@, account@, direction@, amount, now),
{
    LedgerEntry {
        operation_id: id.to_owned(),
        account_type: account_type.to_owned(),
        account: account.to_owned(),
        direction: direction.to_owned(),
        amount_raw: amount,
        created_at_unix_ms: now,
    }
}

/// A position with new balances.
pub open spec fn with_balances(p: ClientPosition, available: u64, locked: u64) -> ClientPosition {
    ClientPosition {
        client_id: p.client_id,
        wallet_address: p.wallet_address,
        available_raw: available,
        locked_raw: locked,
    }
}

/// An order with the given fields.
pub open spec fn order_is(
    o: LedgerOrder,
    id: Seq<char>,
    client: Seq<char>,
    kind: OrderKind,
    quantity: u64,
    cents: u64,
    status: OrderStatus,
    issuer: Option<Seq<char>>,
    now: u64,
) -> bool {
    &&& o.operation_id@ == id
    &&& o.client_id@ == client
    &&& o.kind == kind
    &&& o.quantity_raw == quantity
    &&& o.fiat_amount_minor == cents
    &&& o.status == status
    &&& opt_text(o.issuer_operation_id) == issuer
    &&& o.blockchain_transaction_hash is None
    &&& o.last_error is None
    &&& o.created_at_unix_ms == now
    &&& o.updated_at_unix_ms == now
}

/// The stored order `o` is the same request as (`kind`, `client`, `raw`, `cents`).
pub open spec fn same_request(o: LedgerOrder, kind: OrderKind, client: Seq<char>, raw: u64, cents: u64) -> bool {
    o.kind == kind && o.client_id@ == client && o.quantity_raw == raw && o.fiat_amount_minor == cents
}

/// The answer to a request whose ID is already taken: the stored order when
/// it is the same request, a conflict otherwise.
pub open spec fn repeated_answer(
    o: LedgerOrder,
    kind: OrderKind,
    client: Seq<char>,
    raw: u64,
    cents: u64,
    r: Result<RetailOrder, RetailError>,
) -> bool {
    if same_request(o, kind, client, raw, cents) {
        r matches Ok(ro) && retail_order_of(ro, o)
    } else {
        r matches Err(RetailError::IdempotencyConflict)
    }
}

fn answer_repeated(o: &LedgerOrder, kind: OrderKind, client: &str, raw: u64, cents: u64) -> (r: Result<
    RetailOrder,
    RetailError,
>)
    ensures
        repeated_answer(*o, kind, client@, raw, cents, r),
{
    if o.kind == kind && str_eq(o.client_id.as_str(), client) && o.quantity_raw == raw
        && o.fiat_amount_minor == cents {
        Ok(to_retail_order(o))
    } else {
        Err(RetailError::IdempotencyConflict)
    }
}

/// Changing one position changes the sum by the difference of its balance.
pub proof fn lemma_position_sum_update(ps: Seq<ClientPosition>, k: int, p: ClientPosition, locked: bool)
    requires
        0 <= k < ps.len(),
    ensures
        position_sum(ps.update(k, p), locked) == position_sum(ps, locked) - (if locked {
            ps[k].locked_raw as int
        } else {
            ps[k].available_raw as int
        }) + (if locked {
            p.locked_raw as int
        } else {
            p.available_raw as int
        }),
    decreases ps.len(),
{
    if k < ps.len() - 1 {
        lemma_position_sum_update(ps.drop_last(), k, p, locked);
        assert(ps.update(k, p).drop_last() =~= ps.drop_last().update(k, p));
    } else {
        assert(ps.update(k, p).drop_last() =~= ps.drop_last());
    }
}


fn demo_position(client: &str, wallet: String) -> (r: ClientPosition)
    ensures
        r.client_id@ == client@,
        r.wallet_address == wallet,
        r.available_raw == 0,
        r.locked_raw == 0,
{
    ClientPosition { client_id: client.to_owned(), wallet_address: wallet, available_raw: 0, locked_raw: 0 }
}

/// The price of one rUSD in USD cents before an administrator changes it.
pub const INITIAL_USD_MINOR_PER_RUSD: u64 = 100;

/// The shape of a purchase: `None` when the request can never be filled,
/// else the raw units that `cents` buy at `rate`.
pub open spec fn purchase_quantity(cents: u64, rate: u64) -> Option<u64> {
    if cents * RAW_PER_TOKEN > u64::MAX || rate == 0 {
        None
    } else {
        Some(((cents * RAW_PER_TOKEN) / (rate as int)) as u64)
    }
}

impl RetailLedger {
    /// A new register with empty positions for the three demonstration
    /// clients (in this order: alice, bob, carol), no inventory yet and the
    /// initial price of 100 cents per rUSD.
    pub fn new(alice_wallet: String, bob_wallet: String, carol_wallet: String) -> (r: RetailLedger)
        ensures
            r.wf(),
            r.positions().len() == 3,
            r.positions()[0].client_id@ == "alice"@,
            r.positions()[1].client_id@ == "bob"@,
            r.positions()[2].client_id@ == "carol"@,
            r.positions()[0].wallet_address == alice_wallet,
            r.positions()[1].wallet_address == bob_wallet,
            r.positions()[2].wallet_address == carol_wallet,
            forall|i: int| 0 <= i < 3 ==> (#[trigger] r.positions()[i]).available_raw == 0
                && r.positions()[i].locked_raw == 0,
            r.inventory() == 0,
            !r.activated(),
            r.pending_fee() == 0,
            r.rate() == INITIAL_USD_MINOR_PER_RUSD,
            r.rate_updated_at() == 0,
            r.orders().len() == 0,
            r.transfers().len() == 0,
            r.postings().len() == 0,
            r.entries().len() == 0,
            r.withdrawals().len() == 0,
            r.sweeps().len() == 0,
            r.deposits().len() == 0,
            r.checkpoint() == 0,
            r.record_rows().len() == 0,
            r.amendment_rows().len() == 0,
    {
        proof {
            reveal_strlit("alice");
            reveal_strlit("bob");
            reveal_strlit("carol");
        }
        let mut positions: Vec<ClientPosition> = Vec::new();
        positions.push(demo_position("alice", alice_wallet));
        positions.push(demo_position("bob", bob_wallet));
        positions.push(demo_position("carol", carol_wallet));
        assert("alice"@ != "bob"@ && "alice"@ != "carol"@ && "bob"@ != "carol"@) by {
            assert("alice"@.len() == 5 && "bob"@.len() == 3 && "carol"@.len() == 5);
            assert("alice"@[0] != "carol"@[0]);
        }
        RetailLedger {
            positions,
            inventory_raw: 0,
            inventory_activated: false,
            pending_fee_raw: 0,
            usd_minor_per_rusd: INITIAL_USD_MINOR_PER_RUSD,
            rate_updated_at_unix_ms: 0,
            orders: Vec::new(),
            transfers: Vec::new(),
            postings: Vec::new(),
            entries: Vec::new(),
            withdrawals: Vec::new(),
            sweeps: Vec::new(),
            deposits: Vec::new(),
            deposit_checkpoint: 0,
            records: Vec::new(),
            amendments: Vec::new(),
        }
    }

    /// The position of `client` with the unallocated inventory; an unknown
    /// client is a storage fault (the store finds no row).
    pub fn account(&self, client: &str) -> (r: Result<ClientAccount, RetailError>)
        requires
            self.wf(),
        ensures
            match position_index(self.positions(), client@) {
                None => r matches Err(RetailError::Storage(_)),
                Some(k) => r matches Ok(a) && account_of(a, self.positions()[k], self.inventory()),
            },
    {
        match find_position(&self.positions, client) {
            Some(k) => Ok(account_view(&self.positions[k], self.inventory_raw)),
            None => Err(RetailError::Storage(String::from_str("Query returned no rows"))),
        }
    }

    /// Every client's position, in register order, each with the inventory.
    pub fn accounts(&self) -> (r: Vec<ClientAccount>)
        requires
            self.wf(),
        ensures
            r@.len() == self.positions().len(),
            forall|k: int|
                0 <= k < r@.len() ==> account_of(#[trigger] r@[k], self.positions()[k], self.inventory()),
    {
        let mut out: Vec<ClientAccount> = Vec::new();
        let mut k: usize = 0;
        while k < self.positions.len()
            invariant
                k <= self.positions@.len(),
                out@.len() == k,
                forall|j: int|
                    0 <= j < k ==> account_of(#[trigger] out@[j], self.positions@[j], self.inventory_raw),
            decreases self.positions.len() - k,
        {
            out.push(account_view(&self.positions[k], self.inventory_raw));
            k = k + 1;
        }
        out
    }

    /// The first client whose wallet has this address, if any.
    pub fn client_id_by_wallet(&self, wallet_address: &str) -> (r: Option<String>)
        requires
            self.wf(),
        ensures
            match wallet_owner(self.positions(), wallet_address@) {
                Some(k) => r matches Some(c) && c@ == self.positions()[k].client_id@,
                None => r is None,
            },
    {
        proof {
            self.lemma_views();
        }
        let mut k: usize = 0;
        while k < self.positions.len()
            invariant
                k <= self.positions@.len(),
                forall|j: int|
                    0 <= j < k ==> (#[trigger] self.positions@[j]).wallet_address@ != wallet_address@,
            decreases self.positions.len() - k,
        {
            if str_eq(self.positions[k].wallet_address.as_str(), wallet_address) {
                proof {
                    let ps = self.positions@;
                    assert(first_holder(ps, wallet_address@, k as int));
                    let c = choose|i: int| #[trigger] first_holder(ps, wallet_address@, i);
                    if c < k {
                        assert(ps[c].wallet_address@ != wallet_address@);
                    } else if c > k {
                        assert(ps[k as int].wallet_address@ == wallet_address@);
                    }
                }
                return Some(self.positions[k].client_id.clone());
            }
            k = k + 1;
        }
        None
    }

    /// The register holds a position for `client`.
    pub fn has_client(&self, client: &str) -> (r: bool)
        requires
            self.wf(),
        ensures
            r == (position_index(self.positions(), client@) is Some),
    {
        find_position(&self.positions, client).is_some()
    }

    /// The transfer fees not yet swept.
    pub fn fee_position(&self) -> (r: FeePosition)
        ensures
            r.pending_raw@ == decimal_nat(self.pending_fee() as nat),
    {
        FeePosition { pending_raw: u64_to_string(self.pending_fee_raw) }
    }

    /// The configured price of one rUSD.
    pub fn exchange_rate(&self) -> (r: ExchangeRate)
        ensures
            r.usd_minor_per_rusd == self.rate(),
            r.updated_at_unix_ms == self.rate_updated_at(),
            r.methodology@ == "casp-admin-configured-rate-v1"@,
    {
        ExchangeRate {
            usd_minor_per_rusd: self.usd_minor_per_rusd,
            updated_at_unix_ms: self.rate_updated_at_unix_ms,
            methodology: String::from_str("casp-admin-configured-rate-v1"),
        }
    }

    /// Sets the price of one rUSD; a price the store cannot hold is refused.
    pub fn set_exchange_rate(&mut self, usd_minor_per_rusd: u64, now: u64) -> (r: Result<ExchangeRate, RetailError>)
        requires
            old(self).wf(),
            usd_minor_per_rusd > 0,
        ensures
            final(self).wf(),
            usd_minor_per_rusd > MAX_STORED ==> (invalid_as(r, range_refusal()) && *final(
                self) == *old(self)),
            usd_minor_per_rusd <= MAX_STORED ==> {
                &&& final(self).rate() == usd_minor_per_rusd
                &&& final(self).rate_updated_at() == now
                &&& final(self).positions() == old(self).positions()
                &&& final(self).inventory() == old(self).inventory()
                &&& final(self).activated() == old(self).activated()
                &&& final(self).pending_fee() == old(self).pending_fee()
                &&& final(self).orders() == old(self).orders()
                &&& final(self).transfers() == old(self).transfers()
                &&& final(self).postings() == old(self).postings()
                &&& final(self).entries() == old(self).entries()
                &&& same_chain_books(*old(self), *final(self))
                &&& same_records(*old(self), *final(self))
                &&& r matches Ok(rate) && rate.usd_minor_per_rusd == usd_minor_per_rusd
                    && rate.updated_at_unix_ms == now
            },
    {
        if usd_minor_per_rusd > MAX_STORED {
            return Err(RetailError::Invalid(String::from_str("amount exceeds demo database range")));
        }
        self.usd_minor_per_rusd = usd_minor_per_rusd;
        self.rate_updated_at_unix_ms = now;
        proof {
            self.lemma_views();
        }
        assert(self.positions() == old(self).positions());
        assert(self.orders() == old(self).orders());
        assert(self.transfers() == old(self).transfers());
        assert(self.postings() == old(self).postings());
        assert(self.withdrawals() == old(self).withdrawals());
        assert(self.sweeps() == old(self).sweeps());
        assert(self.deposits() == old(self).deposits());
        assert(self.record_rows() == old(self).record_rows());
        assert(self.amendment_rows() == old(self).amendment_rows());
        assert(self.wf());
        Ok(self.exchange_rate())
    }
}

/// `a` shows position `p` with inventory `inventory`.
pub open spec fn account_of(a: ClientAccount, p: ClientPosition, inventory: u64) -> bool {
    &&& a.client_id@ == p.client_id@
    &&& a.wallet_address@ == p.wallet_address@
    &&& a.available_raw@ == decimal_nat(p.available_raw as nat)
    &&& a.locked_raw@ == decimal_nat(p.locked_raw as nat)
    &&& a.inventory_available_raw@ == decimal_nat(inventory as nat)
}

fn account_view(p: &ClientPosition, inventory: u64) -> (r: ClientAccount)
    ensures
        account_of(r, *p, inventory),
{
    ClientAccount {
        client_id: p.client_id.clone(),
        wallet_address: p.wallet_address.clone(),
        available_raw: u64_to_string(p.available_raw),
        locked_raw: u64_to_string(p.locked_raw),
        inventory_available_raw: u64_to_string(inventory),
    }
}


/// The positions after crediting `amount` to the available balance of
/// `client` (unchanged when the register has no such client).
pub open spec fn credit_available(ps: Seq<ClientPosition>, client: Seq<char>, amount: int) -> Seq<
    ClientPosition,
> {
    match position_index(ps, client) {
        Some(k) => ps.update(
            k,
            with_balances(ps[k], (ps[k].available_raw + amount) as u64, ps[k].locked_raw),
        ),
        None => ps,
    }
}

/// Crediting `client` would take its available balance past what the store holds.
pub open spec fn credit_overflows(ps: Seq<ClientPosition>, client: Seq<char>, amount: int) -> bool {
    match position_index(ps, client) {
        Some(k) => ps[k].available_raw + amount > MAX_STORED,
        None => false,
    }
}

/// The books that an operation on balances and orders leaves alone.
pub open spec fn same_other_books(a: RetailLedger, b: RetailLedger) -> bool {
    &&& a.activated() == b.activated()
    &&& a.rate() == b.rate()
    &&& a.rate_updated_at() == b.rate_updated_at()
    &&& a.postings() == b.postings()
    &&& same_chain_books(a, b)
}

/// The records and their amendments are the same in `a` and `b`.
pub open spec fn same_records(a: RetailLedger, b: RetailLedger) -> bool {
    &&& a.record_rows() == b.record_rows()
    &&& a.amendment_rows() == b.amendment_rows()
}

/// Everything but the amendments is the same in `a` and `b`.
pub open spec fn same_but_amendments(a: RetailLedger, b: RetailLedger) -> bool {
    &&& a.positions() == b.positions()
    &&& a.inventory() == b.inventory()
    &&& a.pending_fee() == b.pending_fee()
    &&& a.orders() == b.orders()
    &&& a.transfers() == b.transfers()
    &&& a.entries() == b.entries()
    &&& same_other_books(a, b)
    &&& a.record_rows() == b.record_rows()
}

/// The record appended by an operation: one more record, the earlier ones
/// kept, and the amendments untouched.
pub open spec fn one_record_added(old: RetailLedger, new: RetailLedger) -> bool {
    &&& new.record_rows().len() == old.record_rows().len() + 1
    &&& new.record_rows().drop_last() == old.record_rows()
    &&& new.amendment_rows() == old.amendment_rows()
}

/// The books of external withdrawals, fee sweeps and deposits are the same
/// in `a` and `b`.
pub open spec fn same_chain_books(a: RetailLedger, b: RetailLedger) -> bool {
    &&& a.withdrawals() == b.withdrawals()
    &&& a.sweeps() == b.sweeps()
    &&& a.deposits() == b.deposits()
    &&& a.checkpoint() == b.checkpoint()
}

/// Why an amount that the store cannot hold is refused.
pub open spec fn range_refusal() -> Seq<char> {
    "amount exceeds demo database range"@
}

/// `r` refuses the request as invalid with the text `text`.
pub open spec fn invalid_as<T>(r: Result<T, RetailError>, text: Seq<char>) -> bool {
    r matches Err(RetailError::Invalid(t)) && t@ == text
}

/// What a purchase of `cents` by `client` under `id` does at time `now`.
pub open spec fn purchase_post(
    old: RetailLedger,
    id: Seq<char>,
    client: Seq<char>,
    cents: u64,
    contract: Seq<char>,
    chain: u64,
    now: u64,
    new: RetailLedger,
    r: Result<RetailOrder, RetailError>,
) -> bool {
    match purchase_quantity(cents, old.rate()) {
        None => invalid_as(r, "amount is too large"@) && new == old,
        Some(raw) => if raw == 0 {
            invalid_as(r, "amount is below the configured exchange-rate precision"@) && new == old
        } else {
            match order_index(old.orders(), id) {
                Some(k) => repeated_answer(old.orders()[k], OrderKind::Purchase, client, raw, cents, r)
                    && new == old,
                None => if raw > MAX_STORED {
                    invalid_as(r, range_refusal()) && new == old
                } else if old.inventory() < raw {
                    r matches Err(RetailError::InsufficientInventory) && new == old
                } else if credit_overflows(old.positions(), client, raw as int) {
                    r matches Err(RetailError::Storage(_)) && new == old
                } else if cents > MAX_STORED || chain > MAX_STORED {
                    invalid_as(r, range_refusal()) && new == old
                } else {
                    &&& one_record_added(old, new)
                    &&& retail_record_is(
                        new.record_rows().last(),
                        old.record_rows().len(),
                        id,
                        client,
                        "purchase"@,
                        raw,
                        cents,
                        "completed"@,
                        Some("casp-inventory"@),
                        Some(client),
                        None,
                        contract,
                        chain,
                        old.rate(),
                        now,
                    )
                    &&& new.inventory() == old.inventory() - raw
                    &&& new.positions() == credit_available(old.positions(), client, raw as int)
                    &&& new.pending_fee() == old.pending_fee()
                    &&& new.transfers() == old.transfers()
                    &&& same_other_books(old, new)
                    &&& new.orders().len() == old.orders().len() + 1
                    &&& new.orders().drop_last() == old.orders()
                    &&& order_is(
                        new.orders().last(),
                        id,
                        client,
                        OrderKind::Purchase,
                        raw,
                        cents,
                        OrderStatus::Completed,
                        None,
                        now,
                    )
                    &&& new.entries().len() == old.entries().len() + 2
                    &&& new.entries().take(old.entries().len() as int) == old.entries()
                    &&& entry_is(
                        new.entries()[old.entries().len() as int],
                        id,
                        "inventory"@,
                        "casp-inventory"@,
                        "debit"@,
                        raw,
                        now,
                    )
                    &&& entry_is(
                        new.entries()[old.entries().len() as int + 1],
                        id,
                        "client"@,
                        client,
                        "credit"@,
                        raw,
                        now,
                    )
                    &&& r matches Ok(ro) && retail_order_of(ro, new.orders().last())
                }
            }
        },
    }
}

impl RetailLedger {
    fn credit(&mut self, k: usize, amount: u64)
        requires
            k < old(self).positions@.len(),
            old(self).positions@[k as int].available_raw + amount <= u64::MAX,
        ensures
            final(self).positions@ == old(self).positions@.update(
                k as int,
                with_balances(
                    old(self).positions@[k as int],
                    (old(self).positions@[k as int].available_raw + amount) as u64,
                    old(self).positions@[k as int].locked_raw,
                ),
            ),
            final(self).inventory_raw == old(self).inventory_raw,
            final(self).inventory_activated == old(self).inventory_activated,
            final(self).pending_fee_raw == old(self).pending_fee_raw,
            final(self).usd_minor_per_rusd == old(self).usd_minor_per_rusd,
            final(self).rate_updated_at_unix_ms == old(self).rate_updated_at_unix_ms,
            final(self).orders == old(self).orders,
            final(self).transfers == old(self).transfers,
            final(self).postings == old(self).postings,
            final(self).entries == old(self).entries,
            final(self).withdrawals == old(self).withdrawals,
            final(self).sweeps == old(self).sweeps,
            final(self).deposits == old(self).deposits,
            final(self).deposit_checkpoint == old(self).deposit_checkpoint,
            final(self).records == old(self).records,
            final(self).amendments == old(self).amendments,
    {
        let p = &self.positions[k];
        let np = ClientPosition {
            client_id: p.client_id.clone(),
            wallet_address: p.wallet_address.clone(),
            available_raw: p.available_raw + amount,
            locked_raw: p.locked_raw,
        };
        self.positions.set(k, np);
    }

    fn set_balances(&mut self, k: usize, available: u64, locked: u64)
        requires
            k < old(self).positions@.len(),
        ensures
            final(self).positions@ == old(self).positions@.update(
                k as int,
                with_balances(old(self).positions@[k as int], available, locked),
            ),
            final(self).inventory_raw == old(self).inventory_raw,
            final(self).inventory_activated == old(self).inventory_activated,
            final(self).pending_fee_raw == old(self).pending_fee_raw,
            final(self).usd_minor_per_rusd == old(self).usd_minor_per_rusd,
            final(self).rate_updated_at_unix_ms == old(self).rate_updated_at_unix_ms,
            final(self).orders == old(self).orders,
            final(self).transfers == old(self).transfers,
            final(self).postings == old(self).postings,
            final(self).entries == old(self).entries,
            final(self).withdrawals == old(self).withdrawals,
            final(self).sweeps == old(self).sweeps,
            final(self).deposits == old(self).deposits,
            final(self).deposit_checkpoint == old(self).deposit_checkpoint,
            final(self).records == old(self).records,
            final(self).amendments == old(self).amendments,
    {
        let p = &self.positions[k];
        let np = ClientPosition {
            client_id: p.client_id.clone(),
            wallet_address: p.wallet_address.clone(),
            available_raw: available,
            locked_raw: locked,
        };
        self.positions.set(k, np);
    }

    /// A client buys rUSD for `cents` at the configured rate, from the
    /// unallocated inventory. A repeated request with the same ID is answered
    /// with the stored order when it is the same request, and refused
    /// otherwise; a refused request changes nothing.
    pub fn purchase(&mut self, id: &str, client: &str, cents: u64, contract: &str, chain: u64, now: u64) -> (r: Result<
        RetailOrder,
        RetailError,
    >)
        requires
            old(self).wf(),
        ensures
            final(self).wf(),
            purchase_post(*old(self), id@, client@, cents, contract@, chain, now, *final(self), r),
    {
        proof {
            self.lemma_views();
        }
        let rate = self.usd_minor_per_rusd;
        let scaled = match cents.checked_mul(RAW_PER_TOKEN) {
            Some(v) => v,
            None => return Err(RetailError::Invalid(String::from_str("amount is too large"))),
        };
        let raw = scaled / rate;
        if raw == 0 {
            return Err(
                RetailError::Invalid(
                    String::from_str("amount is below the configured exchange-rate precision"),
                ),
            );
        }
        match find_order(&self.orders, id) {
            Some(k) => return answer_repeated(&self.orders[k], OrderKind::Purchase, client, raw, cents),
            None => {},
        }
        if raw > MAX_STORED {
            return Err(RetailError::Invalid(String::from_str("amount exceeds demo database range")));
        }
        if self.inventory_raw < raw {
            return Err(RetailError::InsufficientInventory);
        }
        let position = find_position(&self.positions, client);
        match position {
            Some(k) => {
                if self.positions[k].available_raw > MAX_STORED - raw {
                    return Err(RetailError::Storage(String::from_str("integer overflow")));
                }
            },
            None => {},
        }
        if cents > MAX_STORED || chain > MAX_STORED {
            return Err(RetailError::Invalid(String::from_str("amount exceeds demo database range")));
        }
        let ghost before = *self;
        self.inventory_raw = self.inventory_raw - raw;
        match position {
            Some(k) => self.credit(k, raw),
            None => {},
        }
        let order = LedgerOrder {
            operation_id: id.to_owned(),
            client_id: client.to_owned(),
            kind: OrderKind::Purchase,
            quantity_raw: raw,
            fiat_amount_minor: cents,
            status: OrderStatus::Completed,
            issuer_operation_id: None,
            blockchain_transaction_hash: None,
            last_error: None,
            created_at_unix_ms: now,
            updated_at_unix_ms: now,
        };
        let view = to_retail_order(&order);
        self.orders.push(order);
        self.entries.push(entry(id, "inventory", "casp-inventory", "debit", raw, now));
        self.entries.push(entry(id, "client", client, "credit", raw, now));
        let record = retail_record(
            self.records.len(),
            id,
            client,
            "purchase",
            raw,
            cents,
            "completed",
            Some("casp-inventory"),
            Some(client),
            None,
            contract,
            chain,
            rate,
            now,
        );
        self.records.push(record);
        proof {
            assert(self.records@.drop_last() =~= before.records@);
            self.lemma_views();
            assert(self.orders().drop_last() =~= before.orders());
            assert(self.entries().take(before.entries().len() as int) =~= before.entries());
            assert(self.positions() =~= credit_available(before.positions(), client@, raw as int));
            lemma_wf_after_push_order(before, *self);
        }
        Ok(view)
    }
}

/// Balances stay storable and identities unique when one order with a fresh
/// ID is added and positions change only in their balances.
proof fn lemma_wf_after_push_order(before: RetailLedger, after: RetailLedger)
    requires
        before.wf(),
        after.rate() == before.rate(),
        after.inventory() <= MAX_STORED,
        after.pending_fee() <= MAX_STORED,
        after.positions().len() == before.positions().len(),
        forall|i: int|
            0 <= i < after.positions().len() ==> (#[trigger] after.positions()[i]).client_id@
                == before.positions()[i].client_id@ && after.positions()[i].available_raw
                <= MAX_STORED && after.positions()[i].locked_raw <= MAX_STORED,
        after.orders().len() == before.orders().len() + 1,
        after.orders().drop_last() == before.orders(),
        order_index(before.orders(), after.orders().last().operation_id@) is None,
        after.transfers() == before.transfers(),
        after.postings() == before.postings(),
        same_chain_books(before, after),
    ensures
        after.wf(),
{
    assert forall|i: int, j: int|
        0 <= i < j < after.orders().len() implies (#[trigger] after.orders()[i]).operation_id@
        != (#[trigger] after.orders()[j]).operation_id@ by {
        if j == after.orders().len() - 1 {
            assert(after.orders()[i] == before.orders()[i]);
            if after.orders()[i].operation_id@ == after.orders()[j].operation_id@ {
                assert(exists|x: int|
                    0 <= x < before.orders().len() && (#[trigger] before.orders()[x]).operation_id@
                        == after.orders().last().operation_id@);
            }
        } else {
            assert(after.orders()[i] == before.orders()[i]);
            assert(after.orders()[j] == before.orders()[j]);
        }
    }
    assert forall|i: int, j: int|
        0 <= i < j < after.positions().len() implies (#[trigger] after.positions()[i]).client_id@
        != (#[trigger] after.positions()[j]).client_id@ by {
        assert(before.positions()[i].client_id@ != before.positions()[j].client_id@);
    }
}


/// The positions after taking `amount` from the available balance at `k`.
pub open spec fn debit_available(ps: Seq<ClientPosition>, k: int, amount: int) -> Seq<ClientPosition> {
    ps.update(k, with_balances(ps[k], (ps[k].available_raw - amount) as u64, ps[k].locked_raw))
}

/// `client` has a position with at least `amount` available.
pub open spec fn can_debit(ps: Seq<ClientPosition>, client: Seq<char>, amount: u64) -> bool {
    match position_index(ps, client) {
        Some(k) => ps[k].available_raw >= amount,
        None => false,
    }
}

/// The USD cents that a sale of `raw` units fetches at `rate`, if computable.
pub open spec fn sale_cents(raw: u64, rate: u64) -> Option<u64> {
    if raw * rate > u64::MAX {
        None
    } else {
        Some(((raw * rate) / (RAW_PER_TOKEN as int)) as u64)
    }
}

/// What a sale of `raw` units by `client` under `id` does at time `now`.
pub open spec fn sale_post(
    old: RetailLedger,
    id: Seq<char>,
    client: Seq<char>,
    raw: u64,
    contract: Seq<char>,
    chain: u64,
    now: u64,
    new: RetailLedger,
    r: Result<RetailOrder, RetailError>,
) -> bool {
    match sale_cents(raw, old.rate()) {
        None => invalid_as(r, "amount is too large"@) && new == old,
        Some(cents) => match order_index(old.orders(), id) {
            Some(k) => repeated_answer(old.orders()[k], OrderKind::Sale, client, raw, cents, r) && new
                == old,
            None => if raw > MAX_STORED {
                invalid_as(r, range_refusal()) && new == old
            } else if !can_debit(old.positions(), client, raw) {
                r matches Err(RetailError::InsufficientBalance) && new == old
            } else if old.inventory() + raw > MAX_STORED {
                r matches Err(RetailError::Storage(_)) && new == old
            } else if cents > MAX_STORED {
                invalid_as(r, range_refusal()) && new == old
            } else if cents == 0 {
                r matches Err(RetailError::Storage(_)) && new == old
            } else if chain > MAX_STORED {
                invalid_as(r, range_refusal()) && new == old
            } else {
                let k = position_index(old.positions(), client)->Some_0;
                &&& one_record_added(old, new)
                &&& retail_record_is(
                    new.record_rows().last(),
                    old.record_rows().len(),
                    id,
                    client,
                    "sale"@,
                    raw,
                    cents,
                    "completed"@,
                    Some(client),
                    Some("casp-inventory"@),
                    None,
                    contract,
                    chain,
                    old.rate(),
                    now,
                )
                &&& new.inventory() == old.inventory() + raw
                &&& new.positions() == debit_available(old.positions(), k, raw as int)
                &&& new.pending_fee() == old.pending_fee()
                &&& new.transfers() == old.transfers()
                &&& same_other_books(old, new)
                &&& new.orders().len() == old.orders().len() + 1
                &&& new.orders().drop_last() == old.orders()
                &&& order_is(
                    new.orders().last(),
                    id,
                    client,
                    OrderKind::Sale,
                    raw,
                    cents,
                    OrderStatus::Completed,
                    None,
                    now,
                )
                &&& new.entries().len() == old.entries().len() + 2
                &&& new.entries().take(old.entries().len() as int) == old.entries()
                &&& entry_is(
                    new.entries()[old.entries().len() as int],
                    id,
                    "client"@,
                    client,
                    "debit"@,
                    raw,
                    now,
                )
                &&& entry_is(
                    new.entries()[old.entries().len() as int + 1],
                    id,
                    "inventory"@,
                    "casp-inventory"@,
                    "credit"@,
                    raw,
                    now,
                )
                &&& r matches Ok(ro) && retail_order_of(ro, new.orders().last())
            },
        },
    }
}

/// The issuer operation ID under which a redemption is requested.
pub open spec fn issuer_id(id: Seq<char>) -> Seq<char> {
    "issuer-"@ + id
}

/// What the start of a redemption of `raw` units by `client` under `id` does:
/// the amount moves from available to locked until the issuer settles.
pub open spec fn begin_redemption_post(
    old: RetailLedger,
    id: Seq<char>,
    client: Seq<char>,
    raw: u64,
    contract: Seq<char>,
    chain: u64,
    hot: Seq<char>,
    now: u64,
    new: RetailLedger,
    r: Result<RetailOrder, RetailError>,
) -> bool {
    let cents = (raw / 10_000) as u64;
    match order_index(old.orders(), id) {
        Some(k) => repeated_answer(old.orders()[k], OrderKind::Redemption, client, raw, cents, r)
            && new == old,
        None => if raw > MAX_STORED {
            invalid_as(r, range_refusal()) && new == old
        } else if !can_debit(old.positions(), client, raw) {
            r matches Err(RetailError::InsufficientBalance) && new == old
        } else if old.positions()[position_index(old.positions(), client)->Some_0].locked_raw + raw
            > MAX_STORED {
            r matches Err(RetailError::Storage(_)) && new == old
        } else if cents == 0 {
            r matches Err(RetailError::Storage(_)) && new == old
        } else if chain > MAX_STORED {
            invalid_as(r, range_refusal()) && new == old
        } else {
            let k = position_index(old.positions(), client)->Some_0;
            let p = old.positions()[k];
            &&& one_record_added(old, new)
            &&& retail_record_is(
                new.record_rows().last(),
                old.record_rows().len(),
                id,
                client,
                "redemption"@,
                raw,
                cents,
                "pending_issuer"@,
                Some(client),
                Some(hot),
                None,
                contract,
                chain,
                old.rate(),
                now,
            )
            &&& new.inventory() == old.inventory()
            &&& new.positions() == old.positions().update(
                k,
                with_balances(p, (p.available_raw - raw) as u64, (p.locked_raw + raw) as u64),
            )
            &&& new.pending_fee() == old.pending_fee()
            &&& new.transfers() == old.transfers()
            &&& same_other_books(old, new)
            &&& new.orders().len() == old.orders().len() + 1
            &&& new.orders().drop_last() == old.orders()
            &&& order_is(
                new.orders().last(),
                id,
                client,
                OrderKind::Redemption,
                raw,
                cents,
                OrderStatus::PendingIssuer,
                Some(issuer_id(id)),
                now,
            )
            &&& new.entries().len() == old.entries().len() + 2
            &&& new.entries().take(old.entries().len() as int) == old.entries()
            &&& entry_is(
                new.entries()[old.entries().len() as int],
                id,
                "client"@,
                client,
                "debit"@,
                raw,
                now,
            )
            &&& entry_is(
                new.entries()[old.entries().len() as int + 1],
                id,
                "client_locked"@,
                client,
                "lock"@,
                raw,
                now,
            )
            &&& r matches Ok(ro) && retail_order_of(ro, new.orders().last())
        },
    }
}

impl RetailLedger {
    /// A client sells rUSD back into the unallocated inventory for cents at
    /// the configured rate. Repeats and refusals behave as for purchases.
    pub fn sale(&mut self, id: &str, client: &str, raw: u64, contract: &str, chain: u64, now: u64) -> (r: Result<
        RetailOrder,
        RetailError,
    >)
        requires
            old(self).wf(),
        ensures
            final(self).wf(),
            sale_post(*old(self), id@, client@, raw, contract@, chain, now, *final(self), r),
    {
        proof {
            self.lemma_views();
        }
        let rate = self.usd_minor_per_rusd;
        let cents = match raw.checked_mul(rate) {
            Some(v) => v / RAW_PER_TOKEN,
            None => return Err(RetailError::Invalid(String::from_str("amount is too large"))),
        };
        match find_order(&self.orders, id) {
            Some(k) => return answer_repeated(&self.orders[k], OrderKind::Sale, client, raw, cents),
            None => {},
        }
        if raw > MAX_STORED {
            return Err(RetailError::Invalid(String::from_str("amount exceeds demo database range")));
        }
        let k = match find_position(&self.positions, client) {
            Some(k) => k,
            None => return Err(RetailError::InsufficientBalance),
        };
        if self.positions[k].available_raw < raw {
            return Err(RetailError::InsufficientBalance);
        }
        if self.inventory_raw > MAX_STORED - raw {
            return Err(RetailError::Storage(String::from_str("integer overflow")));
        }
        if cents > MAX_STORED {
            return Err(RetailError::Invalid(String::from_str("amount exceeds demo database range")));
        }
        if cents == 0 {
            return Err(RetailError::Storage(String::from_str("CHECK constraint failed")));
        }
        if chain > MAX_STORED {
            return Err(RetailError::Invalid(String::from_str("amount exceeds demo database range")));
        }
        let ghost before = *self;
        let available = self.positions[k].available_raw - raw;
        let locked = self.positions[k].locked_raw;
        self.set_balances(k, available, locked);
        self.inventory_raw = self.inventory_raw + raw;
        let order = LedgerOrder {
            operation_id: id.to_owned(),
            client_id: client.to_owned(),
            kind: OrderKind::Sale,
            quantity_raw: raw,
            fiat_amount_minor: cents,
            status: OrderStatus::Completed,
            issuer_operation_id: None,
            blockchain_transaction_hash: None,
            last_error: None,
            created_at_unix_ms: now,
            updated_at_unix_ms: now,
        };
        let view = to_retail_order(&order);
        self.orders.push(order);
        self.entries.push(entry(id, "client", client, "debit", raw, now));
        self.entries.push(entry(id, "inventory", "casp-inventory", "credit", raw, now));
        let record = retail_record(
            self.records.len(),
            id,
            client,
            "sale",
            raw,
            cents,
            "completed",
            Some(client),
            Some("casp-inventory"),
            None,
            contract,
            chain,
            rate,
            now,
        );
        self.records.push(record);
        proof {
            assert(self.records@.drop_last() =~= before.records@);
            self.lemma_views();
            assert(self.orders().drop_last() =~= before.orders());
            assert(self.entries().take(before.entries().len() as int) =~= before.entries());
            assert(self.positions() =~= debit_available(before.positions(), k as int, raw as int));
            lemma_wf_after_push_order(before, *self);
        }
        Ok(view)
    }

    /// Starts a redemption: the amount moves from the client's available to
    /// its locked position while the issuer redeems the tokens.
    pub fn begin_redemption(
        &mut self,
        id: &str,
        client: &str,
        raw: u64,
        contract: &str,
        chain: u64,
        hot: &str,
        now: u64,
    ) -> (r: Result<RetailOrder, RetailError>)
        requires
            old(self).wf(),
        ensures
            final(self).wf(),
            begin_redemption_post(*old(self), id@, client@, raw, contract@, chain, hot@, now, *final(self), r),
    {
        proof {
            self.lemma_views();
        }
        let cents = raw / 10_000;
        match find_order(&self.orders, id) {
            Some(k) => return answer_repeated(&self.orders[k], OrderKind::Redemption, client, raw, cents),
            None => {},
        }
        if raw > MAX_STORED {
            return Err(RetailError::Invalid(String::from_str("amount exceeds demo database range")));
        }
        let k = match find_position(&self.positions, client) {
            Some(k) => k,
            None => return Err(RetailError::InsufficientBalance),
        };
        if self.positions[k].available_raw < raw {
            return Err(RetailError::InsufficientBalance);
        }
        if self.positions[k].locked_raw > MAX_STORED - raw {
            return Err(RetailError::Storage(String::from_str("integer overflow")));
        }
        if cents == 0 {
            return Err(RetailError::Storage(String::from_str("CHECK constraint failed")));
        }
        if chain > MAX_STORED {
            return Err(RetailError::Invalid(String::from_str("amount exceeds demo database range")));
        }
        let ghost before = *self;
        let available = self.positions[k].available_raw - raw;
        let locked = self.positions[k].locked_raw + raw;
        self.set_balances(k, available, locked);
        let issuer = String::from_str("issuer-").concat(id);
        let order = LedgerOrder {
            operation_id: id.to_owned(),
            client_id: client.to_owned(),
            kind: OrderKind::Redemption,
            quantity_raw: raw,
            fiat_amount_minor: cents,
            status: OrderStatus::PendingIssuer,
            issuer_operation_id: Some(issuer),
            blockchain_transaction_hash: None,
            last_error: None,
            created_at_unix_ms: now,
            updated_at_unix_ms: now,
        };
        let view = to_retail_order(&order);
        self.orders.push(order);
        self.entries.push(entry(id, "client", client, "debit", raw, now));
        self.entries.push(entry(id, "client_locked", client, "lock", raw, now));
        let rate = self.usd_minor_per_rusd;
        let record = retail_record(
            self.records.len(),
            id,
            client,
            "redemption",
            raw,
            cents,
            "pending_issuer",
            Some(client),
            Some(hot),
            None,
            contract,
            chain,
            rate,
            now,
        );
        self.records.push(record);
        proof {
            assert(self.records@.drop_last() =~= before.records@);
            self.lemma_views();
            assert(self.orders().drop_last() =~= before.orders());
            assert(self.entries().take(before.entries().len() as int) =~= before.entries());
            lemma_wf_after_push_order(before, *self);
        }
        Ok(view)
    }
}


/// The positions after releasing `amount` from the locked balance of
/// `client`; unchanged when it has no such position or less than that locked.
pub open spec fn release_locked(ps: Seq<ClientPosition>, client: Seq<char>, amount: u64) -> Seq<
    ClientPosition,
> {
    match position_index(ps, client) {
        Some(k) => if ps[k].locked_raw >= amount {
            ps.update(k, with_balances(ps[k], ps[k].available_raw, (ps[k].locked_raw - amount) as u64))
        } else {
            ps
        },
        None => ps,
    }
}

/// An order marked completed with the issuer's transaction.
pub open spec fn completed_order(o: LedgerOrder, hash: Option<String>, now: u64) -> LedgerOrder {
    LedgerOrder {
        status: OrderStatus::Completed,
        blockchain_transaction_hash: hash,
        last_error: None,
        updated_at_unix_ms: now,
        ..o
    }
}

/// `new` is order `o` marked for an issuer retry at `now` with the failure's
/// text `message`; nothing else of the order changes.
pub open spec fn retried_order(o: LedgerOrder, new: LedgerOrder, message: Seq<char>, now: u64) -> bool {
    &&& new.operation_id == o.operation_id
    &&& new.client_id == o.client_id
    &&& new.kind == o.kind
    &&& new.quantity_raw == o.quantity_raw
    &&& new.fiat_amount_minor == o.fiat_amount_minor
    &&& new.status == OrderStatus::IssuerRetryRequired
    &&& new.issuer_operation_id == o.issuer_operation_id
    &&& new.blockchain_transaction_hash == o.blockchain_transaction_hash
    &&& opt_text(new.last_error) == Some(message)
    &&& new.created_at_unix_ms == o.created_at_unix_ms
    &&& new.updated_at_unix_ms == now
}

/// Everything but the orders is the same in `a` and `b`.
pub open spec fn same_but_orders(a: RetailLedger, b: RetailLedger) -> bool {
    &&& a.positions() == b.positions()
    &&& a.inventory() == b.inventory()
    &&& a.pending_fee() == b.pending_fee()
    &&& a.transfers() == b.transfers()
    &&& a.entries() == b.entries()
    &&& same_other_books(a, b)
}

/// What recording an issuer failure for redemption `id` does: an
/// unfinished redemption is marked for a retry, and the operation's latest
/// record notes the failure.
pub open spec fn fail_redemption_post(
    old: RetailLedger,
    id: Seq<char>,
    message: Seq<char>,
    now: u64,
    new: RetailLedger,
) -> bool {
    &&& same_but_orders(old, new)
    &&& records_failed(old.record_rows(), id, message, now, new.record_rows())
    &&& new.amendment_rows() == old.amendment_rows()
    &&& match order_index(old.orders(), id) {
        Some(k) => if old.orders()[k].status != OrderStatus::Completed {
            &&& new.orders() == old.orders().update(k, new.orders()[k])
            &&& retried_order(old.orders()[k], new.orders()[k], message, now)
        } else {
            new.orders() == old.orders()
        },
        None => new.orders() == old.orders(),
    }
}

/// What completing redemption `id` does once the issuer has burned the
/// tokens: the locked amount leaves the register, and a completion record is
/// written for the contract and chain of the operation's earliest record.
pub open spec fn complete_redemption_post(
    old: RetailLedger,
    id: Seq<char>,
    hash: Option<String>,
    now: u64,
    new: RetailLedger,
    r: Result<RetailOrder, RetailError>,
) -> bool {
    match order_index(old.orders(), id) {
        None => r matches Err(RetailError::Storage(m)) && m@ == "redemption not found"@ && new == old,
        Some(k) => {
            let o = old.orders()[k];
            if o.status == OrderStatus::Completed {
                r matches Ok(ro) && retail_order_of(ro, o) && new == old
            } else if o.quantity_raw > MAX_STORED {
                invalid_as(r, range_refusal()) && new == old
            } else if !has_record_for(old.record_rows(), id) {
                r matches Err(RetailError::Storage(_)) && new == old
            } else {
                exists|e: int| #[trigger] is_earliest(old.record_rows(), id, e) && completed_redemption(old, id, hash, now, new, r, k, e)
            }
        },
    }
}

/// Completing unfinished redemption `k` with the contract and chain of record `e`.
pub open spec fn completed_redemption(
    old: RetailLedger,
    id: Seq<char>,
    hash: Option<String>,
    now: u64,
    new: RetailLedger,
    r: Result<RetailOrder, RetailError>,
    k: int,
    e: int,
) -> bool {
    let o = old.orders()[k];
    let first = old.record_rows()[e];
    if first.chain_id > MAX_STORED {
        invalid_as(r, range_refusal()) && new == old
    } else {
        &&& new.positions() == release_locked(old.positions(), o.client_id@, o.quantity_raw)
        &&& new.inventory() == old.inventory()
        &&& new.pending_fee() == old.pending_fee()
        &&& new.transfers() == old.transfers()
        &&& same_other_books(old, new)
        &&& new.orders() == old.orders().update(k, completed_order(o, hash, now))
        &&& new.entries().len() == old.entries().len() + 1
        &&& new.entries().drop_last() == old.entries()
        &&& entry_is(new.entries().last(), id, "client_locked"@, o.client_id@, "debit"@, o.quantity_raw, now)
        &&& one_record_added(old, new)
        &&& retail_record_is(
            new.record_rows().last(),
            old.record_rows().len(),
            id,
            o.client_id@,
            "redemption"@,
            o.quantity_raw,
            o.fiat_amount_minor,
            "completed"@,
            Some(o.client_id@),
            Some("issuer"@),
            opt_text(hash),
            first.contract_address@,
            first.chain_id,
            old.rate(),
            now,
        )
        &&& r matches Ok(ro) && retail_order_of(ro, completed_order(o, hash, now))
    }
}

impl RetailLedger {
    /// Completes a redemption after the issuer has settled it. A completed
    /// one is answered as it stands; an unknown ID is a storage fault.
    pub fn complete_redemption(&mut self, id: &str, hash: Option<String>, now: u64) -> (r: Result<
        RetailOrder,
        RetailError,
    >)
        requires
            old(self).wf(),
        ensures
            final(self).wf(),
            complete_redemption_post(*old(self), id@, hash, now, *final(self), r),
    {
        proof {
            self.lemma_views();
        }
        let k = match find_order(&self.orders, id) {
            Some(k) => k,
            None => return Err(RetailError::Storage(String::from_str("redemption not found"))),
        };
        if self.orders[k].status == OrderStatus::Completed {
            return Ok(to_retail_order(&self.orders[k]));
        }
        let raw = self.orders[k].quantity_raw;
        if raw > MAX_STORED {
            return Err(RetailError::Invalid(String::from_str("amount exceeds demo database range")));
        }
        let first = match earliest_record(&self.records, id) {
            Some(e) => e,
            None => return Err(RetailError::Storage(String::from_str("Query returned no rows"))),
        };
        if self.records[first].chain_id > MAX_STORED {
            return Err(RetailError::Invalid(String::from_str("amount exceeds demo database range")));
        }
        let contract = self.records[first].contract_address.clone();
        let chain = self.records[first].chain_id;
        let client = self.orders[k].client_id.clone();
        let cents = self.orders[k].fiat_amount_minor;
        let rate = self.usd_minor_per_rusd;
        let hash_text = clone_text(&hash);
        let record = retail_record(
            self.records.len(),
            id,
            client.as_str(),
            "redemption",
            raw,
            cents,
            "completed",
            Some(client.as_str()),
            Some("issuer"),
            match &hash_text {
                Some(h) => Some(h.as_str()),
                None => None,
            },
            contract.as_str(),
            chain,
            rate,
            now,
        );
        let ghost before = *self;
        let line = entry(id, "client_locked", self.orders[k].client_id.as_str(), "debit", raw, now);
        match find_position(&self.positions, self.orders[k].client_id.as_str()) {
            Some(p) => {
                if self.positions[p].locked_raw >= raw {
                    let available = self.positions[p].available_raw;
                    let locked = self.positions[p].locked_raw - raw;
                    self.set_balances(p, available, locked);
                }
            },
            None => {},
        }
        let o = &self.orders[k];
        let updated = LedgerOrder {
            operation_id: o.operation_id.clone(),
            client_id: o.client_id.clone(),
            kind: o.kind,
            quantity_raw: o.quantity_raw,
            fiat_amount_minor: o.fiat_amount_minor,
            status: OrderStatus::Completed,
            issuer_operation_id: clone_text(&o.issuer_operation_id),
            blockchain_transaction_hash: hash,
            last_error: None,
            created_at_unix_ms: o.created_at_unix_ms,
            updated_at_unix_ms: now,
        };
        let view = to_retail_order(&updated);
        self.orders.set(k, updated);
        self.entries.push(line);
        self.records.push(record);
        proof {
            self.lemma_views();
            assert(self.records@.drop_last() =~= before.records@);
            assert(is_earliest(before.record_rows(), id@, first as int));
            assert(self.entries().drop_last() =~= before.entries());
            assert forall|i: int, j: int|
                0 <= i < j < self.orders().len() implies (#[trigger] self.orders()[i]).operation_id@
                != (#[trigger] self.orders()[j]).operation_id@ by {
                assert(before.orders()[i].operation_id@ != before.orders()[j].operation_id@);
            }
            assert forall|i: int, j: int|
                0 <= i < j < self.positions().len() implies (#[trigger] self.positions()[i]).client_id@
                != (#[trigger] self.positions()[j]).client_id@ by {
                assert(before.positions()[i].client_id@ != before.positions()[j].client_id@);
            }
        }
        Ok(view)
    }

    /// Records that the issuer could not redeem: an unfinished redemption is
    /// marked for a retry with the failure's text; anything else is left alone.
    pub fn fail_redemption(&mut self, id: &str, message: &str, now: u64)
        requires
            old(self).wf(),
        ensures
            final(self).wf(),
            fail_redemption_post(*old(self), id@, message@, now, *final(self)),
    {
        proof {
            self.lemma_views();
        }
        let ghost before = *self;
        fail_latest_record(&mut self.records, id, message, now);
        proof {
            self.lemma_views();
        }
        let k = match find_order(&self.orders, id) {
            Some(k) => k,
            None => return,
        };
        if self.orders[k].status == OrderStatus::Completed {
            return;
        }
        let o = &self.orders[k];
        let updated = LedgerOrder {
            operation_id: o.operation_id.clone(),
            client_id: o.client_id.clone(),
            kind: o.kind,
            quantity_raw: o.quantity_raw,
            fiat_amount_minor: o.fiat_amount_minor,
            status: OrderStatus::IssuerRetryRequired,
            issuer_operation_id: clone_text(&o.issuer_operation_id),
            blockchain_transaction_hash: clone_text(&o.blockchain_transaction_hash),
            last_error: Some(message.to_owned()),
            created_at_unix_ms: o.created_at_unix_ms,
            updated_at_unix_ms: now,
        };
        self.orders.set(k, updated);
        proof {
            self.lemma_views();
            assert forall|i: int, j: int|
                0 <= i < j < self.orders().len() implies (#[trigger] self.orders()[i]).operation_id@
                != (#[trigger] self.orders()[j]).operation_id@ by {
                assert(before.orders()[i].operation_id@ != before.orders()[j].operation_id@);
            }
            assert(self.orders() =~= before.orders().update(k as int, self.orders()[k as int]));
        }
    }
}


/// The positions after `gross` leaves `sender` and `net` reaches `recipient`
/// (nothing reaches a recipient the register does not know).
pub open spec fn transfer_positions(
    ps: Seq<ClientPosition>,
    sender: Seq<char>,
    recipient: Seq<char>,
    gross: u64,
    net: u64,
) -> Seq<ClientPosition> {
    let mid = debit_available(ps, position_index(ps, sender)->Some_0, gross as int);
    match position_index(ps, recipient) {
        Some(kr) => mid.update(
            kr,
            with_balances(mid[kr], (mid[kr].available_raw + net) as u64, mid[kr].locked_raw),
        ),
        None => mid,
    }
}

/// Crediting the recipient would take it past what the store holds.
pub open spec fn transfer_overflows(
    ps: Seq<ClientPosition>,
    sender: Seq<char>,
    recipient: Seq<char>,
    gross: u64,
    net: u64,
) -> bool {
    let mid = debit_available(ps, position_index(ps, sender)->Some_0, gross as int);
    match position_index(ps, recipient) {
        Some(kr) => mid[kr].available_raw + net > MAX_STORED,
        None => false,
    }
}

/// The transfer fee: a tenth of a percent of the gross amount, rounded down.
pub open spec fn transfer_fee(gross: u64) -> u64 {
    (gross / 1_000) as u64
}

/// The stored transfer `t` is the same request as the one described.
pub open spec fn same_transfer(
    t: LedgerTransfer,
    sender: Seq<char>,
    recipient: Seq<char>,
    gross: u64,
    purpose: Seq<char>,
) -> bool {
    &&& t.sender_client_id@ == sender
    &&& t.recipient_client_id@ == recipient
    &&& t.gross_raw == gross
    &&& t.purpose_classification@ == purpose
}

/// A transfer record with the given fields.
pub open spec fn transfer_is(
    t: LedgerTransfer,
    id: Seq<char>,
    sender: Seq<char>,
    recipient: Seq<char>,
    gross: u64,
    purpose: Seq<char>,
    now: u64,
) -> bool {
    &&& t.operation_id@ == id
    &&& same_transfer(t, sender, recipient, gross, purpose)
    &&& t.fee_raw == transfer_fee(gross)
    &&& t.net_raw == gross - transfer_fee(gross)
    &&& t.created_at_unix_ms == now
}

/// What a transfer of `gross` from `sender` to `recipient` under `id` does:
/// the sender pays the gross amount, the recipient receives it less the fee,
/// and the fee waits to be swept.
pub open spec fn transfer_post(
    old: RetailLedger,
    id: Seq<char>,
    sender: Seq<char>,
    recipient: Seq<char>,
    gross: u64,
    purpose: Seq<char>,
    contract: Seq<char>,
    chain: u64,
    now: u64,
    new: RetailLedger,
    r: Result<InternalTransfer, RetailError>,
) -> bool {
    let fee = transfer_fee(gross);
    let net = (gross - fee) as u64;
    match transfer_index(old.transfers(), id) {
        Some(k) => new == old && if same_transfer(old.transfers()[k], sender, recipient, gross, purpose) {
            r matches Ok(t) && internal_transfer_of(t, old.transfers()[k])
        } else {
            r matches Err(RetailError::IdempotencyConflict)
        },
        None => if gross > MAX_STORED {
            invalid_as(r, range_refusal()) && new == old
        } else if !can_debit(old.positions(), sender, gross) {
            r matches Err(RetailError::InsufficientBalance) && new == old
        } else if transfer_overflows(old.positions(), sender, recipient, gross, net) {
            r matches Err(RetailError::Storage(_)) && new == old
        } else if old.pending_fee() + fee > MAX_STORED {
            r matches Err(RetailError::Storage(_)) && new == old
        } else if chain > MAX_STORED {
            invalid_as(r, range_refusal()) && new == old
        } else {
            &&& one_record_added(old, new)
            &&& retail_record_is(
                new.record_rows().last(),
                old.record_rows().len(),
                id,
                sender,
                "internal_transfer"@,
                gross,
                0,
                "completed"@,
                Some(sender),
                Some(recipient),
                None,
                contract,
                chain,
                old.rate(),
                now,
            )
            &&& new.positions() == transfer_positions(old.positions(), sender, recipient, gross, net)
            &&& new.pending_fee() == old.pending_fee() + fee
            &&& new.inventory() == old.inventory()
            &&& new.orders() == old.orders()
            &&& same_other_books(old, new)
            &&& new.transfers().len() == old.transfers().len() + 1
            &&& new.transfers().drop_last() == old.transfers()
            &&& transfer_is(new.transfers().last(), id, sender, recipient, gross, purpose, now)
            &&& new.entries().len() == old.entries().len() + 3
            &&& new.entries().take(old.entries().len() as int) == old.entries()
            &&& entry_is(new.entries()[old.entries().len() as int], id, "client"@, sender, "debit"@, gross, now)
            &&& entry_is(new.entries()[old.entries().len() as int + 1], id, "client"@, recipient, "credit"@, net, now)
            &&& entry_is(
                new.entries()[old.entries().len() as int + 2],
                id,
                "casp_fee_pending"@,
                "casp-fees"@,
                "credit"@,
                fee,
                now,
            )
            &&& r matches Ok(t) && internal_transfer_of(t, new.transfers().last())
        },
    }
}

impl RetailLedger {
    /// Moves rUSD between two clients; the CASP keeps a tenth of a percent as
    /// its fee. A repeated request with the same ID is answered with the
    /// stored transfer when it is the same request, and refused otherwise.
    pub fn transfer(&mut self, command: TransferPosting, now: u64) -> (r: Result<InternalTransfer, RetailError>)
        requires
            old(self).wf(),
        ensures
            final(self).wf(),
            transfer_post(
                *old(self),
                command.id@,
                command.sender@,
                command.recipient@,
                command.gross_raw,
                command.purpose@,
                command.contract@,
                command.chain,
                now,
                *final(self),
                r,
            ),
    {
        proof {
            self.lemma_views();
        }
        let id = command.id;
        let sender = command.sender;
        let recipient = command.recipient;
        let gross = command.gross_raw;
        let purpose = command.purpose;
        let fee = gross / 1_000;
        let net = gross - fee;
        match find_transfer(&self.transfers, id) {
            Some(k) => {
                let t = &self.transfers[k];
                if str_eq(t.sender_client_id.as_str(), sender) && str_eq(
                    t.recipient_client_id.as_str(),
                    recipient,
                ) && t.gross_raw == gross && str_eq(t.purpose_classification.as_str(), purpose) {
                    return Ok(to_internal_transfer(t));
                }
                return Err(RetailError::IdempotencyConflict);
            },
            None => {},
        }
        if gross > MAX_STORED {
            return Err(RetailError::Invalid(String::from_str("amount exceeds demo database range")));
        }
        let ks = match find_position(&self.positions, sender) {
            Some(k) => k,
            None => return Err(RetailError::InsufficientBalance),
        };
        if self.positions[ks].available_raw < gross {
            return Err(RetailError::InsufficientBalance);
        }
        let kr = find_position(&self.positions, recipient);
        match kr {
            Some(j) => {
                let current = if j == ks {
                    self.positions[j].available_raw - gross
                } else {
                    self.positions[j].available_raw
                };
                if current > MAX_STORED - net {
                    return Err(RetailError::Storage(String::from_str("integer overflow")));
                }
            },
            None => {},
        }
        if self.pending_fee_raw > MAX_STORED - fee {
            return Err(RetailError::Storage(String::from_str("integer overflow")));
        }
        if command.chain > MAX_STORED {
            return Err(RetailError::Invalid(String::from_str("amount exceeds demo database range")));
        }
        let ghost before = *self;
        let available = self.positions[ks].available_raw - gross;
        let locked = self.positions[ks].locked_raw;
        self.set_balances(ks, available, locked);
        match kr {
            Some(j) => {
                let available = self.positions[j].available_raw + net;
                let locked = self.positions[j].locked_raw;
                self.set_balances(j, available, locked);
            },
            None => {},
        }
        self.pending_fee_raw = self.pending_fee_raw + fee;
        let record = LedgerTransfer {
            operation_id: id.to_owned(),
            sender_client_id: sender.to_owned(),
            recipient_client_id: recipient.to_owned(),
            gross_raw: gross,
            fee_raw: fee,
            net_raw: net,
            purpose_classification: purpose.to_owned(),
            created_at_unix_ms: now,
        };
        let view = to_internal_transfer(&record);
        self.transfers.push(record);
        self.entries.push(entry(id, "client", sender, "debit", gross, now));
        self.entries.push(entry(id, "client", recipient, "credit", net, now));
        self.entries.push(entry(id, "casp_fee_pending", "casp-fees", "credit", fee, now));
        let rate = self.usd_minor_per_rusd;
        let record = retail_record(
            self.records.len(),
            id,
            sender,
            "internal_transfer",
            gross,
            0,
            "completed",
            Some(sender),
            Some(recipient),
            None,
            command.contract,
            command.chain,
            rate,
            now,
        );
        self.records.push(record);
        proof {
            assert(self.records@.drop_last() =~= before.records@);
            self.lemma_views();
            assert(self.transfers().drop_last() =~= before.transfers());
            assert(self.entries().take(before.entries().len() as int) =~= before.entries());
            assert(self.positions() =~= transfer_positions(before.positions(), sender@, recipient@, gross, net));
            assert forall|i: int, j: int|
                0 <= i < j < self.positions().len() implies (#[trigger] self.positions()[i]).client_id@
                != (#[trigger] self.positions()[j]).client_id@ by {
                assert(before.positions()[i].client_id@ != before.positions()[j].client_id@);
            }
            assert forall|i: int, j: int|
                0 <= i < j < self.transfers().len() implies (#[trigger] self.transfers()[i]).operation_id@
                != (#[trigger] self.transfers()[j]).operation_id@ by {
                if j == self.transfers().len() - 1 {
                    assert(self.transfers()[i] == before.transfers()[i]);
                    if self.transfers()[i].operation_id@ == id@ {
                        assert(exists|x: int|
                            0 <= x < before.transfers().len()
                                && (#[trigger] before.transfers()[x]).operation_id@ == id@);
                    }
                } else {
                    assert(self.transfers()[i] == before.transfers()[i]);
                    assert(self.transfers()[j] == before.transfers()[j]);
                }
            }
        }
        Ok(view)
    }
}

/// Everything but the unallocated inventory (and whether it is activated)
/// is the same in `a` and `b`.
pub open spec fn same_but_inventory(a: RetailLedger, b: RetailLedger) -> bool {
    &&& a.positions() == b.positions()
    &&& a.pending_fee() == b.pending_fee()
    &&& a.rate() == b.rate()
    &&& a.rate_updated_at() == b.rate_updated_at()
    &&& a.orders() == b.orders()
    &&& a.transfers() == b.transfers()
    &&& a.entries() == b.entries()
    &&& same_chain_books(a, b)
    &&& same_records(a, b)
}

/// What activating the inventory with `amount` does: the first activation
/// sets the unallocated inventory; later ones change nothing.
pub open spec fn activate_post(old: RetailLedger, amount: u64, new: RetailLedger, r: Result<(), RetailError>) -> bool {
    if amount > MAX_STORED {
        invalid_as(r, range_refusal()) && new == old
    } else if old.activated() {
        r is Ok && new == old
    } else {
        &&& r is Ok
        &&& new.inventory() == amount
        &&& new.activated()
        &&& new.postings() == old.postings()
        &&& same_but_inventory(old, new)
    }
}

/// What posting `amount` for `wallet` of replenishment `operation` does: the
/// first posting is recorded and, once the inventory is activated, added to
/// it; a repeat with the same amount changes nothing, and one with another
/// amount is refused.
pub open spec fn add_once_post(
    old: RetailLedger,
    operation: Seq<char>,
    wallet: Seq<char>,
    amount: u64,
    new: RetailLedger,
    r: Result<(), RetailError>,
) -> bool {
    if amount > MAX_STORED {
        invalid_as(r, range_refusal()) && new == old
    } else {
        match posting_index(old.postings(), operation, wallet) {
            Some(k) => new == old && if old.postings()[k].amount_raw == amount {
                r is Ok
            } else {
                r matches Err(RetailError::IdempotencyConflict)
            },
            None => if old.activated() && old.inventory() + amount > MAX_STORED {
                r matches Err(RetailError::Storage(_)) && new == old
            } else {
                &&& r is Ok
                &&& new.inventory() == if old.activated() {
                    old.inventory() + amount
                } else {
                    old.inventory() as int
                }
                &&& new.activated() == old.activated()
                &&& new.postings().len() == old.postings().len() + 1
                &&& new.postings().drop_last() == old.postings()
                &&& new.postings().last().operation_id@ == operation
                &&& new.postings().last().wallet_role@ == wallet
                &&& new.postings().last().amount_raw == amount
                &&& same_but_inventory(old, new)
            },
        }
    }
}

impl RetailLedger {
    /// Activates the unallocated inventory with the amount the bootstrap
    /// minted; only the first activation counts.
    pub fn activate_inventory(&mut self, amount: u64) -> (r: Result<(), RetailError>)
        requires
            old(self).wf(),
        ensures
            final(self).wf(),
            activate_post(*old(self), amount, *final(self), r),
    {
        proof {
            self.lemma_views();
        }
        if amount > MAX_STORED {
            return Err(RetailError::Invalid(String::from_str("amount exceeds demo database range")));
        }
        if !self.inventory_activated {
            self.inventory_raw = amount;
            self.inventory_activated = true;
        }
        proof {
            self.lemma_views();
        }
        Ok(())
    }

    /// Posts the inventory increase of one wallet of a replenishment, once.
    pub fn add_inventory_once(&mut self, operation: &str, wallet: &str, amount: u64) -> (r: Result<
        (),
        RetailError,
    >)
        requires
            old(self).wf(),
        ensures
            final(self).wf(),
            add_once_post(*old(self), operation@, wallet@, amount, *final(self), r),
    {
        proof {
            self.lemma_views();
        }
        if amount > MAX_STORED {
            return Err(RetailError::Invalid(String::from_str("amount exceeds demo database range")));
        }
        match find_posting(&self.postings, operation, wallet) {
            Some(k) => {
                if self.postings[k].amount_raw != amount {
                    return Err(RetailError::IdempotencyConflict);
                }
                return Ok(());
            },
            None => {},
        }
        if self.inventory_activated && self.inventory_raw > MAX_STORED - amount {
            return Err(RetailError::Storage(String::from_str("integer overflow")));
        }
        let ghost before = *self;
        if self.inventory_activated {
            self.inventory_raw = self.inventory_raw + amount;
        }
        self.postings.push(
            ReplenishmentPosting {
                operation_id: operation.to_owned(),
                wallet_role: wallet.to_owned(),
                amount_raw: amount,
            },
        );
        proof {
            self.lemma_views();
            assert(self.postings().drop_last() =~= before.postings());
            assert forall|i: int, j: int|
                0 <= i < j < self.postings().len() implies !same_posting(
                #[trigger] self.postings()[i],
                #[trigger] self.postings()[j],
            ) by {
                if j == self.postings().len() - 1 {
                    assert(self.postings()[i] == before.postings()[i]);
                    if same_posting(self.postings()[i], self.postings()[j]) {
                        assert(before.postings()[i].operation_id@ == operation@
                            && before.postings()[i].wallet_role@ == wallet@);
                    }
                } else {
                    assert(self.postings()[i] == before.postings()[i]);
                    assert(self.postings()[j] == before.postings()[j]);
                }
            }
        }
        Ok(())
    }
}

/// With unique client IDs, the position found for a client is the one that holds its ID.
pub proof fn lemma_position_index_at(ps: Seq<ClientPosition>, k: int)
    requires
        0 <= k < ps.len(),
        forall|i: int, j: int|
            0 <= i < j < ps.len() ==> (#[trigger] ps[i]).client_id@ != (#[trigger] ps[j]).client_id@,
    ensures
        position_index(ps, ps[k].client_id@) == Some(k),
{
    let c = choose|i: int| 0 <= i < ps.len() && (#[trigger] ps[i]).client_id@ == ps[k].client_id@;
    assert(ps[k].client_id@ == ps[k].client_id@);
    if c < k {
        assert(ps[c].client_id@ != ps[k].client_id@);
    } else if c > k {
        assert(ps[k].client_id@ != ps[c].client_id@);
    }
}

/// With unique order IDs, the order found for an ID is the one that holds it.
pub proof fn lemma_order_index_at(orders: Seq<LedgerOrder>, k: int)
    requires
        0 <= k < orders.len(),
        forall|i: int, j: int|
            0 <= i < j < orders.len() ==> (#[trigger] orders[i]).operation_id@
                != (#[trigger] orders[j]).operation_id@,
    ensures
        order_index(orders, orders[k].operation_id@) == Some(k),
{
    let c = choose|i: int|
        0 <= i < orders.len() && (#[trigger] orders[i]).operation_id@ == orders[k].operation_id@;
    assert(orders[k].operation_id@ == orders[k].operation_id@);
    if c < k {
        assert(orders[c].operation_id@ != orders[k].operation_id@);
    } else if c > k {
        assert(orders[k].operation_id@ != orders[c].operation_id@);
    }
}

/// With unique transfer IDs, the transfer found for an ID is the one that holds it.
pub proof fn lemma_transfer_index_at(transfers: Seq<LedgerTransfer>, k: int)
    requires
        0 <= k < transfers.len(),
        forall|i: int, j: int|
            0 <= i < j < transfers.len() ==> (#[trigger] transfers[i]).operation_id@
                != (#[trigger] transfers[j]).operation_id@,
    ensures
        transfer_index(transfers, transfers[k].operation_id@) == Some(k),
{
    let c = choose|i: int|
        0 <= i < transfers.len() && (#[trigger] transfers[i]).operation_id@
            == transfers[k].operation_id@;
    assert(transfers[k].operation_id@ == transfers[k].operation_id@);
    if c < k {
        assert(transfers[c].operation_id@ != transfers[k].operation_id@);
    } else if c > k {
        assert(transfers[k].operation_id@ != transfers[c].operation_id@);
    }
}

/// With unique postings, the posting found for a wallet of a replenishment
/// is the one recorded for it.
pub proof fn lemma_posting_index_at(postings: Seq<ReplenishmentPosting>, k: int)
    requires
        0 <= k < postings.len(),
        forall|i: int, j: int|
            0 <= i < j < postings.len() ==> !same_posting(#[trigger] postings[i], #[trigger] postings[j]),
    ensures
        posting_index(postings, postings[k].operation_id@, postings[k].wallet_role@) == Some(k),
{
    let c = choose|i: int|
        0 <= i < postings.len() && (#[trigger] postings[i]).operation_id@ == postings[k].operation_id@
            && postings[i].wallet_role@ == postings[k].wallet_role@;
    assert(postings[k].operation_id@ == postings[k].operation_id@);
    if c < k {
        assert(!same_posting(postings[c], postings[k]));
    } else if c > k {
        assert(!same_posting(postings[k], postings[c]));
    }
}
} // verus!
