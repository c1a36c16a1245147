//! Client account statements: opening and closing positions with the
//! movements in between and their totals per kind.
use crate::clock::unix_ms;
use crate::decimal::{decimal_int, i64_to_string, parse_i64, spec_parse_i64};
use crate::reporting::{spec_valid_range, validate_date, str_lt};
use crate::text::str_eq;
use std::sync::Arc;
use vstd::prelude::*;

verus! {

/// Positions and ledger movements of one client over a date range.
#[derive(Debug, Clone, PartialEq, Eq)]
pub struct StatementSource {
    pub opening_available_raw: i64,
    pub opening_locked_raw: i64,
    pub closing_available_raw: i64,
    pub closing_locked_raw: i64,
    pub movements: Vec<StatementMovement>,
}

/// One movement on a client's position.
#[derive(Debug, Clone, PartialEq, Eq)]
pub struct StatementMovement {
    pub operation_id: String,
    pub occurred_at_unix_ms: u64,
    pub operation_type: String,
    pub status: String,
    pub available_delta_raw: String,
    pub locked_delta_raw: String,
    pub gross_raw: String,
    pub net_raw: String,
    pub fee_raw: String,
    pub counterparty: Option<String>,
}

/// A client statement as it is handed out.
#[derive(Debug, Clone, PartialEq, Eq)]
pub struct ClientStatement {
    pub statement_version: String,
    pub client_id: String,
    pub asset_symbol: String,
    pub from_date_utc: String,
    pub to_date_utc: String,
    pub opening_available_raw: String,
    pub opening_locked_raw: String,
    pub closing_available_raw: String,
    pub closing_locked_raw: String,
    pub total_purchases_raw: String,
    pub total_sales_raw: String,
    pub total_transfers_sent_raw: String,
    pub total_transfers_received_raw: String,
    pub total_fees_raw: String,
    pub total_redemptions_raw: String,
    pub movements: Vec<StatementMovement>,
    pub generated_at_unix_ms: u64,
    pub disclaimer: String,
}

/// Where a client's positions and movements are read from.
pub trait StatementStore {
    /// `answer` is an answer the store may give when asked for `client`'s
    /// balances and movements over `from..=to`; a store that does not say is
    /// taken to give any answer.
    open spec fn answers_source(
        &self,
        client: Seq<char>,
        from: Seq<char>,
        to: Seq<char>,
        answer: Result<StatementSource, StatementError>,
    ) -> bool {
        true
    }

    /// `client`'s balances and movements over `from..=to`.
    fn source(&self, client: &str, from: &str, to: &str) -> (r: Result<StatementSource, StatementError>)
        ensures
            self.answers_source(client@, from@, to@, r),
    ;
}

/// Failures of statement generation.
#[derive(Debug)]
pub enum StatementError {
    InvalidClient,
    InvalidRange,
    Overflow,
    Storage(String),
}

/// The text of a statement failure.
pub open spec fn statement_error_text(e: StatementError) -> Seq<char> {
    match e {
        StatementError::InvalidClient => "unknown demo client"@,
        StatementError::InvalidRange => "from/to must form an ordered YYYY-MM-DD UTC date range"@,
        StatementError::Overflow => "statement arithmetic overflow"@,
        StatementError::Storage(m) => "statement persistence failed: "@ + m@,
    }
}

impl StatementError {
    /// The failure as it is reported.
    pub fn message(&self) -> (r: String)
        ensures
            r@ == statement_error_text(*self),
    {
        match self {
            StatementError::InvalidClient => String::from_str("unknown demo client"),
            StatementError::InvalidRange => String::from_str("from/to must form an ordered YYYY-MM-DD UTC date range"),
            StatementError::Overflow => String::from_str("statement arithmetic overflow"),
            StatementError::Storage(m) => String::from_str("statement persistence failed: ").concat(m.as_str()),
        }
    }
}

/// The three demonstration clients.
pub open spec fn is_demo_client(client: Seq<char>) -> bool {
    client == "alice"@ || client == "bob"@ || client == "carol"@
}

/// Tests whether `client` is one of the demonstration clients.
pub fn demo_client(client: &str) -> (r: bool)
    ensures
        r == is_demo_client(client@),
{
    str_eq(client, "alice") || str_eq(client, "bob") || str_eq(client, "carol")
}

/// Running totals of a statement, per kind of movement.
#[derive(Debug, Clone, Copy, PartialEq, Eq, Structural)]
pub struct StatementTotals {
    pub purchases: i64,
    pub sales: i64,
    pub sent: i64,
    pub received: i64,
    pub fees: i64,
    pub redemptions: i64,
}

/// Why the totals of a statement cannot be formed.
#[derive(Debug, Clone, Copy, PartialEq, Eq, Structural)]
pub enum StatementFault {
    /// A ledger amount that is not an `i64`.
    InvalidAmount,
    /// A total that leaves the `i64` range.
    Overflow,
}

/// `a + b` when it stays in the `i64` range.
pub open spec fn add_in_range(a: i64, b: i64) -> Option<i64> {
    if i64::MIN <= a + b <= i64::MAX {
        Some((a + b) as i64)
    } else {
        None
    }
}

/// The totals after one more movement. Gross and fee amounts must read for
/// every movement; the net amount counts for received transfers, and a
/// redemption counts only when it took from the available position.
pub open spec fn spec_statement_step(t: StatementTotals, m: StatementMovement) -> Result<
    StatementTotals,
    StatementFault,
> {
    match (spec_parse_i64(m.gross_raw@), spec_parse_i64(m.fee_raw@)) {
        (Some(gross), Some(fee)) => if m.operation_type@ == "purchase"@ {
            match add_in_range(t.purchases, gross) {
                Some(v) => Ok(StatementTotals { purchases: v, ..t }),
                None => Err(StatementFault::Overflow),
            }
        } else if m.operation_type@ == "sale"@ {
            match add_in_range(t.sales, gross) {
                Some(v) => Ok(StatementTotals { sales: v, ..t }),
                None => Err(StatementFault::Overflow),
            }
        } else if m.operation_type@ == "internal_transfer_sent"@ {
            match add_in_range(t.sent, gross) {
                Some(v) => match add_in_range(t.fees, fee) {
                    Some(w) => Ok(StatementTotals { sent: v, fees: w, ..t }),
                    None => Err(StatementFault::Overflow),
                },
                None => Err(StatementFault::Overflow),
            }
        } else if m.operation_type@ == "internal_transfer_received"@ {
            match spec_parse_i64(m.net_raw@) {
                Some(net) => match add_in_range(t.received, net) {
                    Some(v) => Ok(StatementTotals { received: v, ..t }),
                    None => Err(StatementFault::Overflow),
                },
                None => Err(StatementFault::InvalidAmount),
            }
        } else if m.operation_type@ == "redemption"@ {
            match spec_parse_i64(m.available_delta_raw@) {
                Some(delta) => if delta < 0 {
                    match add_in_range(t.redemptions, gross) {
                        Some(v) => Ok(StatementTotals { redemptions: v, ..t }),
                        None => Err(StatementFault::Overflow),
                    }
                } else {
                    Ok(t)
                },
                None => Err(StatementFault::InvalidAmount),
            }
        } else {
            Ok(t)
        },
        _ => Err(StatementFault::InvalidAmount),
    }
}

/// The sum over `ms` of what `pick` takes from each movement.
pub open spec fn kind_total(ms: Seq<StatementMovement>, pick: spec_fn(StatementMovement) -> int) -> int
    decreases ms.len(),
{
    if ms.len() == 0 {
        0
    } else {
        kind_total(ms.drop_last(), pick) + pick(ms.last())
    }
}

/// The value of an amount text that reads as an `i64`.
pub open spec fn amount_of(text: Seq<char>) -> int {
    spec_parse_i64(text)->Some_0 as int
}

/// The gross amount of a movement of kind `kind`, else nothing.
pub open spec fn gross_of_kind(kind: Seq<char>) -> spec_fn(StatementMovement) -> int {
    |m: StatementMovement| if m.operation_type@ == kind { amount_of(m.gross_raw@) } else { 0 }
}

/// The fee of a transfer sent, else nothing.
pub open spec fn fee_of_sent() -> spec_fn(StatementMovement) -> int {
    |m: StatementMovement|
        if m.operation_type@ == "internal_transfer_sent"@ {
            amount_of(m.fee_raw@)
        } else {
            0
        }
}

/// The net amount of a transfer received, else nothing.
pub open spec fn net_of_received() -> spec_fn(StatementMovement) -> int {
    |m: StatementMovement|
        if m.operation_type@ == "internal_transfer_received"@ {
            amount_of(m.net_raw@)
        } else {
            0
        }
}

/// The gross amount of a redemption that took from the available position,
/// else nothing.
pub open spec fn gross_of_redemption() -> spec_fn(StatementMovement) -> int {
    |m: StatementMovement|
        if m.operation_type@ == "redemption"@ && amount_of(m.available_delta_raw@) < 0 {
            amount_of(m.gross_raw@)
        } else {
            0
        }
}

proof fn lemma_movement_kinds_differ()
    ensures
        "purchase"@.len() == 8,
        "sale"@.len() == 4,
        "internal_transfer_sent"@.len() == 22,
        "internal_transfer_received"@.len() == 26,
        "redemption"@.len() == 10,
{
    reveal_strlit("purchase");
    reveal_strlit("sale");
    reveal_strlit("internal_transfer_sent");
    reveal_strlit("internal_transfer_received");
    reveal_strlit("redemption");
}

/// Law: when a statement's totals can be formed, each is the sum over its
/// movements of one kind: the gross of purchases, of sales and of transfers
/// sent, the fees of transfers sent, the net of transfers received, and the
/// gross of redemptions that took from the available position.
#[verifier::spinoff_prover]
#[verifier::rlimit(40)]
pub proof fn lemma_statement_totals_are_sums(ms: Seq<StatementMovement>)
    ensures
        spec_statement_totals(ms) matches Ok(t) ==> {
            &&& t.purchases == kind_total(ms, gross_of_kind("purchase"@))
            &&& t.sales == kind_total(ms, gross_of_kind("sale"@))
            &&& t.sent == kind_total(ms, gross_of_kind("internal_transfer_sent"@))
            &&& t.fees == kind_total(ms, fee_of_sent())
            &&& t.received == kind_total(ms, net_of_received())
            &&& t.redemptions == kind_total(ms, gross_of_redemption())
        },
    decreases ms.len(),
{
    if ms.len() > 0 {
        lemma_statement_totals_are_sums(ms.drop_last());
        lemma_movement_kinds_differ();
    }
}

/// All totals zero.
pub open spec fn zero_totals() -> StatementTotals {
    StatementTotals { purchases: 0, sales: 0, sent: 0, received: 0, fees: 0, redemptions: 0 }
}

/// The totals over `movements` in order; the first faulty movement decides.
pub open spec fn spec_statement_totals(movements: Seq<StatementMovement>) -> Result<
    StatementTotals,
    StatementFault,
>
    decreases movements.len(),
{
    if movements.len() == 0 {
        Ok(zero_totals())
    } else {
        match spec_statement_totals(movements.drop_last()) {
            Ok(t) => spec_statement_step(t, movements.last()),
            Err(f) => Err(f),
        }
    }
}

fn amount(value: &str) -> (r: Result<i64, StatementError>)
    ensures
        match spec_parse_i64(value@) {
            Some(v) => r == Ok::<i64, StatementError>(v),
            None => r matches Err(StatementError::Storage(m)) && m@ == "invalid ledger amount"@,
        },
{
    match parse_i64(value) {
        Some(v) => Ok(v),
        None => Err(StatementError::Storage(String::from_str("invalid ledger amount"))),
    }
}

fn add(left: i64, right: i64) -> (r: Result<i64, StatementError>)
    ensures
        match add_in_range(left, right) {
            Some(v) => r == Ok::<i64, StatementError>(v),
            None => r matches Err(StatementError::Overflow),
        },
{
    match left.checked_add(right) {
        Some(v) => Ok(v),
        None => Err(StatementError::Overflow),
    }
}

/// The error a fault is reported as.
pub open spec fn fault_matches(e: StatementError, f: StatementFault) -> bool {
    match f {
        StatementFault::InvalidAmount => e matches StatementError::Storage(m) && m@ == "invalid ledger amount"@,
        StatementFault::Overflow => e is Overflow,
    }
}

fn movement_step(t: StatementTotals, m: &StatementMovement) -> (r: Result<StatementTotals, StatementError>)
    ensures
        match spec_statement_step(t, *m) {
            Ok(u) => r == Ok::<StatementTotals, StatementError>(u),
            Err(f) => r matches Err(e) && fault_matches(e, f),
        },
{
    let gross = amount(m.gross_raw.as_str())?;
    let fee = amount(m.fee_raw.as_str())?;
    let kind = m.operation_type.as_str();
    if str_eq(kind, "purchase") {
        Ok(StatementTotals { purchases: self::add(t.purchases, gross)?, ..t })
    } else if str_eq(kind, "sale") {
        Ok(StatementTotals { sales: self::add(t.sales, gross)?, ..t })
    } else if str_eq(kind, "internal_transfer_sent") {
        let sent = self::add(t.sent, gross)?;
        let fees = self::add(t.fees, fee)?;
        Ok(StatementTotals { sent, fees, ..t })
    } else if str_eq(kind, "internal_transfer_received") {
        let net = amount(m.net_raw.as_str())?;
        Ok(StatementTotals { received: self::add(t.received, net)?, ..t })
    } else if str_eq(kind, "redemption") {
        let delta = amount(m.available_delta_raw.as_str())?;
        if delta < 0 {
            Ok(StatementTotals { redemptions: self::add(t.redemptions, gross)?, ..t })
        } else {
            Ok(t)
        }
    } else {
        Ok(t)
    }
}

/// Sums the movements per kind, in order.
pub fn statement_totals(movements: &Vec<StatementMovement>) -> (r: Result<StatementTotals, StatementError>)
    ensures
        match spec_statement_totals(movements@) {
            Ok(t) => r == Ok::<StatementTotals, StatementError>(t),
            Err(f) => r matches Err(e) && fault_matches(e, f),
        },
{
    let mut totals = StatementTotals {
        purchases: 0,
        sales: 0,
        sent: 0,
        received: 0,
        fees: 0,
        redemptions: 0,
    };
    let mut i: usize = 0;
    assert(movements@.take(0) =~= Seq::<StatementMovement>::empty());
    while i < movements.len()
        invariant
            i <= movements@.len(),
            spec_statement_totals(movements@.take(i as int)) == Ok::<StatementTotals, StatementFault>(totals),
        decreases movements.len() - i,
    {
        assert(movements@.take(i + 1).drop_last() =~= movements@.take(i as int));
        assert(movements@.take(i + 1).last() == movements@[i as int]);
        match movement_step(totals, &movements[i]) {
            Ok(t) => totals = t,
            Err(e) => {
                proof {
                    lemma_statement_fault_persists(movements@, i as int + 1);
                }
                return Err(e);
            },
        }
        i = i + 1;
    }
    assert(movements@.take(movements.len() as int) =~= movements@);
    Ok(totals)
}

proof fn lemma_statement_fault_persists(movements: Seq<StatementMovement>, k: int)
    requires
        0 <= k <= movements.len(),
        spec_statement_totals(movements.take(k)) is Err,
    ensures
        spec_statement_totals(movements) == spec_statement_totals(movements.take(k)),
    decreases movements.len() - k,
{
    if k < movements.len() {
        assert(movements.take(k + 1).drop_last() =~= movements.take(k));
        lemma_statement_fault_persists(movements, k + 1);
    } else {
        assert(movements.take(k) =~= movements);
    }
}

/// `statement` presents `source` for `client` over `from..=to` with `totals`.
pub open spec fn spec_statement_of(
    statement: ClientStatement,
    client: Seq<char>,
    from: Seq<char>,
    to: Seq<char>,
    source: StatementSource,
    totals: StatementTotals,
) -> bool {
    &&& statement.statement_version@ == "casp-client-statement-v1"@
    &&& statement.client_id@ == client
    &&& statement.asset_symbol@ == "rUSD"@
    &&& statement.from_date_utc@ == from
    &&& statement.to_date_utc@ == to
    &&& statement.opening_available_raw@ == decimal_int(source.opening_available_raw as int)
    &&& statement.opening_locked_raw@ == decimal_int(source.opening_locked_raw as int)
    &&& statement.closing_available_raw@ == decimal_int(source.closing_available_raw as int)
    &&& statement.closing_locked_raw@ == decimal_int(source.closing_locked_raw as int)
    &&& statement.total_purchases_raw@ == decimal_int(totals.purchases as int)
    &&& statement.total_sales_raw@ == decimal_int(totals.sales as int)
    &&& statement.total_transfers_sent_raw@ == decimal_int(totals.sent as int)
    &&& statement.total_transfers_received_raw@ == decimal_int(totals.received as int)
    &&& statement.total_fees_raw@ == decimal_int(totals.fees as int)
    &&& statement.total_redemptions_raw@ == decimal_int(totals.redemptions as int)
    &&& statement.movements@ == source.movements@
    &&& statement.disclaimer@
        == "Research demo statement generated from the CASP ledger; not a regulated account statement."@
}

fn check_request(client: &str, from: &str, to: &str) -> (r: Result<(), StatementError>)
    ensures
        !is_demo_client(client@) ==> r matches Err(StatementError::InvalidClient),
        is_demo_client(client@) && !spec_valid_range(from@, to@) ==> r matches Err(
            StatementError::InvalidRange,
        ),
        is_demo_client(client@) && spec_valid_range(from@, to@) ==> r is Ok,
{
    if !demo_client(client) {
        return Err(StatementError::InvalidClient);
    }
    if validate_date(from).is_err() || validate_date(to).is_err() {
        return Err(StatementError::InvalidRange);
    }
    if str_lt(to, from) {
        return Err(StatementError::InvalidRange);
    }
    Ok(())
}

/// The statement of `client` for `from..=to` built from the positions and
/// movements in `source`.
pub fn statement_from_source(client: &str, from: &str, to: &str, source: StatementSource) -> (r:
    Result<ClientStatement, StatementError>)
    ensures
        !is_demo_client(client@) ==> r matches Err(StatementError::InvalidClient),
        is_demo_client(client@) && !spec_valid_range(from@, to@) ==> r matches Err(
            StatementError::InvalidRange,
        ),
        is_demo_client(client@) && spec_valid_range(from@, to@) ==> match spec_statement_totals(
            source.movements@,
        ) {
            Ok(t) => r matches Ok(s) && spec_statement_of(s, client@, from@, to@, source, t),
            Err(f) => r matches Err(e) && fault_matches(e, f),
        },
{
    check_request(client, from, to)?;
    let totals = statement_totals(&source.movements)?;
    proof {
        reveal_strlit("casp-client-statement-v1");
        reveal_strlit("rUSD");
    }
    Ok(
        ClientStatement {
            statement_version: String::from_str("casp-client-statement-v1"),
            client_id: client.to_owned(),
            asset_symbol: String::from_str("rUSD"),
            from_date_utc: from.to_owned(),
            to_date_utc: to.to_owned(),
            opening_available_raw: i64_to_string(source.opening_available_raw),
            opening_locked_raw: i64_to_string(source.opening_locked_raw),
            closing_available_raw: i64_to_string(source.closing_available_raw),
            closing_locked_raw: i64_to_string(source.closing_locked_raw),
            total_purchases_raw: i64_to_string(totals.purchases),
            total_sales_raw: i64_to_string(totals.sales),
            total_transfers_sent_raw: i64_to_string(totals.sent),
            total_transfers_received_raw: i64_to_string(totals.received),
            total_fees_raw: i64_to_string(totals.fees),
            total_redemptions_raw: i64_to_string(totals.redemptions),
            movements: source.movements,
            generated_at_unix_ms: unix_ms(),
            disclaimer: String::from_str(
                "Research demo statement generated from the CASP ledger; not a regulated account statement.",
            ),
        },
    )
}

/// `r` is what a statement makes of the store's answer `answer`: the store's
/// failure, or the statement of `client` built from the source it gave.
pub open spec fn spec_statement_outcome(
    client: Seq<char>,
    from: Seq<char>,
    to: Seq<char>,
    answer: Result<StatementSource, StatementError>,
    r: Result<ClientStatement, StatementError>,
) -> bool {
    match answer {
        Err(e) => r == Err::<ClientStatement, StatementError>(e),
        Ok(source) => match spec_statement_totals(source.movements@) {
            Ok(t) => r matches Ok(s) && spec_statement_of(s, client, from, to, source, t),
            Err(f) => r matches Err(e) && fault_matches(e, f),
        },
    }
}

/// Client statements over the positions and movements of a statement store.
pub struct StatementService<S: StatementStore> {
    store: Arc<S>,
}

impl<S: StatementStore> StatementService<S> {
    /// The store this service reads positions and movements from.
    pub closed spec fn source(&self) -> Arc<S> {
        self.store
    }

    pub fn new(store: Arc<S>) -> (r: Self)
        ensures
            r.source() == store,
    {
        Self { store }
    }

    /// The statement of `client` for `from..=to`. Unknown clients and invalid
    /// ranges are refused before the store is asked; otherwise the store is
    /// asked for `client`'s balances and movements over `from..=to`, its
    /// failure is passed on, and the statement totals what it gave.
    pub fn generate(&self, client: &str, from: &str, to: &str) -> (r: Result<ClientStatement, StatementError>)
        ensures
            !is_demo_client(client@) ==> r matches Err(StatementError::InvalidClient),
            is_demo_client(client@) && !spec_valid_range(from@, to@) ==> r matches Err(
                StatementError::InvalidRange,
            ),
            is_demo_client(client@) && spec_valid_range(from@, to@) ==> exists|
                answer: Result<StatementSource, StatementError>,
            |
                #[trigger] self.source().answers_source(client@, from@, to@, answer)
                    && spec_statement_outcome(client@, from@, to@, answer, r),
    {
        if let Err(e) = check_request(client, from, to) {
            return Err(e);
        }
        let answer = self.store.source(client, from, to);
        let ghost given = answer;
        let source = match answer {
            Ok(source) => source,
            Err(e) => {
                assert(self.source().answers_source(client@, from@, to@, given));
                return Err(e);
            },
        };
        let r = statement_from_source(client, from, to, source);
        assert(self.source().answers_source(client@, from@, to@, given) && spec_statement_outcome(
            client@,
            from@,
            to@,
            given,
            r,
        ));
        r
    }
}

} // verus!
