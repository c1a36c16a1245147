//! What the register hands to daily reporting: every completed order and
//! transfer of a range of UTC days, ordered by day and operation.
use super::{LedgerOrder, LedgerTransfer, OrderKind, OrderStatus, RetailLedger};
use crate::calendar::{spec_utc_date, utc_date};
use crate::reporting::{
    lemma_text_lt_total, lemma_text_lt_transitive, str_lt, text_lt, ReportingError, ReportingEvent,
    ReportingStore,
};
use crate::text::str_eq;
use vstd::prelude::*;

verus! {

/// `day` lies in `from..=to` in text order (as SQL's `BETWEEN` compares text).
pub open spec fn within(day: Seq<char>, from: Seq<char>, to: Seq<char>) -> bool {
    !text_lt(day, from) && !text_lt(to, day)
}

/// A reporting event as plain values.
pub struct ReportRow {
    pub date: Seq<char>,
    pub operation: Seq<char>,
    pub classification: Seq<char>,
    pub value_raw: u64,
    pub value_usd_minor: Option<u64>,
    pub fee_raw: u64,
    pub overlap: bool,
}

pub open spec fn report_row(e: ReportingEvent) -> ReportRow {
    ReportRow {
        date: e.date_utc@,
        operation: e.operation_id@,
        classification: e.classification@,
        value_raw: e.value_raw,
        value_usd_minor: e.value_usd_minor,
        fee_raw: e.fee_raw,
        overlap: e.known_onchain_overlap,
    }
}

pub open spec fn report_rows(events: Seq<ReportingEvent>) -> Seq<ReportRow> {
    events.map_values(|e: ReportingEvent| report_row(e))
}

/// The row of a completed order on `day`: an exchange for funds, with a
/// known on-chain overlap for a redemption that has its burn transaction.
pub open spec fn order_row(o: LedgerOrder, day: Seq<char>) -> ReportRow {
    ReportRow {
        date: day,
        operation: o.operation_id@,
        classification: "exchange_for_funds"@,
        value_raw: o.quantity_raw,
        value_usd_minor: Some(o.fiat_amount_minor),
        fee_raw: 0,
        overlap: o.kind == OrderKind::Redemption && o.blockchain_transaction_hash is Some,
    }
}

/// The rows of the completed orders whose UTC day lies in `from..=to`.
pub open spec fn order_rows(orders: Seq<LedgerOrder>, from: Seq<char>, to: Seq<char>) -> Seq<ReportRow>
    decreases orders.len(),
{
    if orders.len() == 0 {
        Seq::empty()
    } else {
        let o = orders.last();
        let rest = order_rows(orders.drop_last(), from, to);
        match spec_utc_date(o.created_at_unix_ms) {
            Some(day) => if o.status == OrderStatus::Completed && within(day, from, to) {
                rest.push(order_row(o, day))
            } else {
                rest
            },
            None => rest,
        }
    }
}

/// The row of a transfer on `day`: classified by its purpose, with its fee.
pub open spec fn transfer_row(t: LedgerTransfer, day: Seq<char>) -> ReportRow {
    ReportRow {
        date: day,
        operation: t.operation_id@,
        classification: t.purpose_classification@,
        value_raw: t.gross_raw,
        value_usd_minor: None,
        fee_raw: t.fee_raw,
        overlap: false,
    }
}

/// The rows of the transfers (all completed) whose UTC day lies in `from..=to`.
pub open spec fn transfer_rows(transfers: Seq<LedgerTransfer>, from: Seq<char>, to: Seq<char>) -> Seq<
    ReportRow,
>
    decreases transfers.len(),
{
    if transfers.len() == 0 {
        Seq::empty()
    } else {
        let t = transfers.last();
        let rest = transfer_rows(transfers.drop_last(), from, to);
        match spec_utc_date(t.created_at_unix_ms) {
            Some(day) => if within(day, from, to) {
                rest.push(transfer_row(t, day))
            } else {
                rest
            },
            None => rest,
        }
    }
}

/// `a` comes before `b`: an earlier day, or the same day and a smaller operation.
pub open spec fn row_before(a: ReportRow, b: ReportRow) -> bool {
    text_lt(a.date, b.date) || (a.date == b.date && text_lt(a.operation, b.operation))
}

/// Ordered by day, then operation.
pub open spec fn rows_ordered(rows: Seq<ReportRow>) -> bool {
    forall|i: int, j: int| 0 <= i < j < rows.len() ==> !row_before(#[trigger] rows[j], #[trigger] rows[i])
}

/// Law: `row_before` is a strict order.
pub proof fn lemma_row_before_strict(a: ReportRow, b: ReportRow, c: ReportRow)
    ensures
        !row_before(a, a),
        row_before(a, b) && row_before(b, c) ==> row_before(a, c),
{
    lemma_text_lt_total(a.date, a.date);
    lemma_text_lt_total(a.operation, a.operation);
    if row_before(a, b) && row_before(b, c) {
        if text_lt(a.date, b.date) && text_lt(b.date, c.date) {
            lemma_text_lt_transitive(a.date, b.date, c.date);
        }
        if a.date == b.date && b.date == c.date {
            lemma_text_lt_transitive(a.operation, b.operation, c.operation);
        }
    }
}

fn event_before(a: &ReportingEvent, b: &ReportingEvent) -> (r: bool)
    ensures
        r == row_before(report_row(*a), report_row(*b)),
{
    str_lt(a.date_utc.as_str(), b.date_utc.as_str()) || (str_eq(a.date_utc.as_str(), b.date_utc.as_str())
        && str_lt(a.operation_id.as_str(), b.operation_id.as_str()))
}

fn insert_ordered(out: &mut Vec<ReportingEvent>, e: ReportingEvent)
    requires
        rows_ordered(report_rows(old(out)@)),
    ensures
        rows_ordered(report_rows(final(out)@)),
        report_rows(final(out)@).to_multiset() == report_rows(old(out)@).to_multiset().insert(report_row(e)),
{
    let mut k: usize = 0;
    while k < out.len() && !event_before(&e, &out[k])
        invariant
            k <= out@.len(),
            forall|i: int| 0 <= i < k ==> !row_before(report_row(e), #[trigger] report_row(out@[i])),
        decreases out.len() - k,
    {
        k = k + 1;
    }
    let ghost before = report_rows(out@);
    let ghost x = report_row(e);
    out.insert(k, e);
    proof {
        assert(report_rows(out@) =~= before.insert(k as int, x));
        vstd::seq_lib::to_multiset_insert(before, k as int, x);
        let after = report_rows(out@);
        assert forall|i: int, j: int| 0 <= i < j < after.len() implies !row_before(
            #[trigger] after[j],
            #[trigger] after[i],
        ) by {
            if j < k {
                assert(after[i] == before[i] && after[j] == before[j]);
            } else if j == k {
                assert(after[i] == before[i]);
                assert(!row_before(x, report_row(out@[i])));
            } else if i > k {
                assert(after[i] == before[i - 1] && after[j] == before[j - 1]);
            } else if i == k {
                assert(after[j] == before[j - 1]);
                assert(row_before(x, before[k as int]));
                lemma_row_before_strict(before[j - 1], x, before[k as int]);
                lemma_row_before_strict(before[k as int], before[k as int], before[k as int]);
            } else {
                assert(after[i] == before[i] && after[j] == before[j - 1]);
            }
        }
    }
}

impl RetailLedger {
    /// Every completed order and every transfer whose UTC day lies in
    /// `from..=to`, ordered by day and then operation.
    pub fn reporting_events(&self, from: &str, to: &str) -> (r: Vec<ReportingEvent>)
        ensures
            rows_ordered(report_rows(r@)),
            report_rows(r@).to_multiset() == (order_rows(self.orders(), from@, to@) + transfer_rows(
                self.transfers(),
                from@,
                to@,
            )).to_multiset(),
    {
        proof {
            self.lemma_views();
        }
        let mut out: Vec<ReportingEvent> = Vec::new();
        let mut i: usize = 0;
        proof {
            assert(self.orders@.take(0) =~= Seq::<LedgerOrder>::empty());
            assert(report_rows(out@) =~= Seq::<ReportRow>::empty());
        }
        while i < self.orders.len()
            invariant
                i <= self.orders@.len(),
                rows_ordered(report_rows(out@)),
                report_rows(out@).to_multiset() == order_rows(self.orders@.take(i as int), from@, to@).to_multiset(),
            decreases self.orders.len() - i,
        {
            let o = &self.orders[i];
            let ghost prefix = self.orders@.take(i as int + 1);
            proof {
                assert(prefix.drop_last() =~= self.orders@.take(i as int));
                assert(prefix.last() == *o);
            }
            if o.status == OrderStatus::Completed {
                match utc_date(o.created_at_unix_ms) {
                    Some(day) => {
                        if !str_lt(day.as_str(), from) && !str_lt(to, day.as_str()) {
                            proof {
                                reveal_strlit("exchange_for_funds");
                            }
                            let e = ReportingEvent {
                                date_utc: day,
                                operation_id: o.operation_id.clone(),
                                classification: String::from_str("exchange_for_funds"),
                                value_raw: o.quantity_raw,
                                value_usd_minor: Some(o.fiat_amount_minor),
                                fee_raw: 0,
                                known_onchain_overlap: o.kind == OrderKind::Redemption
                                    && o.blockchain_transaction_hash.is_some(),
                            };
                            proof {
                                let ghost d = e.date_utc@;
                                assert(report_row(e) == order_row(*o, d));
                                vstd::seq_lib::to_multiset_build(
                                    order_rows(self.orders@.take(i as int), from@, to@),
                                    order_row(*o, d),
                                );
                            }
                            insert_ordered(&mut out, e);
                        }
                    },
                    None => {},
                }
            }
            i = i + 1;
        }
        proof {
            assert(self.orders@.take(self.orders@.len() as int) =~= self.orders@);
        }
        let ghost orders_rows = order_rows(self.orders@, from@, to@);
        let mut j: usize = 0;
        proof {
            assert(self.transfers@.take(0) =~= Seq::<LedgerTransfer>::empty());
            assert(orders_rows + transfer_rows(self.transfers@.take(0), from@, to@) =~= orders_rows);
        }
        while j < self.transfers.len()
            invariant
                j <= self.transfers@.len(),
                orders_rows == order_rows(self.orders@, from@, to@),
                rows_ordered(report_rows(out@)),
                report_rows(out@).to_multiset() == (orders_rows + transfer_rows(
                    self.transfers@.take(j as int),
                    from@,
                    to@,
                )).to_multiset(),
            decreases self.transfers.len() - j,
        {
            let t = &self.transfers[j];
            let ghost prefix = self.transfers@.take(j as int + 1);
            proof {
                assert(prefix.drop_last() =~= self.transfers@.take(j as int));
                assert(prefix.last() == *t);
            }
            match utc_date(t.created_at_unix_ms) {
                Some(day) => {
                    if !str_lt(day.as_str(), from) && !str_lt(to, day.as_str()) {
                        let e = ReportingEvent {
                            date_utc: day,
                            operation_id: t.operation_id.clone(),
                            classification: t.purpose_classification.clone(),
                            value_raw: t.gross_raw,
                            value_usd_minor: None,
                            fee_raw: t.fee_raw,
                            known_onchain_overlap: false,
                        };
                        proof {
                            let ghost d = e.date_utc@;
                            let ghost rest = transfer_rows(self.transfers@.take(j as int), from@, to@);
                            assert(report_row(e) == transfer_row(*t, d));
                            assert(orders_rows + rest.push(transfer_row(*t, d)) =~= (orders_rows + rest).push(
                                transfer_row(*t, d),
                            ));
                            vstd::seq_lib::to_multiset_build(orders_rows + rest, transfer_row(*t, d));
                        }
                        insert_ordered(&mut out, e);
                    }
                },
                None => {},
            }
            j = j + 1;
        }
        proof {
            assert(self.transfers@.take(self.transfers@.len() as int) =~= self.transfers@);
        }
        out
    }
}

impl ReportingStore for RetailLedger {
    /// The register answers with its completed orders and transfers of the
    /// range, ordered by day and operation; it never fails.
    open spec fn answers_events(
        &self,
        from: Seq<char>,
        to: Seq<char>,
        answer: Result<Seq<ReportingEvent>, ReportingError>,
    ) -> bool {
        answer matches Ok(s) && rows_ordered(report_rows(s)) && report_rows(s).to_multiset() == (
        order_rows(self.orders(), from, to) + transfer_rows(self.transfers(), from, to)).to_multiset()
    }

    /// The completed orders and transfers of `from..=to`, as
    /// `reporting_events` gives them; it never fails.
    fn events(&self, from: &str, to: &str) -> (r: Result<Vec<ReportingEvent>, ReportingError>)
        ensures
            r matches Ok(v) && rows_ordered(report_rows(v@)) && report_rows(v@).to_multiset() == (order_rows(
                self.orders(),
                from@,
                to@,
            ) + transfer_rows(self.transfers(), from@, to@)).to_multiset(),
    {
        Ok(self.reporting_events(from, to))
    }
}

} // verus!
