//! A fixed demonstration history for the daily report: fifteen operations
//! spread over the six days before it is seeded. Seeding keeps every row it
//! already holds, so seeding again changes nothing.
use crate::calendar::{spec_utc_date, utc_date};
use crate::ledger::reports::{report_row, report_rows, within, ReportRow};
use crate::reporting::{str_lt, ReportingError, ReportingEvent};
use crate::text::str_eq;
use vstd::prelude::*;

verus! {

/// Milliseconds in a day.
pub const DAY_MS: u64 = 86_400_000;

/// The number of rows of the fixture.
pub const FIXTURE_ROWS: usize = 15;

/// The operation ID of fixture row `k`.
pub open spec fn fixture_id(k: int) -> Seq<char> {
    if k == 0 {
        "demo-report-d6-goods"@
    } else if k == 1 {
        "demo-report-d6-private"@
    } else if k == 2 {
        "demo-report-d5-goods-a"@
    } else if k == 3 {
        "demo-report-d5-goods-b"@
    } else if k == 4 {
        "demo-report-d5-exchange"@
    } else if k == 5 {
        "demo-report-d4-private"@
    } else if k == 6 {
        "demo-report-d4-goods"@
    } else if k == 7 {
        "demo-report-d3-goods-a"@
    } else if k == 8 {
        "demo-report-d3-goods-b"@
    } else if k == 9 {
        "demo-report-d3-same-owner"@
    } else if k == 10 {
        "demo-report-d2-exchange"@
    } else if k == 11 {
        "demo-report-d2-goods"@
    } else if k == 12 {
        "demo-report-d1-goods-a"@
    } else if k == 13 {
        "demo-report-d1-goods-b"@
    } else {
        "demo-report-d1-private"@
    }
}

/// How many days before the seeding fixture row `k` lies.
pub open spec fn fixture_days_back(k: int) -> nat {
    if k == 0 {
        6
    } else if k == 1 {
        6
    } else if k == 2 {
        5
    } else if k == 3 {
        5
    } else if k == 4 {
        5
    } else if k == 5 {
        4
    } else if k == 6 {
        4
    } else if k == 7 {
        3
    } else if k == 8 {
        3
    } else if k == 9 {
        3
    } else if k == 10 {
        2
    } else if k == 11 {
        2
    } else if k == 12 {
        1
    } else if k == 13 {
        1
    } else {
        1
    }
}

/// The classification of fixture row `k`.
pub open spec fn fixture_class(k: int) -> Seq<char> {
    if k == 0 {
        "goods_or_services"@
    } else if k == 1 {
        "private_transfer"@
    } else if k == 2 {
        "goods_or_services"@
    } else if k == 3 {
        "goods_or_services"@
    } else if k == 4 {
        "exchange_for_funds"@
    } else if k == 5 {
        "private_transfer"@
    } else if k == 6 {
        "goods_or_services"@
    } else if k == 7 {
        "goods_or_services"@
    } else if k == 8 {
        "goods_or_services"@
    } else if k == 9 {
        "same_owner_transfer"@
    } else if k == 10 {
        "exchange_for_funds"@
    } else if k == 11 {
        "goods_or_services"@
    } else if k == 12 {
        "goods_or_services"@
    } else if k == 13 {
        "goods_or_services"@
    } else {
        "private_transfer"@
    }
}

/// The raw value of fixture row `k`.
pub open spec fn fixture_value(k: int) -> u64 {
    if k == 0 {
        124500000
    } else if k == 1 {
        48000000
    } else if k == 2 {
        81500000
    } else if k == 3 {
        36750000
    } else if k == 4 {
        250000000
    } else if k == 5 {
        92000000
    } else if k == 6 {
        157250000
    } else if k == 7 {
        44300000
    } else if k == 8 {
        189900000
    } else if k == 9 {
        60000000
    } else if k == 10 {
        310000000
    } else if k == 11 {
        138400000
    } else if k == 12 {
        74250000
    } else if k == 13 {
        216800000
    } else {
        53500000
    }
}

/// The fee of fixture row `k`.
pub open spec fn fixture_fee(k: int) -> u64 {
    if k == 0 {
        124500
    } else if k == 1 {
        48000
    } else if k == 2 {
        81500
    } else if k == 3 {
        36750
    } else if k == 4 {
        0
    } else if k == 5 {
        92000
    } else if k == 6 {
        157250
    } else if k == 7 {
        44300
    } else if k == 8 {
        189900
    } else if k == 9 {
        0
    } else if k == 10 {
        0
    } else if k == 11 {
        138400
    } else if k == 12 {
        74250
    } else if k == 13 {
        216800
    } else {
        53500
    }
}

/// Fixture row `k`: operation ID, days back, classification, raw value, fee.
fn fixture(k: usize) -> (r: (&'static str, u64, &'static str, u64, u64))
    requires
        k < FIXTURE_ROWS,
    ensures
        r.0@ == fixture_id(k as int),
        r.1 == fixture_days_back(k as int),
        r.2@ == fixture_class(k as int),
        r.3 == fixture_value(k as int),
        r.4 == fixture_fee(k as int),
{
    match k {
        0 => ("demo-report-d6-goods", 6, "goods_or_services", 124500000, 124500),
        1 => ("demo-report-d6-private", 6, "private_transfer", 48000000, 48000),
        2 => ("demo-report-d5-goods-a", 5, "goods_or_services", 81500000, 81500),
        3 => ("demo-report-d5-goods-b", 5, "goods_or_services", 36750000, 36750),
        4 => ("demo-report-d5-exchange", 5, "exchange_for_funds", 250000000, 0),
        5 => ("demo-report-d4-private", 4, "private_transfer", 92000000, 92000),
        6 => ("demo-report-d4-goods", 4, "goods_or_services", 157250000, 157250),
        7 => ("demo-report-d3-goods-a", 3, "goods_or_services", 44300000, 44300),
        8 => ("demo-report-d3-goods-b", 3, "goods_or_services", 189900000, 189900),
        9 => ("demo-report-d3-same-owner", 3, "same_owner_transfer", 60000000, 0),
        10 => ("demo-report-d2-exchange", 2, "exchange_for_funds", 310000000, 0),
        11 => ("demo-report-d2-goods", 2, "goods_or_services", 138400000, 138400),
        12 => ("demo-report-d1-goods-a", 1, "goods_or_services", 74250000, 74250),
        13 => ("demo-report-d1-goods-b", 1, "goods_or_services", 216800000, 216800),
        _ => ("demo-report-d1-private", 1, "private_transfer", 53500000, 53500),
    }
}

/// The day `back` days before `now`, if it can be written.
pub open spec fn day_before(now: u64, back: nat) -> Option<Seq<char>> {
    if now < back * DAY_MS {
        None
    } else {
        spec_utc_date((now - back * DAY_MS) as u64)
    }
}

/// Seeding at `now` cannot date every row: a row would fall before 1970 or
/// after 9999.
pub open spec fn seed_fault(now: u64) -> bool {
    exists|k: int| 0 <= k < FIXTURE_ROWS && #[trigger] day_before(now, fixture_days_back(k)) is None
}

/// Fixture row `k` as seeded at `now`.
pub open spec fn fixture_row(k: int, now: u64) -> ReportRow {
    ReportRow {
        date: day_before(now, fixture_days_back(k))->Some_0,
        operation: fixture_id(k),
        classification: fixture_class(k),
        value_raw: fixture_value(k),
        value_usd_minor: None,
        fee_raw: fixture_fee(k),
        overlap: false,
    }
}

/// Some row has operation ID `id`.
pub open spec fn has_operation(rows: Seq<ReportRow>, id: Seq<char>) -> bool {
    exists|i: int| 0 <= i < rows.len() && (#[trigger] rows[i]).operation == id
}

/// `rows` after the first `k` fixture rows were seeded at `now`: each one
/// whose operation ID is not held yet is appended.
pub open spec fn seeded(rows: Seq<ReportRow>, now: u64, k: nat) -> Seq<ReportRow>
    decreases k,
{
    if k == 0 {
        rows
    } else {
        let before = seeded(rows, now, (k - 1) as nat);
        if has_operation(before, fixture_id(k - 1)) {
            before
        } else {
            before.push(fixture_row(k - 1, now))
        }
    }
}

proof fn lemma_seeded_holds(rows: Seq<ReportRow>, now: u64, k: nat)
    requires
        k <= FIXTURE_ROWS,
    ensures
        forall|j: int| 0 <= j < k ==> has_operation(seeded(rows, now, k), #[trigger] fixture_id(j)),
        forall|x: Seq<char>| has_operation(rows, x) ==> #[trigger] has_operation(seeded(rows, now, k), x),
    decreases k,
{
    if k > 0 {
        let before = seeded(rows, now, (k - 1) as nat);
        lemma_seeded_holds(rows, now, (k - 1) as nat);
        if !has_operation(before, fixture_id(k - 1)) {
            let after = before.push(fixture_row(k - 1, now));
            assert forall|x: Seq<char>| has_operation(before, x) implies has_operation(after, x) by {
                let i = choose|i: int| 0 <= i < before.len() && (#[trigger] before[i]).operation == x;
                assert(after[i] == before[i]);
            }
            assert(after[before.len() as int].operation == fixture_id(k - 1));
        }
    }
}

proof fn lemma_seeded_keeps(rows: Seq<ReportRow>, now: u64, k: nat)
    requires
        k <= FIXTURE_ROWS,
        forall|j: int| 0 <= j < k ==> has_operation(rows, #[trigger] fixture_id(j)),
    ensures
        seeded(rows, now, k) == rows,
    decreases k,
{
    if k > 0 {
        lemma_seeded_keeps(rows, now, (k - 1) as nat);
        assert(has_operation(rows, fixture_id(k - 1)));
    }
}

/// Law: seeding again, at any time, changes nothing: every fixture row is
/// held after the first seeding, and a held row is never replaced.
pub proof fn lemma_seed_is_idempotent(rows: Seq<ReportRow>, first: u64, second: u64)
    ensures
        seeded(seeded(rows, first, FIXTURE_ROWS as nat), second, FIXTURE_ROWS as nat) == seeded(
            rows,
            first,
            FIXTURE_ROWS as nat,
        ),
{
    lemma_seeded_holds(rows, first, FIXTURE_ROWS as nat);
    lemma_seeded_keeps(seeded(rows, first, FIXTURE_ROWS as nat), second, FIXTURE_ROWS as nat);
}

/// The rows of `rows` whose day lies in `from..=to`, in order.
pub open spec fn rows_within(rows: Seq<ReportRow>, from: Seq<char>, to: Seq<char>) -> Seq<ReportRow>
    decreases rows.len(),
{
    if rows.len() == 0 {
        Seq::empty()
    } else {
        let rest = rows_within(rows.drop_last(), from, to);
        if within(rows.last().date, from, to) {
            rest.push(rows.last())
        } else {
            rest
        }
    }
}

/// The demonstration history.
pub struct DemoHistory {
    rows: Vec<ReportingEvent>,
}

impl DemoHistory {
    /// The rows held, as plain values.
    pub closed spec fn rows(&self) -> Seq<ReportRow> {
        report_rows(self.rows@)
    }

    /// An empty history.
    pub fn new() -> (r: DemoHistory)
        ensures
            r.rows() == Seq::<ReportRow>::empty(),
    {
        let r = DemoHistory { rows: Vec::new() };
        assert(r.rows() =~= Seq::<ReportRow>::empty());
        r
    }

    fn holds(&self, id: &str) -> (r: bool)
        ensures
            r == has_operation(self.rows(), id@),
    {
        let mut i: usize = 0;
        while i < self.rows.len()
            invariant
                i <= self.rows@.len(),
                self.rows() == report_rows(self.rows@),
                forall|j: int| 0 <= j < i ==> (#[trigger] self.rows()[j]).operation != id@,
            decreases self.rows.len() - i,
        {
            if str_eq(self.rows[i].operation_id.as_str(), id) {
                assert(self.rows()[i as int].operation == id@);
                return true;
            }
            i = i + 1;
        }
        false
    }

    /// Seeds the fixture at `now`: each fixture row whose operation ID is not
    /// held yet is added, dated the given number of days before `now`. When
    /// some row cannot be dated, nothing is added.
    pub fn seed(&mut self, now: u64) -> (r: Result<(), ReportingError>)
        ensures
            seed_fault(now) ==> r is Err && final(self).rows() == old(self).rows(),
            !seed_fault(now) ==> r is Ok && final(self).rows() == seeded(old(self).rows(), now, FIXTURE_ROWS as nat),
    {
        let mut dates: Vec<String> = Vec::new();
        let mut k: usize = 0;
        while k < FIXTURE_ROWS
            invariant
                k <= FIXTURE_ROWS,
                dates@.len() == k,
                forall|j: int| 0 <= j < k ==> day_before(now, fixture_days_back(j)) == Some(#[trigger] dates@[j]@),
            decreases FIXTURE_ROWS - k,
        {
            let (_, back, _, _, _) = fixture(k);
            let date = if now < back * DAY_MS {
                None
            } else {
                utc_date(now - back * DAY_MS)
            };
            match date {
                Some(d) => dates.push(d),
                None => {
                    assert(day_before(now, fixture_days_back(k as int)) is None);
                    return Err(ReportingError::InvalidDateRange);
                },
            }
            k = k + 1;
        }
        let ghost start = self.rows();
        let mut k: usize = 0;
        while k < FIXTURE_ROWS
            invariant
                k <= FIXTURE_ROWS,
                dates@.len() == FIXTURE_ROWS,
                forall|j: int| 0 <= j < FIXTURE_ROWS ==> day_before(now, fixture_days_back(j)) == Some(#[trigger] dates@[j]@),
                self.rows() == seeded(start, now, k as nat),
            decreases FIXTURE_ROWS - k,
        {
            let (id, _, class, value, fee) = fixture(k);
            if !self.holds(id) {
                let e = ReportingEvent {
                    date_utc: dates[k].clone(),
                    operation_id: String::from_str(id),
                    classification: String::from_str(class),
                    value_raw: value,
                    value_usd_minor: None,
                    fee_raw: fee,
                    known_onchain_overlap: false,
                };
                assert(day_before(now, fixture_days_back(k as int)) == Some(dates@[k as int]@));
                assert(report_row(e) == fixture_row(k as int, now));
                self.rows.push(e);
                assert(self.rows() =~= seeded(start, now, k as nat).push(fixture_row(k as int, now)));
            }
            k = k + 1;
        }
        assert forall|j: int| 0 <= j < FIXTURE_ROWS implies #[trigger] day_before(now, fixture_days_back(j)) is Some by {
            assert(day_before(now, fixture_days_back(j)) == Some(dates@[j]@));
        }
        Ok(())
    }

    /// The rows whose day lies in `from..=to`, in the order they were seeded.
    pub fn events(&self, from: &str, to: &str) -> (r: Vec<ReportingEvent>)
        ensures
            report_rows(r@) == rows_within(self.rows(), from@, to@),
    {
        let mut out: Vec<ReportingEvent> = Vec::new();
        let mut i: usize = 0;
        while i < self.rows.len()
            invariant
                i <= self.rows@.len(),
                self.rows() == report_rows(self.rows@),
                report_rows(out@) == rows_within(self.rows().take(i as int), from@, to@),
            decreases self.rows.len() - i,
        {
            let e = &self.rows[i];
            assert(self.rows().take(i + 1).drop_last() =~= self.rows().take(i as int));
            assert(self.rows().take(i + 1).last() == report_row(*e));
            if !str_lt(e.date_utc.as_str(), from) && !str_lt(to, e.date_utc.as_str()) {
                let copy = ReportingEvent {
                    date_utc: e.date_utc.clone(),
                    operation_id: e.operation_id.clone(),
                    classification: e.classification.clone(),
                    value_raw: e.value_raw,
                    value_usd_minor: e.value_usd_minor,
                    fee_raw: e.fee_raw,
                    known_onchain_overlap: e.known_onchain_overlap,
                };
                out.push(copy);
                assert(report_rows(out@) =~= rows_within(self.rows().take(i as int), from@, to@).push(report_row(*e)));
            }
            i = i + 1;
        }
        assert(self.rows().take(self.rows@.len() as int) =~= self.rows());
        out
    }
}

} // verus!
