//! Daily activity reporting: operations per UTC day, with the share used as a
//! means of exchange separated from the rest.
use crate::decimal::{decimal_nat, is_digit, u64_to_string};
use crate::text::str_eq;
use std::sync::Arc;
use vstd::prelude::*;

verus! {

/// Version tag of the daily aggregation method.
pub const METHODOLOGY_VERSION: &'static str = "casp-daily-activity-v1";

/// Version tag of the USD/EUR conversion (parity in this demonstration).
pub const CONVERSION_METHODOLOGY: &'static str = "demo-usd-eur-parity-v1";

/// One completed operation as the reporting store projects it.
#[derive(Debug, Clone, PartialEq, Eq)]
pub struct ReportingEvent {
    pub date_utc: String,
    pub operation_id: String,
    pub classification: String,
    pub value_raw: u64,
    /// The fiat value in USD cents recorded with the operation, if any.
    pub value_usd_minor: Option<u64>,
    pub fee_raw: u64,
    pub known_onchain_overlap: bool,
}

/// Where completed operations are read from for a date range.
pub trait ReportingStore {
    /// `answer` is an answer the store may give when asked for the
    /// operations of `from..=to`; a store that does not say is taken to give
    /// any answer.
    open spec fn answers_events(
        &self,
        from: Seq<char>,
        to: Seq<char>,
        answer: Result<Seq<ReportingEvent>, ReportingError>,
    ) -> bool {
        true
    }

    /// The completed operations of `from..=to`.
    fn events(&self, from: &str, to: &str) -> (r: Result<Vec<ReportingEvent>, ReportingError>)
        ensures
            self.answers_events(from@, to@, events_answer(r)),
    ;
}

/// A store's answer with the events as plain values.
pub open spec fn events_answer(r: Result<Vec<ReportingEvent>, ReportingError>) -> Result<
    Seq<ReportingEvent>,
    ReportingError,
> {
    match r {
        Ok(v) => Ok(v@),
        Err(e) => Err(e),
    }
}

/// Count and raw value of one classification on one day.
#[derive(Debug, Clone, PartialEq, Eq)]
pub struct ClassificationAggregate {
    pub classification: String,
    pub operation_count: u64,
    pub value_raw: String,
}

/// Everything reported for one UTC day.
#[derive(Debug, Clone, PartialEq, Eq)]
pub struct DailyTransactionAggregate {
    pub date_utc: String,
    pub asset_symbol: String,
    pub currency_area: String,
    pub total_operation_count: u64,
    pub total_value_raw: String,
    pub total_value_usd_minor: String,
    pub means_of_exchange_count: u64,
    pub means_of_exchange_value_raw: String,
    pub means_of_exchange_value_usd_minor: String,
    pub means_of_exchange_value_eur_minor: String,
    pub excluded_operation_count: u64,
    pub known_onchain_overlap_count: u64,
    pub known_onchain_overlap_value_raw: String,
    pub classifications: Vec<ClassificationAggregate>,
    pub methodology_version: String,
    pub conversion_methodology: String,
}

/// The report for a date range: one entry per day that had operations.
#[derive(Debug, Clone, PartialEq, Eq)]
pub struct DailyTransactionReport {
    pub from_date_utc: String,
    pub to_date_utc: String,
    pub days: Vec<DailyTransactionAggregate>,
}

/// Failures of daily reporting.
#[derive(Debug)]
pub enum ReportingError {
    InvalidDateRange,
    InvalidAmount,
    Overflow,
    Storage(String),
}

/// The text of a reporting failure.
pub open spec fn reporting_error_text(e: ReportingError) -> Seq<char> {
    match e {
        ReportingError::InvalidDateRange => "from/to must form an ordered YYYY-MM-DD UTC date range"@,
        ReportingError::InvalidAmount => "reporting values must represent whole USD cents"@,
        ReportingError::Overflow => "daily reporting arithmetic overflow"@,
        ReportingError::Storage(m) => "daily reporting persistence failed: "@ + m@,
    }
}

impl ReportingError {
    /// The failure as it is reported.
    pub fn message(&self) -> (r: String)
        ensures
            r@ == reporting_error_text(*self),
    {
        match self {
            ReportingError::InvalidDateRange => String::from_str("from/to must form an ordered YYYY-MM-DD UTC date range"),
            ReportingError::InvalidAmount => String::from_str("reporting values must represent whole USD cents"),
            ReportingError::Overflow => String::from_str("daily reporting arithmetic overflow"),
            ReportingError::Storage(m) => String::from_str("daily reporting persistence failed: ").concat(m.as_str()),
        }
    }
}

/// The value of one ASCII digit.
pub open spec fn digit_value(c: char) -> int {
    c as int - '0' as int
}

/// `YYYY-MM-DD`: ten characters, dashes at 4 and 7, digits elsewhere.
pub open spec fn date_shape(s: Seq<char>) -> bool {
    &&& s.len() == 10
    &&& s[4] == '-'
    &&& s[7] == '-'
    &&& forall|i: int| 0 <= i < 10 && i != 4 && i != 7 ==> is_digit(#[trigger] s[i])
}

/// The year, month and day that a date-shaped text spells.
pub open spec fn date_year(s: Seq<char>) -> int {
    1000 * digit_value(s[0]) + 100 * digit_value(s[1]) + 10 * digit_value(s[2]) + digit_value(s[3])
}

pub open spec fn date_month(s: Seq<char>) -> int {
    10 * digit_value(s[5]) + digit_value(s[6])
}

pub open spec fn date_day(s: Seq<char>) -> int {
    10 * digit_value(s[8]) + digit_value(s[9])
}

/// Gregorian leap years.
pub open spec fn is_leap_year(year: int) -> bool {
    year % 4 == 0 && (year % 100 != 0 || year % 400 == 0)
}

/// Days in `month` of `year`; zero for a month that does not exist.
pub open spec fn days_in_month(year: int, month: int) -> int {
    if month == 1 || month == 3 || month == 5 || month == 7 || month == 8 || month == 10 || month
        == 12 {
        31
    } else if month == 4 || month == 6 || month == 9 || month == 11 {
        30
    } else if month == 2 {
        if is_leap_year(year) {
            29
        } else {
            28
        }
    } else {
        0
    }
}

/// A calendar date written `YYYY-MM-DD` that exists.
pub open spec fn spec_valid_date(s: Seq<char>) -> bool {
    &&& date_shape(s)
    &&& 1 <= date_day(s) <= days_in_month(date_year(s), date_month(s))
}

fn digit_at(value: &str, i: usize) -> (d: u32)
    requires
        i < value@.len(),
        is_digit(value@[i as int]),
    ensures
        d == digit_value(value@[i as int]),
        d <= 9,
{
    let c = value.get_char(i);
    c as u32 - '0' as u32
}

/// Checks that `value` is an existing calendar date in `YYYY-MM-DD` form.
pub fn validate_date(value: &str) -> (r: Result<(), ReportingError>)
    ensures
        r is Ok <==> spec_valid_date(value@),
        r is Err ==> r->Err_0 is InvalidDateRange,
{
    if value.unicode_len() != 10 {
        return Err(ReportingError::InvalidDateRange);
    }
    let mut i: usize = 0;
    while i < 10
        invariant
            value@.len() == 10,
            i <= 10,
            forall|k: int| 0 <= k < i && k != 4 && k != 7 ==> is_digit(#[trigger] value@[k]),
            i > 4 ==> value@[4] == '-',
            i > 7 ==> value@[7] == '-',
        decreases 10 - i,
    {
        let c = value.get_char(i);
        if i == 4 || i == 7 {
            if c != '-' {
                return Err(ReportingError::InvalidDateRange);
            }
        } else if !('0' <= c && c <= '9') {
            return Err(ReportingError::InvalidDateRange);
        }
        i = i + 1;
    }
    assert(is_digit(value@[0]) && is_digit(value@[1]) && is_digit(value@[2]) && is_digit(value@[3]));
    assert(is_digit(value@[5]) && is_digit(value@[6]) && is_digit(value@[8]) && is_digit(value@[9]));
    let year = 1000 * digit_at(value, 0) + 100 * digit_at(value, 1) + 10 * digit_at(value, 2)
        + digit_at(value, 3);
    let month = 10 * digit_at(value, 5) + digit_at(value, 6);
    let day = 10 * digit_at(value, 8) + digit_at(value, 9);
    let leap = year % 4 == 0 && (year % 100 != 0 || year % 400 == 0);
    let maximum: u32 = if month == 1 || month == 3 || month == 5 || month == 7 || month == 8
        || month == 10 || month == 12 {
        31
    } else if month == 4 || month == 6 || month == 9 || month == 11 {
        30
    } else if month == 2 && leap {
        29
    } else if month == 2 {
        28
    } else {
        0
    };
    if day > 0 && day <= maximum {
        Ok(())
    } else {
        Err(ReportingError::InvalidDateRange)
    }
}

/// Lexicographic order of character sequences, as `str`'s `<` orders text.
pub open spec fn text_lt(a: Seq<char>, b: Seq<char>) -> bool
    decreases a.len(),
{
    if a.len() == 0 {
        b.len() > 0
    } else if b.len() == 0 {
        false
    } else if a[0] != b[0] {
        a[0] < b[0]
    } else {
        text_lt(a.drop_first(), b.drop_first())
    }
}

/// Law: the text order is a strict total order.
pub proof fn lemma_text_lt_total(a: Seq<char>, b: Seq<char>)
    ensures
        !(text_lt(a, b) && text_lt(b, a)),
        a != b ==> text_lt(a, b) || text_lt(b, a),
        !text_lt(a, a),
    decreases a.len(),
{
    if a.len() > 0 && b.len() > 0 && a[0] == b[0] {
        lemma_text_lt_total(a.drop_first(), b.drop_first());
        if a != b {
            assert(a.drop_first() != b.drop_first()) by {
                if a.drop_first() == b.drop_first() {
                    assert(a =~= seq![a[0]] + a.drop_first());
                    assert(b =~= seq![b[0]] + b.drop_first());
                }
            }
        }
    }
    if a.len() > 0 {
        lemma_text_lt_total(a.drop_first(), a.drop_first());
    }
    if a.len() == 0 && b.len() == 0 {
        assert(a =~= b);
    }
}

/// Law: the text order is transitive.
pub proof fn lemma_text_lt_transitive(a: Seq<char>, b: Seq<char>, c: Seq<char>)
    requires
        text_lt(a, b),
        text_lt(b, c),
    ensures
        text_lt(a, c),
    decreases a.len(),
{
    if a.len() > 0 && b.len() > 0 && c.len() > 0 && a[0] == b[0] && b[0] == c[0] {
        lemma_text_lt_transitive(a.drop_first(), b.drop_first(), c.drop_first());
    }
}

/// Compares two texts in `str` order (`a < b`).
pub fn str_lt(a: &str, b: &str) -> (r: bool)
    ensures
        r == text_lt(a@, b@),
{
    let n = a.unicode_len();
    let m = b.unicode_len();
    let mut i: usize = 0;
    assert(a@.skip(0) =~= a@);
    assert(b@.skip(0) =~= b@);
    while i < n && i < m
        invariant
            n == a@.len(),
            m == b@.len(),
            i <= n,
            i <= m,
            text_lt(a@, b@) == text_lt(a@.skip(i as int), b@.skip(i as int)),
        decreases n - i,
    {
        let x = a.get_char(i);
        let y = b.get_char(i);
        assert(a@.skip(i as int)[0] == x);
        assert(b@.skip(i as int)[0] == y);
        if x != y {
            return x < y;
        }
        assert(a@.skip(i as int).drop_first() =~= a@.skip(i + 1));
        assert(b@.skip(i as int).drop_first() =~= b@.skip(i + 1));
        i = i + 1;
    }
    i < m
}

/// Raw token units as whole USD cents; a fraction of a cent is refused.
pub fn raw_to_minor(raw: u64) -> (r: Result<u64, ReportingError>)
    ensures
        raw % 10_000 == 0 ==> r == Ok::<u64, ReportingError>(raw / 10_000),
        raw % 10_000 != 0 ==> r matches Err(ReportingError::InvalidAmount),
{
    if raw % 10_000 != 0 {
        return Err(ReportingError::InvalidAmount);
    }
    Ok(raw / 10_000)
}

/// Addition that reports overflow as a reporting error.
pub fn checked_add(left: u64, right: u64) -> (r: Result<u64, ReportingError>)
    ensures
        left + right <= u64::MAX ==> r == Ok::<u64, ReportingError>((left + right) as u64),
        left + right > u64::MAX ==> r matches Err(ReportingError::Overflow),
{
    match left.checked_add(right) {
        Some(v) => Ok(v),
        None => Err(ReportingError::Overflow),
    }
}


/// The sum of `f` over a sequence of events.
pub open spec fn tally(events: Seq<ReportingEvent>, f: spec_fn(ReportingEvent) -> nat) -> nat
    decreases events.len(),
{
    if events.len() == 0 {
        0
    } else {
        tally(events.drop_last(), f) + f(events.last())
    }
}

proof fn lemma_tally_step(events: Seq<ReportingEvent>, f: spec_fn(ReportingEvent) -> nat, i: int)
    requires
        0 <= i < events.len(),
    ensures
        tally(events.take(i + 1), f) == tally(events.take(i), f) + f(events[i]),
{
    assert(events.take(i + 1).drop_last() =~= events.take(i));
}

proof fn lemma_tally_prefix(events: Seq<ReportingEvent>, f: spec_fn(ReportingEvent) -> nat, k: int)
    requires
        0 <= k <= events.len(),
    ensures
        tally(events.take(k), f) <= tally(events, f),
    decreases events.len() - k,
{
    if k < events.len() {
        lemma_tally_prefix(events, f, k + 1);
        lemma_tally_step(events, f, k);
    } else {
        assert(events.take(k) =~= events);
    }
}

proof fn lemma_tally_remove(events: Seq<ReportingEvent>, f: spec_fn(ReportingEvent) -> nat, k: int)
    requires
        0 <= k < events.len(),
    ensures
        tally(events, f) == tally(events.remove(k), f) + f(events[k]),
    decreases events.len(),
{
    if k == events.len() - 1 {
        assert(events.remove(k) =~= events.drop_last());
    } else {
        lemma_tally_remove(events.drop_last(), f, k);
        assert(events.drop_last().remove(k) =~= events.remove(k).drop_last());
        assert(events.remove(k).last() == events.last());
    }
}

/// Law: a tally does not depend on the order of the events: two lists that
/// hold the same events, each as often, have the same tally.
pub proof fn lemma_tally_permutation(a: Seq<ReportingEvent>, b: Seq<ReportingEvent>, f: spec_fn(ReportingEvent) -> nat)
    requires
        a.to_multiset() == b.to_multiset(),
    ensures
        tally(a, f) == tally(b, f),
    decreases a.len(),
{
    broadcast use vstd::seq_lib::group_to_multiset_ensures;

    if a.len() == 0 {
        assert(a.to_multiset().len() == a.len());
        assert(b.to_multiset().len() == b.len());
        assert(b.len() == 0);
    } else {
        let x = a.last();
        assert(a.drop_last().push(x) =~= a);
        assert(b.to_multiset().count(x) > 0);
        assert(b.contains(x));
        let k = choose|k: int| 0 <= k < b.len() && b[k] == x;
        assert(a.drop_last().to_multiset() =~= b.remove(k).to_multiset());
        lemma_tally_permutation(a.drop_last(), b.remove(k), f);
        lemma_tally_remove(b, f, k);
    }
}

/// The event happened on the day written `d`.
pub open spec fn on_day(e: ReportingEvent, d: Seq<char>) -> bool {
    e.date_utc@ == d
}

pub open spec fn sel_count(d: Seq<char>) -> spec_fn(ReportingEvent) -> nat {
    |e: ReportingEvent| if on_day(e, d) { 1nat } else { 0nat }
}

pub open spec fn sel_value(d: Seq<char>) -> spec_fn(ReportingEvent) -> nat {
    |e: ReportingEvent| if on_day(e, d) { e.value_raw as nat } else { 0nat }
}

/// The recorded fiat value of an event of day `d` that has one.
pub open spec fn sel_fiat(d: Seq<char>) -> spec_fn(ReportingEvent) -> nat {
    |e: ReportingEvent|
        match e.value_usd_minor {
            Some(m) => if on_day(e, d) { m as nat } else { 0nat },
            None => 0nat,
        }
}

/// The raw value of an event of day `d` that has no recorded fiat value.
pub open spec fn sel_plain(d: Seq<char>) -> spec_fn(ReportingEvent) -> nat {
    |e: ReportingEvent| if on_day(e, d) && e.value_usd_minor is None { e.value_raw as nat } else { 0nat }
}

/// `sel_fiat` restricted to classification `c`.
pub open spec fn sel_class_fiat(d: Seq<char>, c: Seq<char>) -> spec_fn(ReportingEvent) -> nat {
    |e: ReportingEvent|
        match e.value_usd_minor {
            Some(m) => if on_day(e, d) && e.classification@ == c { m as nat } else { 0nat },
            None => 0nat,
        }
}

/// `sel_plain` restricted to classification `c`.
pub open spec fn sel_class_plain(d: Seq<char>, c: Seq<char>) -> spec_fn(ReportingEvent) -> nat {
    |e: ReportingEvent|
        if on_day(e, d) && e.classification@ == c && e.value_usd_minor is None {
            e.value_raw as nat
        } else {
            0nat
        }
}

/// The USD cents of day `d`: the fiat values recorded with its operations,
/// plus the raw value of the others in whole cents.
pub open spec fn day_usd(events: Seq<ReportingEvent>, d: Seq<char>) -> nat {
    tally(events, sel_fiat(d)) + tally(events, sel_plain(d)) / 10_000
}

/// The USD cents of day `d`'s use as a means of exchange, in the same way.
pub open spec fn means_usd(events: Seq<ReportingEvent>, d: Seq<char>) -> nat {
    tally(events, sel_class_fiat(d, class_name(means_index()))) + tally(
        events,
        sel_class_plain(d, class_name(means_index())),
    ) / 10_000
}

pub open spec fn sel_class_count(d: Seq<char>, c: Seq<char>) -> spec_fn(ReportingEvent) -> nat {
    |e: ReportingEvent| if on_day(e, d) && e.classification@ == c { 1nat } else { 0nat }
}

pub open spec fn sel_class_value(d: Seq<char>, c: Seq<char>) -> spec_fn(ReportingEvent) -> nat {
    |e: ReportingEvent|
        if on_day(e, d) && e.classification@ == c {
            e.value_raw as nat
        } else {
            0nat
        }
}

pub open spec fn sel_fee_count(d: Seq<char>) -> spec_fn(ReportingEvent) -> nat {
    |e: ReportingEvent| if on_day(e, d) && e.fee_raw > 0 { 1nat } else { 0nat }
}

pub open spec fn sel_fee_value(d: Seq<char>) -> spec_fn(ReportingEvent) -> nat {
    |e: ReportingEvent| if on_day(e, d) { e.fee_raw as nat } else { 0nat }
}

pub open spec fn sel_overlap_count(d: Seq<char>) -> spec_fn(ReportingEvent) -> nat {
    |e: ReportingEvent| if on_day(e, d) && e.known_onchain_overlap { 1nat } else { 0nat }
}

pub open spec fn sel_overlap_value(d: Seq<char>) -> spec_fn(ReportingEvent) -> nat {
    |e: ReportingEvent|
        if on_day(e, d) && e.known_onchain_overlap {
            e.value_raw as nat
        } else {
            0nat
        }
}

/// The classifications that every day reports, in report order.
pub open spec fn class_name(k: int) -> Seq<char> {
    if k == 0 {
        "custody_rebalancing"@
    } else if k == 1 {
        "exchange_for_funds"@
    } else if k == 2 {
        "fee"@
    } else if k == 3 {
        "goods_or_services"@
    } else if k == 4 {
        "private_transfer"@
    } else if k == 5 {
        "same_owner_transfer"@
    } else {
        "unknown"@
    }
}

/// Index of the `fee` classification, which also counts every charged fee.
pub open spec fn fee_index() -> int {
    2
}

/// Index of `goods_or_services`, the use of the token as a means of exchange.
pub open spec fn means_index() -> int {
    3
}

/// Operations of classification `k` on day `d`; the fee line also counts each
/// operation that charged a fee.
pub open spec fn class_count_total(events: Seq<ReportingEvent>, d: Seq<char>, k: int) -> nat {
    tally(events, sel_class_count(d, class_name(k))) + if k == fee_index() {
        tally(events, sel_fee_count(d))
    } else {
        0
    }
}

/// Raw value of classification `k` on day `d`; the fee line also adds every fee charged.
pub open spec fn class_value_total(events: Seq<ReportingEvent>, d: Seq<char>, k: int) -> nat {
    tally(events, sel_class_value(d, class_name(k))) + if k == fee_index() {
        tally(events, sel_fee_value(d))
    } else {
        0
    }
}

/// A running total of day `d` leaves 64 bits.
pub open spec fn day_overflows(events: Seq<ReportingEvent>, d: Seq<char>) -> bool {
    tally(events, sel_value(d)) > u64::MAX || class_value_total(events, d, fee_index())
        > u64::MAX || class_count_total(events, d, fee_index()) > u64::MAX || tally(events, sel_fiat(d))
        > u64::MAX
}

/// Why day `d` cannot be reported: an overflow; or a raw value without a
/// recorded fiat value that is not a whole number of cents, over the day or
/// over its means of exchange; or USD cents past 64 bits.
pub open spec fn spec_day_error(events: Seq<ReportingEvent>, d: Seq<char>) -> Option<ReportingError> {
    if day_overflows(events, d) {
        Some(ReportingError::Overflow)
    } else if tally(events, sel_plain(d)) % 10_000 != 0 || tally(
        events,
        sel_class_plain(d, class_name(means_index())),
    ) % 10_000 != 0 {
        Some(ReportingError::InvalidAmount)
    } else if day_usd(events, d) > u64::MAX {
        Some(ReportingError::Overflow)
    } else {
        None
    }
}

/// `a` reports day `d` of `events`.
pub open spec fn spec_day_matches(
    a: DailyTransactionAggregate,
    events: Seq<ReportingEvent>,
    d: Seq<char>,
) -> bool {
    let total_count = tally(events, sel_count(d));
    let total_value = tally(events, sel_value(d));
    let means_count = class_count_total(events, d, means_index());
    let means_value = class_value_total(events, d, means_index());
    &&& a.date_utc@ == d
    &&& a.asset_symbol@ == "rUSD"@
    &&& a.currency_area@ == "USD"@
    &&& a.total_operation_count == total_count
    &&& a.total_value_raw@ == decimal_nat(total_value)
    &&& a.total_value_usd_minor@ == decimal_nat(day_usd(events, d))
    &&& a.means_of_exchange_count == means_count
    &&& a.means_of_exchange_value_raw@ == decimal_nat(means_value)
    &&& a.means_of_exchange_value_usd_minor@ == decimal_nat(means_usd(events, d))
    &&& a.means_of_exchange_value_eur_minor@ == decimal_nat(means_usd(events, d))
    &&& a.excluded_operation_count == total_count - means_count
    &&& a.known_onchain_overlap_count == tally(events, sel_overlap_count(d))
    &&& a.known_onchain_overlap_value_raw@ == decimal_nat(tally(events, sel_overlap_value(d)))
    &&& a.classifications@.len() == 7
    &&& forall|k: int|
        0 <= k < 7 ==> {
            &&& (#[trigger] a.classifications@[k]).classification@ == class_name(k)
            &&& a.classifications@[k].operation_count == class_count_total(events, d, k)
            &&& a.classifications@[k].value_raw@ == decimal_nat(class_value_total(events, d, k))
        }
    &&& a.methodology_version@ == METHODOLOGY_VERSION@
    &&& a.conversion_methodology@ == CONVERSION_METHODOLOGY@
}

/// Law: a day's report does not depend on the order in which the store hands
/// out the events: two lists that hold the same events, each as often, give
/// day `d` the same error, or the same report.
pub proof fn lemma_day_ignores_order(
    a: Seq<ReportingEvent>,
    b: Seq<ReportingEvent>,
    d: Seq<char>,
    day: DailyTransactionAggregate,
)
    requires
        a.to_multiset() == b.to_multiset(),
    ensures
        spec_day_error(a, d) == spec_day_error(b, d),
        spec_day_matches(day, a, d) <==> spec_day_matches(day, b, d),
{
    lemma_tally_permutation(a, b, sel_count(d));
    lemma_tally_permutation(a, b, sel_value(d));
    lemma_tally_permutation(a, b, sel_fee_count(d));
    lemma_tally_permutation(a, b, sel_fee_value(d));
    lemma_tally_permutation(a, b, sel_overlap_count(d));
    lemma_tally_permutation(a, b, sel_overlap_value(d));
    lemma_tally_permutation(a, b, sel_fiat(d));
    lemma_tally_permutation(a, b, sel_plain(d));
    lemma_tally_permutation(a, b, sel_class_fiat(d, class_name(means_index())));
    lemma_tally_permutation(a, b, sel_class_plain(d, class_name(means_index())));
    assert forall|k: int| 0 <= k < 7 implies #[trigger] class_count_total(a, d, k) == class_count_total(
        b,
        d,
        k,
    ) && class_value_total(a, d, k) == class_value_total(b, d, k) by {
        lemma_tally_permutation(a, b, sel_class_count(d, class_name(k)));
        lemma_tally_permutation(a, b, sel_class_value(d, class_name(k)));
    }
    assert(class_count_total(a, d, fee_index()) == class_count_total(b, d, fee_index()));
    assert(class_value_total(a, d, fee_index()) == class_value_total(b, d, fee_index()));
    assert(class_count_total(a, d, means_index()) == class_count_total(b, d, means_index()));
    assert(class_value_total(a, d, means_index()) == class_value_total(b, d, means_index()));
}

/// One for every event.
pub open spec fn each_one() -> spec_fn(ReportingEvent) -> nat {
    |e: ReportingEvent| 1nat
}

/// The raw value of every event.
pub open spec fn each_value() -> spec_fn(ReportingEvent) -> nat {
    |e: ReportingEvent| e.value_raw as nat
}

/// One for every event with a known on-chain overlap.
pub open spec fn each_overlap() -> spec_fn(ReportingEvent) -> nat {
    |e: ReportingEvent| if e.known_onchain_overlap { 1nat } else { 0nat }
}

/// The raw value of every event with a known on-chain overlap.
pub open spec fn each_overlap_value() -> spec_fn(ReportingEvent) -> nat {
    |e: ReportingEvent| if e.known_onchain_overlap { e.value_raw as nat } else { 0nat }
}

/// One for every event of classification `c`.
pub open spec fn each_of_class(c: Seq<char>) -> spec_fn(ReportingEvent) -> nat {
    |e: ReportingEvent| if e.classification@ == c { 1nat } else { 0nat }
}

proof fn lemma_tally_same(events: Seq<ReportingEvent>, f: spec_fn(ReportingEvent) -> nat, g: spec_fn(ReportingEvent) -> nat)
    requires
        forall|i: int| 0 <= i < events.len() ==> f(#[trigger] events[i]) == g(events[i]),
    ensures
        tally(events, f) == tally(events, g),
    decreases events.len(),
{
    if events.len() > 0 {
        let p = events.drop_last();
        assert forall|i: int| 0 <= i < p.len() implies f(#[trigger] p[i]) == g(p[i]) by {
            assert(p[i] == events[i]);
        }
        lemma_tally_same(p, f, g);
        assert(f(events[events.len() - 1]) == g(events[events.len() - 1]));
    }
}

proof fn lemma_tally_ones(events: Seq<ReportingEvent>)
    ensures
        tally(events, each_one()) == events.len(),
    decreases events.len(),
{
    if events.len() > 0 {
        lemma_tally_ones(events.drop_last());
    }
}

/// Law: when every event falls on day `d`, the day's figures are plain sums
/// over the events: its count is the number of events, its raw value their
/// sum, its overlap figures those of the events with a known on-chain
/// overlap, its means of exchange the goods-or-services events, the excluded
/// operations the rest, and the EUR figure equals the USD one.
pub proof fn lemma_single_day_figures(events: Seq<ReportingEvent>, d: Seq<char>, a: DailyTransactionAggregate)
    requires
        forall|i: int| 0 <= i < events.len() ==> (#[trigger] events[i]).date_utc@ == d,
        spec_day_matches(a, events, d),
    ensures
        a.total_operation_count == events.len(),
        a.total_value_raw@ == decimal_nat(tally(events, each_value())),
        a.known_onchain_overlap_count == tally(events, each_overlap()),
        a.known_onchain_overlap_value_raw@ == decimal_nat(tally(events, each_overlap_value())),
        a.means_of_exchange_count == tally(events, each_of_class("goods_or_services"@)),
        a.excluded_operation_count == events.len() - tally(events, each_of_class("goods_or_services"@)),
        a.means_of_exchange_value_eur_minor@ == a.means_of_exchange_value_usd_minor@,
{
    lemma_tally_same(events, sel_count(d), each_one());
    lemma_tally_ones(events);
    lemma_tally_same(events, sel_value(d), each_value());
    lemma_tally_same(events, sel_overlap_count(d), each_overlap());
    lemma_tally_same(events, sel_overlap_value(d), each_overlap_value());
    lemma_tally_same(events, sel_class_count(d, class_name(means_index())), each_of_class("goods_or_services"@));
}

/// Law: every day lists the seven classifications in this order, and an
/// event of any other classification adds to none of their lines (a fee it
/// charged still counts on the fee line).
pub proof fn lemma_day_lines(events: Seq<ReportingEvent>, d: Seq<char>, a: DailyTransactionAggregate, i: int, k: int)
    requires
        spec_day_matches(a, events, d),
        0 <= i < events.len(),
        0 <= k < 7,
        forall|j: int| 0 <= j < 7 ==> events[i].classification@ != class_name(j),
    ensures
        a.classifications@.len() == 7,
        a.classifications@[0].classification@ == "custody_rebalancing"@,
        a.classifications@[1].classification@ == "exchange_for_funds"@,
        a.classifications@[2].classification@ == "fee"@,
        a.classifications@[3].classification@ == "goods_or_services"@,
        a.classifications@[4].classification@ == "private_transfer"@,
        a.classifications@[5].classification@ == "same_owner_transfer"@,
        a.classifications@[6].classification@ == "unknown"@,
        sel_class_count(d, class_name(k))(events[i]) == 0,
        sel_class_value(d, class_name(k))(events[i]) == 0,
{
    assert(a.classifications@[0].classification@ == class_name(0));
    assert(a.classifications@[1].classification@ == class_name(1));
    assert(a.classifications@[2].classification@ == class_name(2));
    assert(a.classifications@[3].classification@ == class_name(3));
    assert(a.classifications@[4].classification@ == class_name(4));
    assert(a.classifications@[5].classification@ == class_name(5));
    assert(a.classifications@[6].classification@ == class_name(6));
}

fn class_name_str(k: usize) -> (r: &'static str)
    requires
        k < 7,
    ensures
        r@ == class_name(k as int),
{
    if k == 0 {
        "custody_rebalancing"
    } else if k == 1 {
        "exchange_for_funds"
    } else if k == 2 {
        "fee"
    } else if k == 3 {
        "goods_or_services"
    } else if k == 4 {
        "private_transfer"
    } else if k == 5 {
        "same_owner_transfer"
    } else {
        "unknown"
    }
}

proof fn lemma_class_names_distinct()
    ensures
        forall|j: int, k: int| 0 <= j < 7 && 0 <= k < 7 && j != k ==> class_name(j) != class_name(k),
{
    reveal_strlit("custody_rebalancing");
    reveal_strlit("exchange_for_funds");
    reveal_strlit("fee");
    reveal_strlit("goods_or_services");
    reveal_strlit("private_transfer");
    reveal_strlit("same_owner_transfer");
    reveal_strlit("unknown");
    assert("custody_rebalancing"@.len() == 19);
    assert("exchange_for_funds"@.len() == 18);
    assert("fee"@.len() == 3);
    assert("goods_or_services"@.len() == 17);
    assert("private_transfer"@.len() == 16);
    assert("same_owner_transfer"@.len() == 19);
    assert("unknown"@.len() == 7);
    assert("custody_rebalancing"@[0] == 'c');
    assert("same_owner_transfer"@[0] == 's');
}

/// The position of `c` among the reported classifications, if it is one of them.
fn class_index(c: &str) -> (r: Option<usize>)
    ensures
        match r {
            Some(k) => k < 7 && c@ == class_name(k as int),
            None => forall|k: int| 0 <= k < 7 ==> c@ != class_name(k),
        },
{
    let mut k: usize = 0;
    while k < 7
        invariant
            k <= 7,
            forall|j: int| 0 <= j < k ==> c@ != class_name(j),
        decreases 7 - k,
    {
        if str_eq(c, class_name_str(k)) {
            return Some(k);
        }
        k = k + 1;
    }
    None
}

#[verifier::spinoff_prover]
#[verifier::rlimit(30)]
proof fn lemma_day_step(events: Seq<ReportingEvent>, d: Seq<char>, i: int)
    requires
        0 <= i < events.len(),
    ensures
        tally(events.take(i + 1), sel_count(d)) == tally(events.take(i), sel_count(d)) + sel_count(
            d,
        )(events[i]),
        tally(events.take(i + 1), sel_value(d)) == tally(events.take(i), sel_value(d)) + sel_value(
            d,
        )(events[i]),
        tally(events.take(i + 1), sel_fee_count(d)) == tally(events.take(i), sel_fee_count(d))
            + sel_fee_count(d)(events[i]),
        tally(events.take(i + 1), sel_fee_value(d)) == tally(events.take(i), sel_fee_value(d))
            + sel_fee_value(d)(events[i]),
        tally(events.take(i + 1), sel_overlap_count(d)) == tally(
            events.take(i),
            sel_overlap_count(d),
        ) + sel_overlap_count(d)(events[i]),
        tally(events.take(i + 1), sel_overlap_value(d)) == tally(
            events.take(i),
            sel_overlap_value(d),
        ) + sel_overlap_value(d)(events[i]),
        tally(events.take(i + 1), sel_fiat(d)) == tally(events.take(i), sel_fiat(d)) + sel_fiat(d)(
            events[i],
        ),
        tally(events.take(i + 1), sel_plain(d)) == tally(events.take(i), sel_plain(d)) + sel_plain(d)(
            events[i],
        ),
        tally(events.take(i + 1), sel_class_fiat(d, class_name(means_index()))) == tally(
            events.take(i),
            sel_class_fiat(d, class_name(means_index())),
        ) + sel_class_fiat(d, class_name(means_index()))(events[i]),
        tally(events.take(i + 1), sel_class_plain(d, class_name(means_index()))) == tally(
            events.take(i),
            sel_class_plain(d, class_name(means_index())),
        ) + sel_class_plain(d, class_name(means_index()))(events[i]),
        forall|k: int|
            0 <= k < 7 ==> {
                &&& #[trigger] class_count_total(events.take(i + 1), d, k) == class_count_total(
                    events.take(i),
                    d,
                    k,
                ) + sel_class_count(d, class_name(k))(events[i]) + if k == fee_index() {
                    sel_fee_count(d)(events[i])
                } else {
                    0
                }
                &&& class_value_total(events.take(i + 1), d, k) == class_value_total(
                    events.take(i),
                    d,
                    k,
                ) + sel_class_value(d, class_name(k))(events[i]) + if k == fee_index() {
                    sel_fee_value(d)(events[i])
                } else {
                    0
                }
            },
{
    lemma_tally_step(events, sel_count(d), i);
    lemma_tally_step(events, sel_value(d), i);
    lemma_tally_step(events, sel_fee_count(d), i);
    lemma_tally_step(events, sel_fee_value(d), i);
    lemma_tally_step(events, sel_overlap_count(d), i);
    lemma_tally_step(events, sel_overlap_value(d), i);
    lemma_tally_step(events, sel_fiat(d), i);
    lemma_tally_step(events, sel_plain(d), i);
    lemma_tally_step(events, sel_class_fiat(d, class_name(means_index())), i);
    lemma_tally_step(events, sel_class_plain(d, class_name(means_index())), i);
    assert forall|k: int| 0 <= k < 7 implies {
        &&& #[trigger] class_count_total(events.take(i + 1), d, k) == class_count_total(
            events.take(i),
            d,
            k,
        ) + sel_class_count(d, class_name(k))(events[i]) + if k == fee_index() {
            sel_fee_count(d)(events[i])
        } else {
            0
        }
        &&& class_value_total(events.take(i + 1), d, k) == class_value_total(
            events.take(i),
            d,
            k,
        ) + sel_class_value(d, class_name(k))(events[i]) + if k == fee_index() {
            sel_fee_value(d)(events[i])
        } else {
            0
        }
    } by {
        lemma_tally_step(events, sel_class_count(d, class_name(k)), i);
        lemma_tally_step(events, sel_class_value(d, class_name(k)), i);
    }
}


proof fn lemma_class_total_prefix(events: Seq<ReportingEvent>, d: Seq<char>, k: int, j: int)
    requires
        0 <= j <= events.len(),
    ensures
        class_value_total(events.take(j), d, k) <= class_value_total(events, d, k),
        class_count_total(events.take(j), d, k) <= class_count_total(events, d, k),
        tally(events.take(j), sel_value(d)) <= tally(events, sel_value(d)),
        tally(events.take(j), sel_fiat(d)) <= tally(events, sel_fiat(d)),
{
    lemma_tally_prefix(events, sel_class_value(d, class_name(k)), j);
    lemma_tally_prefix(events, sel_class_count(d, class_name(k)), j);
    lemma_tally_prefix(events, sel_fee_value(d), j);
    lemma_tally_prefix(events, sel_fee_count(d), j);
    lemma_tally_prefix(events, sel_value(d), j);
    lemma_tally_prefix(events, sel_fiat(d), j);
}

/// Aggregates the events of `events` that fall on `date` into that day's report.
/// Overflowing totals and totals that are not whole cents are refused.
#[verifier::spinoff_prover]
#[verifier::rlimit(80)]
pub fn aggregate_day(date: String, events: &Vec<ReportingEvent>) -> (r: Result<
    DailyTransactionAggregate,
    ReportingError,
>)
    ensures
        match spec_day_error(events@, date@) {
            Some(e) => r == Err::<DailyTransactionAggregate, ReportingError>(e),
            None => r matches Ok(a) && spec_day_matches(a, events@, date@),
        },
{
    let ghost d = date@;
    let ghost evs = events@;
    proof {
        lemma_class_names_distinct();
    }
    let mut count: u64 = 0;
    let mut total: u64 = 0;
    let mut overlap_count: u64 = 0;
    let mut overlap_value: u64 = 0;
    let mut fiat: u64 = 0;
    let mut plain: u64 = 0;
    let mut means_fiat: u64 = 0;
    let mut means_plain: u64 = 0;
    let mut counts: Vec<u64> = Vec::new();
    let mut values: Vec<u64> = Vec::new();
    let mut k: usize = 0;
    while k < 7
        invariant
            k <= 7,
            counts@.len() == k,
            values@.len() == k,
            forall|j: int| 0 <= j < k ==> counts@[j] == 0 && values@[j] == 0,
        decreases 7 - k,
    {
        counts.push(0);
        values.push(0);
        k = k + 1;
    }
    let mut i: usize = 0;
    assert(evs.take(0) =~= Seq::<ReportingEvent>::empty());
    while i < events.len()
        invariant
            evs == events@,
            d == date@,
            i <= events.len(),
            counts@.len() == 7,
            values@.len() == 7,
            forall|j: int, k: int| 0 <= j < 7 && 0 <= k < 7 && j != k ==> class_name(j) != class_name(k),
            count == tally(evs.take(i as int), sel_count(d)),
            count <= i,
            total == tally(evs.take(i as int), sel_value(d)),
            overlap_count == tally(evs.take(i as int), sel_overlap_count(d)),
            overlap_count <= count,
            overlap_value == tally(evs.take(i as int), sel_overlap_value(d)),
            overlap_value <= total,
            fiat == tally(evs.take(i as int), sel_fiat(d)),
            plain == tally(evs.take(i as int), sel_plain(d)),
            means_fiat == tally(evs.take(i as int), sel_class_fiat(d, class_name(means_index()))),
            means_plain == tally(evs.take(i as int), sel_class_plain(d, class_name(means_index()))),
            plain <= total,
            means_fiat <= fiat,
            means_plain <= plain,
            forall|k: int|
                0 <= k < 7 ==> #[trigger] counts@[k] == class_count_total(evs.take(i as int), d, k)
                    && values@[k] == class_value_total(evs.take(i as int), d, k),
            forall|k: int|
                0 <= k < 7 && k != fee_index() ==> #[trigger] counts@[k] <= count && values@[k]
                    <= total,
        decreases events.len() - i,
    {
        let e = &events[i];
        let ghost old_counts = counts@;
        let ghost old_values = values@;
        let ghost old_count = count;
        let ghost old_total = total;
        proof {
            lemma_day_step(evs, d, i as int);
        }
        let same_day = str_eq(e.date_utc.as_str(), date.as_str());
        let class = class_index(e.classification.as_str());
        assert(same_day == on_day(evs[i as int], d));
        if same_day {
            count = count + 1;
            total = match total.checked_add(e.value_raw) {
                Some(v) => v,
                None => {
                    proof {
                        lemma_class_total_prefix(evs, d, 0, i + 1);
                    }
                    return Err(ReportingError::Overflow);
                },
            };
            let mut fee_count: u64 = counts[2];
            let mut fee_value: u64 = values[2];
            match class {
                Some(k) => {
                    if k == 2 {
                        fee_count = match fee_count.checked_add(1) {
                            Some(v) => v,
                            None => {
                                proof {
                                    lemma_class_total_prefix(evs, d, 2, i + 1);
                                }
                                return Err(ReportingError::Overflow);
                            },
                        };
                        fee_value = match fee_value.checked_add(e.value_raw) {
                            Some(v) => v,
                            None => {
                                proof {
                                    lemma_class_total_prefix(evs, d, 2, i + 1);
                                }
                                return Err(ReportingError::Overflow);
                            },
                        };
                    } else {
                        let c = counts[k] + 1;
                        let v = values[k] + e.value_raw;
                        counts.set(k, c);
                        values.set(k, v);
                    }
                },
                None => {},
            }
            if e.fee_raw > 0 {
                fee_count = match fee_count.checked_add(1) {
                    Some(v) => v,
                    None => {
                        proof {
                            lemma_class_total_prefix(evs, d, 2, i + 1);
                        }
                        return Err(ReportingError::Overflow);
                    },
                };
                fee_value = match fee_value.checked_add(e.fee_raw) {
                    Some(v) => v,
                    None => {
                        proof {
                            lemma_class_total_prefix(evs, d, 2, i + 1);
                        }
                        return Err(ReportingError::Overflow);
                    },
                };
            }
            counts.set(2, fee_count);
            values.set(2, fee_value);
            if e.known_onchain_overlap {
                overlap_count = overlap_count + 1;
                overlap_value = overlap_value + e.value_raw;
            }
            let means = match class {
                Some(k) => k == 3,
                None => false,
            };
            match e.value_usd_minor {
                Some(m) => {
                    fiat = match fiat.checked_add(m) {
                        Some(v) => v,
                        None => {
                            proof {
                                lemma_class_total_prefix(evs, d, 0, i + 1);
                            }
                            return Err(ReportingError::Overflow);
                        },
                    };
                    if means {
                        means_fiat = means_fiat + m;
                    }
                },
                None => {
                    plain = plain + e.value_raw;
                    if means {
                        means_plain = means_plain + e.value_raw;
                    }
                },
            }
            proof {
                if means {
                    assert(evs[i as int].classification@ == class_name(means_index()));
                } else {
                    assert(evs[i as int].classification@ != class_name(means_index())) by {
                        match class {
                            Some(c) => {
                                assert(class_name(c as int) != class_name(3));
                            },
                            None => {},
                        }
                    }
                }
            }
        }
        proof {
            assert forall|k: int| 0 <= k < 7 implies #[trigger] counts@[k] == class_count_total(
                evs.take(i + 1),
                d,
                k,
            ) && values@[k] == class_value_total(evs.take(i + 1), d, k) && (k != fee_index()
                ==> counts@[k] <= count && values@[k] <= total) by {
                assert(class_count_total(evs.take(i + 1), d, k) == class_count_total(
                    evs.take(i as int),
                    d,
                    k,
                ) + sel_class_count(d, class_name(k))(evs[i as int]) + if k == fee_index() {
                    sel_fee_count(d)(evs[i as int])
                } else {
                    0
                });
                match class {
                    Some(c) => {
                        assert(evs[i as int].classification@ == class_name(c as int));
                        if k != c {
                            assert(class_name(k) != class_name(c as int));
                        }
                    },
                    None => {
                        assert(evs[i as int].classification@ != class_name(k));
                    },
                }
                if !same_day {
                    assert(counts@[k] == old_counts[k]);
                    assert(values@[k] == old_values[k]);
                    assert(counts@[k] == class_count_total(evs.take(i + 1), d, k));
                    assert(values@[k] == class_value_total(evs.take(i + 1), d, k));
                } else {
                    assert(counts@[k] == class_count_total(evs.take(i + 1), d, k));
                    assert(values@[k] == class_value_total(evs.take(i + 1), d, k));
                    assert(k != fee_index() ==> counts@[k] <= count);
                    assert(k != fee_index() ==> values@[k] <= total);
                }
            }
        }
        i = i + 1;
    }
    assert(evs.take(events.len() as int) =~= evs);
    assert(counts@[2] == class_count_total(evs, d, 2));
    assert(values@[2] == class_value_total(evs, d, 2));
    assert(counts@[3] == class_count_total(evs, d, 3));
    assert(values@[3] == class_value_total(evs, d, 3));
    let plain_minor = match raw_to_minor(plain) {
        Ok(v) => v,
        Err(e) => return Err(e),
    };
    let means_plain_minor = match raw_to_minor(means_plain) {
        Ok(v) => v,
        Err(e) => return Err(e),
    };
    let total_minor = match fiat.checked_add(plain_minor) {
        Some(v) => v,
        None => return Err(ReportingError::Overflow),
    };
    let means_minor = means_fiat + means_plain_minor;
    let mut classifications: Vec<ClassificationAggregate> = Vec::new();
    let mut k: usize = 0;
    while k < 7
        invariant
            k <= 7,
            counts@.len() == 7,
            values@.len() == 7,
            classifications@.len() == k,
            forall|j: int|
                0 <= j < k ==> {
                    &&& (#[trigger] classifications@[j]).classification@ == class_name(j)
                    &&& classifications@[j].operation_count == counts@[j]
                    &&& classifications@[j].value_raw@ == decimal_nat(values@[j] as nat)
                },
        decreases 7 - k,
    {
        classifications.push(
            ClassificationAggregate {
                classification: String::from_str(class_name_str(k)),
                operation_count: counts[k],
                value_raw: u64_to_string(values[k]),
            },
        );
        k = k + 1;
    }
    proof {
        reveal_strlit("rUSD");
        reveal_strlit("USD");
    }
    Ok(
        DailyTransactionAggregate {
            date_utc: date,
            asset_symbol: String::from_str("rUSD"),
            currency_area: String::from_str("USD"),
            total_operation_count: count,
            total_value_raw: u64_to_string(total),
            total_value_usd_minor: u64_to_string(total_minor),
            means_of_exchange_count: counts[3],
            means_of_exchange_value_raw: u64_to_string(values[3]),
            means_of_exchange_value_usd_minor: u64_to_string(means_minor),
            means_of_exchange_value_eur_minor: u64_to_string(means_minor),
            excluded_operation_count: count - counts[3],
            known_onchain_overlap_count: overlap_count,
            known_onchain_overlap_value_raw: u64_to_string(overlap_value),
            classifications,
            methodology_version: String::from_str(METHODOLOGY_VERSION),
            conversion_methodology: String::from_str(CONVERSION_METHODOLOGY),
        },
    )
}


/// The dates of a sequence of strings, as character sequences.
pub open spec fn texts(v: Seq<String>) -> Seq<Seq<char>> {
    v.map_values(|s: String| s@)
}

/// Strictly increasing in text order, hence without repetition.
pub open spec fn strictly_sorted(ds: Seq<Seq<char>>) -> bool {
    forall|i: int, j: int| 0 <= i < j < ds.len() ==> text_lt(#[trigger] ds[i], #[trigger] ds[j])
}

/// `d` is the date of some event.
pub open spec fn has_day(events: Seq<ReportingEvent>, d: Seq<char>) -> bool {
    exists|i: int| 0 <= i < events.len() && (#[trigger] events[i]).date_utc@ == d
}

/// The days of `events` in calendar text order, each listed once.
pub open spec fn spec_report_days(events: Seq<ReportingEvent>, ds: Seq<Seq<char>>) -> bool {
    &&& strictly_sorted(ds)
    &&& forall|k: int| 0 <= k < ds.len() ==> has_day(events, #[trigger] ds[k])
    &&& forall|i: int| 0 <= i < events.len() ==> date_listed(ds, (#[trigger] events[i]).date_utc@)
}

/// `d` occurs in `ds`.
pub open spec fn date_listed(ds: Seq<Seq<char>>, d: Seq<char>) -> bool {
    exists|k: int| 0 <= k < ds.len() && ds[k] == d
}

/// The dates of a list of day aggregates.
pub open spec fn day_dates(days: Seq<DailyTransactionAggregate>) -> Seq<Seq<char>> {
    days.map_values(|a: DailyTransactionAggregate| a.date_utc@)
}

/// What `aggregate` gives for `events`: every day in order when no day fails,
/// otherwise the error of the earliest failing day.
pub open spec fn spec_aggregate_result(
    events: Seq<ReportingEvent>,
    r: Result<Vec<DailyTransactionAggregate>, ReportingError>,
) -> bool {
    &&& r is Ok <==> forall|i: int|
        0 <= i < events.len() ==> spec_day_error(events, (#[trigger] events[i]).date_utc@) is None
    &&& r matches Ok(days) ==> {
        &&& spec_report_days(events, day_dates(days@))
        &&& forall|k: int|
            0 <= k < days@.len() ==> spec_day_matches(
                #[trigger] days@[k],
                events,
                days@[k].date_utc@,
            )
    }
    &&& r matches Err(e) ==> exists|i: int|
        0 <= i < events.len() && spec_day_error(events, (#[trigger] events[i]).date_utc@) == Some(
            e,
        ) && forall|j: int|
            0 <= j < events.len() && text_lt(events[j].date_utc@, events[i].date_utc@)
                ==> spec_day_error(events, (#[trigger] events[j]).date_utc@) is None
}

/// The operations counted over the days `ds`.
pub open spec fn day_counts(events: Seq<ReportingEvent>, ds: Seq<Seq<char>>) -> nat
    decreases ds.len(),
{
    if ds.len() == 0 {
        0
    } else {
        day_counts(events, ds.drop_last()) + tally(events, sel_count(ds.last()))
    }
}

/// How often `x` occurs in `ds`.
pub open spec fn hits(ds: Seq<Seq<char>>, x: Seq<char>) -> nat
    decreases ds.len(),
{
    if ds.len() == 0 {
        0
    } else {
        hits(ds.drop_last(), x) + if ds.last() == x { 1nat } else { 0nat }
    }
}

/// The operations counted in a list of day reports.
pub open spec fn report_count(days: Seq<DailyTransactionAggregate>) -> nat
    decreases days.len(),
{
    if days.len() == 0 {
        0
    } else {
        report_count(days.drop_last()) + days.last().total_operation_count as nat
    }
}

proof fn lemma_day_counts_split(events: Seq<ReportingEvent>, ds: Seq<Seq<char>>)
    requires
        events.len() > 0,
    ensures
        day_counts(events, ds) == day_counts(events.drop_last(), ds) + hits(ds, events.last().date_utc@),
    decreases ds.len(),
{
    if ds.len() > 0 {
        lemma_day_counts_split(events, ds.drop_last());
    }
}

proof fn lemma_hits_distinct(ds: Seq<Seq<char>>, x: Seq<char>)
    requires
        forall|i: int, j: int| 0 <= i < j < ds.len() ==> ds[i] != ds[j],
    ensures
        date_listed(ds, x) ==> hits(ds, x) == 1,
        !date_listed(ds, x) ==> hits(ds, x) == 0,
    decreases ds.len(),
{
    if ds.len() > 0 {
        let p = ds.drop_last();
        assert forall|i: int, j: int| 0 <= i < j < p.len() implies p[i] != p[j] by {
            assert(p[i] == ds[i] && p[j] == ds[j]);
        }
        lemma_hits_distinct(p, x);
        if date_listed(p, x) {
            let k = choose|k: int| 0 <= k < p.len() && p[k] == x;
            assert(ds[k] == x);
            assert(ds.last() != x) by {
                assert(ds[k] != ds[ds.len() - 1]);
            }
        }
        if date_listed(ds, x) && !date_listed(p, x) {
            let k = choose|k: int| 0 <= k < ds.len() && ds[k] == x;
            if k < ds.len() - 1 {
                assert(p[k] == x);
            }
        }
        if !date_listed(ds, x) {
            assert(ds[ds.len() - 1] != x);
            assert(!date_listed(p, x)) by {
                if date_listed(p, x) {
                    let k = choose|k: int| 0 <= k < p.len() && p[k] == x;
                    assert(ds[k] == x);
                }
            }
        }
    }
}

proof fn lemma_day_counts_cover(events: Seq<ReportingEvent>, ds: Seq<Seq<char>>)
    requires
        forall|i: int, j: int| 0 <= i < j < ds.len() ==> ds[i] != ds[j],
        forall|i: int| 0 <= i < events.len() ==> date_listed(ds, (#[trigger] events[i]).date_utc@),
    ensures
        day_counts(events, ds) == events.len(),
    decreases events.len(),
{
    if events.len() == 0 {
        lemma_day_counts_empty(ds);
        assert(events =~= Seq::<ReportingEvent>::empty());
    } else {
        let p = events.drop_last();
        assert forall|i: int| 0 <= i < p.len() implies date_listed(ds, (#[trigger] p[i]).date_utc@) by {
            assert(p[i] == events[i]);
        }
        lemma_day_counts_cover(p, ds);
        lemma_day_counts_split(events, ds);
        assert(date_listed(ds, events[events.len() - 1].date_utc@));
        lemma_hits_distinct(ds, events.last().date_utc@);
    }
}

proof fn lemma_day_counts_empty(ds: Seq<Seq<char>>)
    ensures
        day_counts(Seq::<ReportingEvent>::empty(), ds) == 0,
    decreases ds.len(),
{
    if ds.len() > 0 {
        lemma_day_counts_empty(ds.drop_last());
    }
}

proof fn lemma_report_count_is_day_counts(events: Seq<ReportingEvent>, days: Seq<DailyTransactionAggregate>)
    requires
        forall|k: int| 0 <= k < days.len() ==> spec_day_matches(#[trigger] days[k], events, days[k].date_utc@),
    ensures
        report_count(days) == day_counts(events, day_dates(days)),
    decreases days.len(),
{
    if days.len() > 0 {
        let p = days.drop_last();
        assert forall|k: int| 0 <= k < p.len() implies spec_day_matches(#[trigger] p[k], events, p[k].date_utc@) by {
            assert(p[k] == days[k]);
        }
        lemma_report_count_is_day_counts(events, p);
        assert(day_dates(days).drop_last() =~= day_dates(p));
        assert(spec_day_matches(days[days.len() - 1], events, days[days.len() - 1].date_utc@));
    }
}

/// Law: a report lists every event once: the operations counted over its
/// days add up to the number of events the store handed out.
pub proof fn lemma_report_counts_every_event(events: Seq<ReportingEvent>, days: Vec<DailyTransactionAggregate>)
    requires
        spec_aggregate_result(events, Ok::<Vec<DailyTransactionAggregate>, ReportingError>(days)),
    ensures
        report_count(days@) == events.len(),
{
    let ds = day_dates(days@);
    assert forall|i: int, j: int| 0 <= i < j < ds.len() implies ds[i] != ds[j] by {
        assert(text_lt(ds[i], ds[j]));
        lemma_text_lt_total(ds[i], ds[i]);
    }
    lemma_report_count_is_day_counts(events, days@);
    lemma_day_counts_cover(events, ds);
}

/// The distinct dates of `events`, sorted.
fn sorted_dates(events: &Vec<ReportingEvent>) -> (dates: Vec<String>)
    ensures
        spec_report_days(events@, texts(dates@)),
{
    let mut dates: Vec<String> = Vec::new();
    let mut i: usize = 0;
    while i < events.len()
        invariant
            i <= events.len(),
            strictly_sorted(texts(dates@)),
            forall|k: int| 0 <= k < dates@.len() ==> has_day(events@, #[trigger] texts(dates@)[k]),
            forall|m: int| 0 <= m < i ==> date_listed(texts(dates@), (#[trigger] events@[m]).date_utc@),
        decreases events.len() - i,
    {
        let d = &events[i].date_utc;
        let mut j: usize = 0;
        while j < dates.len() && str_lt(dates[j].as_str(), d.as_str())
            invariant
                j <= dates@.len(),
                forall|x: int| 0 <= x < j ==> text_lt(#[trigger] texts(dates@)[x], d@),
            decreases dates.len() - j,
        {
            j = j + 1;
        }
        let ghost before = dates@;
        if j < dates.len() && str_eq(dates[j].as_str(), d.as_str()) {
            assert(texts(dates@)[j as int] == events@[i as int].date_utc@);
            assert(date_listed(texts(dates@), events@[i as int].date_utc@));
        } else {
            proof {
                if j < before.len() {
                    lemma_text_lt_total(texts(before)[j as int], d@);
                }
            }
            dates.insert(j, d.clone());
            proof {
                assert(texts(dates@) =~= texts(before).insert(j as int, d@));
                assert forall|x: int, y: int|
                    0 <= x < y < texts(dates@).len() implies text_lt(
                    #[trigger] texts(dates@)[x],
                    #[trigger] texts(dates@)[y],
                ) by {
                    if y == j {
                    } else if x == j {
                        assert(texts(dates@)[y] == texts(before)[y - 1]);
                        if y - 1 > j {
                            lemma_text_lt_transitive(d@, texts(before)[j as int], texts(before)[y - 1]);
                        }
                    } else if x < j && y > j {
                        assert(texts(dates@)[y] == texts(before)[y - 1]);
                    } else if y < j {
                    } else {
                        assert(texts(dates@)[x] == texts(before)[x - 1]);
                        assert(texts(dates@)[y] == texts(before)[y - 1]);
                    }
                }
                assert(has_day(events@, d@));
                assert forall|k: int| 0 <= k < dates@.len() implies has_day(events@, #[trigger] texts(dates@)[k]) by {
                    if k < j {
                        assert(texts(dates@)[k] == texts(before)[k]);
                    } else if k > j {
                        assert(texts(dates@)[k] == texts(before)[k - 1]);
                    }
                }
                assert forall|m: int| 0 <= m < i implies date_listed(texts(dates@), (#[trigger] events@[m]).date_utc@) by {
                    let k = choose|k: int| 0 <= k < texts(before).len() && texts(before)[k] == events@[m].date_utc@;
                    if k < j {
                        assert(texts(dates@)[k] == texts(before)[k]);
                    } else {
                        assert(texts(dates@)[k + 1] == texts(before)[k]);
                    }
                }
                assert(texts(dates@)[j as int] == events@[i as int].date_utc@);
                assert(date_listed(texts(dates@), events@[i as int].date_utc@));
            }
        }
        i = i + 1;
    }
    dates
}


/// Aggregates operations per UTC day, days in ascending order. The first day
/// (in that order) whose totals cannot be reported decides the error.
pub fn aggregate(events: Vec<ReportingEvent>) -> (r: Result<Vec<DailyTransactionAggregate>, ReportingError>)
    ensures
        spec_aggregate_result(events@, r),
{
    let dates = sorted_dates(&events);
    let ghost ds = texts(dates@);
    let ghost evs = events@;
    let mut days: Vec<DailyTransactionAggregate> = Vec::new();
    let mut k: usize = 0;
    while k < dates.len()
        invariant
            evs == events@,
            ds == texts(dates@),
            spec_report_days(evs, ds),
            k <= dates@.len(),
            days@.len() == k,
            forall|q: int|
                0 <= q < k ==> (#[trigger] days@[q]).date_utc@ == ds[q] && spec_day_matches(
                    days@[q],
                    evs,
                    ds[q],
                ) && spec_day_error(evs, ds[q]) is None,
        decreases dates.len() - k,
    {
        let date = dates[k].clone();
        assert(date@ == ds[k as int]);
        match aggregate_day(date, &events) {
            Ok(a) => {
                days.push(a);
                assert(days@[k as int] == a);
            },
            Err(e) => {
                proof {
                    assert(has_day(evs, ds[k as int]));
                    let i = choose|i: int| 0 <= i < evs.len() && (#[trigger] evs[i]).date_utc@ == ds[k as int];
                    assert(spec_day_error(evs, evs[i].date_utc@) == Some(e));
                    assert forall|j: int|
                        0 <= j < evs.len() && text_lt(evs[j].date_utc@, evs[i].date_utc@)
                            implies spec_day_error(evs, (#[trigger] evs[j]).date_utc@) is None by {
                        assert(date_listed(ds, evs[j].date_utc@));
                        let q = choose|q: int| 0 <= q < ds.len() && ds[q] == evs[j].date_utc@;
                        lemma_text_lt_total(ds[q], ds[k as int]);
                        if q > k {
                            assert(text_lt(ds[k as int], ds[q]));
                        }
                        assert(q < k);
                        assert(days@[q].date_utc@ == ds[q]);
                    }
                }
                return Err(e);
            },
        }
        k = k + 1;
    }
    proof {
        assert(day_dates(days@) =~= ds);
        assert forall|i: int| 0 <= i < evs.len() implies spec_day_error(
            evs,
            (#[trigger] evs[i]).date_utc@,
        ) is None by {
            assert(date_listed(ds, evs[i].date_utc@));
            let q = choose|q: int| 0 <= q < ds.len() && ds[q] == evs[i].date_utc@;
            assert(days@[q].date_utc@ == ds[q]);
        }
        assert forall|q: int| 0 <= q < days@.len() implies spec_day_matches(
            #[trigger] days@[q],
            evs,
            days@[q].date_utc@,
        ) by {
            assert(days@[q].date_utc@ == ds[q]);
        }
    }
    Ok(days)
}


/// Two existing dates with `from` not after `to`.
pub open spec fn spec_valid_range(from: Seq<char>, to: Seq<char>) -> bool {
    spec_valid_date(from) && spec_valid_date(to) && !text_lt(to, from)
}

fn check_range(from: &str, to: &str) -> (r: Result<(), ReportingError>)
    ensures
        r is Ok <==> spec_valid_range(from@, to@),
        r is Err ==> r->Err_0 is InvalidDateRange,
{
    validate_date(from)?;
    validate_date(to)?;
    if str_lt(to, from) {
        return Err(ReportingError::InvalidDateRange);
    }
    Ok(())
}

/// The daily report for `from..=to` over the operations `events` that the
/// store returned for that range.
pub fn daily_report(from: &str, to: &str, events: Vec<ReportingEvent>) -> (r: Result<
    DailyTransactionReport,
    ReportingError,
>)
    ensures
        !spec_valid_range(from@, to@) ==> r matches Err(ReportingError::InvalidDateRange),
        spec_valid_range(from@, to@) ==> spec_daily_report(from@, to@, events@, r),
{
    check_range(from, to)?;
    let ghost evs = events@;
    let days = aggregate(events);
    match days {
        Ok(days) => Ok(
            DailyTransactionReport {
                from_date_utc: from.to_owned(),
                to_date_utc: to.to_owned(),
                days,
            },
        ),
        Err(e) => Err(e),
    }
}

/// `r` is the report for `from..=to` over `events`: every day in order when
/// no day fails, otherwise the error of the earliest failing day.
pub open spec fn spec_daily_report(
    from: Seq<char>,
    to: Seq<char>,
    events: Seq<ReportingEvent>,
    r: Result<DailyTransactionReport, ReportingError>,
) -> bool {
    &&& r is Ok <==> forall|i: int|
        0 <= i < events.len() ==> spec_day_error(events, (#[trigger] events[i]).date_utc@) is None
    &&& r matches Ok(report) ==> report.from_date_utc@ == from && report.to_date_utc@ == to
        && spec_aggregate_result(events, Ok::<Vec<DailyTransactionAggregate>, ReportingError>(report.days))
    &&& r matches Err(e) ==> spec_aggregate_result(events, Err::<Vec<DailyTransactionAggregate>, ReportingError>(e))
}

/// `r` is what the daily report makes of the store's answer `answer`: the
/// store's failure, or the report over the events it gave.
pub open spec fn spec_daily_outcome(
    from: Seq<char>,
    to: Seq<char>,
    answer: Result<Seq<ReportingEvent>, ReportingError>,
    r: Result<DailyTransactionReport, ReportingError>,
) -> bool {
    match answer {
        Err(e) => r == Err::<DailyTransactionReport, ReportingError>(e),
        Ok(events) => spec_daily_report(from, to, events, r),
    }
}

/// Daily activity reports over the operations of a reporting store.
pub struct ReportingService<S: ReportingStore> {
    store: Arc<S>,
}

impl<S: ReportingStore> ReportingService<S> {
    /// The store this service reads operations from.
    pub closed spec fn source(&self) -> Arc<S> {
        self.store
    }

    pub fn new(store: Arc<S>) -> (r: Self)
        ensures
            r.source() == store,
    {
        Self { store }
    }

    /// The report for `from..=to`. An invalid range is refused before the store
    /// is asked; otherwise the store is asked for the operations of
    /// `from..=to`, its failure is passed on, and the report is made of the
    /// operations it gave.
    pub fn daily(&self, from: &str, to: &str) -> (r: Result<DailyTransactionReport, ReportingError>)
        ensures
            !spec_valid_range(from@, to@) ==> r matches Err(ReportingError::InvalidDateRange),
            spec_valid_range(from@, to@) ==> exists|answer: Result<Seq<ReportingEvent>, ReportingError>|
                #[trigger] self.source().answers_events(from@, to@, answer) && spec_daily_outcome(
                    from@,
                    to@,
                    answer,
                    r,
                ),
    {
        if let Err(e) = check_range(from, to) {
            return Err(e);
        }
        let answer = self.store.events(from, to);
        let ghost given = events_answer(answer);
        let events = match answer {
            Ok(events) => events,
            Err(e) => {
                assert(self.source().answers_events(from@, to@, given));
                return Err(e);
            },
        };
        let r = daily_report(from, to, events);
        assert(self.source().answers_events(from@, to@, given) && spec_daily_outcome(from@, to@, given, r));
        r
    }
}

} // verus!
