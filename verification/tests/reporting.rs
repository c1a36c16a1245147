use casp_backend::reporting::{
    aggregate, daily_report, validate_date, ReportingError, ReportingEvent, ReportingService,
    ReportingStore,
};
use std::sync::Arc;

struct Store(Vec<ReportingEvent>);
impl ReportingStore for Store {
    fn events(&self, _: &str, _: &str) -> Result<Vec<ReportingEvent>, ReportingError> {
        Ok(self.0.clone())
    }
}

fn event(date: &str, id: &str, class: &str, value: u64, fee: u64, overlap: bool) -> ReportingEvent {
    ReportingEvent {
        date_utc: date.into(),
        operation_id: id.into(),
        classification: class.into(),
        value_raw: value,
        value_usd_minor: None,
        fee_raw: fee,
        known_onchain_overlap: overlap,
    }
}

#[test]
fn separates_total_activity_from_means_of_exchange_and_overlap() {
    let report = ReportingService::new(Arc::new(Store(vec![
        event("2026-08-26", "purchase", "exchange_for_funds", 10_000_000, 0, false),
        event("2026-08-26", "goods", "goods_or_services", 5_000_000, 5_000, false),
        event("2026-08-26", "redemption", "exchange_for_funds", 2_000_000, 0, true),
    ])))
    .daily("2026-08-26", "2026-08-26")
    .unwrap();
    let day = &report.days[0];
    assert_eq!(day.total_operation_count, 3);
    assert_eq!(day.means_of_exchange_count, 1);
    assert_eq!(day.means_of_exchange_value_eur_minor, "500");
    assert_eq!(day.excluded_operation_count, 2);
    assert_eq!(day.known_onchain_overlap_count, 1);
    assert_eq!(
        day.classifications
            .iter()
            .find(|v| v.classification == "fee")
            .unwrap()
            .value_raw,
        "5000"
    );
}

#[test]
fn days_come_out_sorted_once_each() {
    let days = aggregate(vec![
        event("2026-08-27", "b", "unknown", 10_000, 0, false),
        event("2026-08-25", "a", "fee", 20_000, 0, false),
        event("2026-08-27", "c", "private_transfer", 30_000, 10, false),
    ])
    .unwrap();
    let dates: Vec<&str> = days.iter().map(|d| d.date_utc.as_str()).collect();
    assert_eq!(dates, vec!["2026-08-25", "2026-08-27"]);
    assert_eq!(days[1].total_operation_count, 2);
    assert_eq!(days[1].total_value_raw, "40000");
    assert_eq!(days[1].total_value_usd_minor, "4");
    let fee = days[1].classifications.iter().find(|c| c.classification == "fee").unwrap();
    assert_eq!((fee.operation_count, fee.value_raw.as_str()), (1, "10"));
    assert_eq!(days[1].classifications.len(), 7);
}

#[test]
fn fractional_cents_and_overflow_are_refused() {
    assert!(matches!(
        aggregate(vec![event("2026-01-01", "a", "unknown", 15, 0, false)]),
        Err(ReportingError::InvalidAmount)
    ));
    assert!(matches!(
        aggregate(vec![
            event("2026-01-01", "a", "unknown", u64::MAX, 0, false),
            event("2026-01-01", "b", "unknown", 1, 0, false),
        ]),
        Err(ReportingError::Overflow)
    ));
}

#[test]
fn date_ranges_are_checked_before_the_store() {
    assert!(validate_date("2024-02-29").is_ok());
    assert!(validate_date("2023-02-29").is_err());
    assert!(validate_date("1900-02-29").is_err());
    assert!(validate_date("2000-02-29").is_ok());
    assert!(validate_date("2026-13-01").is_err());
    assert!(validate_date("2026-04-31").is_err());
    assert!(matches!(
        daily_report("2026-08-27", "2026-08-26", vec![]),
        Err(ReportingError::InvalidDateRange)
    ));
    let empty = daily_report("2026-08-26", "2026-08-27", vec![]).unwrap();
    assert!(empty.days.is_empty());
    assert_eq!(empty.from_date_utc, "2026-08-26");
}

#[test]
fn recorded_fiat_values_count_as_they_were_paid() {
    let mut purchase = event("2026-08-26", "purchase-at-1-10", "exchange_for_funds", 90_909_090, 0, false);
    purchase.value_usd_minor = Some(10_000);
    let mut paid_goods = event("2026-08-26", "goods-paid", "goods_or_services", 3_333_333, 0, false);
    paid_goods.value_usd_minor = Some(333);
    let report = ReportingService::new(Arc::new(Store(vec![
        purchase,
        paid_goods,
        event("2026-08-26", "goods", "goods_or_services", 5_000_000, 0, false),
    ])))
    .daily("2026-08-26", "2026-08-26")
    .unwrap();
    let day = &report.days[0];
    assert_eq!(day.total_value_usd_minor, "10833");
    assert_eq!(day.means_of_exchange_value_usd_minor, "833");
    assert_eq!(day.means_of_exchange_value_eur_minor, "833");
    assert_eq!(day.total_value_raw, "99242423");
    let fractional = ReportingService::new(Arc::new(Store(vec![event(
        "2026-08-26",
        "odd",
        "private_transfer",
        1,
        0,
        false,
    )])))
    .daily("2026-08-26", "2026-08-26");
    assert!(matches!(fractional, Err(ReportingError::InvalidAmount)));
}

#[test]
fn demo_history_is_idempotent_and_populates_only_previous_days() {
    let now = std::time::SystemTime::now()
        .duration_since(std::time::UNIX_EPOCH)
        .unwrap()
        .as_millis() as u64;
    let mut store = casp_backend::demo_history::DemoHistory::new();
    store.seed(now).unwrap();
    store.seed(now + 86_400_000).unwrap();

    let events = store.events("1970-01-01", "9999-12-31");
    assert_eq!(events.len(), 15);
    let today = casp_backend::calendar::utc_date(now).unwrap();
    assert!(events.iter().all(|event| event.date_utc < today));
    assert!(events.iter().any(|event| event.classification == "goods_or_services"));

    let report = ReportingService::new(Arc::new(Store(events))).daily("1970-01-01", "9999-12-31").unwrap();
    assert_eq!(report.days.len(), 6);
    assert_eq!(report.days.iter().map(|day| day.total_operation_count).sum::<u64>(), 15);
}
