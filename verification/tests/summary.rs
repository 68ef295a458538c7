//! Summary aggregation, time bounds, purge, and the worker's retries.

use payment_gateway::payment_processors::service::PaymentProcessorServices;
use payment_gateway::repository::extract_summary;
use payment_gateway::repository::summarize_entries;
use payment_gateway::repository::SummaryRow;
use payment_gateway::structs::PaymentDatabaseEntry;
use payment_gateway::structs::PaymentSummaryQuery;
use payment_gateway::worker::retry_step;
use payment_gateway::worker::RetryDecision;
use payment_gateway::worker::RetryPolicy;

fn row(service: PaymentProcessorServices, at: i64, cents: i64) -> PaymentDatabaseEntry {
    PaymentDatabaseEntry {
        correlation_id: at as u128,
        requested_at_ms: at,
        amount_cents: cents,
        service,
    }
}

#[test]
fn summary_aggregates_by_service() {
    let rows = vec![
        row(PaymentProcessorServices::Default, 1000, 1000),
        row(PaymentProcessorServices::Default, 2000, 500),
        row(PaymentProcessorServices::Fallback, 3000, 250),
    ];
    let q = PaymentSummaryQuery { from_ms: None, to_ms: None };
    let summary = summarize_entries(&rows, &q);
    assert_eq!(summary.default.total_requests, 2);
    assert_eq!(summary.default.total_amount_cents, 1500);
    assert_eq!(summary.fallback.total_requests, 1);
    assert_eq!(summary.fallback.total_amount_cents, 250);
}

#[test]
fn summary_excludes_rows_outside_the_bounds() {
    let rows = vec![
        row(PaymentProcessorServices::Default, 1000, 1000),
        row(PaymentProcessorServices::Default, 2000, 500),
        row(PaymentProcessorServices::Fallback, 3000, 250),
    ];
    let q = PaymentSummaryQuery { from_ms: Some(1500), to_ms: Some(2500) };
    let summary = summarize_entries(&rows, &q);
    assert_eq!(summary.default.total_requests, 1);
    assert_eq!(summary.default.total_amount_cents, 500);
    assert_eq!(summary.fallback.total_requests, 0);
    assert_eq!(summary.fallback.total_amount_cents, 0);
}

#[test]
fn summary_after_every_instant_is_zero() {
    let rows = vec![
        row(PaymentProcessorServices::Default, 1000, 1000),
        row(PaymentProcessorServices::Fallback, 3000, 250),
    ];
    let q = PaymentSummaryQuery { from_ms: Some(10_000), to_ms: None };
    let summary = summarize_entries(&rows, &q);
    assert_eq!(summary.default.total_requests, 0);
    assert_eq!(summary.default.total_amount_cents, 0);
    assert_eq!(summary.fallback.total_requests, 0);
    assert_eq!(summary.fallback.total_amount_cents, 0);
}

#[test]
fn summary_of_a_purged_table_is_zero() {
    let rows: Vec<PaymentDatabaseEntry> = Vec::new();
    let q = PaymentSummaryQuery { from_ms: None, to_ms: None };
    let summary = summarize_entries(&rows, &q);
    assert_eq!(summary.default.total_requests, 0);
    assert_eq!(summary.default.total_amount_cents, 0);
    assert_eq!(summary.fallback.total_requests, 0);
    assert_eq!(summary.fallback.total_amount_cents, 0);
}

#[test]
fn grouped_rows_extract_by_name_with_zero_for_missing() {
    let rows = vec![
        SummaryRow {
            service: String::from("default"),
            total_requests: 2,
            total_amount_cents: 1500,
        },
    ];
    let d = extract_summary(&rows, "default");
    assert_eq!(d.total_requests, 2);
    assert_eq!(d.total_amount_cents, 1500);
    let f = extract_summary(&rows, "fallback");
    assert_eq!(f.total_requests, 0);
    assert_eq!(f.total_amount_cents, 0);
}

#[test]
fn an_always_failing_item_is_tried_exactly_one_hundred_times() {
    let policy = RetryPolicy::standard();
    let mut attempts_made: u32 = 0;
    let mut gave_up = false;
    while !gave_up {
        match retry_step(&policy, attempts_made, false) {
            RetryDecision::Done => panic!("a failing attempt cannot be done"),
            RetryDecision::RetryAfter(pause) => {
                assert_eq!(pause, 50);
                attempts_made += 1;
            }
            RetryDecision::GiveUp => {
                attempts_made += 1;
                gave_up = true;
            }
        }
        assert!(attempts_made <= 100);
    }
    assert_eq!(attempts_made, 100);
}

#[test]
fn a_successful_attempt_ends_the_item() {
    let policy = RetryPolicy::standard();
    assert!(matches!(retry_step(&policy, 0, true), RetryDecision::Done));
    assert!(matches!(
        retry_step(&policy, 99, false),
        RetryDecision::GiveUp
    ));
    assert!(matches!(
        retry_step(&policy, 98, false),
        RetryDecision::RetryAfter(50)
    ));
}
