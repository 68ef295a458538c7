//! Processor selection, the orchestration step, and configuration.

use payment_gateway::config::resolve_collection_name;
use payment_gateway::config::resolve_is_master;
use payment_gateway::config::resolve_max_response_time;
use payment_gateway::config::resolve_num_workers;
use payment_gateway::config::resolve_queue_name;
use payment_gateway::config::listen_addr;
use payment_gateway::payment_processors::service::health_url;
use payment_gateway::payment_processors::service::interpret_health_probe;
use payment_gateway::payment_processors::service::interpret_submit_status;
use payment_gateway::payment_processors::service::payments_url;
use payment_gateway::payment_processors::service::PaymentProcessorServices;
use payment_gateway::payment_processors::structs::PaymentProcessorDTO;
use payment_gateway::payment_processors::structs::PaymentProcessorHealth;
use payment_gateway::payment_processors::structs::PaymentProcessorHealthCheckDTO;
use payment_gateway::service::process_payment_step;
use payment_gateway::service::response_message;
use payment_gateway::service::response_status;
use payment_gateway::service::select_service;
use payment_gateway::service::ProcessOutcome;

fn health(
    default: (bool, i32),
    fallback: (bool, i32),
) -> PaymentProcessorHealth {
    PaymentProcessorHealth {
        default: PaymentProcessorHealthCheckDTO {
            failing: default.0,
            min_response_time: default.1,
        },
        fallback: PaymentProcessorHealthCheckDTO {
            failing: fallback.0,
            min_response_time: fallback.1,
        },
    }
}

#[test]
fn selection_prefers_a_healthy_default() {
    let h = health((false, 50), (true, 9999));
    assert!(matches!(
        select_service(&h, 200),
        Some(PaymentProcessorServices::Default)
    ));
}

#[test]
fn selection_returns_nothing_when_both_are_failing_and_slow() {
    let h = health((true, 9999), (true, 9999));
    assert!(select_service(&h, 200).is_none());
}

#[test]
fn selection_admits_a_failing_but_fast_processor() {
    let h = health((true, 100), (false, 0));
    assert!(matches!(
        select_service(&h, 200),
        Some(PaymentProcessorServices::Default)
    ));
}

#[test]
fn selection_falls_back_when_default_is_out() {
    let h = health((true, 9999), (false, 10));
    assert!(matches!(
        select_service(&h, 200),
        Some(PaymentProcessorServices::Fallback)
    ));
    let h2 = health((true, 200), (true, 199));
    assert!(matches!(
        select_service(&h2, 200),
        Some(PaymentProcessorServices::Fallback)
    ));
}

#[test]
fn a_payment_with_no_processor_is_deferred() {
    let txn = PaymentProcessorDTO { correlation_id: 7, amount_cents: 100, requested_at_ms: 5 };
    let outcome = process_payment_step(&txn, None, None);
    assert!(matches!(outcome, ProcessOutcome::Deferred));
    assert_eq!(response_status(&outcome), 202);
    assert_eq!(response_message(&outcome), "Payment queued for processing");
}

#[test]
fn an_accepted_submission_settles_with_the_chosen_processor() {
    let txn = PaymentProcessorDTO { correlation_id: 7, amount_cents: 100, requested_at_ms: 5 };
    let outcome = process_payment_step(
        &txn,
        Some(PaymentProcessorServices::Default),
        Some(200),
    );
    match outcome {
        ProcessOutcome::Settled(entry) => {
            assert_eq!(entry.correlation_id, 7);
            assert_eq!(entry.amount_cents, 100);
            assert_eq!(entry.requested_at_ms, 5);
            assert!(matches!(entry.service, PaymentProcessorServices::Default));
        }
        ProcessOutcome::Deferred => panic!("expected settlement"),
    }
    assert_eq!(response_status(&outcome), 200);
    assert_eq!(response_message(&outcome), "Payment processed successfully");
}

#[test]
fn a_rejected_or_unreachable_submission_is_deferred() {
    let txn = PaymentProcessorDTO { correlation_id: 7, amount_cents: 100, requested_at_ms: 5 };
    let rejected = process_payment_step(&txn, Some(PaymentProcessorServices::Fallback), Some(422));
    assert!(matches!(rejected, ProcessOutcome::Deferred));
    let unreachable = process_payment_step(&txn, Some(PaymentProcessorServices::Fallback), None);
    assert!(matches!(unreachable, ProcessOutcome::Deferred));
}

#[test]
fn submission_status_is_success_exactly_on_200() {
    assert!(interpret_submit_status(Some(200)).is_ok());
    assert_eq!(interpret_submit_status(Some(404)), Err(404));
    assert_eq!(interpret_submit_status(Some(500)), Err(500));
    assert_eq!(interpret_submit_status(None), Err(500));
}

#[test]
fn failed_probes_yield_the_failing_sentinel() {
    let ok = PaymentProcessorHealthCheckDTO { failing: false, min_response_time: 17 };
    assert_eq!(interpret_health_probe(Some(ok)), ok);
    let sentinel = interpret_health_probe(None);
    assert!(sentinel.failing);
    assert_eq!(sentinel.min_response_time, i32::MAX);
}

#[test]
fn processor_urls_and_names_resolve() {
    let d = PaymentProcessorServices::Default;
    let f = PaymentProcessorServices::Fallback;
    assert_eq!(d.to_string(), "default");
    assert_eq!(f.to_string(), "fallback");
    assert_eq!(d.env_key(), "PAYMENT_PROCESSOR_DEFAULT_URL");
    assert_eq!(f.env_key(), "PAYMENT_PROCESSOR_FALLBACK_URL");
    assert_eq!(d.get_url(&None), "http://localhost:8001");
    assert_eq!(f.get_url(&None), "http://localhost:8002");
    assert_eq!(
        d.get_url(&Some(String::from("http://proc:1"))),
        "http://proc:1"
    );
    assert!(matches!(
        PaymentProcessorServices::from_name("fallback"),
        PaymentProcessorServices::Fallback
    ));
    assert!(matches!(
        PaymentProcessorServices::from_name("default"),
        PaymentProcessorServices::Default
    ));
    assert!(matches!(
        PaymentProcessorServices::from_name("anything-else"),
        PaymentProcessorServices::Default
    ));
    assert_eq!(payments_url("http://proc:1"), "http://proc:1/payments");
    assert_eq!(
        health_url("http://proc:1"),
        "http://proc:1/payments/service-health"
    );
}

#[test]
fn configuration_defaults_apply() {
    assert_eq!(resolve_num_workers(&None), 50);
    assert_eq!(resolve_num_workers(&Some(String::from("7"))), 7);
    assert_eq!(resolve_num_workers(&Some(String::from("many"))), 50);
    assert_eq!(resolve_max_response_time(&None), 200);
    assert_eq!(resolve_max_response_time(&Some(String::from("-5"))), -5);
    assert_eq!(resolve_max_response_time(&Some(String::from("350"))), 350);
    assert_eq!(
        resolve_max_response_time(&Some(String::from("99999999999"))),
        200
    );
    assert!(resolve_is_master(&Some(String::from("MASTER"))));
    assert!(!resolve_is_master(&Some(String::from("replica"))));
    assert!(!resolve_is_master(&None));
    assert_eq!(resolve_collection_name(None), "payments");
    assert_eq!(resolve_queue_name(None), "payments_queue");
    assert_eq!(
        resolve_queue_name(Some(String::from("other_queue"))),
        "other_queue"
    );
    assert_eq!(listen_addr("9999"), "0.0.0.0:9999");
}
