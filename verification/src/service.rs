//! The payment orchestration rules: which processor a health snapshot
//! admits, and what one processing attempt settles or defers.  The same
//! decision path serves the request handler and the background workers;
//! the binary around the library performs the network calls and feeds
//! their outcomes back in.

use vstd::prelude::*;
use vstd::string::StringExecFns;
use crate::payment_processors::service::submit_ok;
use crate::payment_processors::service::PaymentProcessorServices;
use crate::payment_processors::structs::PaymentProcessorDTO;
use crate::payment_processors::structs::PaymentProcessorHealth;
use crate::structs::PaymentDatabaseEntry;

verus! {

/// The processor the admission rule selects: Default when it is not
/// failing or is fast enough, else Fallback by the same test, else none.
/// (The rule admits a failing processor that still reports a low response
/// time; that is the observed policy, kept as it stands.)
pub open spec fn selected_service(h: PaymentProcessorHealth, max_response_time: i32) -> Option<
    PaymentProcessorServices,
> {
    if !h.default.failing || h.default.min_response_time < max_response_time {
        Some(PaymentProcessorServices::Default)
    } else if !h.fallback.failing || h.fallback.min_response_time < max_response_time {
        Some(PaymentProcessorServices::Fallback)
    } else {
        None
    }
}

/// Picks the processor the current health snapshot admits, if any.
pub fn select_service(
    payment_processors_health: &PaymentProcessorHealth,
    max_response_time: i32,
) -> (r: Option<PaymentProcessorServices>)
    ensures
        r == selected_service(*payment_processors_health, max_response_time),
{
    if !payment_processors_health.default.failing
        || payment_processors_health.default.min_response_time < max_response_time {
        Some(PaymentProcessorServices::Default)
    } else if !payment_processors_health.fallback.failing
        || payment_processors_health.fallback.min_response_time < max_response_time {
        Some(PaymentProcessorServices::Fallback)
    } else {
        None
    }
}

/// What one pass of the orchestration concludes for a transaction.
#[derive(Debug, Clone, Copy, PartialEq, Eq, Structural)]
pub enum ProcessOutcome {
    /// The payment settled: record this entry and confirm.
    Settled(PaymentDatabaseEntry),
    /// The payment did not settle: enqueue the transaction and answer
    /// "accepted, queued".
    Deferred,
}

/// The settled-payment entry a successful submission leaves behind,
/// tagged with the processor that took it.
pub open spec fn settlement_of(
    txn: PaymentProcessorDTO,
    service: PaymentProcessorServices,
) -> PaymentDatabaseEntry {
    PaymentDatabaseEntry {
        correlation_id: txn.correlation_id,
        requested_at_ms: txn.requested_at_ms,
        amount_cents: txn.amount_cents,
        service,
    }
}

/// The single decision path of `process`: with no admitted processor the
/// transaction is deferred; with one, a submission answered 200 settles
/// and anything else (another status, or no answer at all) defers.
pub fn process_payment_step(
    txn: &PaymentProcessorDTO,
    selected: Option<PaymentProcessorServices>,
    submit_status: Option<u16>,
) -> (r: ProcessOutcome)
    ensures
        match selected {
            Some(svc) => if submit_status matches Some(code) && submit_ok(code) {
                r == ProcessOutcome::Settled(settlement_of(*txn, svc))
            } else {
                r == ProcessOutcome::Deferred
            },
            None => r == ProcessOutcome::Deferred,
        },
{
    match selected {
        Some(svc) => match submit_status {
            Some(code) => if code == 200 {
                ProcessOutcome::Settled(
                    PaymentDatabaseEntry {
                        correlation_id: txn.correlation_id,
                        requested_at_ms: txn.requested_at_ms,
                        amount_cents: txn.amount_cents,
                        service: svc,
                    },
                )
            } else {
                ProcessOutcome::Deferred
            },
            None => ProcessOutcome::Deferred,
        },
        None => ProcessOutcome::Deferred,
    }
}

/// The HTTP status the gateway answers for an outcome: 200 when settled,
/// 202 when deferred.
pub fn response_status(outcome: &ProcessOutcome) -> (r: u16)
    ensures
        (outcome matches ProcessOutcome::Settled(_)) ==> r == 200,
        outcome is Deferred ==> r == 202,
{
    match outcome {
        ProcessOutcome::Settled(_) => 200,
        ProcessOutcome::Deferred => 202,
    }
}

/// The confirmation body the gateway answers for an outcome.
pub fn response_message(outcome: &ProcessOutcome) -> (r: String)
    ensures
        (outcome matches ProcessOutcome::Settled(_)) ==> r@ == "Payment processed successfully"@,
        outcome is Deferred ==> r@ == "Payment queued for processing"@,
{
    match outcome {
        ProcessOutcome::Settled(_) => String::from_str("Payment processed successfully"),
        ProcessOutcome::Deferred => String::from_str("Payment queued for processing"),
    }
}

} // verus!
