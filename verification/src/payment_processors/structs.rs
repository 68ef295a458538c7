//! Data shapes exchanged with the payment processors.

use vstd::prelude::*;

verus! {

/// Milliseconds a processor may report as its minimum response time before
/// it is considered too slow, unless the deployment overrides the bound.
pub const PAYMENT_PROCESSOR_MAX_RESPONSE_TIME: i32 = 200;

/// A transaction as submitted to a processor, carried by the retry queue
/// and recorded by the buffer.  The amount is in integer minor units
/// (cents); the request instant is in milliseconds since the Unix epoch.
#[derive(Debug, Clone, Copy, PartialEq, Eq, Structural)]
pub struct PaymentProcessorDTO {
    pub correlation_id: u128,
    pub amount_cents: i64,
    pub requested_at_ms: i64,
}

/// The confirmation message a processor sends back on success.
#[derive(Debug, Clone)]
pub struct PaymentProcessorResponseDTO {
    pub message: String,
}

/// One processor's health as its health endpoint reports it.
#[derive(Debug, Clone, Copy, PartialEq, Eq, Structural)]
pub struct PaymentProcessorHealthCheckDTO {
    pub failing: bool,
    pub min_response_time: i32,
}

impl PaymentProcessorHealthCheckDTO {
    /// The fail-safe state assumed whenever a health probe cannot be
    /// completed or understood: failing, with an unbounded response time.
    pub fn failing_sentinel() -> (r: Self)
        ensures
            r.failing == true,
            r.min_response_time == i32::MAX,
    {
        PaymentProcessorHealthCheckDTO { failing: true, min_response_time: i32::MAX }
    }
}

/// Both processors' health, held as one value so that readers never see
/// the two sides from different probe rounds.
#[derive(Debug, Clone, Copy, PartialEq, Eq, Structural)]
pub struct PaymentProcessorHealth {
    pub default: PaymentProcessorHealthCheckDTO,
    pub fallback: PaymentProcessorHealthCheckDTO,
}

impl PaymentProcessorHealth {
    /// The state every instance starts from: both processors assumed
    /// reachable and instant, until a first probe or message says otherwise.
    pub fn initial() -> (r: Self)
        ensures
            r.default.failing == false,
            r.default.min_response_time == 0,
            r.fallback.failing == false,
            r.fallback.min_response_time == 0,
    {
        PaymentProcessorHealth {
            default: PaymentProcessorHealthCheckDTO { failing: false, min_response_time: 0 },
            fallback: PaymentProcessorHealthCheckDTO { failing: false, min_response_time: 0 },
        }
    }
}

} // verus!
