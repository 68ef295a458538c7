//! The shared data model: request, record, query and summary shapes.
//!
//! Amounts are integer minor units (cents); instants are milliseconds
//! since the Unix epoch.  The binary around the library converts between
//! these and the decimal/RFC 3339 forms of its HTTP surface.

use vstd::prelude::*;
use crate::payment_processors::service::PaymentProcessorServices;
use crate::payment_processors::structs::PaymentProcessorDTO;

verus! {

/// A payment authorization request as it enters the gateway.
#[derive(Debug, Clone, Copy, PartialEq, Eq, Structural)]
pub struct PaymentDTO {
    pub correlation_id: u128,
    pub amount_cents: i64,
}

impl PaymentDTO {
    /// The transaction derived from a request at intake time, stamped
    /// with the receipt instant.
    pub fn to_processor_dto(&self, requested_at_ms: i64) -> (r: PaymentProcessorDTO)
        ensures
            r.correlation_id == self.correlation_id,
            r.amount_cents == self.amount_cents,
            r.requested_at_ms == requested_at_ms,
    {
        PaymentProcessorDTO {
            correlation_id: self.correlation_id,
            amount_cents: self.amount_cents,
            requested_at_ms,
        }
    }
}

/// A settled payment as buffered and as persisted.
#[derive(Debug, Clone, Copy, PartialEq, Eq, Structural)]
pub struct PaymentDatabaseEntry {
    pub correlation_id: u128,
    pub requested_at_ms: i64,
    pub amount_cents: i64,
    pub service: PaymentProcessorServices,
}

/// The optional time bounds of a summary query.
#[derive(Debug, Clone, Copy)]
pub struct PaymentSummaryQuery {
    pub from_ms: Option<i64>,
    pub to_ms: Option<i64>,
}

/// One processor's aggregate: how many settled payments and their total
/// amount in cents.
#[derive(Debug, Clone, Copy, PartialEq, Eq, Structural)]
pub struct PaymentsServiceSummary {
    pub total_requests: u32,
    pub total_amount_cents: i64,
}

/// Both processors' aggregates, as the summary endpoint reports them.
#[derive(Debug, Clone, Copy, PartialEq, Eq, Structural)]
pub struct PaymentsSummaryResponseDTO {
    pub default: PaymentsServiceSummary,
    pub fallback: PaymentsServiceSummary,
}

} // verus!
