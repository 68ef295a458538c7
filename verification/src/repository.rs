//! The durable side of settled payments: the aggregation that backs the
//! summary endpoint, the text of the multi-row insert that reconciles the
//! buffer into storage, and the purge confirmation.
//!
//! The database server executes the statements; what they must compute is
//! stated and proved here over the library's own model of the rows.

use vstd::prelude::*;
use vstd::string::StrSliceExecFns;
use vstd::string::StringExecFns;
use crate::digits::dec_digits;
use crate::digits::format_u64;
use crate::payment_processors::service::service_name;
use crate::payment_processors::service::PaymentProcessorServices;
use crate::strings::str_eq;
use crate::structs::PaymentDatabaseEntry;
use crate::structs::PaymentSummaryQuery;
use crate::structs::PaymentsServiceSummary;
use crate::structs::PaymentsSummaryResponseDTO;

verus! {

/// One grouped row of the summary query: a service name with its count
/// and its minor-unit sum.
#[derive(Debug, Clone)]
pub struct SummaryRow {
    pub service: String,
    pub total_requests: u32,
    pub total_amount_cents: i64,
}

/// The summary the grouped rows give one service: the first row bearing
/// its name, or zeroes when no row does.
pub open spec fn summary_from_rows(rows: Seq<SummaryRow>, name: Seq<char>) -> PaymentsServiceSummary
    decreases rows.len(),
{
    if rows.len() == 0 {
        PaymentsServiceSummary { total_requests: 0, total_amount_cents: 0 }
    } else if rows[0].service@ == name {
        PaymentsServiceSummary {
            total_requests: rows[0].total_requests,
            total_amount_cents: rows[0].total_amount_cents,
        }
    } else {
        summary_from_rows(rows.skip(1), name)
    }
}

/// Reads one service's summary out of the grouped rows; a service with
/// no row summarizes to zero requests and zero amount.
pub fn extract_summary(rows: &Vec<SummaryRow>, service: &str) -> (r: PaymentsServiceSummary)
    ensures
        r == summary_from_rows(rows@, service@),
{
    let n = rows.len();
    let mut i: usize = 0;
    proof {
        assert(rows@.skip(0) =~= rows@);
    }
    while i < n
        invariant
            n == rows@.len(),
            i <= n,
            summary_from_rows(rows@, service@) == summary_from_rows(rows@.skip(i as int), service@),
        decreases n - i,
    {
        proof {
            assert(rows@.skip(i as int)[0] == rows@[i as int]);
        }
        if str_eq(rows[i].service.as_str(), service) {
            return PaymentsServiceSummary {
                total_requests: rows[i].total_requests,
                total_amount_cents: rows[i].total_amount_cents,
            };
        }
        proof {
            assert(rows@.skip(i as int).skip(1) =~= rows@.skip(i as int + 1));
        }
        i += 1;
    }
    proof {
        assert(rows@.skip(n as int).len() == 0);
    }
    PaymentsServiceSummary { total_requests: 0, total_amount_cents: 0 }
}

/// Whether a row's instant lies inside the query's bounds: at or after
/// `from` when `from` is present, at or before `to` when `to` is present;
/// an absent bound does not restrict.
pub open spec fn within_bounds(e: PaymentDatabaseEntry, from: Option<i64>, to: Option<i64>) -> bool {
    &&& match from {
        Some(f) => e.requested_at_ms >= f,
        None => true,
    }
    &&& match to {
        Some(t) => e.requested_at_ms <= t,
        None => true,
    }
}

/// How many rows of a service fall inside the bounds.
pub open spec fn count_for(
    rows: Seq<PaymentDatabaseEntry>,
    svc: PaymentProcessorServices,
    from: Option<i64>,
    to: Option<i64>,
) -> nat
    decreases rows.len(),
{
    if rows.len() == 0 {
        0
    } else {
        count_for(rows.drop_last(), svc, from, to) + (if rows.last().service == svc
            && within_bounds(rows.last(), from, to) {
            1nat
        } else {
            0nat
        })
    }
}

/// The minor-unit sum of a service's rows inside the bounds.
pub open spec fn amount_for(
    rows: Seq<PaymentDatabaseEntry>,
    svc: PaymentProcessorServices,
    from: Option<i64>,
    to: Option<i64>,
) -> int
    decreases rows.len(),
{
    if rows.len() == 0 {
        0
    } else {
        amount_for(rows.drop_last(), svc, from, to) + (if rows.last().service == svc
            && within_bounds(rows.last(), from, to) {
            rows.last().amount_cents as int
        } else {
            0
        })
    }
}

/// A table with no rows summarizes to zero for every service and any
/// bounds — what a summary right after a purge reports.
pub proof fn lemma_summary_empty(
    svc: PaymentProcessorServices,
    from: Option<i64>,
    to: Option<i64>,
)
    ensures
        count_for(Seq::<PaymentDatabaseEntry>::empty(), svc, from, to) == 0,
        amount_for(Seq::<PaymentDatabaseEntry>::empty(), svc, from, to) == 0,
{
}

/// A row outside the bounds changes no service's count and no service's
/// amount: the summary excludes it.
pub proof fn lemma_summary_excludes_out_of_bounds(
    rows: Seq<PaymentDatabaseEntry>,
    e: PaymentDatabaseEntry,
    svc: PaymentProcessorServices,
    from: Option<i64>,
    to: Option<i64>,
)
    requires
        !within_bounds(e, from, to),
    ensures
        count_for(rows.push(e), svc, from, to) == count_for(rows, svc, from, to),
        amount_for(rows.push(e), svc, from, to) == amount_for(rows, svc, from, to),
{
    assert(rows.push(e).drop_last() =~= rows);
}

/// When every row lies outside the bounds — as when `from` lies after
/// every instant in the table — the summary is zero everywhere.
pub proof fn lemma_summary_all_excluded(
    rows: Seq<PaymentDatabaseEntry>,
    svc: PaymentProcessorServices,
    from: Option<i64>,
    to: Option<i64>,
)
    requires
        forall|i: int| 0 <= i < rows.len() ==> !within_bounds(#[trigger] rows[i], from, to),
    ensures
        count_for(rows, svc, from, to) == 0,
        amount_for(rows, svc, from, to) == 0,
    decreases rows.len(),
{
    if rows.len() > 0 {
        assert(!within_bounds(rows.last(), from, to));
        assert(forall|i: int|
            0 <= i < rows.drop_last().len() ==> !within_bounds(
                #[trigger] rows.drop_last()[i],
                from,
                to,
            ));
        lemma_summary_all_excluded(rows.drop_last(), svc, from, to);
    }
}

/// One settled payment inside the bounds raises its own service's count
/// by one and its amount by the payment's, and leaves the other
/// service's totals unchanged.
pub proof fn lemma_summary_push(
    rows: Seq<PaymentDatabaseEntry>,
    e: PaymentDatabaseEntry,
    svc: PaymentProcessorServices,
    from: Option<i64>,
    to: Option<i64>,
)
    requires
        within_bounds(e, from, to),
    ensures
        e.service == svc ==> count_for(rows.push(e), svc, from, to) == count_for(
            rows,
            svc,
            from,
            to,
        ) + 1,
        e.service == svc ==> amount_for(rows.push(e), svc, from, to) == amount_for(
            rows,
            svc,
            from,
            to,
        ) + e.amount_cents,
        e.service != svc ==> count_for(rows.push(e), svc, from, to) == count_for(
            rows,
            svc,
            from,
            to,
        ),
        e.service != svc ==> amount_for(rows.push(e), svc, from, to) == amount_for(
            rows,
            svc,
            from,
            to,
        ),
{
    assert(rows.push(e).drop_last() =~= rows);
}

/// Once a settled payment is recorded, a summary whose bounds include
/// its instant counts one more request for the processor that settled it
/// and a total higher by exactly the payment's amount, while the other
/// processor's totals stand unchanged.
pub proof fn lemma_settlement_raises_summary(
    rows: Seq<PaymentDatabaseEntry>,
    txn: crate::payment_processors::structs::PaymentProcessorDTO,
    svc: PaymentProcessorServices,
    other: PaymentProcessorServices,
    from: Option<i64>,
    to: Option<i64>,
)
    requires
        within_bounds(crate::service::settlement_of(txn, svc), from, to),
        other != svc,
    ensures
        count_for(rows.push(crate::service::settlement_of(txn, svc)), svc, from, to)
            == count_for(rows, svc, from, to) + 1,
        amount_for(rows.push(crate::service::settlement_of(txn, svc)), svc, from, to)
            == amount_for(rows, svc, from, to) + txn.amount_cents,
        count_for(rows.push(crate::service::settlement_of(txn, svc)), other, from, to)
            == count_for(rows, other, from, to),
        amount_for(rows.push(crate::service::settlement_of(txn, svc)), other, from, to)
            == amount_for(rows, other, from, to),
{
    lemma_summary_push(rows, crate::service::settlement_of(txn, svc), svc, from, to);
    lemma_summary_push(rows, crate::service::settlement_of(txn, svc), other, from, to);
}

/// Aggregates settled payments into the two services' summaries, under
/// the query's bounds.  This is the library's statement of what the
/// grouped summary statement computes over the durable rows.
pub fn summarize_entries(
    rows: &Vec<PaymentDatabaseEntry>,
    query: &PaymentSummaryQuery,
) -> (r: PaymentsSummaryResponseDTO)
    requires
        rows@.len() <= u32::MAX,
        -0x8000_0000_0000_0000 <= amount_for(
            rows@,
            PaymentProcessorServices::Default,
            query.from_ms,
            query.to_ms,
        ) < 0x8000_0000_0000_0000,
        -0x8000_0000_0000_0000 <= amount_for(
            rows@,
            PaymentProcessorServices::Fallback,
            query.from_ms,
            query.to_ms,
        ) < 0x8000_0000_0000_0000,
    ensures
        r.default.total_requests == count_for(
            rows@,
            PaymentProcessorServices::Default,
            query.from_ms,
            query.to_ms,
        ),
        r.default.total_amount_cents == amount_for(
            rows@,
            PaymentProcessorServices::Default,
            query.from_ms,
            query.to_ms,
        ),
        r.fallback.total_requests == count_for(
            rows@,
            PaymentProcessorServices::Fallback,
            query.from_ms,
            query.to_ms,
        ),
        r.fallback.total_amount_cents == amount_for(
            rows@,
            PaymentProcessorServices::Fallback,
            query.from_ms,
            query.to_ms,
        ),
{
    let from = query.from_ms;
    let to = query.to_ms;
    let n = rows.len();
    let mut default_count: u32 = 0;
    let mut default_amount: i128 = 0;
    let mut fallback_count: u32 = 0;
    let mut fallback_amount: i128 = 0;
    let mut i: usize = 0;
    while i < n
        invariant
            n == rows@.len(),
            n <= u32::MAX,
            i <= n,
            default_count == count_for(
                rows@.take(i as int),
                PaymentProcessorServices::Default,
                from,
                to,
            ),
            default_amount == amount_for(
                rows@.take(i as int),
                PaymentProcessorServices::Default,
                from,
                to,
            ),
            fallback_count == count_for(
                rows@.take(i as int),
                PaymentProcessorServices::Fallback,
                from,
                to,
            ),
            fallback_amount == amount_for(
                rows@.take(i as int),
                PaymentProcessorServices::Fallback,
                from,
                to,
            ),
            default_count <= i,
            fallback_count <= i,
            -0x8000_0000_0000_0000 * (i as int) <= default_amount <= 0x8000_0000_0000_0000 * (
            i as int),
            -0x8000_0000_0000_0000 * (i as int) <= fallback_amount <= 0x8000_0000_0000_0000 * (
            i as int),
        decreases n - i,
    {
        let e = rows[i];
        proof {
            assert(rows@.take(i as int + 1).drop_last() =~= rows@.take(i as int));
            assert(rows@.take(i as int + 1).last() == rows@[i as int]);
            vstd::arithmetic::mul::lemma_mul_inequality(
                i as int,
                i as int + 1,
                0x8000_0000_0000_0000,
            );
        }
        let in_bounds = (match from {
            Some(f) => e.requested_at_ms >= f,
            None => true,
        }) && (match to {
            Some(t) => e.requested_at_ms <= t,
            None => true,
        });
        if in_bounds {
            match e.service {
                PaymentProcessorServices::Default => {
                    default_count = default_count + 1;
                    default_amount = default_amount + e.amount_cents as i128;
                },
                PaymentProcessorServices::Fallback => {
                    fallback_count = fallback_count + 1;
                    fallback_amount = fallback_amount + e.amount_cents as i128;
                },
            }
        }
        i += 1;
    }
    proof {
        assert(rows@.take(n as int) =~= rows@);
    }
    PaymentsSummaryResponseDTO {
        default: PaymentsServiceSummary {
            total_requests: default_count,
            total_amount_cents: default_amount as i64,
        },
        fallback: PaymentsServiceSummary {
            total_requests: fallback_count,
            total_amount_cents: fallback_amount as i64,
        },
    }
}

/// One group of placeholders of the reconciling insert, four parameters
/// for the row at this index, parameters numbered from one.
pub open spec fn placeholder_group(i: nat) -> Seq<char> {
    "($"@ + dec_digits(4 * i + 1) + ", $"@ + dec_digits(4 * i + 2) + ", $"@ + dec_digits(
        4 * i + 3,
    ) + ", $"@ + dec_digits(4 * i + 4) + ")"@
}

/// The placeholder groups of the first `n` rows, comma-separated.
pub open spec fn placeholders_of(n: nat) -> Seq<char>
    decreases n,
{
    if n == 0 {
        Seq::<char>::empty()
    } else if n == 1 {
        placeholder_group(0)
    } else {
        placeholders_of((n - 1) as nat) + ", "@ + placeholder_group((n - 1) as nat)
    }
}

/// The reconciling insert statement for `n` buffered rows.
pub open spec fn insert_query_of(n: nat) -> Seq<char> {
    "INSERT INTO transactions (correlation_id, processed_at, amount, service) VALUES "@
        + placeholders_of(n)
}

/// Writes the multi-row insert statement that reconciles `n` buffered
/// payments into the `transactions` table in one round trip.
#[verifier::rlimit(100)]
pub fn build_insert_query(n: usize) -> (r: String)
    requires
        n >= 1,
        4 * (n as int) + 4 <= u64::MAX,
    ensures
        r@ == insert_query_of(n as nat),
{
    let mut r = String::from_str(
        "INSERT INTO transactions (correlation_id, processed_at, amount, service) VALUES ",
    );
    let mut i: usize = 0;
    while i < n
        invariant
            1 <= n,
            4 * (n as int) + 4 <= u64::MAX,
            i <= n,
            r@ == "INSERT INTO transactions (correlation_id, processed_at, amount, service) VALUES "@
                + placeholders_of(i as nat),
        decreases n - i,
    {
        if i > 0 {
            r.append(", ");
        }
        let base: u64 = 4 * (i as u64);
        r.append("($");
        let p1 = format_u64(base + 1);
        r.append(p1.as_str());
        r.append(", $");
        let p2 = format_u64(base + 2);
        r.append(p2.as_str());
        r.append(", $");
        let p3 = format_u64(base + 3);
        r.append(p3.as_str());
        r.append(", $");
        let p4 = format_u64(base + 4);
        r.append(p4.as_str());
        r.append(")");
        proof {
            assert(placeholder_group(i as nat) =~= "($"@ + dec_digits((base + 1) as nat) + ", $"@
                + dec_digits((base + 2) as nat) + ", $"@ + dec_digits((base + 3) as nat) + ", $"@
                + dec_digits((base + 4) as nat) + ")"@);
            if i == 0 {
                assert(placeholders_of(0) =~= Seq::<char>::empty());
                assert(placeholders_of(1) == placeholder_group(0));
            }
            assert(r@
                =~= "INSERT INTO transactions (correlation_id, processed_at, amount, service) VALUES "@
                + placeholders_of((i + 1) as nat));
        }
        i += 1;
    }
    r
}

/// The confirmation body of the purge endpoint: `Purged {N} payments`.
pub fn purge_message(n: u64) -> (r: String)
    ensures
        r@ == "Purged "@ + dec_digits(n as nat) + " payments"@,
{
    let mut r = String::from_str("Purged ");
    let d = format_u64(n);
    r.append(d.as_str());
    r.append(" payments");
    r
}

} // verus!
