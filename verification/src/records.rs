//! The buffer record: one settled payment as one pipe-delimited line.
//!
//! The wire contract of the memory buffer is the text record
//! `correlationId|RFC 3339 timestamp|amount in cents|service name`,
//! four fields in this order, separator `|`.  The writer and the parser
//! both live here, and every canonical record parses back to the entry
//! it was written from.

use vstd::prelude::*;
use vstd::string::StrSliceExecFns;
use vstd::string::StringExecFns;
use crate::digits::dec_int;
use crate::digits::format_i64;
use crate::digits::is_digit;
use crate::digits::lemma_dec_int_chars;
use crate::digits::lemma_dec_int_val;
use crate::digits::parse_i64;
use crate::ids::format_uuid;
use crate::ids::is_hex_lower;
use crate::ids::lemma_uuid_str_chars;
use crate::ids::parse_uuid;
use crate::ids::uuid_str_of;
use crate::payment_processors::service::lemma_service_name_chars;
use crate::payment_processors::service::lemma_service_name_round_trip;
use crate::payment_processors::service::service_name;
use crate::payment_processors::service::service_of_name;
use crate::payment_processors::service::PaymentProcessorServices;
use crate::strings::find_char;
use crate::structs::PaymentDatabaseEntry;
use crate::timestamp::format_rfc3339;
use crate::timestamp::is_rfc3339_char;
use crate::timestamp::parse_rfc3339;
use crate::timestamp::rfc3339_chars_ok;
use crate::timestamp::rfc3339_of;
use crate::timestamp::MAX_TIMESTAMP_MS;

verus! {

/// The buffered text form of a settled payment.
pub open spec fn record_of(e: PaymentDatabaseEntry) -> Seq<char> {
    uuid_str_of(e.correlation_id) + seq!['|'] + rfc3339_of(e.requested_at_ms) + seq!['|']
        + dec_int(e.amount_cents as int) + seq!['|'] + service_name(e.service)
}

/// An entry the record format can carry: its instant is renderable.
pub open spec fn recordable(e: PaymentDatabaseEntry) -> bool {
    0 <= e.requested_at_ms <= MAX_TIMESTAMP_MS
}

/// What is known of a record once the timestamp rendering is known to be
/// made of RFC 3339 characters: where its three separators stand.
pub open spec fn record_pipe2(e: PaymentDatabaseEntry) -> int {
    37 + rfc3339_of(e.requested_at_ms).len() as int
}

pub open spec fn record_pipe3(e: PaymentDatabaseEntry) -> int {
    record_pipe2(e) + 1 + dec_int(e.amount_cents as int).len()
}

/// A record carries its separators exactly at the three expected
/// positions, and its four fields are the four renderings.
pub proof fn lemma_record_shape(e: PaymentDatabaseEntry)
    requires
        rfc3339_chars_ok(rfc3339_of(e.requested_at_ms)),
    ensures
        record_of(e).len() == record_pipe3(e) + 1 + service_name(e.service).len(),
        record_of(e)[36] == '|',
        record_of(e)[record_pipe2(e)] == '|',
        record_of(e)[record_pipe3(e)] == '|',
        forall|k: int|
            0 <= k < record_of(e).len() && #[trigger] record_of(e)[k] == '|' ==> (k == 36 || k
                == record_pipe2(e) || k == record_pipe3(e)),
        record_of(e).subrange(0, 36) == uuid_str_of(e.correlation_id),
        record_of(e).subrange(37, record_pipe2(e)) == rfc3339_of(e.requested_at_ms),
        record_of(e).subrange(record_pipe2(e) + 1, record_pipe3(e)) == dec_int(
            e.amount_cents as int,
        ),
        record_of(e).subrange(record_pipe3(e) + 1, record_of(e).len() as int) == service_name(
            e.service,
        ),
{
    let u = uuid_str_of(e.correlation_id);
    let t = rfc3339_of(e.requested_at_ms);
    let a = dec_int(e.amount_cents as int);
    let n = service_name(e.service);
    let s = record_of(e);
    lemma_uuid_str_chars(e.correlation_id);
    lemma_dec_int_chars(e.amount_cents as int);
    lemma_service_name_chars(e.service);
    assert(s.len() == 39 + t.len() + a.len() + n.len());
    let q2 = record_pipe2(e);
    let q3 = record_pipe3(e);
    assert(s[36] == '|');
    assert(s[q2] == '|');
    assert(s[q3] == '|');
    assert forall|k: int|
        0 <= k < s.len() && #[trigger] s[k] == '|' implies (k == 36 || k == q2 || k == q3) by {
        if k < 36 {
            assert(s[k] == u[k]);
            assert(u[k] == '-' || is_hex_lower(u[k]));
            assert(u[k] != '|');
        } else if 36 < k < q2 {
            assert(s[k] == t[k - 37]);
            assert(is_rfc3339_char(t[k - 37]));
            assert(t[k - 37] != '|');
        } else if q2 < k < q3 {
            assert(s[k] == a[k - q2 - 1]);
            assert(a[k - q2 - 1] == '-' || is_digit(a[k - q2 - 1]));
            assert(a[k - q2 - 1] != '|');
        } else if q3 < k {
            assert(s[k] == n[k - q3 - 1]);
            assert(97 <= n[k - q3 - 1] as int <= 122);
            assert(n[k - q3 - 1] != '|');
        }
    }
    assert(s.subrange(0, 36) =~= u);
    assert(s.subrange(37, q2) =~= t);
    assert(s.subrange(q2 + 1, q3) =~= a);
    assert(s.subrange(q3 + 1, s.len() as int) =~= n);
}

/// Writes the buffered text record of a settled payment.
pub fn format_entry(e: &PaymentDatabaseEntry) -> (r: String)
    requires
        recordable(*e),
    ensures
        r@ == record_of(*e),
        rfc3339_chars_ok(rfc3339_of(e.requested_at_ms)),
{
    proof {
        reveal_strlit("|");
        assert("|"@ =~= seq!['|']);
    }
    let mut r = format_uuid(e.correlation_id);
    r.append("|");
    let t = format_rfc3339(e.requested_at_ms);
    r.append(t.as_str());
    r.append("|");
    let a = format_i64(e.amount_cents);
    r.append(a.as_str());
    r.append("|");
    let n = e.service.to_string();
    r.append(n.as_str());
    proof {
        assert(r@ =~= record_of(*e));
    }
    r
}

/// The canonical-record hypothesis the parser inverts: the line is the
/// record of `e`, `e`'s instant is renderable, and the instant's
/// rendering is made of RFC 3339 characters (which every rendering the
/// library writes is).
pub open spec fn is_record_of(s: Seq<char>, e: PaymentDatabaseEntry) -> bool {
    &&& recordable(e)
    &&& rfc3339_chars_ok(rfc3339_of(e.requested_at_ms))
    &&& s == record_of(e)
}

/// Reads one buffered text record back into a settled payment.  A line
/// that does not split into exactly four `|`-separated fields, or whose
/// id, timestamp or amount field does not parse, yields nothing.  Every
/// canonical record yields the entry it was written from.
pub fn parse_entry(s: &str) -> (r: Option<PaymentDatabaseEntry>)
    ensures
        forall|e: PaymentDatabaseEntry| is_record_of(s@, e) ==> r == Some(e),
{
    let len = s.unicode_len();
    let p1 = match find_char(s, 0, '|') {
        Some(p) => p,
        None => {
            proof {
                assert forall|e: PaymentDatabaseEntry| !is_record_of(s@, e) by {
                    if rfc3339_chars_ok(rfc3339_of(e.requested_at_ms)) && s@ == record_of(e) {
                        lemma_record_shape(e);
                    }
                }
            }
            return None;
        },
    };
    let p2 = match find_char(s, p1 + 1, '|') {
        Some(p) => p,
        None => {
            proof {
                assert forall|e: PaymentDatabaseEntry| !is_record_of(s@, e) by {
                    if rfc3339_chars_ok(rfc3339_of(e.requested_at_ms)) && s@ == record_of(e) {
                        lemma_record_shape(e);
                        assert(p1 == 36);
                        assert(s@[record_pipe2(e)] == '|');
                    }
                }
            }
            return None;
        },
    };
    let p3 = match find_char(s, p2 + 1, '|') {
        Some(p) => p,
        None => {
            proof {
                assert forall|e: PaymentDatabaseEntry| !is_record_of(s@, e) by {
                    if rfc3339_chars_ok(rfc3339_of(e.requested_at_ms)) && s@ == record_of(e) {
                        lemma_record_shape(e);
                        assert(p1 == 36);
                        assert(p2 == record_pipe2(e));
                        assert(s@[record_pipe3(e)] == '|');
                    }
                }
            }
            return None;
        },
    };
    match find_char(s, p3 + 1, '|') {
        Some(_) => {
            proof {
                assert forall|e: PaymentDatabaseEntry| !is_record_of(s@, e) by {
                    if rfc3339_chars_ok(rfc3339_of(e.requested_at_ms)) && s@ == record_of(e) {
                        lemma_record_shape(e);
                        assert(p1 == 36);
                        assert(p2 == record_pipe2(e));
                        assert(p3 == record_pipe3(e));
                    }
                }
            }
            return None;
        },
        None => {},
    }
    proof {
        assert forall|e: PaymentDatabaseEntry| is_record_of(s@, e) implies (p1 == 36 && p2
            == record_pipe2(e) && p3 == record_pipe3(e)) by {
            lemma_record_shape(e);
        }
    }
    let u_part = s.substring_char(0, p1);
    let t_part = s.substring_char(p1 + 1, p2);
    let a_part = s.substring_char(p2 + 1, p3);
    let n_part = s.substring_char(p3 + 1, len);
    let correlation_id = match parse_uuid(u_part) {
        Some(id) => id,
        None => {
            proof {
                assert forall|e: PaymentDatabaseEntry| !is_record_of(s@, e) by {
                    if is_record_of(s@, e) {
                        lemma_record_shape(e);
                        assert(u_part@ == uuid_str_of(e.correlation_id));
                    }
                }
            }
            return None;
        },
    };
    let requested_at_ms = match parse_rfc3339(t_part) {
        Some(t) => t,
        None => {
            proof {
                assert forall|e: PaymentDatabaseEntry| !is_record_of(s@, e) by {
                    if is_record_of(s@, e) {
                        lemma_record_shape(e);
                        assert(t_part@ == rfc3339_of(e.requested_at_ms));
                    }
                }
            }
            return None;
        },
    };
    let amount_cents = match parse_i64(a_part) {
        Some(a) => a,
        None => {
            proof {
                assert forall|e: PaymentDatabaseEntry| !is_record_of(s@, e) by {
                    if is_record_of(s@, e) {
                        lemma_record_shape(e);
                        assert(a_part@ == dec_int(e.amount_cents as int));
                        lemma_dec_int_val(e.amount_cents as int);
                    }
                }
            }
            return None;
        },
    };
    let service = PaymentProcessorServices::from_name(n_part);
    let entry = PaymentDatabaseEntry { correlation_id, requested_at_ms, amount_cents, service };
    proof {
        assert forall|e: PaymentDatabaseEntry| is_record_of(s@, e) implies entry == e by {
            lemma_record_shape(e);
            assert(u_part@ == uuid_str_of(e.correlation_id));
            assert(correlation_id == e.correlation_id);
            assert(t_part@ == rfc3339_of(e.requested_at_ms));
            assert(requested_at_ms == e.requested_at_ms);
            assert(a_part@ == dec_int(e.amount_cents as int));
            lemma_dec_int_val(e.amount_cents as int);
            assert(amount_cents == e.amount_cents);
            assert(n_part@ == service_name(e.service));
            lemma_service_name_round_trip(e.service);
            assert(service == e.service);
        }
    }
    Some(entry)
}

/// The canonical-lines hypothesis of a drained buffer: line for line,
/// the records of a sequence of entries.
pub open spec fn are_records_of(lines: Seq<String>, es: Seq<PaymentDatabaseEntry>) -> bool {
    &&& lines.len() == es.len()
    &&& forall|i: int| 0 <= i < lines.len() ==> is_record_of(#[trigger] lines[i]@, es[i])
}

/// Reads a drained buffer back into settled payments, in drain order,
/// silently discarding lines that do not parse.  A buffer of canonical
/// records yields exactly the entries it was written from, in order.
pub fn parse_drained(lines: &Vec<String>) -> (r: Vec<PaymentDatabaseEntry>)
    ensures
        r@.len() <= lines@.len(),
        forall|es: Seq<PaymentDatabaseEntry>| #[trigger]
            are_records_of(lines@, es) ==> r@ == es,
{
    let mut out: Vec<PaymentDatabaseEntry> = Vec::new();
    let n = lines.len();
    let mut i: usize = 0;
    while i < n
        invariant
            n == lines@.len(),
            i <= n,
            out@.len() <= i,
            forall|es: Seq<PaymentDatabaseEntry>| #[trigger]
                are_records_of(lines@, es) ==> out@ == es.take(i as int),
        decreases n - i,
    {
        let parsed = parse_entry(lines[i].as_str());
        match parsed {
            Some(entry) => {
                out.push(entry);
            },
            None => {},
        }
        proof {
            assert forall|es: Seq<PaymentDatabaseEntry>| #[trigger]
                are_records_of(lines@, es) implies out@ == es.take(i as int + 1) by {
                assert(is_record_of(lines@[i as int]@, es[i as int]));
                assert(parsed == Some(es[i as int]));
                assert(es.take(i as int + 1) =~= es.take(i as int).push(es[i as int]));
            }
        }
        i += 1;
    }
    proof {
        assert forall|es: Seq<PaymentDatabaseEntry>| #[trigger]
            are_records_of(lines@, es) implies out@ == es by {
            assert(es.take(n as int) =~= es);
        }
    }
    out
}

} // verus!
