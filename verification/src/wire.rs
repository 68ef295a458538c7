//! The wire JSON of the gateway's own exchanges: the transaction body
//! submitted to a processor and carried by the retry queue, and the
//! health snapshot published on the propagation channel.
//!
//! Both shapes are fixed-form JSON written and read only by the gateway's
//! own instances, so the writer and the parser are each other's inverses:
//! every encoded value decodes back to itself.  Amounts travel as
//! decimals in major units, instants as RFC 3339 strings, ids in the
//! canonical hyphenated form.

use vstd::prelude::*;
use vstd::string::StrSliceExecFns;
use vstd::string::StringExecFns;
use crate::digits::amount_str;
use crate::digits::dec_int;
use crate::digits::format_amount;
use crate::digits::format_i64;
use crate::digits::is_digit;
use crate::digits::lemma_amount_str_chars;
use crate::digits::lemma_amount_str_val;
use crate::digits::lemma_dec_int_chars;
use crate::digits::lemma_dec_int_val;
use crate::digits::parse_amount;
use crate::digits::parse_i64;
use crate::ids::format_uuid;
use crate::ids::parse_uuid;
use crate::ids::lemma_uuid_str_chars;
use crate::ids::uuid_str_of;
use crate::payment_processors::structs::PaymentProcessorDTO;
use crate::payment_processors::structs::PaymentProcessorHealth;
use crate::payment_processors::structs::PaymentProcessorHealthCheckDTO;
use crate::strings::find_char;
use crate::strings::starts_with_at;
use crate::timestamp::format_rfc3339;
use crate::timestamp::parse_rfc3339;
use crate::timestamp::rfc3339_chars_ok;
use crate::timestamp::rfc3339_of;
use crate::timestamp::MAX_TIMESTAMP_MS;

verus! {

/// The JSON body of a transaction: `correlationId`, `amount` and
/// `requestedAt`, in this order, camelCase keys.
pub open spec fn txn_json_of(t: PaymentProcessorDTO) -> Seq<char> {
    "{\"correlationId\":\""@ + uuid_str_of(t.correlation_id) + "\",\"amount\":"@ + amount_str(
        t.amount_cents as int,
    ) + ",\"requestedAt\":\""@ + rfc3339_of(t.requested_at_ms) + "\"}"@
}

/// A transaction the wire form can carry: its instant is renderable.
pub open spec fn encodable(t: PaymentProcessorDTO) -> bool {
    0 <= t.requested_at_ms <= MAX_TIMESTAMP_MS
}

/// The canonical-body hypothesis the decoder inverts.
pub open spec fn is_txn_json_of(s: Seq<char>, t: PaymentProcessorDTO) -> bool {
    &&& encodable(t)
    &&& rfc3339_chars_ok(rfc3339_of(t.requested_at_ms))
    &&& s == txn_json_of(t)
}

/// The length of the amount field inside a transaction body.
pub open spec fn txn_amount_len(t: PaymentProcessorDTO) -> int {
    amount_str(t.amount_cents as int).len() as int
}

/// A transaction body decomposes at fixed offsets: the id fills
/// positions 18 to 54, the amount follows the literal at 54 and runs to
/// the first comma after 65, the instant fills the rest up to `"}`.
pub proof fn lemma_txn_json_shape(t: PaymentProcessorDTO)
    requires
        rfc3339_chars_ok(rfc3339_of(t.requested_at_ms)),
    ensures
        txn_json_of(t).len() == 83 + txn_amount_len(t) + rfc3339_of(t.requested_at_ms).len(),
        txn_json_of(t).subrange(0, 18) == "{\"correlationId\":\""@,
        txn_json_of(t).subrange(18, 54) == uuid_str_of(t.correlation_id),
        txn_json_of(t).subrange(54, 65) == "\",\"amount\":"@,
        txn_json_of(t).subrange(65, 65 + txn_amount_len(t)) == amount_str(t.amount_cents as int),
        forall|k: int|
            65 <= k < 65 + txn_amount_len(t) ==> #[trigger] txn_json_of(t)[k] != ',',
        txn_json_of(t)[65 + txn_amount_len(t)] == ',',
        txn_json_of(t).subrange(65 + txn_amount_len(t), 81 + txn_amount_len(t))
            == ",\"requestedAt\":\""@,
        txn_json_of(t).subrange(81 + txn_amount_len(t), txn_json_of(t).len() - 2) == rfc3339_of(
            t.requested_at_ms,
        ),
        txn_json_of(t)[txn_json_of(t).len() - 2] == '"',
        txn_json_of(t)[txn_json_of(t).len() - 1] == '}',
{
    reveal_strlit("{\"correlationId\":\"");
    reveal_strlit("\",\"amount\":");
    reveal_strlit(",\"requestedAt\":\"");
    reveal_strlit("\"}");
    lemma_uuid_str_chars(t.correlation_id);
    lemma_amount_str_chars(t.amount_cents as int);
    let s = txn_json_of(t);
    let a = amount_str(t.amount_cents as int);
    let alen = txn_amount_len(t);
    assert(s.len() == 83 + alen + rfc3339_of(t.requested_at_ms).len());
    assert(s.subrange(0, 18) =~= "{\"correlationId\":\""@);
    assert(s.subrange(18, 54) =~= uuid_str_of(t.correlation_id));
    assert(s.subrange(54, 65) =~= "\",\"amount\":"@);
    assert(s.subrange(65, 65 + alen) =~= a);
    assert forall|k: int| 65 <= k < 65 + alen implies #[trigger] s[k] != ',' by {
        assert(s[k] == a[k - 65]);
        assert(a[k - 65] == '-' || a[k - 65] == '.' || is_digit(a[k - 65]));
    }
    assert(s.subrange(65 + alen, 81 + alen) =~= ",\"requestedAt\":\""@);
    assert(s[65 + alen] == ",\"requestedAt\":\""@[0]);
    assert(s.subrange(81 + alen, s.len() - 2) =~= rfc3339_of(t.requested_at_ms));
    assert(s[s.len() - 2] == "\"}"@[0]);
    assert(s[s.len() - 1] == "\"}"@[1]);
}

/// Writes the wire JSON of a transaction.
pub fn encode_transaction(t: &PaymentProcessorDTO) -> (r: String)
    requires
        encodable(*t),
    ensures
        r@ == txn_json_of(*t),
        rfc3339_chars_ok(rfc3339_of(t.requested_at_ms)),
{
    let mut r = String::from_str("{\"correlationId\":\"");
    let u = format_uuid(t.correlation_id);
    r.append(u.as_str());
    r.append("\",\"amount\":");
    let a = format_amount(t.amount_cents);
    r.append(a.as_str());
    r.append(",\"requestedAt\":\"");
    let ts = format_rfc3339(t.requested_at_ms);
    r.append(ts.as_str());
    r.append("\"}");
    proof {
        assert(r@ =~= txn_json_of(*t));
    }
    r
}

/// Reads the wire JSON of a transaction back.  Every body the encoder
/// writes decodes to the transaction it was written from.
pub fn decode_transaction(s: &str) -> (r: Option<PaymentProcessorDTO>)
    ensures
        forall|t: PaymentProcessorDTO| is_txn_json_of(s@, t) ==> r == Some(t),
{
    let len = s.unicode_len();
    if !starts_with_at(s, 0, "{\"correlationId\":\"") {
        proof {
            assert forall|t: PaymentProcessorDTO| !is_txn_json_of(s@, t) by {
                if is_txn_json_of(s@, t) {
                    lemma_txn_json_shape(t);
                    reveal_strlit("{\"correlationId\":\"");
                }
            }
        }
        return None;
    }
    if len < 54 {
        proof {
            assert forall|t: PaymentProcessorDTO| !is_txn_json_of(s@, t) by {
                if is_txn_json_of(s@, t) {
                    lemma_txn_json_shape(t);
                }
            }
        }
        return None;
    }
    let u_part = s.substring_char(18, 54);
    let correlation_id = match parse_uuid(u_part) {
        Some(id) => id,
        None => {
            proof {
                assert forall|t: PaymentProcessorDTO| !is_txn_json_of(s@, t) by {
                    if is_txn_json_of(s@, t) {
                        lemma_txn_json_shape(t);
                        assert(u_part@ == uuid_str_of(t.correlation_id));
                    }
                }
            }
            return None;
        },
    };
    if !starts_with_at(s, 54, "\",\"amount\":") {
        proof {
            assert forall|t: PaymentProcessorDTO| !is_txn_json_of(s@, t) by {
                if is_txn_json_of(s@, t) {
                    lemma_txn_json_shape(t);
                    reveal_strlit("\",\"amount\":");
                }
            }
        }
        return None;
    }
    proof {
        reveal_strlit("\",\"amount\":");
    }
    let j = match find_char(s, 65, ',') {
        Some(p) => p,
        None => {
            proof {
                assert forall|t: PaymentProcessorDTO| !is_txn_json_of(s@, t) by {
                    if is_txn_json_of(s@, t) {
                        lemma_txn_json_shape(t);
                        assert(s@[65 + txn_amount_len(t)] == ',');
                    }
                }
            }
            return None;
        },
    };
    let a_part = s.substring_char(65, j);
    let amount_cents = match parse_amount(a_part) {
        Some(c) => c,
        None => {
            proof {
                assert forall|t: PaymentProcessorDTO| !is_txn_json_of(s@, t) by {
                    if is_txn_json_of(s@, t) {
                        lemma_txn_json_shape(t);
                        assert(j == 65 + txn_amount_len(t));
                        assert(a_part@ == amount_str(t.amount_cents as int));
                        lemma_amount_str_val(t.amount_cents as int);
                    }
                }
            }
            return None;
        },
    };
    if !starts_with_at(s, j, ",\"requestedAt\":\"") {
        proof {
            assert forall|t: PaymentProcessorDTO| !is_txn_json_of(s@, t) by {
                if is_txn_json_of(s@, t) {
                    lemma_txn_json_shape(t);
                    assert(j == 65 + txn_amount_len(t));
                    reveal_strlit(",\"requestedAt\":\"");
                }
            }
        }
        return None;
    }
    proof {
        reveal_strlit(",\"requestedAt\":\"");
    }
    if len - j < 18 {
        proof {
            assert forall|t: PaymentProcessorDTO| !is_txn_json_of(s@, t) by {
                if is_txn_json_of(s@, t) {
                    lemma_txn_json_shape(t);
                    assert(j == 65 + txn_amount_len(t));
                }
            }
        }
        return None;
    }
    let t_part = s.substring_char(j + 16, len - 2);
    let requested_at_ms = match parse_rfc3339(t_part) {
        Some(ts) => ts,
        None => {
            proof {
                assert forall|t: PaymentProcessorDTO| !is_txn_json_of(s@, t) by {
                    if is_txn_json_of(s@, t) {
                        lemma_txn_json_shape(t);
                        assert(j == 65 + txn_amount_len(t));
                        assert(t_part@ == rfc3339_of(t.requested_at_ms));
                    }
                }
            }
            return None;
        },
    };
    if s.get_char(len - 2) != '"' || s.get_char(len - 1) != '}' {
        proof {
            assert forall|t: PaymentProcessorDTO| !is_txn_json_of(s@, t) by {
                if is_txn_json_of(s@, t) {
                    lemma_txn_json_shape(t);
                }
            }
        }
        return None;
    }
    let txn = PaymentProcessorDTO { correlation_id, amount_cents, requested_at_ms };
    proof {
        assert forall|t: PaymentProcessorDTO| is_txn_json_of(s@, t) implies txn == t by {
            lemma_txn_json_shape(t);
            assert(u_part@ == uuid_str_of(t.correlation_id));
            assert(j == 65 + txn_amount_len(t));
            assert(a_part@ == amount_str(t.amount_cents as int));
            lemma_amount_str_val(t.amount_cents as int);
            assert(t_part@ == rfc3339_of(t.requested_at_ms));
        }
    }
    Some(txn)
}

/// The JSON of a boolean.
pub open spec fn bool_str(b: bool) -> Seq<char> {
    if b {
        "true"@
    } else {
        "false"@
    }
}

/// The JSON of one processor's health: `failing` and `minResponseTime`.
pub open spec fn check_json_of(c: PaymentProcessorHealthCheckDTO) -> Seq<char> {
    "{\"failing\":"@ + bool_str(c.failing) + ",\"minResponseTime\":"@ + dec_int(
        c.min_response_time as int,
    ) + "}"@
}

/// The JSON of a health snapshot: both processors' health under the keys
/// `default` and `fallback`.
pub open spec fn health_json_of(h: PaymentProcessorHealth) -> Seq<char> {
    "{\"default\":"@ + check_json_of(h.default) + ",\"fallback\":"@ + check_json_of(h.fallback)
        + "}"@
}

/// A slice of an equal region is the corresponding slice of the value it
/// equals.
proof fn lemma_slice_within(s: Seq<char>, i: int, l: Seq<char>, a: int, b: int)
    requires
        0 <= i,
        i + l.len() <= s.len(),
        s.subrange(i, i + l.len() as int) == l,
        0 <= a <= b <= l.len(),
    ensures
        s.subrange(i + a, i + b) == l.subrange(a, b),
{
    assert forall|k: int| 0 <= k < b - a implies s.subrange(i + a, i + b)[k] == l.subrange(
        a,
        b,
    )[k] by {
        assert(s.subrange(i, i + l.len() as int)[a + k] == l[a + k]);
    }
    assert(s.subrange(i + a, i + b) =~= l.subrange(a, b));
}

/// One processor's health JSON decomposes at offsets fixed once the
/// lengths of its boolean and its number are fixed.
pub proof fn lemma_check_json_shape(c: PaymentProcessorHealthCheckDTO)
    ensures
        check_json_of(c).len() == 31 + bool_str(c.failing).len() + dec_int(
            c.min_response_time as int,
        ).len(),
        check_json_of(c).subrange(0, 11) == "{\"failing\":"@,
        check_json_of(c).subrange(11, 11 + bool_str(c.failing).len() as int) == bool_str(
            c.failing,
        ),
        check_json_of(c)[11] == (if c.failing { 't' } else { 'f' }),
        check_json_of(c).subrange(
            11 + bool_str(c.failing).len() as int,
            30 + bool_str(c.failing).len() as int,
        ) == ",\"minResponseTime\":"@,
        check_json_of(c).subrange(
            30 + bool_str(c.failing).len() as int,
            check_json_of(c).len() - 1,
        ) == dec_int(c.min_response_time as int),
        check_json_of(c)[check_json_of(c).len() - 1] == '}',
        forall|k: int|
            30 + bool_str(c.failing).len() <= k < check_json_of(c).len() - 1
                ==> #[trigger] check_json_of(c)[k] != '}',
{
    reveal_strlit("{\"failing\":");
    reveal_strlit(",\"minResponseTime\":");
    reveal_strlit("}");
    reveal_strlit("true");
    reveal_strlit("false");
    lemma_dec_int_chars(c.min_response_time as int);
    let l = check_json_of(c);
    let blen = bool_str(c.failing).len() as int;
    let d = dec_int(c.min_response_time as int);
    assert(l.len() == 31 + blen + d.len());
    assert(l.subrange(0, 11) =~= "{\"failing\":"@);
    assert(l.subrange(11, 11 + blen) =~= bool_str(c.failing));
    if c.failing {
        assert(l[11] == "true"@[0]);
    } else {
        assert(l[11] == "false"@[0]);
    }
    assert(l.subrange(11 + blen, 30 + blen) =~= ",\"minResponseTime\":"@);
    assert(l.subrange(30 + blen, l.len() - 1) =~= d);
    assert(l[l.len() - 1] == "}"@[0]);
    assert forall|k: int| 30 + blen <= k < l.len() - 1 implies #[trigger] l[k] != '}' by {
        assert(l[k] == d[k - 30 - blen]);
        assert(d[k - 30 - blen] == '-' || is_digit(d[k - 30 - blen]));
    }
}

/// A health snapshot's JSON decomposes into the two health objects.
pub proof fn lemma_health_json_shape(h: PaymentProcessorHealth)
    ensures
        health_json_of(h).len() == 24 + check_json_of(h.default).len() + check_json_of(
            h.fallback,
        ).len(),
        health_json_of(h).subrange(0, 11) == "{\"default\":"@,
        health_json_of(h).subrange(11, 11 + check_json_of(h.default).len() as int)
            == check_json_of(h.default),
        health_json_of(h).subrange(
            11 + check_json_of(h.default).len() as int,
            23 + check_json_of(h.default).len() as int,
        ) == ",\"fallback\":"@,
        health_json_of(h).subrange(
            23 + check_json_of(h.default).len() as int,
            health_json_of(h).len() - 1,
        ) == check_json_of(h.fallback),
        health_json_of(h)[health_json_of(h).len() - 1] == '}',
{
    reveal_strlit("{\"default\":");
    reveal_strlit(",\"fallback\":");
    reveal_strlit("}");
    let s = health_json_of(h);
    let c1 = check_json_of(h.default);
    let c2 = check_json_of(h.fallback);
    assert(s.len() == 24 + c1.len() + c2.len());
    assert(s.subrange(0, 11) =~= "{\"default\":"@);
    assert(s.subrange(11, 11 + c1.len() as int) =~= c1);
    assert(s.subrange(11 + c1.len() as int, 23 + c1.len() as int) =~= ",\"fallback\":"@);
    assert(s.subrange(23 + c1.len() as int, s.len() - 1) =~= c2);
    assert(s[s.len() - 1] == "}"@[0]);
}

/// Writes the JSON of one processor's health.
pub fn encode_check(c: &PaymentProcessorHealthCheckDTO) -> (r: String)
    ensures
        r@ == check_json_of(*c),
{
    let mut r = String::from_str("{\"failing\":");
    if c.failing {
        r.append("true");
    } else {
        r.append("false");
    }
    r.append(",\"minResponseTime\":");
    let d = format_i64(c.min_response_time as i64);
    r.append(d.as_str());
    r.append("}");
    proof {
        assert(r@ =~= check_json_of(*c));
    }
    r
}

/// Writes the JSON of a health snapshot, as published on the channel.
pub fn encode_health(h: &PaymentProcessorHealth) -> (r: String)
    ensures
        r@ == health_json_of(*h),
{
    let mut r = String::from_str("{\"default\":");
    let c1 = encode_check(&h.default);
    r.append(c1.as_str());
    r.append(",\"fallback\":");
    let c2 = encode_check(&h.fallback);
    r.append(c2.as_str());
    r.append("}");
    proof {
        assert(r@ =~= health_json_of(*h));
    }
    r
}

/// One processor's health JSON stands in `s` at position `i`.
pub open spec fn check_json_at(s: Seq<char>, i: int, c: PaymentProcessorHealthCheckDTO) -> bool {
    &&& 0 <= i
    &&& i + check_json_of(c).len() <= s.len()
    &&& s.subrange(i, i + check_json_of(c).len() as int) == check_json_of(c)
}

/// Reads one processor's health JSON at a position, returning the value
/// and the position just past it.  Every object the encoder writes reads
/// back to the value it was written from.
#[verifier::rlimit(60)]
fn parse_check(s: &str, i: usize) -> (r: Option<(PaymentProcessorHealthCheckDTO, usize)>)
    requires
        i <= s@.len(),
    ensures
        r matches Some(p) ==> i < p.1 <= s@.len(),
        forall|c: PaymentProcessorHealthCheckDTO|
            check_json_at(s@, i as int, c) ==> (r matches Some(p) && p.0 == c && p.1 == i
                + check_json_of(c).len()),
{
    let len = s.unicode_len();
    if !starts_with_at(s, i, "{\"failing\":") {
        proof {
            assert forall|c: PaymentProcessorHealthCheckDTO| !check_json_at(s@, i as int, c) by {
                if check_json_at(s@, i as int, c) {
                    lemma_check_json_shape(c);
                    lemma_slice_within(s@, i as int, check_json_of(c), 0, 11);
                    reveal_strlit("{\"failing\":");
                }
            }
        }
        return None;
    }
    proof {
        reveal_strlit("{\"failing\":");
        reveal_strlit("true");
        reveal_strlit("false");
    }
    let ib = i + 11;
    let t_ok = starts_with_at(s, ib, "true");
    let f_ok = if t_ok {
        false
    } else {
        starts_with_at(s, ib, "false")
    };
    if !t_ok && !f_ok {
        proof {
            assert forall|c: PaymentProcessorHealthCheckDTO| !check_json_at(s@, i as int, c) by {
                if check_json_at(s@, i as int, c) {
                    lemma_check_json_shape(c);
                    lemma_slice_within(
                        s@,
                        i as int,
                        check_json_of(c),
                        11,
                        11 + bool_str(c.failing).len() as int,
                    );
                }
            }
        }
        return None;
    }
    let failing = t_ok;
    let after_b: usize = if t_ok {
        ib + 4
    } else {
        ib + 5
    };
    if !starts_with_at(s, after_b, ",\"minResponseTime\":") {
        proof {
            assert forall|c: PaymentProcessorHealthCheckDTO| !check_json_at(s@, i as int, c) by {
                if check_json_at(s@, i as int, c) {
                    lemma_check_json_shape(c);
                    let blen = bool_str(c.failing).len() as int;
                    lemma_slice_within(s@, i as int, check_json_of(c), 11, 11 + blen);
                    lemma_slice_within(s@, i as int, check_json_of(c), 0, 11 + blen);
                    assert(s@[i + 11] == check_json_of(c)[11]);
                    assert(after_b == i + 11 + blen);
                    lemma_slice_within(s@, i as int, check_json_of(c), 11 + blen, 30 + blen);
                    reveal_strlit(",\"minResponseTime\":");
                }
            }
        }
        return None;
    }
    proof {
        reveal_strlit(",\"minResponseTime\":");
    }
    let num_start = after_b + 19;
    let k = match find_char(s, num_start, '}') {
        Some(k) => k,
        None => {
            proof {
                assert forall|c: PaymentProcessorHealthCheckDTO| !check_json_at(
                    s@,
                    i as int,
                    c,
                ) by {
                    if check_json_at(s@, i as int, c) {
                        lemma_check_json_shape(c);
                        let blen = bool_str(c.failing).len() as int;
                        assert(s@[i + 11] == check_json_of(c)[11]);
                        assert(after_b == i + 11 + blen);
                        let l = check_json_of(c);
                        assert(s@[i + l.len() - 1] == l[l.len() - 1]);
                    }
                }
            }
            return None;
        },
    };
    let num = s.substring_char(num_start, k);
    let v = match parse_i64(num) {
        Some(v) => v,
        None => {
            proof {
                assert forall|c: PaymentProcessorHealthCheckDTO| !check_json_at(
                    s@,
                    i as int,
                    c,
                ) by {
                    if check_json_at(s@, i as int, c) {
                        lemma_check_json_shape(c);
                        let blen = bool_str(c.failing).len() as int;
                        assert(s@[i + 11] == check_json_of(c)[11]);
                        lemma_slice_within(s@, i as int, check_json_of(c), 11, 11 + blen);
                        assert(after_b == i + 11 + blen);
                        lemma_check_json_parse_facts(s@, i as int, c, after_b as int, k as int);
                        lemma_dec_int_val(c.min_response_time as int);
                    }
                }
            }
            return None;
        },
    };
    if v < -2147483648i64 || v > 2147483647i64 {
        proof {
            assert forall|c: PaymentProcessorHealthCheckDTO| !check_json_at(s@, i as int, c) by {
                if check_json_at(s@, i as int, c) {
                    lemma_check_json_shape(c);
                    let blen = bool_str(c.failing).len() as int;
                    assert(s@[i + 11] == check_json_of(c)[11]);
                    lemma_slice_within(s@, i as int, check_json_of(c), 11, 11 + blen);
                    assert(after_b == i + 11 + blen);
                    lemma_check_json_parse_facts(s@, i as int, c, after_b as int, k as int);
                    lemma_dec_int_val(c.min_response_time as int);
                }
            }
        }
        return None;
    }
    let dto = PaymentProcessorHealthCheckDTO { failing, min_response_time: v as i32 };
    proof {
        assert forall|c: PaymentProcessorHealthCheckDTO| check_json_at(s@, i as int, c) implies (
        dto == c && k + 1 == i + check_json_of(c).len()) by {
            lemma_check_json_shape(c);
            let blen = bool_str(c.failing).len() as int;
            assert(s@[i + 11] == check_json_of(c)[11]);
            lemma_slice_within(s@, i as int, check_json_of(c), 11, 11 + blen);
            assert(after_b == i + 11 + blen);
            lemma_check_json_parse_facts(s@, i as int, c, after_b as int, k as int);
            lemma_dec_int_val(c.min_response_time as int);
            assert(failing == c.failing);
            assert(v == c.min_response_time);
        }
    }
    Some((dto, k + 1))
}

/// Inside `parse_check`: once the literals up to the number have been
/// matched at their places, the number region of the hypothesis object
/// runs from just after the second literal to the first closing brace.
proof fn lemma_check_json_parse_facts(
    s: Seq<char>,
    i: int,
    c: PaymentProcessorHealthCheckDTO,
    after_b: int,
    k: int,
)
    requires
        check_json_at(s, i, c),
        after_b == i + 11 + bool_str(c.failing).len(),
        i + 11 + bool_str(c.failing).len() + 19 <= k < s.len(),
        s[k] == '}',
        forall|m: int| after_b + 19 <= m < k ==> s[m] != '}',
    ensures
        k == i + check_json_of(c).len() - 1,
        s.subrange(after_b + 19, k) == dec_int(c.min_response_time as int),
{
    lemma_check_json_shape(c);
    let l = check_json_of(c);
    let blen = bool_str(c.failing).len() as int;
    let close = i + l.len() - 1;
    assert(s[close] == l[l.len() - 1]);
    assert(s[close] == '}');
    assert forall|m: int| after_b + 19 <= m < close implies s[m] != '}' by {
        assert(s[m] == l[m - i]);
        assert(30 + blen <= m - i < l.len() - 1);
    }
    if k < close {
        assert(s[k] == l[k - i]);
        assert(30 + blen <= k - i < l.len() - 1);
        assert(l[k - i] != '}');
    }
    if k > close {
        assert(s[close] == '}');
    }
    assert(k == close);
    lemma_slice_within(s, i, l, 30 + blen, l.len() - 1);
}

/// Reads a health snapshot's JSON back.  Every message the encoder
/// writes decodes to the snapshot it was written from; any other message
/// may be rejected.
pub fn decode_health(s: &str) -> (r: Option<PaymentProcessorHealth>)
    ensures
        forall|h: PaymentProcessorHealth| s@ == health_json_of(h) ==> r == Some(h),
{
    let len = s.unicode_len();
    if !starts_with_at(s, 0, "{\"default\":") {
        proof {
            assert forall|h: PaymentProcessorHealth| s@ != health_json_of(h) by {
                if s@ == health_json_of(h) {
                    lemma_health_json_shape(h);
                    reveal_strlit("{\"default\":");
                }
            }
        }
        return None;
    }
    proof {
        reveal_strlit("{\"default\":");
    }
    let first = parse_check(s, 11);
    let (c1, p1) = match first {
        Some(p) => p,
        None => {
            proof {
                assert forall|h: PaymentProcessorHealth| s@ != health_json_of(h) by {
                    if s@ == health_json_of(h) {
                        lemma_health_json_shape(h);
                        assert(check_json_at(s@, 11, h.default));
                    }
                }
            }
            return None;
        },
    };
    if !starts_with_at(s, p1, ",\"fallback\":") {
        proof {
            assert forall|h: PaymentProcessorHealth| s@ != health_json_of(h) by {
                if s@ == health_json_of(h) {
                    lemma_health_json_shape(h);
                    assert(check_json_at(s@, 11, h.default));
                    assert(p1 == 11 + check_json_of(h.default).len());
                    reveal_strlit(",\"fallback\":");
                }
            }
        }
        return None;
    }
    proof {
        reveal_strlit(",\"fallback\":");
    }
    let second = parse_check(s, p1 + 12);
    let (c2, p2) = match second {
        Some(p) => p,
        None => {
            proof {
                assert forall|h: PaymentProcessorHealth| s@ != health_json_of(h) by {
                    if s@ == health_json_of(h) {
                        lemma_health_json_shape(h);
                        assert(check_json_at(s@, 11, h.default));
                        assert(p1 == 11 + check_json_of(h.default).len());
                        assert(check_json_at(s@, p1 + 12, h.fallback));
                    }
                }
            }
            return None;
        },
    };
    if p2 != len - 1 || s.get_char(p2) != '}' {
        proof {
            assert forall|h: PaymentProcessorHealth| s@ != health_json_of(h) by {
                if s@ == health_json_of(h) {
                    lemma_health_json_shape(h);
                    assert(check_json_at(s@, 11, h.default));
                    assert(p1 == 11 + check_json_of(h.default).len());
                    assert(check_json_at(s@, p1 + 12, h.fallback));
                    assert(p2 == p1 + 12 + check_json_of(h.fallback).len());
                    assert(s@[p2 as int] == '}');
                }
            }
        }
        return None;
    }
    let health = PaymentProcessorHealth { default: c1, fallback: c2 };
    proof {
        assert forall|h: PaymentProcessorHealth| s@ == health_json_of(h) implies health == h by {
            lemma_health_json_shape(h);
            assert(check_json_at(s@, 11, h.default));
            assert(c1 == h.default);
            assert(p1 == 11 + check_json_of(h.default).len());
            assert(check_json_at(s@, p1 + 12, h.fallback));
            assert(c2 == h.fallback);
        }
    }
    Some(health)
}

} // verus!
