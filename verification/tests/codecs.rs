//! The text codecs: buffer records, wire JSON, decimal amounts.

use payment_gateway::digits::format_amount;
use payment_gateway::digits::format_i64;
use payment_gateway::digits::format_u64;
use payment_gateway::digits::parse_amount;
use payment_gateway::digits::parse_i64;
use payment_gateway::digits::parse_u64;
use payment_gateway::payment_processors::service::PaymentProcessorServices;
use payment_gateway::payment_processors::structs::PaymentProcessorDTO;
use payment_gateway::payment_processors::structs::PaymentProcessorHealth;
use payment_gateway::payment_processors::structs::PaymentProcessorHealthCheckDTO;
use payment_gateway::records::format_entry;
use payment_gateway::records::parse_drained;
use payment_gateway::records::parse_entry;
use payment_gateway::repository::build_insert_query;
use payment_gateway::repository::purge_message;
use payment_gateway::structs::PaymentDatabaseEntry;
use payment_gateway::wire::decode_health;
use payment_gateway::wire::decode_transaction;
use payment_gateway::wire::encode_health;
use payment_gateway::wire::encode_transaction;

const C1: u128 = 0xa1a2a3a4b1b2c1c2d1d2d3d4d5d6d7d8;

#[test]
fn decimal_rendering_is_exact() {
    assert_eq!(format_u64(0), "0");
    assert_eq!(format_u64(1990), "1990");
    assert_eq!(format_u64(u64::MAX), "18446744073709551615");
    assert_eq!(format_i64(-1990), "-1990");
    assert_eq!(format_i64(i64::MIN), "-9223372036854775808");
}

#[test]
fn decimal_parsing_is_exact() {
    assert_eq!(parse_u64("1990"), Some(1990));
    assert_eq!(parse_u64("0042"), Some(42));
    assert_eq!(parse_u64(""), None);
    assert_eq!(parse_u64("19x0"), None);
    assert_eq!(parse_u64("18446744073709551615"), Some(u64::MAX));
    assert_eq!(parse_u64("18446744073709551616"), None);
    assert_eq!(parse_i64("-1990"), Some(-1990));
    assert_eq!(parse_i64("+7"), Some(7));
    assert_eq!(parse_i64("-9223372036854775808"), Some(i64::MIN));
    assert_eq!(parse_i64("9223372036854775808"), None);
    assert_eq!(parse_i64("-"), None);
}

#[test]
fn amount_rendering_keeps_cents() {
    assert_eq!(format_amount(1990), "19.90");
    assert_eq!(format_amount(5), "0.05");
    assert_eq!(format_amount(0), "0.00");
    assert_eq!(format_amount(-50), "-0.50");
    assert_eq!(parse_amount("19.90"), Some(1990));
    assert_eq!(parse_amount("0.05"), Some(5));
    assert_eq!(parse_amount("-0.50"), Some(-50));
    assert_eq!(parse_amount("19.9"), None);
    assert_eq!(parse_amount("19"), None);
}

#[test]
fn amount_extremes_round_trip() {
    assert_eq!(format_amount(i64::MAX), "92233720368547758.07");
    assert_eq!(parse_amount("92233720368547758.07"), Some(i64::MAX));
    assert_eq!(format_amount(i64::MIN), "-92233720368547758.08");
    assert_eq!(parse_amount("-92233720368547758.08"), Some(i64::MIN));
    assert_eq!(parse_amount("92233720368547758.08"), None);
}

#[test]
fn record_round_trip_keeps_amount_and_service() {
    let entry = PaymentDatabaseEntry {
        correlation_id: C1,
        requested_at_ms: 1_700_000_000_123,
        amount_cents: 1990,
        service: PaymentProcessorServices::Default,
    };
    let line = format_entry(&entry);
    let back = parse_entry(line.as_str()).expect("canonical record must parse");
    assert_eq!(back.correlation_id, C1);
    assert_eq!(back.amount_cents, 1990);
    assert_eq!(back.requested_at_ms, 1_700_000_000_123);
    assert!(matches!(back.service, PaymentProcessorServices::Default));
}

#[test]
fn record_text_matches_the_wire_contract() {
    let entry = PaymentDatabaseEntry {
        correlation_id: C1,
        requested_at_ms: 0,
        amount_cents: 1990,
        service: PaymentProcessorServices::Fallback,
    };
    let line = format_entry(&entry);
    let expected_uuid = uuid::Uuid::from_u128(C1).to_string();
    let expected_ts = chrono::DateTime::from_timestamp_millis(0).unwrap().to_rfc3339();
    let expected = format!("{}|{}|1990|fallback", expected_uuid, expected_ts);
    assert_eq!(line, expected);
    assert_eq!(expected_uuid, "a1a2a3a4-b1b2-c1c2-d1d2-d3d4d5d6d7d8");
}

#[test]
fn malformed_records_are_rejected() {
    assert_eq!(parse_entry(""), None);
    assert_eq!(parse_entry("a|b|c"), None);
    assert_eq!(parse_entry("a|b|c|d|e"), None);
    assert_eq!(
        parse_entry("not-a-uuid|1970-01-01T00:00:00+00:00|10|default"),
        None
    );
    assert_eq!(
        parse_entry("a1a2a3a4-b1b2-c1c2-d1d2-d3d4d5d6d7d8|not-a-date|10|default"),
        None
    );
    assert_eq!(
        parse_entry("a1a2a3a4-b1b2-c1c2-d1d2-d3d4d5d6d7d8|1970-01-01T00:00:00+00:00|ten|default"),
        None
    );
}

#[test]
fn drained_buffer_parses_in_recorded_order() {
    let x = PaymentDatabaseEntry {
        correlation_id: 1,
        requested_at_ms: 1000,
        amount_cents: 100,
        service: PaymentProcessorServices::Default,
    };
    let y = PaymentDatabaseEntry {
        correlation_id: 2,
        requested_at_ms: 2000,
        amount_cents: 200,
        service: PaymentProcessorServices::Fallback,
    };
    let lines = vec![
        format_entry(&x),
        format_entry(&y),
        String::from("garbage line"),
    ];
    let entries = parse_drained(&lines);
    assert_eq!(entries.len(), 2);
    assert_eq!(entries[0], x);
    assert_eq!(entries[1], y);
}

#[test]
fn transaction_json_matches_the_wire_contract() {
    let txn = PaymentProcessorDTO {
        correlation_id: C1,
        amount_cents: 1990,
        requested_at_ms: 0,
    };
    let body = encode_transaction(&txn);
    let expected = format!(
        "{{\"correlationId\":\"a1a2a3a4-b1b2-c1c2-d1d2-d3d4d5d6d7d8\",\"amount\":19.90,\"requestedAt\":\"{}\"}}",
        chrono::DateTime::from_timestamp_millis(0).unwrap().to_rfc3339()
    );
    assert_eq!(body, expected);
    let parsed: serde_json::Value = serde_json::from_str(&body).unwrap();
    assert_eq!(
        parsed["correlationId"],
        "a1a2a3a4-b1b2-c1c2-d1d2-d3d4d5d6d7d8"
    );
    assert_eq!(parsed["amount"].as_f64().unwrap(), 19.90);
}

#[test]
fn transaction_json_round_trips() {
    let txn = PaymentProcessorDTO {
        correlation_id: C1,
        amount_cents: 1990,
        requested_at_ms: 1_700_000_000_123,
    };
    let body = encode_transaction(&txn);
    let back = decode_transaction(body.as_str()).expect("canonical body must parse");
    assert_eq!(back, txn);
    assert_eq!(decode_transaction("{}"), None);
    assert_eq!(decode_transaction(""), None);
}

#[test]
fn queue_items_round_trip_in_order() {
    let txns = [
        PaymentProcessorDTO { correlation_id: 10, amount_cents: 1, requested_at_ms: 1 },
        PaymentProcessorDTO { correlation_id: 11, amount_cents: 2, requested_at_ms: 2 },
        PaymentProcessorDTO { correlation_id: 12, amount_cents: 3, requested_at_ms: 3 },
    ];
    let mut wire: Vec<String> = Vec::new();
    for t in txns.iter() {
        wire.push(encode_transaction(t));
    }
    for (i, w) in wire.iter().enumerate() {
        assert_eq!(decode_transaction(w.as_str()), Some(txns[i]));
    }
}

#[test]
fn health_json_round_trips() {
    let health = PaymentProcessorHealth {
        default: PaymentProcessorHealthCheckDTO { failing: false, min_response_time: 12 },
        fallback: PaymentProcessorHealthCheckDTO { failing: true, min_response_time: -3 },
    };
    let msg = encode_health(&health);
    assert_eq!(
        msg,
        "{\"default\":{\"failing\":false,\"minResponseTime\":12},\"fallback\":{\"failing\":true,\"minResponseTime\":-3}}"
    );
    assert_eq!(decode_health(msg.as_str()), Some(health));
    assert_eq!(decode_health("{\"default\":{}}"), None);
}

#[test]
fn insert_query_numbers_placeholders_by_row() {
    assert_eq!(
        build_insert_query(1),
        "INSERT INTO transactions (correlation_id, processed_at, amount, service) VALUES ($1, $2, $3, $4)"
    );
    assert_eq!(
        build_insert_query(3),
        "INSERT INTO transactions (correlation_id, processed_at, amount, service) VALUES ($1, $2, $3, $4), ($5, $6, $7, $8), ($9, $10, $11, $12)"
    );
}

#[test]
fn purge_message_counts_rows() {
    assert_eq!(purge_message(0), "Purged 0 payments");
    assert_eq!(purge_message(42), "Purged 42 payments");
}
