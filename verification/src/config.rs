//! Deployment configuration: the compiled-in default of every setting,
//! and the rules that turn a raw environment value into the setting's
//! effective value.  The binary reads the environment and hands the raw
//! values in; everything decided about them is decided here.

use vstd::prelude::*;
use vstd::string::StringExecFns;
use crate::digits::all_digits;
use crate::digits::dec_val;
use crate::digits::parse_i64;
use crate::digits::parse_u64;
use crate::digits::signed_body;
use crate::digits::signed_val;
use crate::payment_processors::structs::PAYMENT_PROCESSOR_MAX_RESPONSE_TIME;
use crate::strings::str_eq;

verus! {

/// How many worker tasks run when `NUM_WORKERS` is unset or unreadable.
pub const DEFAULT_NUM_WORKERS: u64 = 50;

/// The durable-storage connection string used when `DATABASE_URL` is
/// unset.
pub fn default_database_url() -> (r: String)
    ensures
        r@ == "host=db port=5432 password=postgres user=postgres dbname=rinha_2025_db"@,
{
    String::from_str("host=db port=5432 password=postgres user=postgres dbname=rinha_2025_db")
}

/// The cache/bus connection string used when `MEMORY_DATABASE_URL` is
/// unset.
pub fn default_memory_database_url() -> (r: String)
    ensures
        r@ == "redis://localhost:6379"@,
{
    String::from_str("redis://localhost:6379")
}

/// A raw optional setting, or a given fallback when it is unset.
pub fn resolve_or(env: Option<String>, fallback: &str) -> (r: String)
    ensures
        match env {
            Some(s) => r@ == s@,
            None => r@ == fallback@,
        },
{
    match env {
        Some(s) => s,
        None => String::from_str(fallback),
    }
}

/// The memory buffer's list name: `MEMORY_DATABASE_COLLECTION_NAME`, or
/// `payments` when unset.
pub fn resolve_collection_name(env: Option<String>) -> (r: String)
    ensures
        match env {
            Some(s) => r@ == s@,
            None => r@ == "payments"@,
        },
{
    resolve_or(env, "payments")
}

/// The retry queue's list name: `REDIS_QUEUE_NAME`, or `payments_queue`
/// when unset.
pub fn resolve_queue_name(env: Option<String>) -> (r: String)
    ensures
        match env {
            Some(s) => r@ == s@,
            None => r@ == "payments_queue"@,
        },
{
    resolve_or(env, "payments_queue")
}

/// The health propagation channel: `HEALTH_CHECK_CHANNEL`, or
/// `healthcheck` when unset.
pub fn resolve_health_channel(env: Option<String>) -> (r: String)
    ensures
        match env {
            Some(s) => r@ == s@,
            None => r@ == "healthcheck"@,
        },
{
    resolve_or(env, "healthcheck")
}

/// The HTTP listen port as text: `PORT`, or `9999` when unset.
pub fn resolve_port(env: Option<String>) -> (r: String)
    ensures
        match env {
            Some(s) => r@ == s@,
            None => r@ == "9999"@,
        },
{
    resolve_or(env, "9999")
}

/// The address the gateway listens on: `0.0.0.0:{port}`.
pub fn listen_addr(port: &str) -> (r: String)
    ensures
        r@ == "0.0.0.0:"@ + port@,
{
    let mut r = String::from_str("0.0.0.0:");
    r.append(port);
    r
}

/// The worker-pool size `NUM_WORKERS` selects: its value when it is a
/// string of digits whose value fits, else the default of fifty.
pub fn resolve_num_workers(env: &Option<String>) -> (r: u64)
    ensures
        match env {
            Some(s) => if s@.len() > 0 && all_digits(s@) && dec_val(s@) <= u64::MAX {
                r == dec_val(s@)
            } else {
                r == DEFAULT_NUM_WORKERS
            },
            None => r == DEFAULT_NUM_WORKERS,
        },
{
    match env {
        Some(s) => match parse_u64(s.as_str()) {
            Some(v) => v,
            None => DEFAULT_NUM_WORKERS,
        },
        None => DEFAULT_NUM_WORKERS,
    }
}

/// The admission threshold `PAYMENT_PROCESSOR_MAX_RESPONSE_TIME`
/// selects, in milliseconds: its value when it reads as an integer that
/// fits the type, else the default of two hundred.
pub fn resolve_max_response_time(env: &Option<String>) -> (r: i32)
    ensures
        match env {
            Some(s) => if signed_body(s@).len() > 0 && all_digits(signed_body(s@))
                && i32::MIN <= signed_val(s@) <= i32::MAX {
                r == signed_val(s@)
            } else {
                r == PAYMENT_PROCESSOR_MAX_RESPONSE_TIME
            },
            None => r == PAYMENT_PROCESSOR_MAX_RESPONSE_TIME,
        },
{
    match env {
        Some(s) => match parse_i64(s.as_str()) {
            Some(v) => if -2147483648i64 <= v && v <= 2147483647i64 {
                v as i32
            } else {
                PAYMENT_PROCESSOR_MAX_RESPONSE_TIME
            },
            None => PAYMENT_PROCESSOR_MAX_RESPONSE_TIME,
        },
        None => PAYMENT_PROCESSOR_MAX_RESPONSE_TIME,
    }
}

/// Whether `INSTANCE` designates this copy as the health poller: exactly
/// the value `MASTER` does; any other value, or none, makes it a
/// subscriber.
pub fn resolve_is_master(env: &Option<String>) -> (r: bool)
    ensures
        r == (env matches Some(s) && s@ == "MASTER"@),
{
    match env {
        Some(s) => str_eq(s.as_str(), "MASTER"),
        None => false,
    }
}

} // verus!
