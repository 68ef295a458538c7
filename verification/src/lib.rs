//! A payment-intermediation gateway library.
//!
//! The crate holds the verified core of a gateway that accepts payment
//! authorization requests, forwards each to one of two external settlement
//! processors, falls back to a retry queue when neither is usable, and
//! records settled payments for aggregate summaries.  All amounts are kept
//! in integer minor units (cents) and all instants in milliseconds since
//! the Unix epoch; the unverified binary around the library converts at
//! its edges.

pub mod config;
pub mod digits;
pub mod ids;
pub mod payment_processors;
pub mod records;
pub mod repository;
pub mod service;
pub mod strings;
pub mod structs;
pub mod timestamp;
pub mod wire;
pub mod worker;
