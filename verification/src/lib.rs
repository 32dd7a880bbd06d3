//! Verified client-side logic for a remote job-scheduling service.
//!
//! The library validates cron expressions, parses command-line tokens into a
//! typed command model, encodes and decodes the JSON wire payloads, and models
//! the retry/backoff policy of the resilient transport. Process I/O (argument
//! collection, the HTTP calls themselves, printing) lives outside the library.

pub mod cli;
pub mod codec;
pub mod cron;
pub mod error;
pub mod present;
pub mod strutil;
pub mod transport;

