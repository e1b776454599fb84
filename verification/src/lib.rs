//! Telemetry sink for router lifecycle callbacks.
//!
//! Callbacks are acknowledged at once, coalesced by request identifier in an
//! in-memory buffer, and flushed to a CSV file named after the current UTC
//! date. This crate holds the rules of that pipeline; the caller owns the
//! sockets, the files, the lock around the reporter and the timer.

pub mod buffer;
pub mod config;
pub mod report;
pub mod reporter;
pub mod request;
pub mod sink;
