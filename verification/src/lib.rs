//! Core of a load-generation harness for a transactional ledger.
//!
//! The library holds the parts of the harness that decide and account:
//! the status counters with their JSON encoding, the event-correlation
//! state machine for blocking submissions, the rate-limited operation
//! queue of the daemon scheduler, and the aggregation of concurrent
//! batch outcomes. Transport, signing and the HTTP endpoint live with
//! the callers; they feed plain values in and carry plain values out.

pub mod batch;
pub mod clock;
pub mod correlator;
pub mod daemon;
pub mod decimal;
pub mod operation;
pub mod scheduler;
pub mod status;
pub mod status_json;
