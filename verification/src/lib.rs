//! Verified core of a node-resident telemetry agent.
//!
//! The library parses kernel-exposed text tables into typed metrics,
//! assembles telemetry records, and decides the waits of the delivery
//! loop through a retry/backoff state machine.

pub mod arith;
pub mod backoff;
pub mod digits;
pub mod record;
pub mod scan;
pub mod signals;
