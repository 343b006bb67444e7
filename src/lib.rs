//! Spinning mutual-exclusion locks: an immediate-retry spin lock (`amd`), a
//! spin lock with adaptive backoff (`backoff`), a fair queue lock (`mcs`), a
//! spin lock that owns its value (`naive`), and a guard wrapper over any raw
//! lock (`guard`).
//!
//! The atomic operations of a lock are opaque to the verifier, so each
//! algorithm is also written as a state machine over thread indices, one
//! method per atomic step, and its safety is proved there: `flag` for the
//! two flag locks, `mcs` for the queue lock. `workload` is the seeded index
//! generator that drives the locks in tests and measurements.

pub mod amd;
pub mod backoff;
pub mod flag;
pub mod guard;
pub mod mcs;
pub mod naive;
pub mod workload;
