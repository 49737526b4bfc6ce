//! A verified model of a concurrent RPC load-generation harness.
//!
//! A fixed pool of workers repeatedly issues an echo request against a
//! remote service, measures each request's latency into a per-worker
//! recorder, and increments a shared request counter.  A reporter
//! periodically samples the counter and emits per-interval throughput
//! deltas.  When a bounded run finishes, the per-worker recorders are
//! merged into one aggregate distribution and summary statistics (mean
//! and 99th-percentile latency) are computed from it.
//!
//! This crate holds the verified logic: the counter model, the latency
//! recorder (a mergeable frequency distribution with quantile queries),
//! and the per-step decisions of workers, reporter and coordinator.
//! Transport, timing and task spawning live outside the library.

pub mod coordinator;
pub mod counter;
pub mod recorder;
pub mod reporter;
pub mod service;
pub mod worker;
