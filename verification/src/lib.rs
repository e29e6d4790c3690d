//! Coordination of a fleet of workers that run one workload together.
//!
//! The coordinator keeps a record for each worker that registered with it,
//! hands each polling worker its share of the current command, and merges
//! the progress that the workers report into one total. A worker that has
//! not been heard from for longer than the liveness timeout is evicted the
//! next time the total is asked for.
//!
//! Times are plain numbers that the caller reads off a clock: nanoseconds
//! of a monotonic clock for liveness, seconds since the Unix epoch for
//! schedules. Rates and averages are fixed-point integers, so that every
//! result is exact.

pub mod cluster;
pub mod command;
pub mod dispatch;
pub mod headers;
pub mod ident;
pub mod laws;
pub mod metrics;
pub mod report;
pub mod roster;
pub mod schedule;
pub mod stats;
pub mod worker;
