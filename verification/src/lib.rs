//! Dynamic congestion-based concurrency limits for controlling backpressure.
//!
//! A limiter hands out tokens up to a concurrency limit, and retunes that
//! limit from the latency and outcome of released jobs. Limit controllers
//! (fixed, AIMD, gradient, Vegas) and sample aggregators are verified against
//! exact contracts; durations are carried as whole nanoseconds and fractional
//! parameters as thousandths, so every step of the arithmetic is exact.

pub mod aggregation;
mod arith;
pub mod limiter;
pub mod limits;
pub mod moving_avg;

pub use limiter::{
    create_static_partitions, DefaultLimiter, LimiterState, Outcome, PartitionedLimiter,
    RejectionDelay, Token,
};
pub use limits::Sample;
