//! Benchmark execution and measurement engine: sample statistics, adaptive
//! sampling, a concurrency limiter, run orchestration and result grouping.
//!
//! Durations are carried as whole nanoseconds (`u64`).

pub mod stats;
pub mod wait_for_free_cpu;
pub mod sampler;
pub mod error;
pub mod config;
pub mod measure;
pub mod execution;
pub mod results;
pub mod template;
pub mod sanity;
