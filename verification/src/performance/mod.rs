//! Load testing: shaping the request rate, aggregating what the workers
//! observe, and the decisions of a worker.

pub mod metrics;
pub mod monitor;
pub mod patterns;
pub mod runner;
pub mod sorting;
