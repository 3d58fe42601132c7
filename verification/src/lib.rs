//! A declarative API-testing and load-testing engine.
//!
//! The crate holds the decisions of the engine: template substitution,
//! response validation, suite scheduling, load shaping and metrics
//! aggregation. Every function is verified against its contract; network
//! and file access are left to the caller, which hands in plain values.

pub mod bindings;
pub mod config;
pub mod decimal;
pub mod gen;
pub mod grpc;
pub mod import;
pub mod json;
pub mod performance;
pub mod ratio;
pub mod report;
pub mod runner;
pub mod span;
pub mod text;
pub mod ui;
pub mod utils;
