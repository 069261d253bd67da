//! Job orchestration core of a multi-tenant workload server: quota limits,
//! the listen-port registry, admission control, job reaping and upload rules.

pub mod limits;
pub mod ports;
pub mod error;
pub mod engine;
pub mod ingest;
pub mod config;
