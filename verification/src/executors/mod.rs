//! The two executors: long-running workers that stream telemetry, and
//! one-shot scripts that print a single result.

pub mod discrete;
pub mod streaming;
pub mod telemetry;
