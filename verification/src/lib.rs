//! Script and process integration engine of the dashboard host.
//!
//! The engine has two halves. The streaming half buffers telemetry that
//! long-running worker processes push over a hand-off channel into bounded,
//! per-stream time series. The discrete half classifies what a one-shot
//! worker printed into a scalar or a table and files it in the result store.
//! Everything here is sequential and owns its data; threads, sockets and
//! process handles stay with the host program.

pub mod executors;
pub mod json;
pub mod panels;
pub mod paths;
pub mod text;
pub mod text_map;
pub mod types;
