//! TCP handshake latency measurement: probe scheduling, probe history and
//! its summary statistics.

pub mod aggregates;
pub mod probe;
pub mod summary;
pub mod cause;
pub mod scheduler;
