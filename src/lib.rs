//! A one-shot server health report: ranking of processes, unit and
//! percentage arithmetic, fixed-point text, and defensive parsing of the
//! output of the system utilities that feed the report.

pub mod metrics;
pub mod owner;
pub mod probe;
pub mod rank;
pub mod report;
pub mod snapshot;
pub mod text;
