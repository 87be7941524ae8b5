//! Health-monitor core: a small boolean/comparison expression language
//! evaluated against probe metrics, the per-run probe message processor that
//! turns observed samples into a status report, and the monitor configuration
//! model those parts share.

pub mod args;
pub mod eventlog;
pub mod expressions;
pub mod laws;
pub mod metrics;
pub mod ping;
pub mod strutil;
pub mod numfmt;
pub mod value;
