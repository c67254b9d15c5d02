//! Event-driven index building: a content index kept up to date from storage
//! notifications, flushed as snapshots before the consumed events are committed.
pub mod index;
pub mod layout;
pub mod resolve;
pub mod pipeline;
pub mod telemetry;
