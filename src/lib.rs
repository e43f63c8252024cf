//! Metric metadata: source locations attached to metrics, grouped by metric
//! and scoped to a UTC calendar day, with their JSON wire format.
pub mod error;
pub mod item;
pub mod json;
pub mod meta;
pub mod timestamp;
