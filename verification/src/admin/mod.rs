//! What the service shows its operators.

pub mod ids;
pub mod metrics;
