//! Health-check agent core: probe classification, the per-check metrics
//! store, remediation selection and the scheduling state machine.

pub mod config;
pub mod laws;
pub mod metrics;
pub mod probe;
pub mod remediation;
pub mod scheduler;
