//! Verified core of the Spanda platform's package, plugin, readiness, risk,
//! runtime-fault and recovery-orchestration logic.

pub mod text;
pub mod faults;
pub mod fault_impact;
pub mod ops;
pub mod risk;
pub mod package;
pub mod plugin;
pub mod readiness;
pub mod recovery;
