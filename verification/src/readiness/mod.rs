//! Operational readiness: severities, deployment gates, entity health and
//! verification findings, mission models and human teaming.

pub mod severity;
pub mod gates;
pub mod entity_health;
pub mod entity_verify;
pub mod models;
pub mod forecast;
pub mod diagnostics;
