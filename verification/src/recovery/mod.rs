//! Recovery orchestration: escalation levels, strategies, policies,
//! playbooks, decisions, the recovery graph and plugin extensions.

pub mod decision;
pub mod entity;
pub mod graph;
pub mod learning;
pub mod playbook;
pub mod plugin;
pub mod policy;
pub mod simulation;
pub mod types;
pub mod validation;
pub mod config;
pub mod orchestration;
pub mod report_text;
pub mod predictive;
