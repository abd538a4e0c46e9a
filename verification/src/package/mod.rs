//! Packages: safety levels, the local registry and the official catalog,
//! capabilities and manifest validation.

pub mod error;
pub mod safety;
pub mod capability;
pub mod registry;
pub mod official;
pub mod validation;
