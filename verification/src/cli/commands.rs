//! One module per command group.

pub mod context_model;
pub mod runtime_model;
pub mod concept_model;
pub mod generate;
pub mod code_model;
pub mod build_model;
pub mod delivery_model;
pub mod deployment_model;
pub mod logic_model;
