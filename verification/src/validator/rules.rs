//! The rules that check a context diagram.

pub mod completeness;
pub mod consistency;
pub mod naming;
