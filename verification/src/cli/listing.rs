//! The text that the `list` and `show` commands print, line by line.

pub mod context;
pub mod runtime;
pub mod fields;
pub mod deployment;
pub mod models;
pub mod validation;
pub mod logic;
