//! Diagram text generated from the models.

pub mod plantuml;
