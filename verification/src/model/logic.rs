pub mod concept;
pub mod concept_model;



