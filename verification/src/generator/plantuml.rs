//! PlantUML text generated from the models.

pub mod support;
pub mod context;
pub mod concept_model;
pub mod code_model;
pub mod build_model;
pub mod delivery_model;
pub mod deployment_model;
pub mod runtime_view;
pub mod framing;
pub mod logic_concept;

pub use self::concept_model::generate_concept_model_plantuml;
pub use self::context::generate_plantuml;
pub use self::runtime_view::generate_runtime_plantuml;
pub use self::code_model::generate_code_model_plantuml;
pub use self::build_model::generate_build_model_plantuml;
pub use self::delivery_model::generate_delivery_model_plantuml;
pub use self::deployment_model::generate_deployment_model_plantuml;
