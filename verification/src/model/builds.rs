pub mod build_model;
pub use build_model::{BuildModel, BuildDiagramKind, BuildMetadata, BuildArtifact, OutputType, BuildTool, BuildProfile, ArtifactDependency};
