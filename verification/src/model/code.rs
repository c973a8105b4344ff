pub mod code_model;
pub use code_model::{CodeModel, CodeDiagramKind, CodeMetadata, CodePackage, Language, PackageDependency};
