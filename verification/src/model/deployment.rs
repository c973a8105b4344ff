pub mod deployment_model;
pub use deployment_model::{DeploymentModel, DeploymentDiagramKind, DeploymentMetadata, Environment, DeploymentNode, NodeType, DeployedService, NetworkLink};
