//! Operations that edit the models, each checking the references it touches.

pub mod operations;
pub mod runtime_operations;
pub mod deployment_operations;
pub mod code_operations;
pub mod build_operations;
pub mod delivery_operations;
pub mod logic_operations;

pub use self::operations::Operations;
pub use self::runtime_operations::RuntimeOperations;
pub use self::deployment_operations::DeploymentOperations;
pub use self::code_operations::CodeOperations;
pub use self::build_operations::BuildOperations;
pub use self::delivery_operations::DeliveryOperations;
pub use self::logic_operations::LogicOperations;
