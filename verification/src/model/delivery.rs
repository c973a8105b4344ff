pub mod delivery_model;
pub use delivery_model::{DeliveryModel, DeliveryDiagramKind, DeliveryMetadata, DeliveryPackage, DeliveryType};
