use sys_design::validator::result::Severity;
use sys_design::validator::delivery_model::validate;
use sys_design::model::delivery::{DeliveryModel, DeliveryPackage, DeliveryType};


fn create_test_model() -> DeliveryModel {
    let mut model = DeliveryModel::new("Test");
    model.packages.push(DeliveryPackage {
        id: "PKG_A".to_string(),
        name: "Package A".to_string(),
        description: None,
        version: Some("1.0.0".to_string()),
        delivery_type: DeliveryType::ContainerImage,
        artifacts: vec![],
        registry: None,
    });
    model
}

#[test]
fn test_valid_delivery_model() {
    let model = create_test_model();
    let result = validate(&model);
    assert!(result.is_valid);
    assert!(result.errors.is_empty());
}

#[test]
fn test_dm001_empty_id() {
    let mut model = DeliveryModel::new("Test");
    model.packages.push(DeliveryPackage {
        id: "".to_string(),
        name: "No ID".to_string(),
        description: None,
        version: None,
        delivery_type: DeliveryType::ContainerImage,
        artifacts: vec![],
        registry: None,
    });
    let result = validate(&model);
    assert!(!result.is_valid);
    assert!(result.errors.iter().any(|e| e.code == "DM001" && e.severity == Severity::Error));
}

#[test]
fn test_dm001_empty_name() {
    let mut model = DeliveryModel::new("Test");
    model.packages.push(DeliveryPackage {
        id: "PKG".to_string(),
        name: "".to_string(),
        description: None,
        version: Some("1.0".to_string()),
        delivery_type: DeliveryType::ContainerImage,
        artifacts: vec![],
        registry: None,
    });
    let result = validate(&model);
    assert!(!result.is_valid);
    assert!(result.errors.iter().any(|e| e.code == "DM001" && e.severity == Severity::Error));
}

#[test]
fn test_dm002_duplicate_id() {
    let mut model = DeliveryModel::new("Test");
    model.packages.push(DeliveryPackage {
        id: "PKG".to_string(),
        name: "First".to_string(),
        description: None,
        version: Some("1.0".to_string()),
        delivery_type: DeliveryType::ContainerImage,
        artifacts: vec![],
        registry: None,
    });
    model.packages.push(DeliveryPackage {
        id: "PKG".to_string(),
        name: "Second".to_string(),
        description: None,
        version: Some("1.0".to_string()),
        delivery_type: DeliveryType::ContainerImage,
        artifacts: vec![],
        registry: None,
    });
    let result = validate(&model);
    assert!(!result.is_valid);
    assert!(result.errors.iter().any(|e| e.code == "DM002"));
}

#[test]
fn test_dm003_naming() {
    let mut model = DeliveryModel::new("Test");
    model.packages.push(DeliveryPackage {
        id: "bad-name".to_string(),
        name: "Bad Name".to_string(),
        description: None,
        version: Some("1.0".to_string()),
        delivery_type: DeliveryType::ContainerImage,
        artifacts: vec![],
        registry: None,
    });
    let result = validate(&model);
    assert!(result.is_valid); // Warning only
    assert!(result.errors.iter().any(|e| e.code == "DM003" && e.severity == Severity::Warning));
}

#[test]
fn test_dm004_no_version() {
    let mut model = DeliveryModel::new("Test");
    model.packages.push(DeliveryPackage {
        id: "PKG_A".to_string(),
        name: "Package A".to_string(),
        description: None,
        version: None,
        delivery_type: DeliveryType::ContainerImage,
        artifacts: vec![],
        registry: None,
    });
    let result = validate(&model);
    assert!(result.is_valid); // Warning only
    assert!(result.errors.iter().any(|e| e.code == "DM004" && e.severity == Severity::Warning));
}

#[test]
fn test_dm005_min_packages() {
    let model = DeliveryModel::new("Test");
    let result = validate(&model);
    assert!(result.is_valid); // Warning only
    assert!(result.errors.iter().any(|e| e.code == "DM005" && e.severity == Severity::Warning));
}
