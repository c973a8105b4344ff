use sys_design::store::DeliveryOperations;
use sys_design::model::delivery::{DeliveryModel, DeliveryType};


fn create_test_model() -> DeliveryModel {
    DeliveryModel::new("Test Delivery Model")
}

#[test]
fn delivery_operations_test_add_package() {
    let mut model = create_test_model();
    DeliveryOperations::add_package(
        &mut model,
        "CORE_IMG",
        Some("Core Image"),
        Some("Main container image"),
        Some("1.0.0"),
        Some(DeliveryType::ContainerImage),
        vec!["CORE_BIN".to_string()],
        Some("registry.example.com/core"),
    )
    .unwrap();
    assert_eq!(model.packages.len(), 1);
    assert_eq!(model.packages[0].id, "CORE_IMG");
    assert_eq!(model.packages[0].name, "Core Image");
    assert_eq!(model.packages[0].artifacts, vec!["CORE_BIN"]);
}

#[test]
fn delivery_operations_test_add_duplicate_package() {
    let mut model = create_test_model();
    DeliveryOperations::add_package(&mut model, "PKG_A", None, None, None, None, vec![], None).unwrap();
    let result = DeliveryOperations::add_package(&mut model, "PKG_A", None, None, None, None, vec![], None);
    assert!(result.is_err());
}

#[test]
fn delivery_operations_test_remove_package() {
    let mut model = create_test_model();
    DeliveryOperations::add_package(&mut model, "PKG_A", None, None, None, None, vec![], None).unwrap();
    DeliveryOperations::add_package(&mut model, "PKG_B", None, None, None, None, vec![], None).unwrap();

    DeliveryOperations::remove_package(&mut model, "PKG_A").unwrap();
    assert_eq!(model.packages.len(), 1);
    assert_eq!(model.packages[0].id, "PKG_B");
}

#[test]
fn test_remove_nonexistent() {
    let mut model = create_test_model();
    let result = DeliveryOperations::remove_package(&mut model, "PKG_X");
    assert!(result.is_err());
}

#[test]
fn test_add_then_remove_package_restores_packages() {
    let mut model = create_test_model();
    DeliveryOperations::add_package(&mut model, "A", None, None, None, None, vec![], None).unwrap();
    DeliveryOperations::add_package(&mut model, "B", None, None, Some("2.0"), Some(DeliveryType::Archive), vec![], None).unwrap();
    DeliveryOperations::remove_package(&mut model, "B").unwrap();
    let ids: Vec<&str> = model.packages.iter().map(|p| p.id.as_str()).collect();
    assert_eq!(ids, vec!["A"]);
}
