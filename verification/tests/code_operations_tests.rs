use sys_design::store::CodeOperations;
use sys_design::model::code::{CodeModel, Language};


fn create_test_model() -> CodeModel {
    CodeModel::new("Test Code Model")
}

#[test]
fn code_operations_test_add_package() {
    let mut model = create_test_model();
    CodeOperations::add_package(
        &mut model,
        "CORE_LIB",
        Some("Core Library"),
        Some("Core functionality"),
        Some(Language::Rust),
        None,
        Some("src/core"),
        None,
    )
    .unwrap();
    assert_eq!(model.packages.len(), 1);
    assert_eq!(model.packages[0].id, "CORE_LIB");
    assert_eq!(model.packages[0].name, "Core Library");
}

#[test]
fn code_operations_test_add_duplicate_package() {
    let mut model = create_test_model();
    CodeOperations::add_package(&mut model, "PKG_A", None, None, None, None, None, None).unwrap();
    let result = CodeOperations::add_package(&mut model, "PKG_A", None, None, None, None, None, None);
    assert!(result.is_err());
}

#[test]
fn code_operations_test_remove_package() {
    let mut model = create_test_model();
    CodeOperations::add_package(&mut model, "PKG_A", None, None, None, None, None, None).unwrap();
    CodeOperations::add_package(&mut model, "PKG_B", None, None, None, None, None, None).unwrap();
    CodeOperations::add_dependency(&mut model, "PKG_A", "PKG_B").unwrap();

    CodeOperations::remove_package(&mut model, "PKG_A").unwrap();
    assert_eq!(model.packages.len(), 1);
    // Dependencies referencing PKG_A should be removed
    assert!(model.dependencies.is_empty());
}

#[test]
fn test_remove_nonexistent_package() {
    let mut model = create_test_model();
    let result = CodeOperations::remove_package(&mut model, "NOPE");
    assert!(result.is_err());
}

#[test]
fn code_operations_test_add_dependency() {
    let mut model = create_test_model();
    CodeOperations::add_package(&mut model, "PKG_A", None, None, None, None, None, None).unwrap();
    CodeOperations::add_package(&mut model, "PKG_B", None, None, None, None, None, None).unwrap();
    CodeOperations::add_dependency(&mut model, "PKG_A", "PKG_B").unwrap();
    assert_eq!(model.dependencies.len(), 1);
}

#[test]
fn code_operations_test_add_dependency_invalid_from() {
    let mut model = create_test_model();
    CodeOperations::add_package(&mut model, "PKG_B", None, None, None, None, None, None).unwrap();
    let result = CodeOperations::add_dependency(&mut model, "PKG_A", "PKG_B");
    assert!(result.is_err());
}

#[test]
fn test_add_dependency_invalid_to() {
    let mut model = create_test_model();
    CodeOperations::add_package(&mut model, "PKG_A", None, None, None, None, None, None).unwrap();
    let result = CodeOperations::add_dependency(&mut model, "PKG_A", "PKG_B");
    assert!(result.is_err());
}

#[test]
fn test_add_duplicate_dependency() {
    let mut model = create_test_model();
    CodeOperations::add_package(&mut model, "PKG_A", None, None, None, None, None, None).unwrap();
    CodeOperations::add_package(&mut model, "PKG_B", None, None, None, None, None, None).unwrap();
    CodeOperations::add_dependency(&mut model, "PKG_A", "PKG_B").unwrap();
    let result = CodeOperations::add_dependency(&mut model, "PKG_A", "PKG_B");
    assert!(result.is_err());
}

#[test]
fn code_operations_test_remove_dependency() {
    let mut model = create_test_model();
    CodeOperations::add_package(&mut model, "PKG_A", None, None, None, None, None, None).unwrap();
    CodeOperations::add_package(&mut model, "PKG_B", None, None, None, None, None, None).unwrap();
    CodeOperations::add_dependency(&mut model, "PKG_A", "PKG_B").unwrap();
    CodeOperations::remove_dependency(&mut model, "PKG_A", "PKG_B").unwrap();
    assert!(model.dependencies.is_empty());
}

#[test]
fn test_list_empty_packages() {
    let model = create_test_model();
    assert!(model.packages.is_empty());
    assert!(model.all_package_ids().is_empty());
}

#[test]
fn test_add_then_remove_package_restores_model() {
    let mut model = create_test_model();
    CodeOperations::add_package(&mut model, "A", None, None, None, None, None, None).unwrap();
    CodeOperations::add_package(&mut model, "B", None, None, None, None, None, None).unwrap();
    CodeOperations::add_dependency(&mut model, "A", "B").unwrap();
    CodeOperations::add_package(&mut model, "C", Some("Cee"), None, Some(Language::Go), None, None, None).unwrap();
    CodeOperations::remove_package(&mut model, "C").unwrap();
    let ids: Vec<&str> = model.packages.iter().map(|p| p.id.as_str()).collect();
    assert_eq!(ids, vec!["A", "B"]);
    assert_eq!(model.dependencies.len(), 1);
    assert_eq!(model.dependencies[0].from, "A");
    assert_eq!(model.dependencies[0].to, "B");
}

#[test]
fn test_add_then_remove_dependency_restores_dependencies() {
    let mut model = create_test_model();
    CodeOperations::add_package(&mut model, "A", None, None, None, None, None, None).unwrap();
    CodeOperations::add_package(&mut model, "B", None, None, None, None, None, None).unwrap();
    CodeOperations::add_dependency(&mut model, "B", "A").unwrap();
    CodeOperations::add_dependency(&mut model, "A", "B").unwrap();
    CodeOperations::remove_dependency(&mut model, "A", "B").unwrap();
    assert_eq!(model.dependencies.len(), 1);
    assert_eq!(model.dependencies[0].from, "B");
    assert_eq!(model.dependencies[0].to, "A");
}
