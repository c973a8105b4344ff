use sys_design::validator::result::Severity;
use sys_design::validator::code_model::validate;
use sys_design::model::code::{CodeModel, CodePackage, Language, PackageDependency};


fn create_test_model() -> CodeModel {
    let mut model = CodeModel::new("Test");
    model.packages.push(CodePackage {
        id: "PKG_A".to_string(),
        name: "Package A".to_string(),
        description: None,
        language: Some(Language::Rust),
        framework: None,
        path: Some("src/a".to_string()),
        element_id: None,
    });
    model.packages.push(CodePackage {
        id: "PKG_B".to_string(),
        name: "Package B".to_string(),
        description: None,
        language: None,
        framework: None,
        path: Some("src/b".to_string()),
        element_id: None,
    });
    model.dependencies.push(PackageDependency {
        from: "PKG_A".to_string(),
        to: "PKG_B".to_string(),
    });
    model
}

#[test]
fn test_valid_code_model() {
    let model = create_test_model();
    let result = validate(&model);
    assert!(result.is_valid);
    assert!(result.errors.is_empty());
}

#[test]
fn test_cm001_empty_id() {
    let mut model = CodeModel::new("Test");
    model.packages.push(CodePackage {
        id: "".to_string(),
        name: "No ID".to_string(),
        description: None,
        language: None,
        framework: None,
        path: None,
        element_id: None,
    });
    let result = validate(&model);
    assert!(!result.is_valid);
    assert!(result.errors.iter().any(|e| e.code == "CM001" && e.severity == Severity::Error));
}

#[test]
fn test_cm001_empty_name() {
    let mut model = CodeModel::new("Test");
    model.packages.push(CodePackage {
        id: "PKG".to_string(),
        name: "".to_string(),
        description: None,
        language: None,
        framework: None,
        path: None,
        element_id: None,
    });
    let result = validate(&model);
    assert!(!result.is_valid);
    assert!(result.errors.iter().any(|e| e.code == "CM001" && e.severity == Severity::Error));
}

#[test]
fn test_cm002_duplicate_id() {
    let mut model = CodeModel::new("Test");
    model.packages.push(CodePackage {
        id: "PKG".to_string(),
        name: "First".to_string(),
        description: None,
        language: None,
        framework: None,
        path: None,
        element_id: None,
    });
    model.packages.push(CodePackage {
        id: "PKG".to_string(),
        name: "Second".to_string(),
        description: None,
        language: None,
        framework: None,
        path: None,
        element_id: None,
    });
    let result = validate(&model);
    assert!(!result.is_valid);
    assert!(result.errors.iter().any(|e| e.code == "CM002"));
}

#[test]
fn test_cm003_naming() {
    let mut model = CodeModel::new("Test");
    model.packages.push(CodePackage {
        id: "bad-name".to_string(),
        name: "Bad Name".to_string(),
        description: None,
        language: None,
        framework: None,
        path: None,
        element_id: None,
    });
    let result = validate(&model);
    assert!(result.is_valid); // Warning only
    assert!(result.errors.iter().any(|e| e.code == "CM003" && e.severity == Severity::Warning));
}

#[test]
fn test_cm004_no_path() {
    let mut model = CodeModel::new("Test");
    model.packages.push(CodePackage {
        id: "PKG".to_string(),
        name: "Pkg".to_string(),
        description: None,
        language: None,
        framework: None,
        path: None,
        element_id: None,
    });
    let result = validate(&model);
    assert!(result.is_valid);
    assert!(result.errors.iter().any(|e| e.code == "CM004" && e.severity == Severity::Warning));
}

#[test]
fn test_cm005_invalid_dep() {
    let mut model = CodeModel::new("Test");
    model.packages.push(CodePackage {
        id: "PKG_A".to_string(),
        name: "A".to_string(),
        description: None,
        language: None,
        framework: None,
        path: None,
        element_id: None,
    });
    model.dependencies.push(PackageDependency {
        from: "PKG_A".to_string(),
        to: "PKG_NONEXISTENT".to_string(),
    });
    let result = validate(&model);
    assert!(!result.is_valid);
    assert!(result.errors.iter().any(|e| e.code == "CM005"));
}

#[test]
fn test_cm006_circular_dep() {
    let mut model = CodeModel::new("Test");
    model.packages.push(CodePackage {
        id: "PKG_A".to_string(),
        name: "A".to_string(),
        description: None,
        language: None,
        framework: None,
        path: None,
        element_id: None,
    });
    model.packages.push(CodePackage {
        id: "PKG_B".to_string(),
        name: "B".to_string(),
        description: None,
        language: None,
        framework: None,
        path: None,
        element_id: None,
    });
    model.dependencies.push(PackageDependency {
        from: "PKG_A".to_string(),
        to: "PKG_B".to_string(),
    });
    model.dependencies.push(PackageDependency {
        from: "PKG_B".to_string(),
        to: "PKG_A".to_string(),
    });
    let result = validate(&model);
    assert!(result.is_valid); // Warning only
    assert!(result.errors.iter().any(|e| e.code == "CM006" && e.severity == Severity::Warning));
}

#[test]
fn test_cm006_self_dependency() {
    let mut model = CodeModel::new("Test");
    model.packages.push(CodePackage {
        id: "PKG_A".to_string(),
        name: "A".to_string(),
        description: None,
        language: None,
        framework: None,
        path: None,
        element_id: None,
    });
    model.dependencies.push(PackageDependency {
        from: "PKG_A".to_string(),
        to: "PKG_A".to_string(),
    });
    let result = validate(&model);
    assert!(result.is_valid);
    assert!(result.errors.iter().any(|e| e.code == "CM006" && e.severity == Severity::Warning));
}

#[test]
fn test_cm006_three_node_cycle() {
    let mut model = CodeModel::new("Test");
    model.packages.push(CodePackage {
        id: "PKG_A".to_string(),
        name: "A".to_string(),
        description: None,
        language: None,
        framework: None,
        path: None,
        element_id: None,
    });
    model.packages.push(CodePackage {
        id: "PKG_B".to_string(),
        name: "B".to_string(),
        description: None,
        language: None,
        framework: None,
        path: None,
        element_id: None,
    });
    model.packages.push(CodePackage {
        id: "PKG_C".to_string(),
        name: "C".to_string(),
        description: None,
        language: None,
        framework: None,
        path: None,
        element_id: None,
    });
    model.dependencies.push(PackageDependency {
        from: "PKG_A".to_string(),
        to: "PKG_B".to_string(),
    });
    model.dependencies.push(PackageDependency {
        from: "PKG_B".to_string(),
        to: "PKG_C".to_string(),
    });
    model.dependencies.push(PackageDependency {
        from: "PKG_C".to_string(),
        to: "PKG_A".to_string(),
    });
    let result = validate(&model);
    assert!(result.is_valid);
    assert!(result.errors.iter().any(|e| e.code == "CM006" && e.severity == Severity::Warning));
}
