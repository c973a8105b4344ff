use sys_design::generator::plantuml::code_model::generate_code_model_plantuml;
use sys_design::model::code::{CodeModel, CodePackage, Language, PackageDependency};
use sys_design::model::workspace::Workspace;


fn create_test_model() -> CodeModel {
    let mut model = CodeModel::new("Test Code Model");
    model.packages.push(CodePackage {
        id: "CORE_LIB".to_string(),
        name: "Core Library".to_string(),
        description: None,
        language: Some(Language::Rust),
        framework: None,
        path: None,
        element_id: None,
    });
    model.packages.push(CodePackage {
        id: "UTIL_LIB".to_string(),
        name: "Utility Library".to_string(),
        description: None,
        language: Some(Language::Python),
        framework: None,
        path: None,
        element_id: None,
    });
    model.dependencies.push(PackageDependency {
        from: "CORE_LIB".to_string(),
        to: "UTIL_LIB".to_string(),
    });
    model
}

fn create_test_workspace() -> Workspace {
    Workspace::new("Test")
}

#[test]
fn test_generate_code_model() {
    let model = create_test_model();
    let ws = create_test_workspace();
    let result = generate_code_model_plantuml(&ws, &model);

    assert!(result.contains("@startuml"));
    assert!(result.contains("@enduml"));
    assert!(result.contains("package \"Core Library\""));
    assert!(result.contains("as CORE_LIB"));
    assert!(result.contains("CORE_LIB --> UTIL_LIB"));
}

#[test]
fn test_generate_code_model_with_mapping() {
    let mut model = CodeModel::new("Test");
    model.packages.push(CodePackage {
        id: "CORE_LIB".to_string(),
        name: "Core Library".to_string(),
        description: None,
        language: None,
        framework: None,
        path: None,
        element_id: Some("MY_SYSTEM".to_string()), // matches system ID
    });

    let mut ws = Workspace::new("Test");
    ws.logic_view = Some(sys_design::model::logic::concept::LogicConceptDiagram::new(
        "MY_SYSTEM", "My System",
    ));

    let result = generate_code_model_plantuml(&ws, &model);
    assert!(result.contains("maps to"));
}
