use sys_design::generator::plantuml::build_model::generate_build_model_plantuml;
use sys_design::model::build::{BuildModel, BuildArtifact, BuildTool, OutputType, ArtifactDependency};
use sys_design::model::code::{CodeModel, CodePackage};
use sys_design::model::workspace::Workspace;


fn create_test_model() -> BuildModel {
    let mut model = BuildModel::new("Test Build Model");
    model.artifacts.push(BuildArtifact {
        id: "CORE_BIN".to_string(),
        name: "Core Binary".to_string(),
        description: None,
        build_tool: Some(BuildTool::Cargo),
        output_type: OutputType::Binary,
        source_packages: vec![],
        build_file: None,
        profile: None,
        build_args: None,
    });
    model.artifacts.push(BuildArtifact {
        id: "UTIL_LIB".to_string(),
        name: "Utility Library".to_string(),
        description: None,
        build_tool: Some(BuildTool::Cargo),
        output_type: OutputType::Library,
        source_packages: vec![],
        build_file: None,
        profile: None,
        build_args: None,
    });
    model.dependencies.push(ArtifactDependency {
        from: "CORE_BIN".to_string(),
        to: "UTIL_LIB".to_string(),
    });
    model
}

fn create_test_workspace() -> Workspace {
    Workspace::new("Test")
}

#[test]
fn test_generate_build_model() {
    let model = create_test_model();
    let ws = create_test_workspace();
    let result = generate_build_model_plantuml(&ws, &model);

    assert!(result.contains("@startuml"));
    assert!(result.contains("@enduml"));
    assert!(result.contains("artifact \"Core Binary\""));
    assert!(result.contains("as CORE_BIN"));
    assert!(result.contains("CORE_BIN --> UTIL_LIB"));
}

#[test]
fn test_generate_build_model_with_source_mapping() {
    let mut model = BuildModel::new("Test");
    model.artifacts.push(BuildArtifact {
        id: "CORE_BIN".to_string(),
        name: "Core Binary".to_string(),
        description: None,
        build_tool: None,
        output_type: OutputType::Binary,
        source_packages: vec!["CORE_LIB".to_string()],
        build_file: None,
        profile: None,
        build_args: None,
    });

    let mut ws = Workspace::new("Test");
    let mut code_model = CodeModel::new("Test Code");
    code_model.packages.push(CodePackage {
        id: "CORE_LIB".to_string(),
        name: "Core Library".to_string(),
        description: None,
        language: None,
        framework: None,
        path: None,
        element_id: None,
    });
    ws.code_model = Some(code_model);

    let result = generate_build_model_plantuml(&ws, &model);
    assert!(result.contains("source: Core Library"));
}
