use sys_design::generator::plantuml::delivery_model::generate_delivery_model_plantuml;
use sys_design::model::delivery::{DeliveryModel, DeliveryPackage, DeliveryType};
use sys_design::model::build::{BuildModel, BuildArtifact, OutputType};
use sys_design::model::workspace::Workspace;


fn create_test_model() -> DeliveryModel {
    let mut model = DeliveryModel::new("Test Delivery Model");
    model.packages.push(DeliveryPackage {
        id: "CORE_IMG".to_string(),
        name: "Core Image".to_string(),
        description: None,
        version: Some("1.0.0".to_string()),
        delivery_type: DeliveryType::ContainerImage,
        artifacts: vec![],
        registry: Some("registry.example.com/core".to_string()),
    });
    model.packages.push(DeliveryPackage {
        id: "UTIL_CRATE".to_string(),
        name: "Utility Crate".to_string(),
        description: None,
        version: Some("0.1.0".to_string()),
        delivery_type: DeliveryType::Crate,
        artifacts: vec![],
        registry: None,
    });
    model
}

fn create_test_workspace() -> Workspace {
    Workspace::new("Test")
}

#[test]
fn test_generate_delivery_model() {
    let model = create_test_model();
    let ws = create_test_workspace();
    let result = generate_delivery_model_plantuml(&ws, &model);

    assert!(result.contains("@startuml"));
    assert!(result.contains("@enduml"));
    assert!(result.contains("Core Image"));
    assert!(result.contains("as CORE_IMG"));
    assert!(result.contains("<<ContainerImage>>"));
    assert!(result.contains("Utility Crate"));
    assert!(result.contains("<<Crate>>"));
    assert!(result.contains("registry: registry.example.com/core"));
}

#[test]
fn test_generate_delivery_model_with_artifacts() {
    let mut model = DeliveryModel::new("Test");
    model.packages.push(DeliveryPackage {
        id: "CORE_IMG".to_string(),
        name: "Core Image".to_string(),
        description: None,
        version: Some("2.0.0".to_string()),
        delivery_type: DeliveryType::ContainerImage,
        artifacts: vec!["CORE_BIN".to_string()],
        registry: None,
    });

    let mut ws = Workspace::new("Test");
    let mut build_model = BuildModel::new("Test Build");
    build_model.artifacts.push(BuildArtifact {
        id: "CORE_BIN".to_string(),
        name: "Core Binary".to_string(),
        description: None,
        build_tool: None,
        output_type: OutputType::Binary,
        source_packages: vec![],
        build_file: None,
        profile: None,
        build_args: None,
    });
    ws.build_model = Some(build_model);

    let result = generate_delivery_model_plantuml(&ws, &model);
    assert!(result.contains("version: 2.0.0"));
    assert!(result.contains("artifacts: Core Binary"));
}
