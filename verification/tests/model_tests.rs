use sys_design::model::build::{BuildModel, BuildDiagramKind, BuildArtifact, BuildTool, OutputType};
use sys_design::model::code::{CodeModel, CodeDiagramKind, CodePackage, Language};
use sys_design::model::delivery::{DeliveryModel, DeliveryDiagramKind, DeliveryPackage, DeliveryType};
use sys_design::model::deployment::{
    DeploymentModel, DeploymentDiagramKind, Environment, DeploymentNode, NodeType, DeployedService,
};
use sys_design::model::c4::context::{ContextDiagram, Actor, ActorType, Interface, Protocol, InterfaceProvider, InterfaceUsage};
use sys_design::model::workspace::Workspace;
use sys_design::model::logic::concept::LogicConceptDiagram;
use sys_design::model::logic::concept_model::LogicArchitectureConceptModel;

fn artifact(id: &str, name: &str, tool: Option<BuildTool>, output_type: OutputType) -> BuildArtifact {
    BuildArtifact {
        id: id.to_string(),
        name: name.to_string(),
        description: None,
        build_tool: tool,
        output_type,
        source_packages: vec![],
        build_file: None,
        profile: None,
        build_args: None,
    }
}

fn code_package(id: &str, name: &str, language: Option<Language>) -> CodePackage {
    CodePackage {
        id: id.to_string(),
        name: name.to_string(),
        description: None,
        language,
        framework: None,
        path: None,
        element_id: None,
    }
}

fn delivery_package(id: &str, name: &str, delivery_type: DeliveryType) -> DeliveryPackage {
    DeliveryPackage {
        id: id.to_string(),
        name: name.to_string(),
        description: None,
        version: None,
        delivery_type,
        artifacts: vec![],
        registry: None,
    }
}

fn node(id: &str, name: &str, node_type: NodeType) -> DeploymentNode {
    DeploymentNode {
        id: id.to_string(),
        name: name.to_string(),
        description: None,
        node_type,
        environment: None,
        technology: None,
    }
}

#[test]
fn test_create_build_model() {
    let model = BuildModel::new("Test Build");
    assert_eq!(model.version, "1.0");
    assert_eq!(model.kind, BuildDiagramKind::BuildModel);
    assert!(model.artifacts.is_empty());
    assert!(model.dependencies.is_empty());
}

#[test]
fn test_all_artifact_ids() {
    let mut model = BuildModel::new("Test");
    model.artifacts.push(artifact("ART_A", "Artifact A", Some(BuildTool::Cargo), OutputType::Binary));
    assert_eq!(model.all_artifact_ids(), vec!["ART_A"]);
}

#[test]
fn test_find_artifact() {
    let mut model = BuildModel::new("Test");
    model.artifacts.push(artifact("ART_A", "Artifact A", None, OutputType::Binary));
    assert!(model.find_artifact("ART_A").is_some());
    assert!(model.find_artifact("ART_B").is_none());
}

#[test]
fn test_output_type_default() {
    let artifact = BuildArtifact {
        id: "A".to_string(),
        name: "A".to_string(),
        description: None,
        build_tool: None,
        output_type: OutputType::default(),
        source_packages: vec![],
        build_file: None,
        profile: None,
        build_args: None,
    };
    assert_eq!(artifact.output_type, OutputType::Binary);
}

#[test]
fn test_get_artifact_name_and_mut_lookup() {
    let mut model = BuildModel::new("Test");
    model.artifacts.push(artifact("ART_A", "Artifact A", None, OutputType::Library));
    model.artifacts.push(artifact("ART_A", "Shadowed", None, OutputType::Library));
    assert_eq!(model.get_artifact_name("ART_A"), Some("Artifact A"));
    assert_eq!(model.get_artifact_name("NOPE"), None);
    model.find_artifact_mut("ART_A").unwrap().name = "Renamed".to_string();
    assert_eq!(model.artifacts[0].name, "Renamed");
    assert_eq!(model.artifacts[1].name, "Shadowed");
    assert!(model.find_artifact_mut("NOPE").is_none());
}

#[test]
fn test_create_code_model() {
    let model = CodeModel::new("Test Code Model");
    assert_eq!(model.version, "1.0");
    assert_eq!(model.kind, CodeDiagramKind::CodeModel);
    assert_eq!(model.metadata.title, "Test Code Model");
    assert!(model.packages.is_empty());
    assert!(model.dependencies.is_empty());
}

#[test]
fn code_model_test_all_package_ids() {
    let mut model = CodeModel::new("Test");
    model.packages.push(code_package("PKG_A", "Package A", Some(Language::Rust)));
    model.packages.push(code_package("PKG_B", "Package B", None));
    assert_eq!(model.all_package_ids(), vec!["PKG_A", "PKG_B"]);
}

#[test]
fn code_model_test_find_package() {
    let mut model = CodeModel::new("Test");
    model.packages.push(code_package("PKG_A", "Package A", None));
    assert!(model.find_package("PKG_A").is_some());
    assert!(model.find_package("PKG_B").is_none());
}

#[test]
fn test_get_package_name() {
    let mut model = CodeModel::new("Test");
    model.packages.push(code_package("PKG_A", "Package A", None));
    assert_eq!(model.get_package_name("PKG_A"), Some("Package A"));
    assert_eq!(model.get_package_name("PKG_B"), None);
}

#[test]
fn test_touch() {
    let mut model = CodeModel::new("Test");
    let before = model.metadata.updated_at;
    model.touch();
    assert!(model.metadata.updated_at >= before);
}

#[test]
fn test_find_package_mut() {
    let mut model = CodeModel::new("Test");
    model.packages.push(code_package("PKG_A", "Old Name", None));
    model.find_package_mut("PKG_A").unwrap().name = "New Name".to_string();
    assert_eq!(model.find_package("PKG_A").unwrap().name, "New Name");
    assert!(model.find_package_mut("PKG_B").is_none());
}

#[test]
fn test_create_delivery_model() {
    let model = DeliveryModel::new("Test Delivery");
    assert_eq!(model.version, "1.0");
    assert_eq!(model.kind, DeliveryDiagramKind::DeliveryModel);
    assert!(model.packages.is_empty());
}

#[test]
fn delivery_model_test_all_package_ids() {
    let mut model = DeliveryModel::new("Test");
    model.packages.push(delivery_package("PKG_A", "Package A", DeliveryType::ContainerImage));
    assert_eq!(model.all_package_ids(), vec!["PKG_A"]);
}

#[test]
fn delivery_model_test_find_package() {
    let mut model = DeliveryModel::new("Test");
    model.packages.push(delivery_package("PKG_A", "Package A", DeliveryType::ContainerImage));
    assert!(model.find_package("PKG_A").is_some());
    assert!(model.find_package("PKG_B").is_none());
    assert!(model.find_package_mut("PKG_A").is_some());
}

#[test]
fn test_delivery_type_default() {
    let package = DeliveryPackage {
        id: "P".to_string(),
        name: "P".to_string(),
        description: None,
        version: None,
        delivery_type: DeliveryType::default(),
        artifacts: vec![],
        registry: None,
    };
    assert_eq!(package.delivery_type, DeliveryType::ContainerImage);
}

#[test]
fn test_create_deployment_model() {
    let model = DeploymentModel::new("Test Deployment");
    assert_eq!(model.version, "1.0");
    assert_eq!(model.kind, DeploymentDiagramKind::DeploymentModel);
    assert!(model.environments.is_empty());
    assert!(model.nodes.is_empty());
    assert!(model.services.is_empty());
    assert!(model.network_links.is_empty());
}

#[test]
fn test_all_environment_ids() {
    let mut model = DeploymentModel::new("Test");
    model.environments.push(Environment { id: "PROD".to_string(), name: "Production".to_string(), description: None });
    model.environments.push(Environment { id: "STAGING".to_string(), name: "Staging".to_string(), description: None });
    assert_eq!(model.all_environment_ids(), vec!["PROD", "STAGING"]);
}

#[test]
fn test_all_node_ids() {
    let mut model = DeploymentModel::new("Test");
    model.nodes.push(node("WEB_SRV", "Web Server", NodeType::Server));
    assert_eq!(model.all_node_ids(), vec!["WEB_SRV"]);
}

#[test]
fn test_all_service_ids() {
    let mut model = DeploymentModel::new("Test");
    model.services.push(DeployedService {
        id: "API_SVC".to_string(),
        name: "API Service".to_string(),
        description: None,
        delivery_package: "CORE_IMG".to_string(),
        target_node: "WEB_SRV".to_string(),
        replicas: Some(3),
        port: Some(8080),
    });
    assert_eq!(model.all_service_ids(), vec!["API_SVC"]);
}

#[test]
fn test_find_environment() {
    let mut model = DeploymentModel::new("Test");
    model.environments.push(Environment { id: "PROD".to_string(), name: "Production".to_string(), description: None });
    assert!(model.find_environment("PROD").is_some());
    assert!(model.find_environment("DEV").is_none());
}

#[test]
fn test_find_node() {
    let mut model = DeploymentModel::new("Test");
    model.nodes.push(node("WEB_SRV", "Web Server", NodeType::Server));
    assert!(model.find_node("WEB_SRV").is_some());
    assert!(model.find_node("DB_SRV").is_none());
    assert!(model.find_node_mut("WEB_SRV").is_some());
}

#[test]
fn test_find_service() {
    let mut model = DeploymentModel::new("Test");
    model.services.push(DeployedService {
        id: "API_SVC".to_string(),
        name: "API".to_string(),
        description: None,
        delivery_package: "IMG".to_string(),
        target_node: "NODE".to_string(),
        replicas: None,
        port: None,
    });
    assert!(model.find_service("API_SVC").is_some());
    assert!(model.find_service("OTHER").is_none());
}

#[test]
fn test_get_element_name_cross_type() {
    let mut model = DeploymentModel::new("Test");
    model.environments.push(Environment { id: "PROD".to_string(), name: "Production".to_string(), description: None });
    model.nodes.push(node("WEB", "Web Node", NodeType::Server));
    assert_eq!(model.get_element_name("PROD"), Some("Production"));
    assert_eq!(model.get_element_name("WEB"), Some("Web Node"));
    assert_eq!(model.get_element_name("MISSING"), None);
}

#[test]
fn test_get_element_name_prefers_environment() {
    let mut model = DeploymentModel::new("Test");
    model.nodes.push(node("X", "Node X", NodeType::Vm));
    model.environments.push(Environment { id: "X".to_string(), name: "Env X".to_string(), description: None });
    assert_eq!(model.get_element_name("X"), Some("Env X"));
}

#[test]
fn test_node_type_default() {
    let node = DeploymentNode {
        id: "N".to_string(),
        name: "N".to_string(),
        description: None,
        node_type: NodeType::default(),
        environment: None,
        technology: None,
    };
    assert_eq!(node.node_type, NodeType::Server);
}

#[test]
fn context_test_derive_relationships() {
    let mut diagram = ContextDiagram::new("TEST_SYSTEM", "Test System");
    diagram.actors.push(Actor {
        id: "user".to_string(),
        name: "User".to_string(),
        description: None,
        actor_type: ActorType::External,
    });
    diagram.interfaces.push(Interface {
        id: "API".to_string(),
        name: "API".to_string(),
        description: None,
        protocol: Protocol::Rest,
        endpoints: vec![],
    });
    diagram.interface_providers.push(InterfaceProvider {
        system: "TEST_SYSTEM".to_string(),
        interfaces: vec!["API".to_string()],
    });
    diagram.interface_usages.push(InterfaceUsage {
        actor: "user".to_string(),
        interfaces: vec!["API".to_string()],
    });
    let relationships = diagram.derive_relationships();
    assert_eq!(relationships.len(), 1);
    assert_eq!(relationships[0].from, "user");
    assert_eq!(relationships[0].to, "TEST_SYSTEM");
    assert_eq!(relationships[0].via_interface, "API");
}

#[test]
fn test_create_workspace() {
    let workspace = Workspace::new("My Project");
    assert_eq!(workspace.metadata.title, "My Project");
    assert!(!workspace.has_context_diagram());
    assert!(!workspace.has_logic_architecture_concept_model());
    assert!(!workspace.has_logic_view());
}

#[test]
fn test_workspace_with_diagrams() {
    let mut workspace = Workspace::new("My Project");
    workspace.context_diagram = Some(ContextDiagram::new("MY_SYSTEM", "My System"));
    workspace.logic_architecture_concept_model = Some(LogicArchitectureConceptModel::new("My Model"));
    workspace.logic_view = Some(LogicConceptDiagram::new("MY_SYSTEM", "My System"));
    assert!(workspace.has_context_diagram());
    assert!(workspace.has_logic_architecture_concept_model());
    assert!(workspace.has_logic_view());
}

#[test]
fn test_workspace_holding_a_single_diagram() {
    let d = ContextDiagram::new("SYS", "My Context");
    let w = Workspace::holding_context_diagram(d);
    assert_eq!(w.metadata.title, "My Context");
    assert_eq!(w.version, "1.0");
    assert_eq!(w.context_diagram.as_ref().unwrap().system.id, "SYS");
    assert!(w.runtime_view.is_none());
    let m = LogicArchitectureConceptModel::new("Concepts");
    let w = Workspace::holding_concept_model(m);
    assert_eq!(w.metadata.title, "Concepts");
    assert!(w.logic_architecture_concept_model.is_some());
    assert!(w.context_diagram.is_none());
}
