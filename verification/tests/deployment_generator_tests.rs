use sys_design::generator::plantuml::deployment_model::generate_deployment_model_plantuml;
use sys_design::model::deployment::{DeploymentModel, Environment, DeploymentNode, NodeType, DeployedService};
use sys_design::model::delivery::{DeliveryModel, DeliveryPackage, DeliveryType};
use sys_design::model::workspace::Workspace;


fn create_test_workspace() -> Workspace {
    let mut ws = Workspace::new("Test");
    let mut delivery = DeliveryModel::new("Test Delivery");
    delivery.packages.push(DeliveryPackage {
        id: "CORE_IMG".to_string(),
        name: "Core Image".to_string(),
        description: None,
        version: Some("1.0.0".to_string()),
        delivery_type: DeliveryType::ContainerImage,
        artifacts: vec![],
        registry: None,
    });
    ws.delivery_model = Some(delivery);
    ws
}

fn create_test_deployment_model() -> DeploymentModel {
    let mut model = DeploymentModel::new("Test Deployment");
    model.environments.push(Environment {
        id: "PROD".to_string(),
        name: "Production".to_string(),
        description: None,
    });
    model.nodes.push(DeploymentNode {
        id: "K8S".to_string(),
        name: "K8s Cluster".to_string(),
        description: None,
        node_type: NodeType::Kubernetes,
        environment: Some("PROD".to_string()),
        technology: None,
    });
    model.services.push(DeployedService {
        id: "API_SVC".to_string(),
        name: "API".to_string(),
        description: None,
        delivery_package: "CORE_IMG".to_string(),
        target_node: "K8S".to_string(),
        replicas: Some(3),
        port: Some(8080),
    });
    model
}

#[test]
fn test_generate_deployment_model() {
    let ws = create_test_workspace();
    let model = create_test_deployment_model();
    let result = generate_deployment_model_plantuml(&ws, &model, None).unwrap();

    assert!(result.contains("@startuml"));
    assert!(result.contains("@enduml"));
    assert!(result.contains("node \"K8s Cluster <<Kubernetes>>\" as K8S"));
    assert!(result.contains("component \"API\" as API_SVC"));
    assert!(result.contains("delivery_package:"));
    assert!(result.contains("replicas: 3"));
    assert!(result.contains("port: 8080"));
}

#[test]
fn test_generate_deployment_model_with_env_filter() {
    let ws = create_test_workspace();
    let mut model = DeploymentModel::new("Test Deployment");
    model.environments.push(Environment {
        id: "PROD".to_string(),
        name: "Production".to_string(),
        description: None,
    });
    model.environments.push(Environment {
        id: "STAGING".to_string(),
        name: "Staging".to_string(),
        description: None,
    });
    model.nodes.push(DeploymentNode {
        id: "K8S".to_string(),
        name: "K8s Cluster".to_string(),
        description: None,
        node_type: NodeType::Kubernetes,
        environment: Some("PROD".to_string()),
        technology: None,
    });
    model.nodes.push(DeploymentNode {
        id: "STAGING_SRV".to_string(),
        name: "Staging Server".to_string(),
        description: None,
        node_type: NodeType::Server,
        environment: Some("STAGING".to_string()),
        technology: None,
    });
    model.services.push(DeployedService {
        id: "API_SVC".to_string(),
        name: "API".to_string(),
        description: None,
        delivery_package: "CORE_IMG".to_string(),
        target_node: "K8S".to_string(),
        replicas: None,
        port: None,
    });
    model.services.push(DeployedService {
        id: "STAGING_SVC".to_string(),
        name: "Staging API".to_string(),
        description: None,
        delivery_package: "CORE_IMG".to_string(),
        target_node: "STAGING_SRV".to_string(),
        replicas: None,
        port: None,
    });

    // Filter to PROD only
    let result = generate_deployment_model_plantuml(&ws, &model, Some("PROD")).unwrap();
    assert!(result.contains("K8s Cluster"));
    assert!(!result.contains("Staging Server"));
    assert!(result.contains("component \"API\""));
    assert!(!result.contains("Staging API"));
}

#[test]
fn test_generate_deployment_auto_env() {
    let ws = create_test_workspace();
    let model = create_test_deployment_model();
    // Single env: auto-selected when environment_id is None
    let result = generate_deployment_model_plantuml(&ws, &model, None).unwrap();
    assert!(result.contains("Production"));
    assert!(result.contains("component \"API\""));
}

#[test]
fn test_generate_deployment_multi_env_error() {
    let ws = create_test_workspace();
    let mut model = DeploymentModel::new("Test Deployment");
    model.environments.push(Environment {
        id: "PROD".to_string(),
        name: "Production".to_string(),
        description: None,
    });
    model.environments.push(Environment {
        id: "STAGING".to_string(),
        name: "Staging".to_string(),
        description: None,
    });
    model.nodes.push(DeploymentNode {
        id: "K8S".to_string(),
        name: "K8s Cluster".to_string(),
        description: None,
        node_type: NodeType::Kubernetes,
        environment: Some("PROD".to_string()),
        technology: None,
    });

    // Multiple envs without specifying should return error
    let result = generate_deployment_model_plantuml(&ws, &model, None);
    assert!(result.is_err());
    assert!(result.unwrap_err().contains("Multiple environments exist"));
}
