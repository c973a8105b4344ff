use sys_design::validator::result::Severity;
use sys_design::validator::deployment_model::validate;
use sys_design::model::deployment::{DeploymentModel, Environment, DeploymentNode, NodeType, DeployedService, NetworkLink};


fn create_test_model() -> DeploymentModel {
    let mut model = DeploymentModel::new("Test");
    model.environments.push(Environment {
        id: "PROD".to_string(),
        name: "Production".to_string(),
        description: None,
    });
    model.nodes.push(DeploymentNode {
        id: "K8S".to_string(),
        name: "K8s Cluster".to_string(),
        description: None,
        node_type: NodeType::Kubernetes,
        environment: Some("PROD".to_string()),
        technology: None,
    });
    model.services.push(DeployedService {
        id: "API_SVC".to_string(),
        name: "API".to_string(),
        description: None,
        delivery_package: "CORE_IMG".to_string(),
        target_node: "K8S".to_string(),
        replicas: Some(3),
        port: Some(8080),
    });
    model
}

#[test]
fn test_valid_deployment_model() {
    let model = create_test_model();
    let result = validate(&model);
    assert!(result.is_valid);
    assert!(result.errors.is_empty());
}

#[test]
fn test_dp001_empty_env_id() {
    let mut model = create_test_model();
    model.environments.push(Environment {
        id: "".to_string(),
        name: "No ID".to_string(),
        description: None,
    });
    let result = validate(&model);
    assert!(!result.is_valid);
    assert!(result.errors.iter().any(|e| e.code == "DP001" && e.severity == Severity::Error));
}

#[test]
fn test_dp001_empty_env_name() {
    let mut model = create_test_model();
    model.environments.push(Environment {
        id: "DEV".to_string(),
        name: "".to_string(),
        description: None,
    });
    let result = validate(&model);
    assert!(!result.is_valid);
    assert!(result.errors.iter().any(|e| e.code == "DP001" && e.severity == Severity::Error));
}

#[test]
fn test_dp002_empty_node_id() {
    let mut model = create_test_model();
    model.nodes.push(DeploymentNode {
        id: "".to_string(),
        name: "No ID".to_string(),
        description: None,
        node_type: NodeType::Server,
        environment: None,
        technology: None,
    });
    let result = validate(&model);
    assert!(!result.is_valid);
    assert!(result.errors.iter().any(|e| e.code == "DP002" && e.severity == Severity::Error));
}

#[test]
fn test_dp002_empty_node_name() {
    let mut model = create_test_model();
    model.nodes.push(DeploymentNode {
        id: "SOME_NODE".to_string(),
        name: "".to_string(),
        description: None,
        node_type: NodeType::Server,
        environment: None,
        technology: None,
    });
    let result = validate(&model);
    assert!(!result.is_valid);
    assert!(result.errors.iter().any(|e| e.code == "DP002" && e.severity == Severity::Error));
}

#[test]
fn test_dp003_empty_service_fields() {
    let mut model = create_test_model();
    model.services.push(DeployedService {
        id: "".to_string(),
        name: "".to_string(),
        description: None,
        delivery_package: "".to_string(),
        target_node: "".to_string(),
        replicas: None,
        port: None,
    });
    let result = validate(&model);
    assert!(!result.is_valid);
    assert!(result.errors.iter().any(|e| e.code == "DP003" && e.severity == Severity::Error));
}

#[test]
fn test_dp004_empty_link_fields() {
    let mut model = create_test_model();
    model.network_links.push(NetworkLink {
        id: "".to_string(),
        from_service: "".to_string(),
        to_service: "".to_string(),
        protocol: None,
        port: None,
        description: None,
    });
    let result = validate(&model);
    assert!(!result.is_valid);
    assert!(result.errors.iter().any(|e| e.code == "DP004" && e.severity == Severity::Error));
}

#[test]
fn test_dp005_duplicate_env_id() {
    let mut model = create_test_model();
    model.environments.push(Environment {
        id: "PROD".to_string(),
        name: "Another Prod".to_string(),
        description: None,
    });
    let result = validate(&model);
    assert!(!result.is_valid);
    assert!(result.errors.iter().any(|e| e.code == "DP005"));
}

#[test]
fn test_dp006_duplicate_node_id() {
    let mut model = create_test_model();
    model.nodes.push(DeploymentNode {
        id: "K8S".to_string(),
        name: "Another K8s".to_string(),
        description: None,
        node_type: NodeType::Kubernetes,
        environment: None,
        technology: None,
    });
    let result = validate(&model);
    assert!(!result.is_valid);
    assert!(result.errors.iter().any(|e| e.code == "DP006"));
}

#[test]
fn test_dp007_duplicate_service_id() {
    let mut model = create_test_model();
    model.services.push(DeployedService {
        id: "API_SVC".to_string(),
        name: "Another API".to_string(),
        description: None,
        delivery_package: "OTHER_IMG".to_string(),
        target_node: "K8S".to_string(),
        replicas: None,
        port: None,
    });
    let result = validate(&model);
    assert!(!result.is_valid);
    assert!(result.errors.iter().any(|e| e.code == "DP007"));
}

#[test]
fn test_dp008_duplicate_link_id() {
    let mut model = create_test_model();
    model.services.push(DeployedService {
        id: "DB_SVC".to_string(),
        name: "DB".to_string(),
        description: None,
        delivery_package: "DB_IMG".to_string(),
        target_node: "K8S".to_string(),
        replicas: None,
        port: None,
    });
    model.network_links.push(NetworkLink {
        id: "LINK_A".to_string(),
        from_service: "API_SVC".to_string(),
        to_service: "DB_SVC".to_string(),
        protocol: None,
        port: None,
        description: None,
    });
    model.network_links.push(NetworkLink {
        id: "LINK_A".to_string(),
        from_service: "DB_SVC".to_string(),
        to_service: "API_SVC".to_string(),
        protocol: None,
        port: None,
        description: None,
    });
    let result = validate(&model);
    assert!(!result.is_valid);
    assert!(result.errors.iter().any(|e| e.code == "DP008"));
}

#[test]
fn test_dp009_node_bad_env_reference() {
    let mut model = DeploymentModel::new("Test");
    model.nodes.push(DeploymentNode {
        id: "ORPHAN_NODE".to_string(),
        name: "Orphan".to_string(),
        description: None,
        node_type: NodeType::Server,
        environment: Some("NONEXISTENT".to_string()),
        technology: None,
    });
    let result = validate(&model);
    assert!(!result.is_valid);
    assert!(result.errors.iter().any(|e| e.code == "DP009"));
}

#[test]
fn test_dp010_service_bad_node_reference() {
    let mut model = DeploymentModel::new("Test");
    model.nodes.push(DeploymentNode {
        id: "REAL_NODE".to_string(),
        name: "Real".to_string(),
        description: None,
        node_type: NodeType::Server,
        environment: None,
        technology: None,
    });
    model.services.push(DeployedService {
        id: "SVC_A".to_string(),
        name: "Svc A".to_string(),
        description: None,
        delivery_package: "PKG".to_string(),
        target_node: "NONEXISTENT_NODE".to_string(),
        replicas: None,
        port: None,
    });
    let result = validate(&model);
    assert!(!result.is_valid);
    assert!(result.errors.iter().any(|e| e.code == "DP010"));
}

#[test]
fn test_dp011_link_bad_service_reference() {
    let mut model = create_test_model();
    model.network_links.push(NetworkLink {
        id: "BAD_LINK".to_string(),
        from_service: "NONEXISTENT_SVC".to_string(),
        to_service: "API_SVC".to_string(),
        protocol: None,
        port: None,
        description: None,
    });
    let result = validate(&model);
    assert!(!result.is_valid);
    assert!(result.errors.iter().any(|e| e.code == "DP011"));
}

#[test]
fn test_dp012_naming() {
    let mut model = DeploymentModel::new("Test");
    model.environments.push(Environment {
        id: "bad-env".to_string(),
        name: "Bad Env".to_string(),
        description: None,
    });
    model.nodes.push(DeploymentNode {
        id: "bad-node".to_string(),
        name: "Bad Node".to_string(),
        description: None,
        node_type: NodeType::Server,
        environment: None,
        technology: None,
    });
    model.services.push(DeployedService {
        id: "bad-svc".to_string(),
        name: "Bad Svc".to_string(),
        description: None,
        delivery_package: "PKG".to_string(),
        target_node: "bad-node".to_string(),
        replicas: None,
        port: None,
    });
    model.network_links.push(NetworkLink {
        id: "bad-link".to_string(),
        from_service: "bad-svc".to_string(),
        to_service: "bad-svc".to_string(),
        protocol: None,
        port: None,
        description: None,
    });
    let result = validate(&model);
    assert!(result.is_valid); // Warnings only
    assert!(result.errors.iter().any(|e| e.code == "DP012" && e.severity == Severity::Warning));
    // Should have DP012 warnings for all 4 element types
    assert_eq!(result.errors.iter().filter(|e| e.code == "DP012").count(), 4);
}

#[test]
fn test_dp013_no_nodes() {
    let model = DeploymentModel::new("Test");
    let result = validate(&model);
    assert!(result.is_valid); // Warning only
    assert!(result.errors.iter().any(|e| e.code == "DP013" && e.severity == Severity::Warning));
}
