use sys_design::store::DeploymentOperations;
use sys_design::model::deployment::{DeploymentModel, NodeType};


fn create_test_model() -> DeploymentModel {
    DeploymentModel::new("Test Deployment Model")
}

#[test]
fn test_add_environment() {
    let mut model = create_test_model();
    DeploymentOperations::add_environment(&mut model, "PROD", Some("Production"), None).unwrap();
    assert_eq!(model.environments.len(), 1);
    assert_eq!(model.environments[0].id, "PROD");
}

#[test]
fn test_add_duplicate_environment() {
    let mut model = create_test_model();
    DeploymentOperations::add_environment(&mut model, "PROD", None, None).unwrap();
    let result = DeploymentOperations::add_environment(&mut model, "PROD", None, None);
    assert!(result.is_err());
}

#[test]
fn test_add_node() {
    let mut model = create_test_model();
    DeploymentOperations::add_environment(&mut model, "PROD", None, None).unwrap();
    DeploymentOperations::add_node(
        &mut model,
        "K8S",
        Some("K8s Cluster"),
        None,
        Some(NodeType::Kubernetes),
        Some("PROD"),
        Some("k3s"),
    )
    .unwrap();
    assert_eq!(model.nodes.len(), 1);
    assert_eq!(model.nodes[0].environment, Some("PROD".to_string()));
}

#[test]
fn test_add_node_invalid_environment() {
    let mut model = create_test_model();
    let result = DeploymentOperations::add_node(
        &mut model, "K8S", None, None, None, Some("NONEXIST"), None,
    );
    assert!(result.is_err());
}

#[test]
fn test_add_service() {
    let mut model = create_test_model();
    DeploymentOperations::add_node(&mut model, "WEB", None, None, None, None, None).unwrap();
    DeploymentOperations::add_service(
        &mut model,
        "API_SVC",
        Some("API"),
        None,
        "CORE_IMG",
        "WEB",
        Some(3),
        Some(8080),
    )
    .unwrap();
    assert_eq!(model.services.len(), 1);
    assert_eq!(model.services[0].replicas, Some(3));
}

#[test]
fn test_add_service_invalid_node() {
    let mut model = create_test_model();
    let result = DeploymentOperations::add_service(
        &mut model, "SVC", None, None, "PKG", "NONEXIST", None, None,
    );
    assert!(result.is_err());
}

#[test]
fn test_add_network_link() {
    let mut model = create_test_model();
    DeploymentOperations::add_node(&mut model, "WEB", None, None, None, None, None).unwrap();
    DeploymentOperations::add_service(&mut model, "SVC_A", None, None, "PKG_A", "WEB", None, None).unwrap();
    DeploymentOperations::add_service(&mut model, "SVC_B", None, None, "PKG_B", "WEB", None, None).unwrap();
    DeploymentOperations::add_network_link(
        &mut model, "LINK1", "SVC_A", "SVC_B", Some("http"), Some(80), None,
    )
    .unwrap();
    assert_eq!(model.network_links.len(), 1);
}

#[test]
fn test_add_network_link_invalid_service() {
    let mut model = create_test_model();
    DeploymentOperations::add_node(&mut model, "WEB", None, None, None, None, None).unwrap();
    DeploymentOperations::add_service(&mut model, "SVC_A", None, None, "PKG_A", "WEB", None, None).unwrap();
    let result = DeploymentOperations::add_network_link(
        &mut model, "LINK1", "SVC_A", "NONEXIST", None, None, None,
    );
    assert!(result.is_err());
}

#[test]
fn test_remove_environment_with_nodes_blocked() {
    let mut model = create_test_model();
    DeploymentOperations::add_environment(&mut model, "PROD", None, None).unwrap();
    DeploymentOperations::add_node(&mut model, "K8S", None, None, None, Some("PROD"), None).unwrap();
    let result = DeploymentOperations::remove_environment(&mut model, "PROD");
    assert!(result.is_err());
}

#[test]
fn test_remove_node_with_services_blocked() {
    let mut model = create_test_model();
    DeploymentOperations::add_node(&mut model, "WEB", None, None, None, None, None).unwrap();
    DeploymentOperations::add_service(&mut model, "SVC", None, None, "PKG", "WEB", None, None).unwrap();
    let result = DeploymentOperations::remove_node(&mut model, "WEB");
    assert!(result.is_err());
}

#[test]
fn test_remove_service_cascades_links() {
    let mut model = create_test_model();
    DeploymentOperations::add_node(&mut model, "WEB", None, None, None, None, None).unwrap();
    DeploymentOperations::add_service(&mut model, "SVC_A", None, None, "PKG_A", "WEB", None, None).unwrap();
    DeploymentOperations::add_service(&mut model, "SVC_B", None, None, "PKG_B", "WEB", None, None).unwrap();
    DeploymentOperations::add_network_link(&mut model, "LINK", "SVC_A", "SVC_B", None, None, None).unwrap();

    DeploymentOperations::remove_service(&mut model, "SVC_A").unwrap();
    assert_eq!(model.services.len(), 1);
    assert_eq!(model.network_links.len(), 0); // link cascaded
}

#[test]
fn test_remove_environment() {
    let mut model = create_test_model();
    DeploymentOperations::add_environment(&mut model, "PROD", None, None).unwrap();
    DeploymentOperations::add_environment(&mut model, "DEV", None, None).unwrap();
    DeploymentOperations::remove_environment(&mut model, "PROD").unwrap();
    assert_eq!(model.environments.len(), 1);
    assert_eq!(model.environments[0].id, "DEV");
}

#[test]
fn test_remove_network_link() {
    let mut model = create_test_model();
    DeploymentOperations::add_node(&mut model, "WEB", None, None, None, None, None).unwrap();
    DeploymentOperations::add_service(&mut model, "SVC_A", None, None, "PKG_A", "WEB", None, None).unwrap();
    DeploymentOperations::add_service(&mut model, "SVC_B", None, None, "PKG_B", "WEB", None, None).unwrap();
    DeploymentOperations::add_network_link(&mut model, "LINK", "SVC_A", "SVC_B", None, None, None).unwrap();
    DeploymentOperations::remove_network_link(&mut model, "LINK").unwrap();
    assert!(model.network_links.is_empty());
}

#[test]
fn test_add_then_remove_environment_restores_model() {
    let mut model = create_test_model();
    DeploymentOperations::add_environment(&mut model, "PROD", None, None).unwrap();
    DeploymentOperations::add_node(&mut model, "N1", None, None, None, Some("PROD"), None).unwrap();
    DeploymentOperations::add_environment(&mut model, "STAGE", Some("Staging"), None).unwrap();
    DeploymentOperations::remove_environment(&mut model, "STAGE").unwrap();
    let ids: Vec<&str> = model.environments.iter().map(|e| e.id.as_str()).collect();
    assert_eq!(ids, vec!["PROD"]);
    assert_eq!(model.nodes.len(), 1);
}
