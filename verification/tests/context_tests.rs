use sys_design::model::c4::context::{
    ContextDiagram, Actor, ActorType, ExternalSystem, Interface,
    InterfaceProvider, InterfaceUsage, Protocol,
};
use sys_design::store::Operations;
use sys_design::validator::{validate, Severity};

fn create_test_diagram() -> ContextDiagram {
    let mut diagram = ContextDiagram::new("TEST_SYSTEM", "Test System Diagram");

    diagram.actors.push(Actor {
        id: "user".to_string(),
        name: "User".to_string(),
        description: Some("A test user".to_string()),
        actor_type: ActorType::External,
    });

    diagram.actors.push(Actor {
        id: "admin".to_string(),
        name: "Admin".to_string(),
        description: Some("System administrator".to_string()),
        actor_type: ActorType::Internal,
    });

    diagram.external_systems.push(ExternalSystem {
        id: "PAYMENT_GATEWAY".to_string(),
        name: "Payment Gateway".to_string(),
        description: Some("External payment service".to_string()),
        technology: Some("REST API".to_string()),
    });

    diagram.interfaces.push(Interface {
        id: "USER_API".to_string(),
        name: "User API".to_string(),
        description: Some("API for user operations".to_string()),
        protocol: Protocol::Rest,
        endpoints: vec![],
    });

    diagram.interfaces.push(Interface {
        id: "PAYMENT_API".to_string(),
        name: "Payment API".to_string(),
        description: Some("API for payment operations".to_string()),
        protocol: Protocol::Rest,
        endpoints: vec![],
    });

    diagram.interface_providers.push(InterfaceProvider {
        system: "TEST_SYSTEM".to_string(),
        interfaces: vec!["USER_API".to_string()],
    });

    diagram.interface_providers.push(InterfaceProvider {
        system: "PAYMENT_GATEWAY".to_string(),
        interfaces: vec!["PAYMENT_API".to_string()],
    });

    diagram.interface_usages.push(InterfaceUsage {
        actor: "user".to_string(),
        interfaces: vec!["USER_API".to_string()],
    });

    diagram.interface_usages.push(InterfaceUsage {
        actor: "admin".to_string(),
        interfaces: vec!["USER_API".to_string()],
    });

    diagram.interface_usages.push(InterfaceUsage {
        actor: "TEST_SYSTEM".to_string(),
        interfaces: vec!["PAYMENT_API".to_string()],
    });

    diagram
}


#[test]
fn integration_tests_test_create_diagram() {
    let diagram = ContextDiagram::new("MY_SYSTEM", "My System");
    assert_eq!(diagram.system.id, "MY_SYSTEM");
    assert_eq!(diagram.system.name, "MY_SYSTEM");
    assert_eq!(diagram.metadata.title, "My System");
    assert!(diagram.actors.is_empty());
    assert!(diagram.external_systems.is_empty());
    assert!(diagram.interfaces.is_empty());
}

#[test]
fn integration_tests_test_derive_relationships() {
    let diagram = create_test_diagram();
    let relationships = diagram.derive_relationships();

    assert_eq!(relationships.len(), 3);

    // user -> TEST_SYSTEM via USER_API
    assert!(relationships.iter().any(|r|
        r.from == "user" && r.to == "TEST_SYSTEM" && r.via_interface == "USER_API"
    ));

    // admin -> TEST_SYSTEM via USER_API
    assert!(relationships.iter().any(|r|
        r.from == "admin" && r.to == "TEST_SYSTEM" && r.via_interface == "USER_API"
    ));

    // TEST_SYSTEM -> PAYMENT_GATEWAY via PAYMENT_API
    assert!(relationships.iter().any(|r|
        r.from == "TEST_SYSTEM" && r.to == "PAYMENT_GATEWAY" && r.via_interface == "PAYMENT_API"
    ));
}

#[test]
fn test_get_element_name() {
    let diagram = create_test_diagram();

    assert_eq!(diagram.get_element_name("TEST_SYSTEM"), Some("TEST_SYSTEM"));
    assert_eq!(diagram.get_element_name("user"), Some("User"));
    assert_eq!(diagram.get_element_name("PAYMENT_GATEWAY"), Some("Payment Gateway"));
    assert_eq!(diagram.get_element_name("nonexistent"), None);
}

#[test]
fn test_all_element_ids() {
    let diagram = create_test_diagram();
    let ids = diagram.all_element_ids();

    assert!(ids.contains(&"TEST_SYSTEM"));
    assert!(ids.contains(&"user"));
    assert!(ids.contains(&"admin"));
    assert!(ids.contains(&"PAYMENT_GATEWAY"));
}



#[test]
fn integration_tests_test_validate_valid_diagram() {
    let diagram = create_test_diagram();
    let result = validate(&diagram);

    assert!(result.is_valid);
    assert_eq!(result.error_count(), 0);
}

#[test]
fn integration_tests_test_validate_empty_id() {
    let diagram = ContextDiagram::new("", "Test");
    let result = validate(&diagram);

    assert!(!result.is_valid);
    assert!(result.errors.iter().any(|e|
        e.code == "C001" && e.severity == Severity::Error
    ));
}

#[test]
fn integration_tests_test_validate_naming_convention() {
    // Test that kebab-case system ID fails validation
    let diagram = ContextDiagram::new("test-system", "Test");
    let result = validate(&diagram);

    assert!(result.errors.iter().any(|e|
        e.code == "N001" && e.severity == Severity::Warning
    ));
}

#[test]
fn test_validate_orphan_interface() {
    let mut diagram = ContextDiagram::new("TEST", "Test");

    diagram.interfaces.push(Interface {
        id: "UNUSED_API".to_string(),
        name: "Unused API".to_string(),
        description: None,
        protocol: Protocol::Rest,
        endpoints: vec![],
    });

    let result = validate(&diagram);

    assert!(result.errors.iter().any(|e|
        e.code == "S002" && e.severity == Severity::Warning
    ));
}



#[test]
fn test_add_actor() {
    let mut diagram = ContextDiagram::new("TEST", "Test");

    Operations::add_actor(
        &mut diagram,
        "user",
        Some("Test User"),
        Some("A test user"),
        ActorType::External,
    ).unwrap();

    assert_eq!(diagram.actors.len(), 1);
    assert_eq!(diagram.actors[0].id, "user");
    assert_eq!(diagram.actors[0].name, "Test User");
}

#[test]
fn test_add_duplicate_actor() {
    let mut diagram = ContextDiagram::new("TEST", "Test");

    Operations::add_actor(
        &mut diagram,
        "user",
        Some("User 1"),
        None,
        ActorType::External,
    ).unwrap();

    let result = Operations::add_actor(
        &mut diagram,
        "user",
        Some("User 2"),
        None,
        ActorType::External,
    );

    assert!(result.is_err());
}

#[test]
fn test_add_external_system() {
    let mut diagram = ContextDiagram::new("TEST", "Test");

    Operations::add_external_system(
        &mut diagram,
        "DB",
        Some("Database"),
        Some("PostgreSQL database"),
        Some("PostgreSQL"),
    ).unwrap();

    assert_eq!(diagram.external_systems.len(), 1);
    assert_eq!(diagram.external_systems[0].id, "DB");
    assert_eq!(diagram.external_systems[0].technology, Some("PostgreSQL".to_string()));
}

#[test]
fn test_add_interface() {
    let mut diagram = ContextDiagram::new("TEST", "Test");

    Operations::add_interface(
        &mut diagram,
        "API",
        Some("REST API"),
        Some("Main API"),
        Protocol::Rest,
    ).unwrap();

    assert_eq!(diagram.interfaces.len(), 1);
    assert_eq!(diagram.interfaces[0].id, "API");
}

#[test]
fn test_remove_actor() {
    let mut diagram = create_test_diagram();

    Operations::remove_actor(&mut diagram, "user").unwrap();

    assert_eq!(diagram.actors.len(), 1);
    assert_eq!(diagram.actors[0].id, "admin");

    assert!(!diagram.interface_usages.iter().any(|u| u.actor == "user"));
}

#[test]
fn test_naming_upper_snake_ids() {
    let mut diagram = ContextDiagram::new("SHOP_SYSTEM", "Shop");
    diagram.actors.push(Actor {
        id: "CUSTOMER".to_string(),
        name: "Customer".to_string(),
        description: None,
        actor_type: ActorType::External,
    });
    diagram.actors.push(Actor {
        id: "guest-user".to_string(),
        name: "Guest".to_string(),
        description: None,
        actor_type: ActorType::External,
    });
    let result = validate(&diagram);
    let n001: Vec<_> = result.errors.iter().filter(|e| e.code == "N001").collect();
    assert_eq!(n001.len(), 1);
    assert_eq!(n001[0].location, Some("actors.id=guest-user".to_string()));
    assert_eq!(n001[0].severity, Severity::Warning);
}

#[test]
fn test_element_ids_stay_distinct_across_edits() {
    let mut d = ContextDiagram::new("SYS", "Sys");
    Operations::add_actor(&mut d, "A", None, None, ActorType::Internal).unwrap();
    Operations::add_external_system(&mut d, "E", None, None, None).unwrap();
    assert!(Operations::add_external_system(&mut d, "A", None, None, None).is_err());
    assert!(Operations::add_actor(&mut d, "E", None, None, ActorType::Internal).is_err());
    Operations::remove_actor(&mut d, "A").unwrap();
    Operations::add_external_system(&mut d, "A", None, None, None).unwrap();
    let ids = d.all_element_ids();
    assert_eq!(ids, vec!["SYS", "E", "A"]);
}
