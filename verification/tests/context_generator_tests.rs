use sys_design::generator::plantuml::context::generate_plantuml;
use sys_design::model::c4::context::{ContextDiagram, ActorType, Actor, Interface, InterfaceProvider, InterfaceUsage, Protocol};


#[test]
fn context_test_generate_plantuml() {
    let mut diagram = ContextDiagram::new("TEST_SYSTEM", "Test System");
    diagram.system.name = "Test System".to_string();
    diagram.system.description = Some("A test system".to_string());

    diagram.actors.push(Actor {
        id: "user".to_string(),
        name: "User".to_string(),
        description: Some("A test user".to_string()),
        actor_type: ActorType::External,
    });

    diagram.interfaces.push(Interface {
        id: "API".to_string(),
        name: "API".to_string(),
        description: Some("The API".to_string()),
        protocol: Protocol::Rest,
        endpoints: vec![],
    });

    diagram.interface_providers.push(InterfaceProvider {
        system: "TEST_SYSTEM".to_string(),
        interfaces: vec!["API".to_string()],
    });

    diagram.interface_usages.push(InterfaceUsage {
        actor: "user".to_string(),
        interfaces: vec!["API".to_string()],
    });

    let output = generate_plantuml(&diagram);

    assert!(output.contains("@startuml"));
    assert!(output.contains("@enduml"));
    assert!(output.contains("<<SYSTEM>>"));
    assert!(output.contains("rectangle \"<<SYSTEM>>\\nTest System\" as TEST_SYSTEM"));
    assert!(output.contains("actor \"<<EXTERNAL_ACTOR>>\\nUser\" as user"));
    assert!(output.contains("interface API"));
    assert!(output.contains("user ..> API"));
    assert!(output.contains("API --- TEST_SYSTEM"));
}
