use sys_design::model::logic::concept::LogicConceptDiagram;
use sys_design::store::LogicOperations;
use sys_design::utils::error::AppError;
use sys_design::cli::commands::logic_model::{check_containment_allowed, check_element_type_allowed, element_kind, ElementKind};
use sys_design::model::logic::concept_model::LogicArchitectureConceptModel;
use sys_design::model::workspace::Workspace;

fn diagram() -> LogicConceptDiagram {
    LogicConceptDiagram::new("TEST_SYS", "Test System")
}

fn message(r: Result<(), AppError>) -> String {
    match r {
        Err(AppError::ElementNotFound(m)) => format!("not found: {}", m),
        Err(AppError::ElementAlreadyExists(m)) => format!("exists: {}", m),
        Err(AppError::InvalidOperation(m)) => format!("invalid: {}", m),
        Err(_) => "other".to_string(),
        Ok(()) => "ok".to_string(),
    }
}

#[test]
fn test_add_component() {
    let mut diagram = LogicConceptDiagram::new("TEST_SYS", "Test System");
    LogicOperations::add_component(&mut diagram, "COMP_1", Some("Component 1"), None).unwrap();
    assert_eq!(diagram.system.components.len(), 1);
    assert_eq!(diagram.system.components[0].id, "COMP_1");
}

#[test]
fn test_add_duplicate_component() {
    let mut diagram = LogicConceptDiagram::new("TEST_SYS", "Test System");
    LogicOperations::add_component(&mut diagram, "COMP_1", None, None).unwrap();
    let result = LogicOperations::add_component(&mut diagram, "COMP_1", None, None);
    assert!(result.is_err());
}

#[test]
fn test_add_module_and_nested() {
    let mut diagram = LogicConceptDiagram::new("TEST_SYS", "Test System");
    LogicOperations::add_component(&mut diagram, "COMP", None, None).unwrap();
    LogicOperations::add_module(&mut diagram, "COMP", "MOD_1", None, None).unwrap();
    LogicOperations::add_nested_module(&mut diagram, "COMP", "MOD_1", "MOD_2", None, None).unwrap();

    assert_eq!(diagram.system.components[0].modules.len(), 1);
    assert_eq!(diagram.system.components[0].modules[0].modules.len(), 1);
}

#[test]
fn test_add_interface_and_dependency() {
    let mut diagram = LogicConceptDiagram::new("TEST_SYS", "Test System");
    LogicOperations::add_component(&mut diagram, "COMP", None, None).unwrap();
    LogicOperations::add_module(&mut diagram, "COMP", "MOD_1", None, None).unwrap();
    LogicOperations::add_interface(&mut diagram, "COMP", "MOD_1", "ITF_API", Some("API Interface"), None).unwrap();

    assert_eq!(diagram.system.components[0].modules[0].interfaces.len(), 1);
}

#[test]
fn logic_ops_name_defaults_to_id() {
    let mut d = diagram();
    LogicOperations::add_subsystem(&mut d, "SUB", None, Some("desc")).unwrap();
    assert_eq!(d.system.subsystems[0].name, "SUB");
    assert_eq!(d.system.subsystems[0].description.as_deref(), Some("desc"));
}

#[test]
fn logic_ops_system_id_is_taken() {
    let mut d = diagram();
    assert_eq!(message(LogicOperations::add_component(&mut d, "TEST_SYS", None, None)), "exists: element with id: TEST_SYS");
    assert!(d.system.components.is_empty());
}

#[test]
fn logic_ops_remove_component_and_subsystem() {
    let mut d = diagram();
    LogicOperations::add_component(&mut d, "A", None, None).unwrap();
    LogicOperations::add_component(&mut d, "B", None, None).unwrap();
    LogicOperations::remove_component(&mut d, "A").unwrap();
    assert_eq!(d.system.components.len(), 1);
    assert_eq!(d.system.components[0].id, "B");
    assert_eq!(message(LogicOperations::remove_component(&mut d, "A")), "not found: component: A");
    assert_eq!(message(LogicOperations::remove_subsystem(&mut d, "S")), "not found: subsystem: S");
    LogicOperations::add_subsystem(&mut d, "S", None, None).unwrap();
    LogicOperations::remove_subsystem(&mut d, "S").unwrap();
    assert!(d.system.subsystems.is_empty());
}

#[test]
fn logic_ops_module_errors() {
    let mut d = diagram();
    assert_eq!(message(LogicOperations::add_module(&mut d, "NOPE", "M", None, None)), "not found: component: NOPE");
    LogicOperations::add_component(&mut d, "C", None, None).unwrap();
    assert_eq!(
        message(LogicOperations::add_nested_module(&mut d, "C", "P", "M", None, None)),
        "not found: parent module: P"
    );
    assert_eq!(message(LogicOperations::remove_module(&mut d, "C", "M")), "not found: module: M");
    LogicOperations::add_module(&mut d, "C", "M", Some("Mod"), None).unwrap();
    assert_eq!(d.system.components[0].modules[0].name, "Mod");
    LogicOperations::remove_module(&mut d, "C", "M").unwrap();
    assert!(d.system.components[0].modules.is_empty());
}

#[test]
fn logic_ops_interfaces_expose_and_remove() {
    let mut d = diagram();
    LogicOperations::add_component(&mut d, "C", None, None).unwrap();
    LogicOperations::add_module(&mut d, "C", "M", None, None).unwrap();
    LogicOperations::add_nested_module(&mut d, "C", "M", "N", None, None).unwrap();
    LogicOperations::add_interface(&mut d, "C", "N", "ITF_N", None, None).unwrap();
    assert_eq!(d.system.components[0].modules[0].modules[0].interfaces[0].id, "ITF_N");
    assert_eq!(
        message(LogicOperations::add_standalone_interface(&mut d, "ITF_N", None, None)),
        "exists: interface with id: ITF_N"
    );
    assert_eq!(
        message(LogicOperations::expose_interface(&mut d, "C", "ITF_X")),
        "not found: interface ITF_X in component C"
    );
    LogicOperations::expose_interface(&mut d, "C", "ITF_N").unwrap();
    LogicOperations::expose_interface(&mut d, "C", "ITF_N").unwrap();
    assert_eq!(d.system.components[0].exposed_interfaces, vec!["ITF_N".to_string()]);
    assert_eq!(message(LogicOperations::remove_interface(&mut d, "C", "N", "ITF_X")), "not found: interface: ITF_X");
    LogicOperations::remove_interface(&mut d, "C", "N", "ITF_N").unwrap();
    assert!(d.system.components[0].modules[0].modules[0].interfaces.is_empty());
    assert!(d.system.components[0].exposed_interfaces.is_empty());
}

#[test]
fn logic_ops_dependencies() {
    let mut d = diagram();
    LogicOperations::add_component(&mut d, "C", None, None).unwrap();
    LogicOperations::add_module(&mut d, "C", "M", None, None).unwrap();
    assert_eq!(message(LogicOperations::add_dependency(&mut d, "C", "M", "ITF_A")), "not found: interface: ITF_A");
    LogicOperations::add_standalone_interface(&mut d, "ITF_A", None, None).unwrap();
    LogicOperations::add_dependency(&mut d, "C", "M", "ITF_A").unwrap();
    LogicOperations::add_dependency(&mut d, "C", "M", "ITF_A").unwrap();
    assert_eq!(d.system.components[0].modules[0].dependencies, vec!["ITF_A".to_string()]);
    LogicOperations::remove_dependency(&mut d, "C", "M", "ITF_A").unwrap();
    assert!(d.system.components[0].modules[0].dependencies.is_empty());
    LogicOperations::add_module_to_system(&mut d, "TOP", None, None).unwrap();
    LogicOperations::add_dependency_simple(&mut d, "TOP", "ITF_A").unwrap();
    assert_eq!(d.system.modules[0].dependencies, vec!["ITF_A".to_string()]);
    LogicOperations::add_dependency_simple(&mut d, "M", "ITF_A").unwrap();
    assert_eq!(d.system.components[0].modules[0].dependencies, vec!["ITF_A".to_string()]);
    assert_eq!(message(LogicOperations::add_dependency_simple(&mut d, "X", "ITF_A")), "not found: module: X");
}

#[test]
fn logic_ops_submodule_is_recorded() {
    let mut d = diagram();
    LogicOperations::add_submodule(&mut d, "SUB_M", None, None).unwrap();
    assert_eq!(d.system.modules[0].id, "SUB_M");
    assert_eq!(d.submodule_ids, vec!["SUB_M".to_string()]);
}

#[test]
fn logic_ops_relations() {
    let mut d = diagram();
    LogicOperations::add_component(&mut d, "C", None, None).unwrap();
    assert_eq!(message(LogicOperations::add_provide_relation(&mut d, "X", "ITF")), "not found: element: X");
    assert_eq!(message(LogicOperations::add_provide_relation(&mut d, "C", "ITF")), "not found: interface: ITF");
    LogicOperations::add_standalone_interface(&mut d, "ITF", None, None).unwrap();
    LogicOperations::add_provide_relation(&mut d, "C", "ITF").unwrap();
    assert_eq!(
        message(LogicOperations::add_provide_relation(&mut d, "C", "ITF")),
        "exists: provide relation: C -> ITF"
    );
    assert_eq!(d.provide_relations.len(), 1);
    LogicOperations::add_element_containment(&mut d, "TEST_SYS", "C").unwrap();
    assert_eq!(
        message(LogicOperations::add_element_containment(&mut d, "TEST_SYS", "C")),
        "exists: containment: TEST_SYS -> C"
    );
    assert_eq!(message(LogicOperations::add_element_containment(&mut d, "TEST_SYS", "Q")), "not found: element: Q");
    assert_eq!(
        message(LogicOperations::add_element_containment_with_context(&mut d, "P", "Q", &[])),
        "invalid: At least one of parent 'P' or child 'Q' must exist in logic view"
    );
    LogicOperations::add_element_containment_with_context(&mut d, "EXT", "C", &[]).unwrap();
    assert_eq!(d.containments.len(), 2);
    assert_eq!(d.containments[1].parent_id, "EXT");
}

#[test]
fn logic_model_element_type_checks() {
    let mut w = Workspace::new("W");
    assert_eq!(
        message(check_element_type_allowed(&w, "SUBSYSTEM")),
        "invalid: Logic Architecture Concept Model not initialized. Run 'concept-model init' first."
    );
    let mut m = LogicArchitectureConceptModel::new("M");
    m.add_element_type("subsystem");
    w.logic_architecture_concept_model = Some(m);
    assert_eq!(message(check_element_type_allowed(&w, "SUBSYSTEM")), "ok");
    assert_eq!(
        message(check_element_type_allowed(&w, "COMPONENT")),
        "invalid: Element type 'COMPONENT' is not defined in the concept model. Add it first with 'concept-model add element COMPONENT'"
    );
}

#[test]
fn logic_model_containment_checks() {
    let mut d = diagram();
    LogicOperations::add_component(&mut d, "C", None, None).unwrap();
    LogicOperations::add_module(&mut d, "C", "M", None, None).unwrap();
    LogicOperations::add_nested_module(&mut d, "C", "M", "N", None, None).unwrap();
    assert_eq!(element_kind(&d, "TEST_SYS"), Some(ElementKind::System));
    assert_eq!(element_kind(&d, "C"), Some(ElementKind::Component));
    assert_eq!(element_kind(&d, "M"), Some(ElementKind::Module));
    assert_eq!(element_kind(&d, "N"), Some(ElementKind::Submodule));
    assert_eq!(element_kind(&d, "Z"), None);
    let mut m = LogicArchitectureConceptModel::new("M");
    m.add_containment("SYSTEM", "COMPONENT");
    let mut w = Workspace::new("W");
    w.logic_architecture_concept_model = Some(m);
    assert_eq!(message(check_containment_allowed(&w, "A", "B")), "ok");
    w.logic_view = Some(d);
    assert_eq!(message(check_containment_allowed(&w, "TEST_SYS", "C")), "ok");
    assert_eq!(
        message(check_containment_allowed(&w, "C", "M")),
        "invalid: Concept model does not allow 'COMPONENT' to contain 'MODULE'. Add containment with 'concept-model add containment component module'"
    );
    assert_eq!(message(check_containment_allowed(&w, "X", "C")), "not found: parent element: X");
    assert_eq!(message(check_containment_allowed(&w, "C", "X")), "not found: child element: X");
}

#[test]
fn logic_ops_add_then_remove_restores() {
    let mut d = diagram();
    LogicOperations::add_component(&mut d, "KEEP", None, None).unwrap();
    LogicOperations::add_subsystem(&mut d, "SUB", None, None).unwrap();
    LogicOperations::add_component(&mut d, "TEMP", None, None).unwrap();
    LogicOperations::remove_component(&mut d, "TEMP").unwrap();
    let ids: Vec<&str> = d.system.components.iter().map(|c| c.id.as_str()).collect();
    assert_eq!(ids, vec!["KEEP"]);
    LogicOperations::add_subsystem(&mut d, "SUB2", None, None).unwrap();
    LogicOperations::remove_subsystem(&mut d, "SUB2").unwrap();
    let subs: Vec<&str> = d.system.subsystems.iter().map(|s| s.id.as_str()).collect();
    assert_eq!(subs, vec!["SUB"]);
}

#[test]
fn logic_ops_added_elements_are_known() {
    let mut d = diagram();
    LogicOperations::add_component(&mut d, "C", Some("Comp"), None).unwrap();
    LogicOperations::add_module_to_system(&mut d, "M", None, None).unwrap();
    assert!(d.all_element_ids().contains(&"C"));
    assert!(d.all_element_ids().contains(&"M"));
    assert_eq!(d.get_element_name("C"), Some("Comp"));
    LogicOperations::add_standalone_interface(&mut d, "ITF", None, None).unwrap();
    assert!(LogicOperations::add_standalone_interface(&mut d, "ITF", None, None).is_err());
}

#[test]
fn logic_ops_element_ids_stay_distinct() {
    let mut d = diagram();
    LogicOperations::add_component(&mut d, "A", None, None).unwrap();
    LogicOperations::add_subsystem(&mut d, "B", None, None).unwrap();
    LogicOperations::add_module_to_system(&mut d, "M", None, None).unwrap();
    assert!(LogicOperations::add_subsystem(&mut d, "A", None, None).is_err());
    assert!(LogicOperations::add_submodule(&mut d, "B", None, None).is_err());
    assert!(LogicOperations::add_component(&mut d, "M", None, None).is_err());
    let mut ids = d.all_element_ids();
    let n = ids.len();
    ids.sort();
    ids.dedup();
    assert_eq!(ids.len(), n);
}
