use sys_design::cli::args::LogicAddCommand;
use sys_design::cli::commands::logic_model::apply_add;
use sys_design::model::c4::context::ContextDiagram;
use sys_design::model::logic::concept::LogicConceptDiagram;
use sys_design::model::logic::concept_model::LogicArchitectureConceptModel;
use sys_design::model::workspace::Workspace;
use sys_design::store::LogicOperations;
use sys_design::utils::error::AppError;

fn concept(types: &[&str]) -> LogicArchitectureConceptModel {
    let mut m = LogicArchitectureConceptModel::new("Concept");
    for t in types {
        m.add_element_type(t);
    }
    m
}

fn workspace_with_view(types: &[&str]) -> Workspace {
    let mut w = Workspace::new("W");
    w.logic_view = Some(LogicConceptDiagram::new("SYS", "SYS Logic Concept Diagram"));
    w.logic_architecture_concept_model = Some(concept(types));
    w
}

fn element(type_label: &str, id: &str) -> LogicAddCommand {
    LogicAddCommand::Element { type_label: type_label.to_string(), id: id.to_string(), name: None, desc: None }
}

#[test]
fn logic_add_system_starts_a_new_workspace() {
    let cmd = LogicAddCommand::System { id: "SHOP".to_string(), name: None, desc: Some("Shop".to_string()) };
    let w = apply_add(None, cmd).unwrap();
    assert_eq!(w.metadata.title, "SHOP Logic Concept Diagram");
    assert!(w.metadata.updated_at >= 0);
    let d = w.logic_view.unwrap();
    assert_eq!(d.metadata.title, "SHOP Logic Concept Diagram");
    assert_eq!(d.system.id, "SHOP");
    assert_eq!(d.system.name, "SHOP");
    assert_eq!(d.system.description.as_deref(), Some("Shop"));
}

#[test]
fn logic_add_system_updates_the_existing_view() {
    let w = workspace_with_view(&[]);
    let cmd = LogicAddCommand::System { id: "NEW".to_string(), name: Some("New".to_string()), desc: None };
    let d = apply_add(Some(w), cmd).unwrap().logic_view.unwrap();
    assert_eq!(d.system.id, "NEW");
    assert_eq!(d.system.name, "New");
    assert_eq!(d.metadata.title, "SYS Logic Concept Diagram");
}

#[test]
fn logic_add_takes_the_system_from_the_context_diagram() {
    let mut w = Workspace::new("W");
    w.context_diagram = Some(ContextDiagram::new("CTX_SYS", "Context"));
    w.logic_architecture_concept_model = Some(concept(&["subsystem"]));
    let cmd = LogicAddCommand::Subsystem { id: "SUB".to_string(), name: None, desc: None };
    let d = apply_add(Some(w), cmd).unwrap().logic_view.unwrap();
    assert_eq!(d.system.id, "CTX_SYS");
    assert_eq!(d.metadata.title, "CTX_SYS Logic Concept Diagram");
    assert_eq!(d.system.subsystems.len(), 1);
    assert_eq!(d.system.subsystems[0].id, "SUB");
}

#[test]
fn logic_add_without_a_view_is_refused() {
    let mut w = Workspace::new("W");
    w.logic_architecture_concept_model = Some(concept(&["subsystem"]));
    let cmd = LogicAddCommand::Subsystem { id: "SUB".to_string(), name: None, desc: None };
    match apply_add(Some(w), cmd) {
        Err(AppError::InvalidOperation(m)) => {
            assert_eq!(m, "Logic view does not exist in workspace. Create it first with 'add system' command.")
        }
        _ => panic!("expected an invalid operation"),
    }
}

#[test]
fn logic_add_needs_the_concept_model() {
    let mut w = workspace_with_view(&[]);
    w.logic_architecture_concept_model = None;
    let cmd = LogicAddCommand::Module { id: "M".to_string(), name: None, desc: None };
    match apply_add(Some(w), cmd) {
        Err(AppError::InvalidOperation(m)) => {
            assert_eq!(m, "Logic Architecture Concept Model not initialized. Run 'concept-model init' first.")
        }
        _ => panic!("expected an invalid operation"),
    }
}

#[test]
fn logic_add_refuses_an_undefined_type() {
    let w = workspace_with_view(&["module"]);
    let cmd = LogicAddCommand::Subsystem { id: "SUB".to_string(), name: None, desc: None };
    match apply_add(Some(w), cmd) {
        Err(AppError::InvalidOperation(m)) => assert_eq!(
            m,
            "Element type 'SUBSYSTEM' is not defined in the concept model. Add it first with 'concept-model add element SUBSYSTEM'"
        ),
        _ => panic!("expected an invalid operation"),
    }
}

#[test]
fn logic_add_component_to_a_subsystem() {
    let mut w = workspace_with_view(&["subsystem", "component"]);
    let d = w.logic_view.as_mut().unwrap();
    LogicOperations::add_subsystem(d, "CTRL_SUBSYSTEM", Some("Controller"), None).unwrap();
    let cmd = LogicAddCommand::Component {
        id: "CTRL".to_string(),
        name: Some("Controller".to_string()),
        desc: None,
        subsystem: Some("CTRL_SUBSYSTEM".to_string()),
    };
    let d = apply_add(Some(w), cmd).unwrap().logic_view.unwrap();
    assert_eq!(d.system.components.len(), 0);
    assert_eq!(d.system.subsystems[0].components.len(), 1);
    assert_eq!(d.system.subsystems[0].components[0].id, "CTRL");
    assert_eq!(d.system.subsystems[0].components[0].name, "Controller");
}

#[test]
fn logic_add_component_to_a_missing_subsystem() {
    let w = workspace_with_view(&["component"]);
    let cmd = LogicAddCommand::Component {
        id: "CTRL".to_string(),
        name: None,
        desc: None,
        subsystem: Some("NOPE".to_string()),
    };
    match apply_add(Some(w), cmd) {
        Err(AppError::ElementNotFound(m)) => assert_eq!(m, "subsystem: NOPE"),
        _ => panic!("expected a missing subsystem"),
    }
}

#[test]
fn logic_add_component_to_a_subsystem_keeps_ids_unique() {
    let mut d = LogicConceptDiagram::new("SYS", "t");
    LogicOperations::add_subsystem(&mut d, "SUB", None, None).unwrap();
    match LogicOperations::add_component_to_subsystem(&mut d, "SUB", "SUB", None, None) {
        Err(AppError::ElementAlreadyExists(m)) => assert_eq!(m, "element with id: SUB"),
        _ => panic!("expected a duplicate"),
    }
    assert_eq!(d.system.subsystems[0].components.len(), 0);
}

#[test]
fn logic_add_element_goes_by_its_upper_cased_type() {
    let w = workspace_with_view(&["component"]);
    let d = apply_add(Some(w), element("component", "PAY")).unwrap().logic_view.unwrap();
    assert_eq!(d.system.components.len(), 1);
    assert_eq!(d.system.components[0].id, "PAY");
    assert_eq!(d.system.components[0].name, "PAY");
}

#[test]
fn logic_add_element_of_an_unknown_kind() {
    let w = workspace_with_view(&["widget"]);
    match apply_add(Some(w), element("widget", "W1")) {
        Err(AppError::InvalidOperation(m)) => assert_eq!(m, "Unknown element type: widget"),
        _ => panic!("expected an unknown type"),
    }
}

#[test]
fn logic_add_interface_needs_no_concept_model() {
    let mut w = workspace_with_view(&[]);
    w.logic_architecture_concept_model = None;
    let cmd = LogicAddCommand::Interface { id: "ITF".to_string(), name: Some("Api".to_string()), desc: None };
    let d = apply_add(Some(w), cmd).unwrap().logic_view.unwrap();
    assert_eq!(d.system.interfaces.len(), 1);
    assert_eq!(d.system.interfaces[0].name, "Api");
}

#[test]
fn logic_edit_renews_the_modification_time() {
    let mut w = workspace_with_view(&["module"]);
    w.metadata.updated_at = -7;
    w.logic_view.as_mut().unwrap().metadata.updated_at = -7;
    let cmd = LogicAddCommand::Module { id: "M".to_string(), name: None, desc: None };
    let w = apply_add(Some(w), cmd).unwrap();
    assert!(w.metadata.updated_at >= 0);
    assert!(w.logic_view.unwrap().metadata.updated_at >= 0);
}

#[test]
fn touch_renews_a_stale_modification_time() {
    let mut d = LogicConceptDiagram::new("SYS", "t");
    d.metadata.updated_at = -1;
    d.touch();
    assert!(d.metadata.updated_at >= 0);
    let mut w = Workspace::new("W");
    w.metadata.updated_at = -1;
    w.touch();
    assert!(w.metadata.updated_at >= 0);
}

#[test]
fn logic_component_in_a_subsystem_is_known_afterwards() {
    let mut d = LogicConceptDiagram::new("SYS", "t");
    LogicOperations::add_subsystem(&mut d, "SUB", None, None).unwrap();
    LogicOperations::add_component_to_subsystem(&mut d, "SUB", "C1", None, None).unwrap();
    match LogicOperations::add_component(&mut d, "C1", None, None) {
        Err(AppError::ElementAlreadyExists(m)) => assert_eq!(m, "element with id: C1"),
        _ => panic!("expected a duplicate"),
    }
    match LogicOperations::add_module_to_system(&mut d, "C1", None, None) {
        Err(AppError::ElementAlreadyExists(m)) => assert_eq!(m, "element with id: C1"),
        _ => panic!("expected a duplicate"),
    }
    assert_eq!(d.system.subsystems[0].components.len(), 1);
    assert_eq!(d.system.components.len(), 0);
}
