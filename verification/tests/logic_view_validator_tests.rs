use sys_design::model::logic::concept::{Component, ElementContainment, LogicConceptDiagram, Module};
use sys_design::model::logic::concept_model::LogicArchitectureConceptModel;
use sys_design::model::workspace::Workspace;
use sys_design::store::LogicOperations;
use sys_design::validator::logic_concept::validate_hierarchy_conformance;
use sys_design::validator::validate_logic_concept;
use sys_design::validator::result::{Severity, ValidationResult};
use sys_design::validator::workspace::{validate_from_workspace, DiagramType};
use sys_design::utils::error::AppError;

#[test]
fn logic_concept_test_validate_valid_diagram() {
    let diagram = LogicConceptDiagram::new("MY_SYSTEM", "My System");
    let result = validate_logic_concept(&diagram);
    assert!(result.is_valid);
}

#[test]
fn logic_concept_test_validate_empty_id() {
    let diagram = LogicConceptDiagram::new("", "Empty ID");
    let result = validate_logic_concept(&diagram);

    assert!(!result.is_valid);
    assert!(result.errors.iter().any(|e| e.code == "C001"));
}

#[test]
fn logic_concept_test_validate_naming_convention() {
    let diagram = LogicConceptDiagram::new("my-system", "Bad Name");
    let result = validate_logic_concept(&diagram);

    assert!(result.errors.iter().any(|e| e.code == "N001"));
}

fn module(id: &str, nested: Vec<Module>) -> Module {
    Module {
        id: id.to_string(),
        name: id.to_string(),
        description: None,
        interfaces: vec![],
        dependencies: vec!["bad-dep".to_string()],
        modules: nested,
    }
}

#[test]
fn logic_view_paths_of_nested_findings() {
    let mut d = LogicConceptDiagram::new("SYS", "S");
    d.system.components.push(Component {
        id: "COMP".to_string(),
        name: "C".to_string(),
        description: None,
        modules: vec![module("M1", vec![module("m2", vec![])])],
        exposed_interfaces: vec!["".to_string()],
    });
    let r = validate_logic_concept(&d);
    let found: Vec<(String, String)> = r
        .errors
        .iter()
        .map(|e| (e.code.clone(), e.location.clone().unwrap_or_default()))
        .collect();
    assert_eq!(
        found,
        vec![
            ("N001".to_string(), "system.components.COMP.modules.M1.dependencies".to_string()),
            ("N001".to_string(), "system.components.COMP.modules.M1.modules.m2".to_string()),
            ("N001".to_string(), "system.components.COMP.modules.M1.modules.m2.dependencies".to_string()),
            ("C001".to_string(), "system.components.COMP.exposed_interfaces".to_string()),
        ]
    );
    assert!(!r.is_valid);
}

fn concept_with(pairs: &[(&str, &str)]) -> LogicArchitectureConceptModel {
    let mut m = LogicArchitectureConceptModel::new("Rules");
    for (p, c) in pairs {
        m.add_containment(p, c);
    }
    m
}

#[test]
fn logic_view_hierarchy_conformance_findings() {
    let mut d = LogicConceptDiagram::new("SYS", "S");
    LogicOperations::add_component(&mut d, "COMP", None, None).unwrap();
    LogicOperations::add_module(&mut d, "COMP", "M1", None, None).unwrap();
    LogicOperations::add_nested_module(&mut d, "COMP", "M1", "M2", None, None).unwrap();
    let m = concept_with(&[("SYSTEM", "COMPONENT")]);
    let mut r = ValidationResult::new();
    validate_hierarchy_conformance(&d, &m, &mut r);
    let msgs: Vec<String> = r.errors.iter().map(|e| e.message.clone()).collect();
    assert_eq!(
        msgs,
        vec![
            "Component 'COMP' cannot contain Module according to concept model".to_string(),
            "Module 'M1' cannot contain nested Module according to concept model".to_string(),
        ]
    );
    assert_eq!(r.errors[1].location.as_deref(), Some("components.COMP.modules.M1.modules"));
    assert!(!r.is_valid);
    let allowing = concept_with(&[("SYSTEM", "COMPONENT"), ("COMPONENT", "MODULE"), ("MODULE", "MODULE")]);
    let mut ok = ValidationResult::new();
    validate_hierarchy_conformance(&d, &allowing, &mut ok);
    assert!(ok.errors.is_empty());
}

#[test]
fn logic_view_missing_is_an_error() {
    let w = Workspace::new("W");
    match validate_from_workspace(&w, DiagramType::LogicView) {
        Err(AppError::ElementNotFound(m)) => assert_eq!(m, "logic_view not found in workspace"),
        _ => panic!("expected an error"),
    }
}

#[test]
fn logic_view_workspace_unused_and_orphans() {
    let mut d = LogicConceptDiagram::new("SYS", "S");
    LogicOperations::add_component(&mut d, "COMP", None, None).unwrap();
    let mut m = concept_with(&[("SYSTEM", "COMPONENT")]);
    m.add_element_type("component");
    m.add_element_type("module");
    let mut w = Workspace::new("W");
    w.logic_view = Some(d);
    w.logic_architecture_concept_model = Some(m);
    let r = validate_from_workspace(&w, DiagramType::LogicView).unwrap();
    let found: Vec<(String, String, Severity)> =
        r.errors.iter().map(|e| (e.code.clone(), e.message.clone(), e.severity)).collect();
    let unused = "Element type 'MODULE' is defined in concept model but not used in logic view".to_string();
    let orphan = "Component 'COMP' is not contained by any parent element. Add containment relationship.".to_string();
    assert_eq!(
        found,
        vec![
            ("H002".to_string(), unused.clone(), Severity::Warning),
            ("O001".to_string(), orphan.clone(), Severity::Error),
            ("H002".to_string(), unused, Severity::Warning),
            ("O001".to_string(), orphan, Severity::Error),
        ]
    );
    assert!(!r.is_valid);
}

#[test]
fn logic_view_contained_element_is_no_orphan() {
    let mut d = LogicConceptDiagram::new("SYS", "S");
    LogicOperations::add_component(&mut d, "COMP", None, None).unwrap();
    d.containments.push(ElementContainment { parent_id: "SYS".to_string(), child_id: "COMP".to_string() });
    let mut w = Workspace::new("W");
    w.logic_view = Some(d);
    w.logic_architecture_concept_model = Some(concept_with(&[("SYSTEM", "COMPONENT")]));
    let r = validate_from_workspace(&w, DiagramType::LogicView).unwrap();
    assert!(r.errors.is_empty());
    assert!(r.is_valid);
}

#[test]
fn logic_view_unused_types_without_levels_are_errors() {
    let mut m = LogicArchitectureConceptModel::new("Types only");
    m.add_element_type("subsystem");
    let mut w = Workspace::new("W");
    w.logic_architecture_concept_model = Some(m);
    let r = validate_from_workspace(&w, DiagramType::ConceptModel).unwrap();
    let last = r.errors.last().unwrap();
    assert_eq!(last.code, "H002");
    assert_eq!(last.severity, Severity::Error);
    assert_eq!(last.location.as_deref(), Some("logic_architecture_concept_model.element_types"));
}
