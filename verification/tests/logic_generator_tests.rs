use sys_design::generator::plantuml::logic_concept::{
    generate_logic_concept_plantuml, generate_logic_concept_plantuml_with_root,
};
use sys_design::model::logic::concept::LogicConceptDiagram;
use sys_design::store::LogicOperations;

const HEAD: &str = "@startuml\n\ntop to bottom direction\nskinparam defaultTextAlignment center\n\n";
const TAIL: &str = "\n@enduml\n";

#[test]
fn test_generate_logic_concept_plantuml() {
    let diagram = LogicConceptDiagram::new("MY_SYSTEM", "My System");

    let output = generate_logic_concept_plantuml(&diagram);

    assert!(output.contains("@startuml"));
    assert!(output.contains("@enduml"));
    assert!(output.contains("top to bottom direction"));
    assert!(output.contains("skinparam defaultTextAlignment center"));
}

fn sample() -> LogicConceptDiagram {
    let mut d = LogicConceptDiagram::new("SYS", "S");
    LogicOperations::add_component(&mut d, "C", None, None).unwrap();
    LogicOperations::add_module(&mut d, "C", "M", None, None).unwrap();
    LogicOperations::add_standalone_interface(&mut d, "ITF", None, None).unwrap();
    LogicOperations::add_provide_relation(&mut d, "M", "ITF").unwrap();
    LogicOperations::add_element_containment(&mut d, "SYS", "C").unwrap();
    LogicOperations::add_element_containment(&mut d, "C", "M").unwrap();
    d
}

#[test]
fn logic_generator_empty_view() {
    let d = LogicConceptDiagram::new("MY_SYSTEM", "My System");
    assert_eq!(generate_logic_concept_plantuml(&d), format!("{}{}", HEAD, TAIL));
}

#[test]
fn logic_generator_full_diagram() {
    let d = sample();
    let expected = format!(
        "{}rectangle \"<<COMPONENT>>\\nC\" as C {{\n\n\n    rectangle \"<<MODULE>>\\nM\" as M\n}}\n\nITF --- M\n{}",
        HEAD, TAIL
    );
    assert_eq!(generate_logic_concept_plantuml(&d), expected);
}

#[test]
fn logic_generator_component_root() {
    let d = sample();
    let expected = format!(
        "{}rectangle \"<<COMPONENT>>\\nC\" as C {{\n\n    interface ITF\n\n    rectangle \"<<MODULE>>\\nM\" as M\n}}\n\nITF --- M\n{}",
        HEAD, TAIL
    );
    assert_eq!(generate_logic_concept_plantuml_with_root(&d, Some("C")), expected);
}

#[test]
fn logic_generator_unknown_root() {
    let d = sample();
    let expected = format!(
        "{}' ERROR: Element 'X' not found in diagram\n' Available elements: C, ITF\n{}",
        HEAD, TAIL
    );
    assert_eq!(generate_logic_concept_plantuml_with_root(&d, Some("X")), expected);
}

#[test]
fn logic_generator_module_dependencies() {
    let mut d = sample();
    LogicOperations::add_dependency_simple(&mut d, "M", "ITF").unwrap();
    let out = generate_logic_concept_plantuml(&d);
    assert!(out.ends_with("ITF --- M\nM ..> ITF\n\n@enduml\n"));
}

#[test]
fn logic_generator_submodule_stereotype() {
    let mut d = LogicConceptDiagram::new("SYS", "S");
    LogicOperations::add_submodule(&mut d, "SUB", None, None).unwrap();
    let out = generate_logic_concept_plantuml(&d);
    assert!(out.contains("rectangle \"<<SUBMODULE>>\\nSUB\" as SUB {\n\n\n}\n\n"));
}
