use sys_design::cli::args::{
    AddCommand, RemoveCommand, ConceptModelAddCommand, ConceptModelRemoveCommand, RuntimeAddCommand,
    RuntimeRemoveCommand, GenerateCommand, CodeModelAddCommand, BuildModelAddCommand, DeliveryModelAddCommand,
    DeploymentModelAddCommand, DeploymentModelRemoveCommand,
};
use sys_design::cli::commands::{
    context_model, concept_model, runtime_model, generate, code_model, build_model, delivery_model, deployment_model,
};
use sys_design::model::c4::context::{ActorType, ContextDiagram};
use sys_design::model::runtime::{ParticipantType, StepType};
use sys_design::model::workspace::Workspace;
use sys_design::utils::error::AppError;

fn message(e: &AppError) -> String {
    e.message_text()
}

fn actor(id: &str) -> AddCommand {
    AddCommand::Actor { id: id.to_string(), name: None, desc: None, actor_type: ActorType::External }
}

#[test]
fn test_context_add_system_creates_file() {
    let cmd = AddCommand::System { id: "SHOP".to_string(), name: Some("Shop".to_string()), desc: None };
    let w = context_model::apply_add(None, cmd, "model.yaml").unwrap();
    assert_eq!(w.metadata.title, "SHOP Context Diagram");
    let d = w.context_diagram.unwrap();
    assert_eq!(d.system.id, "SHOP");
    assert_eq!(d.system.name, "Shop");
    assert_eq!(d.metadata.title, "SHOP Context Diagram");
}

#[test]
fn test_context_add_actor_without_file_fails() {
    let err = context_model::apply_add(None, actor("USER"), "model.yaml").unwrap_err();
    assert!(matches!(err, AppError::InvalidOperation(_)));
    assert_eq!(message(&err), "File 'model.yaml' does not exist. Create it first with 'add system' command.");
}

#[test]
fn test_context_add_actor_without_diagram_fails() {
    let err = context_model::apply_add(Some(Workspace::new("P")), actor("USER"), "m.yaml").unwrap_err();
    assert_eq!(
        message(&err),
        "Context diagram does not exist in workspace. Create it first with 'add system' command."
    );
}

#[test]
fn test_context_add_system_to_workspace_without_diagram() {
    // The new diagram's system already carries the ID, so setting it is refused.
    let cmd = AddCommand::System { id: "SHOP".to_string(), name: None, desc: Some("d".to_string()) };
    let err = context_model::apply_add(Some(Workspace::new("P")), cmd, "m.yaml").unwrap_err();
    assert!(matches!(err, AppError::ElementAlreadyExists(_)));
    assert_eq!(message(&err), "system: SHOP");
}

#[test]
fn test_context_add_system_renames_existing_diagram() {
    let mut w = Workspace::new("P");
    w.context_diagram = Some(ContextDiagram::new("OLD", "Old"));
    let cmd = AddCommand::System { id: "NEW".to_string(), name: Some("New".to_string()), desc: None };
    let w = context_model::apply_add(Some(w), cmd, "m.yaml").unwrap();
    let d = w.context_diagram.unwrap();
    assert_eq!(d.system.id, "NEW");
    assert_eq!(d.system.name, "New");
}

#[test]
fn test_context_add_and_remove_actor() {
    let mut w = Workspace::new("P");
    w.context_diagram = Some(ContextDiagram::new("SHOP", "Shop"));
    let w = context_model::apply_add(Some(w), actor("USER"), "m.yaml").unwrap();
    assert_eq!(w.context_diagram.as_ref().unwrap().actors.len(), 1);
    let err = context_model::apply_add(Some(w), actor("USER"), "m.yaml").unwrap_err();
    assert!(matches!(err, AppError::ElementAlreadyExists(_)));
    assert_eq!(message(&err), "actor: USER");

    let mut w = Workspace::new("P");
    w.context_diagram = Some(ContextDiagram::new("SHOP", "Shop"));
    let w = context_model::apply_add(Some(w), actor("USER"), "m.yaml").unwrap();
    let w = context_model::apply_remove(w, RemoveCommand::Actor { id: "USER".to_string() }).unwrap();
    assert!(w.context_diagram.unwrap().actors.is_empty());
}

#[test]
fn test_context_remove_without_diagram_fails() {
    let err = context_model::apply_remove(Workspace::new("P"), RemoveCommand::Actor { id: "A".to_string() }).unwrap_err();
    assert!(matches!(err, AppError::ElementNotFound(_)));
    assert_eq!(message(&err), "context_diagram not found in workspace");
}

fn scenario(id: &str) -> RuntimeAddCommand {
    RuntimeAddCommand::Scenario { id: id.to_string(), name: None, desc: None }
}

#[test]
fn test_runtime_add_scenario_creates_workspace_and_view() {
    let w = runtime_model::apply_add(None, scenario("LOGIN")).unwrap();
    assert_eq!(w.metadata.title, "LOGIN");
    let v = w.runtime_view.unwrap();
    assert_eq!(v.metadata.title, "LOGIN");
    assert_eq!(v.scenarios.len(), 1);
    assert_eq!(v.scenarios[0].name, "LOGIN");
}

#[test]
fn test_runtime_participant_must_exist_in_static_models() {
    let w = runtime_model::apply_add(None, scenario("S1")).unwrap();
    let cmd = RuntimeAddCommand::Participant {
        scenario_id: "S1".to_string(),
        element_id: "GHOST".to_string(),
        participant_type: ParticipantType::Actor,
        alias: None,
        color: None,
    };
    let err = runtime_model::apply_add(Some(w), cmd).unwrap_err();
    assert!(matches!(err, AppError::ElementNotFound(_)));
    assert_eq!(message(&err), "元素 'GHOST' 在 context_diagram 和 logic_view 中均未找到");
}

#[test]
fn test_runtime_participant_from_context_and_step() {
    let mut w = runtime_model::apply_add(None, scenario("S1")).unwrap();
    w.context_diagram = Some(ContextDiagram::new("SHOP", "Shop"));
    let cmd = RuntimeAddCommand::Participant {
        scenario_id: "S1".to_string(),
        element_id: "SHOP".to_string(),
        participant_type: ParticipantType::Participant,
        alias: None,
        color: None,
    };
    let w = runtime_model::apply_add(Some(w), cmd).unwrap();
    let step = RuntimeAddCommand::Step {
        scenario_id: "S1".to_string(),
        from: "SHOP".to_string(),
        to: "SHOP".to_string(),
        message: "tick".to_string(),
        step_type: StepType::Sync,
        protocol: None,
        color: None,
        activate: None,
        group: None,
        branch: None,
    };
    let w = runtime_model::apply_add(Some(w), step).unwrap();
    let v = w.runtime_view.unwrap();
    assert_eq!(v.scenarios[0].participants.len(), 1);
    assert_eq!(v.scenarios[0].max_step_order(), 1);
}

#[test]
fn test_runtime_commands_need_a_view() {
    let cmd = RuntimeAddCommand::Divider { scenario_id: "S".to_string(), label: "x".to_string(), after_order: 0 };
    let err = runtime_model::apply_add(Some(Workspace::new("P")), cmd).unwrap_err();
    assert_eq!(message(&err), "runtime_view not found in workspace");
    let err = runtime_model::apply_remove(Workspace::new("P"), RuntimeRemoveCommand::Scenario { id: "S".to_string() })
        .unwrap_err();
    assert_eq!(message(&err), "runtime_view not found in workspace");
}

#[test]
fn test_concept_add_element_initializes_model() {
    let w = concept_model::apply_add(None, ConceptModelAddCommand::Element { element_type: "layer".to_string() }).unwrap();
    assert_eq!(w.metadata.title, "New Project");
    let m = w.logic_architecture_concept_model.unwrap();
    assert_eq!(m.metadata.title, "Logic Architecture Concept Model");
    assert_eq!(m.element_types.len(), 1);
    assert_eq!(m.element_types[0].id, "LAYER");
}

#[test]
fn test_concept_duplicate_element_and_containment() {
    let w = concept_model::apply_add(None, ConceptModelAddCommand::Element { element_type: "layer".to_string() }).unwrap();
    let err = concept_model::apply_add(Some(w), ConceptModelAddCommand::Element { element_type: "LAYER".to_string() })
        .unwrap_err();
    assert!(matches!(err, AppError::ElementAlreadyExists(_)));
    assert_eq!(message(&err), "element type: LAYER");

    let c = || ConceptModelAddCommand::Containment { parent: "system".to_string(), child: "layer".to_string() };
    let w = concept_model::apply_add(None, c()).unwrap();
    assert!(w.logic_architecture_concept_model.as_ref().unwrap().has_containment("SYSTEM", "LAYER"));
    let err = concept_model::apply_add(Some(w), c()).unwrap_err();
    assert_eq!(message(&err), "containment: system -> layer");
}

#[test]
fn test_concept_levels() {
    let level = |id: &str| ConceptModelAddCommand::Level {
        id: id.to_string(),
        name: None,
        desc: None,
        can_contain: vec!["COMPONENT".to_string()],
    };
    let err = concept_model::apply_add(None, level("SYSTEM")).unwrap_err();
    assert!(matches!(err, AppError::InvalidOperation(_)));
    assert_eq!(message(&err), "Concept model not found. Run 'init' first.");

    let w = concept_model::apply_add(None, ConceptModelAddCommand::Element { element_type: "x".to_string() }).unwrap();
    let w = concept_model::apply_add(Some(w), level("SYSTEM")).unwrap();
    let m = w.logic_architecture_concept_model.as_ref().unwrap();
    assert_eq!(m.hierarchy.levels.len(), 1);
    assert_eq!(m.hierarchy.levels[0].name, "SYSTEM");
    assert_eq!(m.hierarchy.levels[0].can_contain, vec!["COMPONENT".to_string()]);
    let err = concept_model::apply_add(Some(w), level("SYSTEM")).unwrap_err();
    assert_eq!(message(&err), "level: SYSTEM");

    let w = concept_model::apply_add(None, ConceptModelAddCommand::Element { element_type: "x".to_string() }).unwrap();
    let w = concept_model::apply_add(Some(w), level("SYSTEM")).unwrap();
    let err = concept_model::apply_remove(Some(w), ConceptModelRemoveCommand::Level { id: "NOPE".to_string() })
        .unwrap_err();
    assert!(matches!(err, AppError::ElementNotFound(_)));
    assert_eq!(message(&err), "level: NOPE");
}

#[test]
fn test_generate_from_workspace_outcomes() {
    let mut w = Workspace::new("P");
    let err = generate::generate_from_workspace(&w, &GenerateCommand::ContextModelDiagram).unwrap_err();
    assert_eq!(message(&err), "context_diagram not found in workspace");
    w.context_diagram = Some(ContextDiagram::new("SHOP", "Shop"));
    let text = generate::generate_from_workspace(&w, &GenerateCommand::ContextModelDiagram).unwrap();
    assert!(text.starts_with("@startuml\n"));

    let w = runtime_model::apply_add(None, scenario("ONLY")).unwrap();
    let text = generate::generate_from_workspace(&w, &GenerateCommand::RuntimeModelDiagram { scenario_id: None }).unwrap();
    assert!(text.contains("autonumber"));
    let w = runtime_model::apply_add(Some(w), scenario("SECOND")).unwrap();
    let err = generate::generate_from_workspace(&w, &GenerateCommand::RuntimeModelDiagram { scenario_id: None })
        .unwrap_err();
    assert!(matches!(err, AppError::InvalidOperation(_)));
    assert_eq!(message(&err), "Multiple scenarios exist. Please specify scenario_id.");
}

#[test]
fn test_code_package_element_must_be_in_logic_view() {
    let pkg = |eid: Option<&str>| CodeModelAddCommand::Package {
        id: "CORE".to_string(),
        name: None,
        desc: None,
        language: None,
        framework: None,
        path: None,
        element_id: eid.map(|s| s.to_string()),
    };
    let err = code_model::apply_add(Workspace::new("P"), pkg(Some("X"))).unwrap_err();
    assert_eq!(message(&err), "logic_view not found in workspace");
    let mut w = Workspace::new("P");
    w.logic_view = Some(sys_design::model::logic::concept::LogicConceptDiagram::new("SYS", "Sys"));
    let err = code_model::apply_add(w, pkg(Some("X"))).unwrap_err();
    assert_eq!(message(&err), "element_id 'X' not found in logic_view");
    let w = code_model::apply_add(Workspace::new("P"), pkg(None)).unwrap();
    assert_eq!(w.code_model.as_ref().unwrap().metadata.title, "Code Model");
    let dep = CodeModelAddCommand::Dependency { from: "A".to_string(), to: "B".to_string() };
    let err = code_model::apply_add(Workspace::new("P"), dep).unwrap_err();
    assert_eq!(message(&err), "code_model not found in workspace");
}

#[test]
fn test_build_artifact_sources_checked_in_order() {
    let art = |srcs: Vec<&str>| BuildModelAddCommand::Artifact {
        id: "BIN".to_string(),
        name: None,
        desc: None,
        build_tool: None,
        output_type: None,
        source_packages: srcs.into_iter().map(|s| s.to_string()).collect(),
        build_file: None,
        profile: None,
        build_args: None,
    };
    let err = build_model::apply_add(Workspace::new("P"), art(vec!["A"])).unwrap_err();
    assert_eq!(message(&err), "code_model not found in workspace");
    let pkg = CodeModelAddCommand::Package {
        id: "A".to_string(),
        name: None,
        desc: None,
        language: None,
        framework: None,
        path: None,
        element_id: None,
    };
    let w = code_model::apply_add(Workspace::new("P"), pkg).unwrap();
    let err = build_model::apply_add(w, art(vec!["A", "B", "C"])).unwrap_err();
    assert_eq!(message(&err), "source_package 'B' not found in code_model");
    let w = build_model::apply_add(Workspace::new("P"), art(vec![])).unwrap();
    assert_eq!(w.build_model.as_ref().unwrap().artifacts.len(), 1);
}

#[test]
fn test_delivery_and_deployment_cross_checks() {
    let pkg = |arts: Vec<&str>| DeliveryModelAddCommand::Package {
        id: "IMG".to_string(),
        name: None,
        desc: None,
        version: None,
        delivery_type: None,
        artifacts: arts.into_iter().map(|s| s.to_string()).collect(),
        registry: None,
    };
    let err = delivery_model::apply_add(Workspace::new("P"), pkg(vec!["BIN"])).unwrap_err();
    assert_eq!(message(&err), "build_model not found in workspace");
    let w = delivery_model::apply_add(Workspace::new("P"), pkg(vec![])).unwrap();

    let svc = |dp: &str| DeploymentModelAddCommand::Service {
        id: "SVC".to_string(),
        name: None,
        desc: None,
        delivery_package: dp.to_string(),
        target_node: "NODE".to_string(),
        replicas: None,
        port: None,
    };
    let err = deployment_model::apply_add(Workspace::new("P"), svc("IMG")).unwrap_err();
    assert_eq!(message(&err), "delivery_model 在工作空间中未找到");
    let err = deployment_model::apply_add(Workspace::new("P"), svc("IMG")).unwrap_err();
    assert!(matches!(err, AppError::ElementNotFound(_)));
    let err2 = deployment_model::apply_add(w, svc("OTHER")).unwrap_err();
    assert_eq!(message(&err2), "delivery_package 'OTHER' 在 delivery_model 中未找到");

    let env = DeploymentModelAddCommand::Environment { id: "PROD".to_string(), name: None, desc: None };
    let w = deployment_model::apply_add(Workspace::new("P"), env).unwrap();
    assert_eq!(w.deployment_model.as_ref().unwrap().metadata.title, "Deployment Model");
    let err = deployment_model::apply_remove(Workspace::new("P"), DeploymentModelRemoveCommand::Node { id: "N".to_string() })
        .unwrap_err();
    assert_eq!(message(&err), "deployment_model 在工作空间中未找到");
    let w = deployment_model::apply_remove(w, DeploymentModelRemoveCommand::Environment { id: "PROD".to_string() }).unwrap();
    assert!(w.deployment_model.unwrap().environments.is_empty());
}

#[test]
fn test_generate_model_diagrams_need_their_model() {
    let w = Workspace::new("P");
    let err = generate::generate_from_workspace(&w, &GenerateCommand::CodeModelDiagram).unwrap_err();
    assert_eq!(message(&err), "code_model not found in workspace");
    let err = generate::generate_from_workspace(&w, &GenerateCommand::BuildModelDiagram).unwrap_err();
    assert_eq!(message(&err), "build_model not found in workspace");
    let err = generate::generate_from_workspace(&w, &GenerateCommand::DeliveryModelDiagram).unwrap_err();
    assert_eq!(message(&err), "delivery_model not found in workspace");
    let err = generate::generate_from_workspace(&w, &GenerateCommand::DeploymentModelDiagram { environment_id: None })
        .unwrap_err();
    assert_eq!(message(&err), "deployment_model not found in workspace");
}

#[test]
fn test_generate_deployment_diagram_environment_choice() {
    let env = |id: &str| DeploymentModelAddCommand::Environment { id: id.to_string(), name: None, desc: None };
    let w = deployment_model::apply_add(Workspace::new("P"), env("PROD")).unwrap();
    let text = generate::generate_from_workspace(&w, &GenerateCommand::DeploymentModelDiagram { environment_id: None })
        .unwrap();
    assert!(text.contains("rectangle \"PROD\" {"));
    let w = deployment_model::apply_add(w, env("STAGE")).unwrap();
    let err = generate::generate_from_workspace(&w, &GenerateCommand::DeploymentModelDiagram { environment_id: None })
        .unwrap_err();
    assert!(matches!(err, AppError::InvalidOperation(_)));
    assert_eq!(message(&err), "Multiple environments exist. Please specify environment_id.");
    let text = generate::generate_from_workspace(
        &w,
        &GenerateCommand::DeploymentModelDiagram { environment_id: Some("STAGE".to_string()) },
    )
    .unwrap();
    assert!(text.contains("rectangle \"STAGE\" {"));
}
