use sys_design::cli::listing::validation::report_validation;
use sys_design::validator::result::{Severity, ValidationError, ValidationResult};
use sys_design::cli::args::{
    BuildModelListElement, CodeModelListElement, DeliveryModelListElement, DeploymentModelListElement, ListElement,
    RuntimeListElement,
};
use sys_design::cli::listing::deployment::{list_deployment, show_deployment};
use sys_design::cli::listing::models::{
    list_build, list_code, list_concept, list_delivery, show_build, show_code, show_concept, show_delivery,
};
use sys_design::model::build::{BuildModel, BuildProfile, BuildTool};
use sys_design::model::code::{CodeModel, Language};
use sys_design::model::delivery::{DeliveryModel, DeliveryType};
use sys_design::model::deployment::{DeploymentModel, NodeType};
use sys_design::model::logic::concept_model::LogicArchitectureConceptModel;
use sys_design::store::{BuildOperations, CodeOperations, DeliveryOperations, DeploymentOperations};
use sys_design::cli::listing::runtime::{list_runtime, show_runtime};
use sys_design::model::runtime::{GroupType, NotePosition, ParticipantType, RuntimeView, StepType};
use sys_design::store::RuntimeOperations;
use sys_design::cli::listing::context::{list_context, show_context};
use sys_design::cli::report::{Line, Tone};
use sys_design::model::c4::context::{ActorType, ContextDiagram, Protocol};
use sys_design::store::Operations;
use sys_design::utils::error::AppError;

fn render(lines: &[Line]) -> Vec<String> {
    lines.iter().map(|l| l.spans.iter().map(|s| s.text.as_str()).collect::<String>()).collect()
}

fn shop() -> ContextDiagram {
    let mut d = ContextDiagram::new("SHOP", "Shop");
    Operations::add_actor(&mut d, "USER", Some("User"), None, ActorType::External).unwrap();
    Operations::add_external_system(&mut d, "PAY", Some("Payments"), None, Some("REST")).unwrap();
    Operations::add_interface(&mut d, "ITF_API", Some("API"), Some("Public API"), Protocol::Grpc).unwrap();
    Operations::add_provide_relation(&mut d, "SHOP", "ITF_API").unwrap();
    Operations::add_interface_usage(&mut d, "USER", "ITF_API").unwrap();
    d
}

#[test]
fn test_show_interface_lists_providers_and_users() {
    let d = shop();
    let lines = show_context(&d, "ITF_API").unwrap();
    assert_eq!(
        render(&lines),
        vec![
            "Interface: ITF_API",
            "  Name: API",
            "  Protocol: gRPC",
            "  Description: Public API",
            "  Provided by:",
            "    - SHOP (SHOP)",
            "  Used by:",
            "    - USER (User)",
        ]
    );
    assert_eq!(lines[0].spans[0].tone, Tone::Label);
    assert_eq!(lines[0].spans[0].text, "Interface");
}

#[test]
fn test_show_system_and_actor() {
    let d = shop();
    assert_eq!(
        render(&show_context(&d, "SHOP").unwrap()),
        vec!["System: SHOP", "  Name: SHOP", "  Provides interfaces:", "    - ITF_API (API)"]
    );
    assert_eq!(
        render(&show_context(&d, "USER").unwrap()),
        vec!["Actor: USER", "  Name: User", "  Type: external", "  Uses interfaces:", "    - ITF_API (API)"]
    );
    assert_eq!(
        render(&show_context(&d, "PAY").unwrap()),
        vec!["External System: PAY", "  Name: Payments", "  Technology: REST"]
    );
}

#[test]
fn test_show_unknown_element_fails() {
    let d = shop();
    match show_context(&d, "NOPE") {
        Err(AppError::ElementNotFound(m)) => assert_eq!(m, "NOPE"),
        _ => panic!("expected an element-not-found error"),
    }
}

#[test]
fn test_list_context_elements() {
    let d = shop();
    assert_eq!(render(&list_context(&d, ListElement::Actors)), vec!["Actors:", "  - USER (User) [external]"]);
    assert_eq!(
        render(&list_context(&d, ListElement::ExternalSystems)),
        vec!["External Systems:", "  - PAY (Payments)", "    Technology: REST"]
    );
    assert_eq!(render(&list_context(&d, ListElement::Interfaces)), vec!["Interfaces:", "  - ITF_API (API) [gRPC]"]);
    assert_eq!(
        render(&list_context(&d, ListElement::Relations)),
        vec!["Derived Relations:", "  - USER (User) -> SHOP (SHOP) [via: ITF_API]"]
    );
    assert_eq!(render(&list_context(&d, ListElement::System)), vec!["System: SHOP", "  Name: SHOP"]);
    let empty = ContextDiagram::new("S", "S");
    assert_eq!(render(&list_context(&empty, ListElement::Actors)), vec!["Actors:", "  (none)"]);
}

fn login_view() -> RuntimeView {
    let mut v = RuntimeView::new("Runtime");
    RuntimeOperations::add_scenario(&mut v, "LOGIN", Some("Login"), None).unwrap();
    RuntimeOperations::add_participant(&mut v, "LOGIN", "USER", ParticipantType::Actor, Some("U"), None).unwrap();
    RuntimeOperations::add_participant(&mut v, "LOGIN", "WEB", ParticipantType::Participant, None, None).unwrap();
    RuntimeOperations::add_step(&mut v, "LOGIN", "USER", "WEB", "Enter", StepType::Sync, None, None, None, None, None).unwrap();
    RuntimeOperations::add_group(&mut v, "LOGIN", GroupType::Alt, "Auth", vec!["ok".to_string(), "fail".to_string()], None, None).unwrap();
    RuntimeOperations::add_step(&mut v, "LOGIN", "WEB", "USER", "Welcome", StepType::Return, None, None, None, Some("Auth"), Some("ok")).unwrap();
    RuntimeOperations::add_note(&mut v, "LOGIN", NotePosition::Over, "WEB", "checks").unwrap();
    RuntimeOperations::add_divider(&mut v, "LOGIN", "Later", 2).unwrap();
    v
}

#[test]
fn test_show_scenario_lists_blocks_by_depth() {
    let v = login_view();
    assert_eq!(
        render(&show_runtime(&v, "LOGIN").unwrap()),
        vec![
            "Scenario: LOGIN",
            "  Name: Login",
            "",
            "  Participants (2):",
            "    USER (Actor, alias: U)",
            "    WEB (Participant)",
            "",
            "  Blocks (2 blocks):",
            "    [1] USER -> WEB : Enter",
            "    Alt: Auth (branches: ok, fail)",
            "        ok:",
            "        [2] WEB --> USER : Welcome",
            "        fail:",
            "",
            "  Notes (1):",
            "    Over WEB: checks",
            "",
            "  Dividers (1):",
            "    == Later == (after step 2)",
        ]
    );
}

#[test]
fn test_list_runtime_lists() {
    let v = login_view();
    assert_eq!(
        render(&list_runtime(&v, RuntimeListElement::Scenarios, None).unwrap()),
        vec!["Scenarios:", "  * LOGIN - Login (2 participants, 2 steps)"]
    );
    assert_eq!(
        render(&list_runtime(&v, RuntimeListElement::Steps, Some("LOGIN")).unwrap()),
        vec!["Steps in scenario LOGIN:", "  [1] USER -> WEB : Enter", "  [2] WEB --> USER : Welcome"]
    );
    assert_eq!(
        render(&list_runtime(&v, RuntimeListElement::Groups, Some("LOGIN")).unwrap()),
        vec!["Groups in scenario LOGIN:", "  * Alt: Auth (branches: ok, fail)"]
    );
    assert_eq!(
        render(&list_runtime(&v, RuntimeListElement::Participants, Some("LOGIN")).unwrap()),
        vec!["Participants in scenario LOGIN:", "  * USER (type: Actor, alias: U)", "  * WEB (type: Participant)"]
    );
}

#[test]
fn test_list_runtime_errors() {
    let v = login_view();
    match list_runtime(&v, RuntimeListElement::Steps, None) {
        Err(AppError::InvalidOperation(m)) => assert_eq!(m, "--scenario is required for listing steps"),
        _ => panic!("expected an invalid-operation error"),
    }
    match list_runtime(&v, RuntimeListElement::Groups, Some("NOPE")) {
        Err(AppError::ElementNotFound(m)) => assert_eq!(m, "scenario: NOPE"),
        _ => panic!("expected an element-not-found error"),
    }
    match show_runtime(&v, "NOPE") {
        Err(AppError::ElementNotFound(m)) => assert_eq!(m, "scenario: NOPE"),
        _ => panic!("expected an element-not-found error"),
    }
}

#[test]
fn test_deployment_listing() {
    let mut m = DeploymentModel::new("Deploy");
    assert_eq!(render(&list_deployment(&m, DeploymentModelListElement::Nodes)), vec!["No nodes found."]);
    DeploymentOperations::add_environment(&mut m, "PROD", Some("Production"), None).unwrap();
    DeploymentOperations::add_node(&mut m, "N1", Some("Node 1"), None, Some(NodeType::Vm), Some("PROD"), None).unwrap();
    assert_eq!(
        render(&list_deployment(&m, DeploymentModelListElement::Nodes)),
        vec!["Nodes:", "  N1 (Node 1)", "    node_type: Vm", "    environment: PROD"]
    );
    assert_eq!(
        render(&show_deployment(&m, "PROD").unwrap()),
        vec!["Environment: PROD", "  name: Production"]
    );
    assert_eq!(
        render(&show_deployment(&m, "N1").unwrap()),
        vec!["Node: N1", "  name: Node 1", "  node_type: Vm", "  environment: PROD"]
    );
    match show_deployment(&m, "X") {
        Err(AppError::ElementNotFound(msg)) => assert_eq!(msg, "deployment_model 中未找到元素: X"),
        _ => panic!("expected an element-not-found error"),
    }
}

#[test]
fn test_code_build_delivery_listing() {
    let mut code = CodeModel::new("Code");
    CodeOperations::add_package(&mut code, "CORE", Some("Core"), None, Some(Language::Rust), None, Some("src"), None).unwrap();
    assert_eq!(
        render(&list_code(&code, CodeModelListElement::Packages)),
        vec!["Packages:", "  CORE (Core)", "    language: Rust", "    path: src"]
    );
    assert_eq!(render(&list_code(&code, CodeModelListElement::Dependencies)), vec!["No dependencies found."]);
    assert_eq!(
        render(&show_code(&code, "CORE").unwrap()),
        vec!["Package: CORE", "  name: Core", "  language: Rust", "  path: src"]
    );

    let mut build = BuildModel::new("Build");
    BuildOperations::add_artifact(
        &mut build, "BIN", None, None, Some(BuildTool::Custom("bake".to_string())), None,
        vec!["CORE".to_string(), "UTIL".to_string()], None, Some(BuildProfile::Release), None,
    ).unwrap();
    assert_eq!(
        render(&list_build(&build, BuildModelListElement::Artifacts)),
        vec!["Artifacts:", "  BIN (BIN)", "    build_tool: Custom(\"bake\")", "    output_type: Binary",
            "    source_packages: CORE, UTIL"]
    );
    assert_eq!(
        render(&show_build(&build, "BIN").unwrap()),
        vec!["Artifact: BIN", "  name: BIN", "  build_tool: Custom(\"bake\")", "  output_type: Binary",
            "  source_packages: CORE, UTIL", "  profile: Release"]
    );

    let mut delivery = DeliveryModel::new("Delivery");
    DeliveryOperations::add_package(&mut delivery, "IMG", Some("Image"), None, Some("1.0"), Some(DeliveryType::Crate), vec![], None).unwrap();
    assert_eq!(
        render(&list_delivery(&delivery, DeliveryModelListElement::Packages)),
        vec!["Packages:", "  IMG (Image)", "    delivery_type: Crate", "    version: 1.0"]
    );
    match show_delivery(&delivery, "NOPE") {
        Err(AppError::ElementNotFound(msg)) => assert_eq!(msg, "package: NOPE"),
        _ => panic!("expected an element-not-found error"),
    }
}

#[test]
fn test_concept_listing() {
    let mut m = LogicArchitectureConceptModel::new("Concept");
    m.add_containment("system", "component");
    m.add_element_type("component");
    assert_eq!(
        render(&list_concept(&m)),
        vec!["Hierarchy Levels:", "", "  SYSTEM (system)", "    Can contain: COMPONENT", "", "Element Types:",
            "  COMPONENT (component)"]
    );
    assert_eq!(
        render(&show_concept(&m, "SYSTEM").unwrap()),
        vec!["Level: SYSTEM", "  Name: system", "  Can contain: COMPONENT"]
    );
    match show_concept(&m, "system") {
        Err(AppError::ElementNotFound(msg)) => assert_eq!(msg, "level: system"),
        _ => panic!("expected an element-not-found error"),
    }
}

#[test]
fn test_validation_report_lines() {
    let mut r = ValidationResult::new();
    assert_eq!(
        render(&report_validation(&r)),
        vec!["", "Validation Result:", "  Errors: 0, Warnings: 0, Info: 0", "", "No issues found.", "", "Validation passed!"]
    );
    r.add_error(ValidationError {
        code: "C001".to_string(),
        rule: "SystemRequiredFields".to_string(),
        message: "System ID cannot be empty".to_string(),
        severity: Severity::Error,
        location: Some("system.id".to_string()),
    });
    let lines = report_validation(&r);
    assert_eq!(
        render(&lines),
        vec![
            "",
            "Validation Result:",
            "  Errors: 1, Warnings: 0, Info: 0",
            "",
            "  [ERROR] C001: System ID cannot be empty",
            "         Location: system.id",
            "",
            "Validation failed. Please fix the errors above.",
        ]
    );
    assert_eq!(lines[4].spans[1].tone, Tone::Alert);
}
