use sys_design::generator::plantuml::build_model::generate_build_model_plantuml;
use sys_design::generator::plantuml::code_model::generate_code_model_plantuml;
use sys_design::generator::plantuml::concept_model::generate_concept_model_plantuml;
use sys_design::generator::plantuml::context::generate_plantuml;
use sys_design::generator::plantuml::delivery_model::generate_delivery_model_plantuml;
use sys_design::generator::plantuml::deployment_model::generate_deployment_model_plantuml;
use sys_design::generator::plantuml::runtime_view::generate_runtime_plantuml;
use sys_design::model::build::BuildModel;
use sys_design::model::c4::context::ContextDiagram;
use sys_design::model::code::CodeModel;
use sys_design::model::delivery::DeliveryModel;
use sys_design::model::deployment::DeploymentModel;
use sys_design::model::logic::concept_model::LogicArchitectureConceptModel;
use sys_design::model::runtime::RuntimeView;
use sys_design::model::workspace::Workspace;

fn assert_framed(text: &str) {
    assert!(text.starts_with("@startuml\n"), "{}", text);
    assert!(text.ends_with("@enduml\n"), "{}", text);
}

#[test]
fn test_every_empty_model_gives_framed_diagram() {
    let ws = Workspace::new("Test");
    assert_framed(&generate_plantuml(&ContextDiagram::new("SYS", "Sys")));
    assert_framed(&generate_concept_model_plantuml(&LogicArchitectureConceptModel::new("Concept")));
    assert_framed(&generate_code_model_plantuml(&ws, &CodeModel::new("Code")));
    assert_framed(&generate_build_model_plantuml(&ws, &BuildModel::new("Build")));
    assert_framed(&generate_delivery_model_plantuml(&ws, &DeliveryModel::new("Delivery")));
    assert_framed(&generate_deployment_model_plantuml(&ws, &DeploymentModel::new("Deploy"), None).unwrap());
    assert_framed(&generate_runtime_plantuml(&ws, &RuntimeView::new("Runtime"), "MISSING"));
}
