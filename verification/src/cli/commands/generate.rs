use vstd::prelude::*;
use crate::cli::args::GenerateCommand;
use crate::generator::plantuml::context::{generate_plantuml, context_plantuml};
use crate::generator::plantuml::concept_model::{generate_concept_model_plantuml, concept_model_plantuml};
use crate::generator::plantuml::runtime_view::{generate_runtime_plantuml, runtime_plantuml};
use crate::generator::plantuml::code_model::{generate_code_model_plantuml, code_model_plantuml};
use crate::generator::plantuml::build_model::{generate_build_model_plantuml, build_model_plantuml};
use crate::generator::plantuml::delivery_model::{generate_delivery_model_plantuml, delivery_model_plantuml};
use crate::generator::plantuml::deployment_model::{
    generate_deployment_model_plantuml, deployment_model_plantuml, chosen_environment, multiple_environments_message,
};
use crate::generator::plantuml::logic_concept::{generate_logic_concept_plantuml_with_workspace, logic_concept_plantuml};
use crate::model::workspace::Workspace;
use crate::utils::error::{AppError, ErrorKind, Result, fails_with};
use crate::utils::text::{copy_string, opt_view, as_opt_str};

verus! {

/// The error message for a runtime diagram without a scenario ID, when the
/// view does not hold exactly one scenario.
pub open spec fn scenario_choice_message() -> Seq<char> {
    "Multiple scenarios exist. Please specify scenario_id."@
}

/// The PlantUML text asked for, or the error given: the diagram must be in
/// the workspace; a runtime diagram shows the named scenario, or the only one;
/// a deployment diagram shows the named environment, or the only one, and is
/// refused for a model with several when none is named.
pub open spec fn generate_outcome(w: Workspace, command: GenerateCommand, r: Result<String>) -> bool {
    match command {
        GenerateCommand::ContextModelDiagram => match w.context_diagram {
            Some(d) => r matches Ok(text) && text@ == context_plantuml(d),
            None => fails_with(r, ErrorKind::ElementNotFound, "context_diagram not found in workspace"@),
        },
        GenerateCommand::ConceptModelDiagram => match w.logic_architecture_concept_model {
            Some(m) => r matches Ok(text) && text@ == concept_model_plantuml(m),
            None => fails_with(r, ErrorKind::ElementNotFound, "logic_architecture_concept_model not found in workspace"@),
        },
        GenerateCommand::LogicModelDiagram { root } => match w.logic_view {
            Some(d) => r matches Ok(text) && text@ == logic_concept_plantuml(Some(&w), d, opt_view(root)),
            None => fails_with(r, ErrorKind::ElementNotFound, "logic_view not found in workspace"@),
        },
        GenerateCommand::RuntimeModelDiagram { scenario_id } => match w.runtime_view {
            Some(v) => match scenario_id {
                Some(id) => r matches Ok(text) && text@ == runtime_plantuml(w, v, id@),
                None => if v.scenarios@.len() == 1 {
                    r matches Ok(text) && text@ == runtime_plantuml(w, v, v.scenarios@[0].id@)
                } else {
                    fails_with(r, ErrorKind::InvalidOperation, scenario_choice_message())
                },
            },
            None => fails_with(r, ErrorKind::ElementNotFound, "runtime_view not found in workspace"@),
        },
        GenerateCommand::CodeModelDiagram => match w.code_model {
            Some(m) => r matches Ok(text) && text@ == code_model_plantuml(w, m),
            None => fails_with(r, ErrorKind::ElementNotFound, "code_model not found in workspace"@),
        },
        GenerateCommand::BuildModelDiagram => match w.build_model {
            Some(m) => r matches Ok(text) && text@ == build_model_plantuml(w, m),
            None => fails_with(r, ErrorKind::ElementNotFound, "build_model not found in workspace"@),
        },
        GenerateCommand::DeliveryModelDiagram => match w.delivery_model {
            Some(m) => r matches Ok(text) && text@ == delivery_model_plantuml(w, m),
            None => fails_with(r, ErrorKind::ElementNotFound, "delivery_model not found in workspace"@),
        },
        GenerateCommand::DeploymentModelDiagram { environment_id } => match w.deployment_model {
            Some(m) => if environment_id is None && m.environments@.len() > 1 {
                fails_with(r, ErrorKind::InvalidOperation, multiple_environments_message())
            } else {
                r matches Ok(text) && text@ == deployment_model_plantuml(w, m, chosen_environment(m, opt_view(environment_id)))
            },
            None => fails_with(r, ErrorKind::ElementNotFound, "deployment_model not found in workspace"@),
        },
    }
}

/// Generates the PlantUML text of a diagram of the workspace.
pub fn generate_from_workspace(workspace: &Workspace, command: &GenerateCommand) -> (r: Result<String>)
    ensures
        generate_outcome(*workspace, *command, r),
{
    match command {
        GenerateCommand::ContextModelDiagram => match &workspace.context_diagram {
            Some(diagram) => Ok(generate_plantuml(diagram)),
            None => Err(AppError::ElementNotFound(String::from_str("context_diagram not found in workspace"))),
        },
        GenerateCommand::ConceptModelDiagram => match &workspace.logic_architecture_concept_model {
            Some(model) => Ok(generate_concept_model_plantuml(model)),
            None => Err(AppError::ElementNotFound(
                String::from_str("logic_architecture_concept_model not found in workspace"),
            )),
        },
        GenerateCommand::LogicModelDiagram { root } => match &workspace.logic_view {
            Some(diagram) => Ok(generate_logic_concept_plantuml_with_workspace(Some(workspace), diagram, as_opt_str(root))),
            None => Err(AppError::ElementNotFound(String::from_str("logic_view not found in workspace"))),
        },
        GenerateCommand::RuntimeModelDiagram { scenario_id } => match &workspace.runtime_view {
            Some(view) => {
                let sid = match scenario_id {
                    Some(id) => copy_string(id),
                    None => {
                        if view.scenarios.len() == 1 {
                            copy_string(&view.scenarios[0].id)
                        } else {
                            return Err(AppError::InvalidOperation(
                                String::from_str("Multiple scenarios exist. Please specify scenario_id."),
                            ));
                        }
                    },
                };
                Ok(generate_runtime_plantuml(workspace, view, sid.as_str()))
            },
            None => Err(AppError::ElementNotFound(String::from_str("runtime_view not found in workspace"))),
        },
        GenerateCommand::CodeModelDiagram => match &workspace.code_model {
            Some(model) => Ok(generate_code_model_plantuml(workspace, model)),
            None => Err(AppError::ElementNotFound(String::from_str("code_model not found in workspace"))),
        },
        GenerateCommand::BuildModelDiagram => match &workspace.build_model {
            Some(model) => Ok(generate_build_model_plantuml(workspace, model)),
            None => Err(AppError::ElementNotFound(String::from_str("build_model not found in workspace"))),
        },
        GenerateCommand::DeliveryModelDiagram => match &workspace.delivery_model {
            Some(model) => Ok(generate_delivery_model_plantuml(workspace, model)),
            None => Err(AppError::ElementNotFound(String::from_str("delivery_model not found in workspace"))),
        },
        GenerateCommand::DeploymentModelDiagram { environment_id } => match &workspace.deployment_model {
            Some(model) => match generate_deployment_model_plantuml(workspace, model, as_opt_str(environment_id)) {
                Ok(text) => Ok(text),
                Err(msg) => Err(AppError::InvalidOperation(msg)),
            },
            None => Err(AppError::ElementNotFound(String::from_str("deployment_model not found in workspace"))),
        },
    }
}

} // verus!
