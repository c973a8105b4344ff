//! Validation of the models: each validator reports its findings in the order
//! it checks them, and a result is valid exactly when no finding is an error.

pub mod result;
pub mod support;
pub mod rules;
pub mod concept_model;
pub mod runtime_view;
pub mod cycles;
pub mod code_model;
pub mod build_model;
pub mod delivery_model;
pub mod deployment_model;
pub mod logic_concept;
pub mod workspace;

use vstd::prelude::*;
use crate::model::c4::context::ContextDiagram;
use crate::model::logic::concept_model::LogicArchitectureConceptModel;
use crate::model::logic::concept::LogicConceptDiagram;
use crate::model::runtime::runtime_view::RuntimeView;
use crate::model::code::code_model::CodeModel;
use crate::model::builds::build_model::BuildModel;
use crate::model::delivery::delivery_model::DeliveryModel;
use crate::model::deployment::deployment_model::DeploymentModel;
use crate::validator::result::{ValidationResult, findings_of};
use crate::validator::rules::completeness::completeness_findings;
use crate::validator::rules::consistency::consistency_findings;
use crate::validator::rules::naming::naming_findings;

pub use self::result::Severity;

verus! {

/// All findings on a context diagram: completeness, then consistency, then naming.
pub open spec fn context_findings(d: ContextDiagram) -> Seq<crate::validator::result::Finding> {
    completeness_findings(d) + consistency_findings(d) + naming_findings(d)
}

/// Validates a context diagram with all rules.
pub fn validate(diagram: &ContextDiagram) -> (r: ValidationResult)
    ensures
        r.wf(),
        findings_of(r.errors@) == context_findings(*diagram),
{
    let mut result = ValidationResult::new();
    let a = rules::completeness::validate(diagram);
    let b = rules::consistency::validate(diagram);
    let c = rules::naming::validate(diagram);
    let ghost fa = a.errors@;
    let ghost fb = b.errors@;
    let ghost fc = c.errors@;
    result.merge(a);
    result.merge(b);
    result.merge(c);
    assert(result.errors@ =~= fa + fb + fc);
    assert(findings_of(fa + fb + fc) =~= findings_of(fa) + findings_of(fb) + findings_of(fc));
    result
}

/// Validates a concept model.
pub fn validate_concept_model(model: &LogicArchitectureConceptModel) -> (r: ValidationResult)
    ensures
        r.wf(),
        findings_of(r.errors@) == concept_model::concept_model_findings(*model),
{
    concept_model::validate(model)
}

/// Validates a logic view on its own.
pub fn validate_logic_concept(diagram: &LogicConceptDiagram) -> (r: ValidationResult)
    ensures
        r.wf(),
        findings_of(r.errors@) == logic_concept::logic_concept_findings(*diagram),
{
    logic_concept::validate(diagram)
}

/// Validates a runtime view.
pub fn validate_runtime_view(view: &RuntimeView) -> (r: ValidationResult)
    ensures
        r.wf(),
        findings_of(r.errors@) == runtime_view::runtime_view_findings(*view),
{
    runtime_view::validate(view)
}

/// Validates a code model.
pub fn validate_code_model(model: &CodeModel) -> (r: ValidationResult)
    ensures
        r.wf(),
        findings_of(r.errors@) == code_model::code_model_findings(*model),
{
    code_model::validate(model)
}

/// Validates a build model.
pub fn validate_build_model(model: &BuildModel) -> (r: ValidationResult)
    ensures
        r.wf(),
        findings_of(r.errors@) == build_model::build_model_findings(*model),
{
    build_model::validate(model)
}

/// Validates a delivery model.
pub fn validate_delivery_model(model: &DeliveryModel) -> (r: ValidationResult)
    ensures
        r.wf(),
        findings_of(r.errors@) == delivery_model::delivery_model_findings(*model),
{
    delivery_model::validate(model)
}

/// Validates a deployment model.
pub fn validate_deployment_model(model: &DeploymentModel) -> (r: ValidationResult)
    ensures
        r.wf(),
        findings_of(r.errors@) == deployment_model::deployment_model_findings(*model),
{
    deployment_model::validate(model)
}

} // verus!
